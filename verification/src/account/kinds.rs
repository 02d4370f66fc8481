//! Typed account kinds: a small trait over named, classed, tagged
//! accounts, with ready-made payable, receivable, bank and card kinds.

use vstd::prelude::*;
use super::{lower_of, lowercase};

verus! {

/// The five account classes.
#[derive(Debug, Clone, Copy, PartialEq, Eq, Structural)]
pub enum Class {
    Asset,
    Liability,
    Expense,
    Revenue,
    Equity,
}

/// A lowercase account tag.
#[derive(Debug, PartialEq, Eq)]
pub struct Tag(String);

impl Tag {
    /// The tag's characters.
    pub closed spec fn chars(self) -> Seq<char> {
        self.0@
    }

    /// Builds a tag: the name must be at most 32 characters; it is
    /// stored in lowercase.
    pub fn new(tag: &str) -> (r: Option<Tag>)
        ensures
            r is Some <==> tag@.len() <= 32,
            r matches Some(t) ==> t.chars() == lower_of(tag@),
    {
        let limit: usize = 32;
        if tag.unicode_len() > limit {
            return None;
        }
        Some(Tag(lowercase(tag)))
    }

    /// An exact copy of the tag.
    pub fn duplicate(&self) -> (r: Tag)
        ensures
            r.chars() == self.chars(),
    {
        Tag(self.0.clone())
    }
}

/// An account with a name, a class, and tags; whether it normally
/// carries a debit balance follows from its class.
pub trait Account {
    /// The account's name.
    fn name(&self) -> String;

    /// The account's class.
    fn class(&self) -> Class;

    /// The account's tags; none unless a kind says otherwise.
    fn tags(&self) -> Vec<Tag> {
        Vec::new()
    }

    /// Whether the account normally carries a debit balance.
    fn is_debit(&self) -> bool {
        match self.class() {
            Class::Asset | Class::Expense => true,
            Class::Liability | Class::Revenue | Class::Equity => false,
        }
    }

    /// Whether the account normally carries a credit balance.
    fn is_credit(&self) -> bool {
        !self.is_debit()
    }

    /// Whether the account carries the given tag, compared without case.
    fn has_tag(&self, tag: &str) -> bool {
        let tags = self.tags();
        let wanted = lowercase(tag);
        let mut i: usize = 0;
        while i < tags.len()
            decreases tags@.len() - i,
        {
            if crate::text::str_eq(tags[i].0.as_str(), wanted.as_str()) {
                return true;
            }
            i = i + 1;
        }
        false
    }
}

/// An account of any class.
pub struct GenericAccount {
    class: Class,
    name: String,
    tags: Vec<Tag>,
}

impl GenericAccount {
    /// The account's name.
    pub closed spec fn name_spec(self) -> Seq<char> {
        self.name@
    }

    /// The account's class.
    pub closed spec fn class_spec(self) -> Class {
        self.class
    }

    /// Builds an account of the given class.
    pub fn new(class: Class, name: &str, tags: Vec<Tag>) -> (r: GenericAccount)
        ensures
            r.name_spec() == name@,
            r.class_spec() == class,
    {
        GenericAccount { name: name.to_owned(), class, tags }
    }
}

impl Account for GenericAccount {
    fn name(&self) -> String {
        self.name.clone()
    }

    fn class(&self) -> Class {
        self.class
    }

    fn tags(&self) -> Vec<Tag> {
        let mut out: Vec<Tag> = Vec::new();
        let mut i: usize = 0;
        while i < self.tags.len()
            decreases self.tags@.len() - i,
        {
            out.push(self.tags[i].duplicate());
            i = i + 1;
        }
        out
    }
}

/// The liability account owed to suppliers.
pub struct AccountsPayable {}

impl AccountsPayable {
    /// The payable account.
    pub fn new() -> (r: AccountsPayable) {
        AccountsPayable {}
    }
}

impl Account for AccountsPayable {
    fn name(&self) -> String {
        "Accounts Payable".to_owned()
    }

    fn class(&self) -> Class {
        Class::Liability
    }
}

/// The asset account owed by customers.
pub struct AccountsReceivable {}

impl AccountsReceivable {
    /// The receivable account.
    pub fn new() -> (r: AccountsReceivable) {
        AccountsReceivable {}
    }
}

impl Account for AccountsReceivable {
    fn name(&self) -> String {
        "Accounts Receivable".to_owned()
    }

    fn class(&self) -> Class {
        Class::Asset
    }
}

/// A bank account, carrying its account number.
pub struct BankAccount {
    name: String,
    tags: Vec<Tag>,
    acc_number: String,
}

impl BankAccount {
    /// The account's name.
    pub closed spec fn name_spec(self) -> Seq<char> {
        self.name@
    }

    /// The account number's characters.
    pub closed spec fn number_spec(self) -> Seq<char> {
        self.acc_number@
    }

    /// Builds a bank account.
    pub fn new(name: &str, acc_number: &str, tags: Vec<Tag>) -> (r: BankAccount)
        ensures
            r.name_spec() == name@,
            r.number_spec() == acc_number@,
    {
        BankAccount {
            name: name.to_owned(),
            acc_number: acc_number.to_owned(),
            tags,
        }
    }

    /// The account number.
    pub fn acc_number(&self) -> (r: String)
        ensures
            r@ == self.number_spec(),
    {
        self.acc_number.clone()
    }
}

impl Account for BankAccount {
    fn name(&self) -> String {
        self.name.clone()
    }

    fn class(&self) -> Class {
        Class::Asset
    }

    fn tags(&self) -> Vec<Tag> {
        let mut out: Vec<Tag> = Vec::new();
        let mut i: usize = 0;
        while i < self.tags.len()
            decreases self.tags@.len() - i,
        {
            out.push(self.tags[i].duplicate());
            i = i + 1;
        }
        out
    }
}

/// A credit card account, carrying its account number.
pub struct CreditCardAccount {
    name: String,
    tags: Vec<Tag>,
    acc_number: String,
}

impl CreditCardAccount {
    /// The account's name.
    pub closed spec fn name_spec(self) -> Seq<char> {
        self.name@
    }

    /// The account number's characters.
    pub closed spec fn number_spec(self) -> Seq<char> {
        self.acc_number@
    }

    /// Builds a credit card account.
    pub fn new(name: &str, acc_number: &str, tags: Vec<Tag>) -> (r: CreditCardAccount)
        ensures
            r.name_spec() == name@,
            r.number_spec() == acc_number@,
    {
        CreditCardAccount {
            name: name.to_owned(),
            acc_number: acc_number.to_owned(),
            tags,
        }
    }

    /// The account number.
    pub fn acc_number(&self) -> (r: String)
        ensures
            r@ == self.number_spec(),
    {
        self.acc_number.clone()
    }
}

impl Account for CreditCardAccount {
    fn name(&self) -> String {
        self.name.clone()
    }

    fn class(&self) -> Class {
        Class::Liability
    }

    fn tags(&self) -> Vec<Tag> {
        let mut out: Vec<Tag> = Vec::new();
        let mut i: usize = 0;
        while i < self.tags.len()
            decreases self.tags@.len() - i,
        {
            out.push(self.tags[i].duplicate());
            i = i + 1;
        }
        out
    }
}

} // verus!
