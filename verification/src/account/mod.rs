//! Ledger accounts: their type, normal balance side, and lowercase
//! lowercase tags used to classify them.

use vstd::prelude::*;
pub mod kinds;
pub mod raw;

verus! {

/// The five account types.
#[derive(Debug, Clone, Copy, PartialEq, Eq, Structural)]
pub enum Type {
    Asset,
    Liability,
    Expense,
    Revenue,
    Equity,
}

impl Default for Type {
    /// Equity, the type assumed when none is named.
    fn default() -> (r: Type)
        ensures
            r == Type::Equity,
    {
        Type::Equity
    }
}

impl Type {
    /// The type a name denotes.
    pub open spec fn parse_spec(s: Seq<char>) -> Option<Type> {
        if s == "Expense"@ { Some(Type::Expense) }
        else if s == "Revenue"@ { Some(Type::Revenue) }
        else if s == "Asset"@ { Some(Type::Asset) }
        else if s == "Liability"@ { Some(Type::Liability) }
        else if s == "Equity"@ { Some(Type::Equity) }
        else { None }
    }

    /// Parses one of the five type names.
    pub fn parse(s: &str) -> (r: Option<Type>)
        ensures
            r == Type::parse_spec(s@),
    {
        proof {
            reveal_strlit("Expense");
            reveal_strlit("Revenue");
            reveal_strlit("Asset");
            reveal_strlit("Liability");
            reveal_strlit("Equity");
            assert("Expense"@.len() == 7 && "Revenue"@.len() == 7
                && "Asset"@.len() == 5 && "Liability"@.len() == 9
                && "Equity"@.len() == 6);
            assert("Expense"@[0] == 'E' && "Revenue"@[0] == 'R' && "Expense"@ != "Revenue"@);
            assert("Equity"@[1] == 'q' && "Asset"@[1] == 's');
        }
        if crate::text::str_eq(s, "Expense") {
            Some(Type::Expense)
        } else if crate::text::str_eq(s, "Revenue") {
            Some(Type::Revenue)
        } else if crate::text::str_eq(s, "Asset") {
            Some(Type::Asset)
        } else if crate::text::str_eq(s, "Liability") {
            Some(Type::Liability)
        } else if crate::text::str_eq(s, "Equity") {
            Some(Type::Equity)
        } else {
            None
        }
    }
}

/// The two sides an account's balance normally sits on.
#[derive(Debug, Clone, Copy, PartialEq, Eq, Structural)]
pub enum Sign {
    Debit,
    Credit,
}

/// The lowercase form of a string's characters.
pub uninterp spec fn lower_of(s: Seq<char>) -> Seq<char>;

/// Relies on `str::to_lowercase`: the result depends on the characters
/// of the input alone.
#[verifier::external_body]
pub(crate) fn lowercase(s: &str) -> (r: String)
    ensures
        r@ == lower_of(s@),
{
    s.to_lowercase()
}

/// A lowercase account tag of at most 32 bytes.
#[derive(Debug, PartialEq, Eq)]
pub struct Tag(String);

impl Tag {
    /// The tag's characters.
    pub closed spec fn chars(self) -> Seq<char> {
        self.0@
    }

    /// Builds a tag: the name must be at most 32 characters; it is
    /// stored in lowercase.
    pub fn new(tag: &str) -> (r: Option<Tag>)
        ensures
            r is Some <==> tag@.len() <= 32,
            r matches Some(t) ==> t.chars() == lower_of(tag@),
    {
        let limit: usize = 32;
        if tag.unicode_len() > limit {
            return None;
        }
        Some(Tag(lowercase(tag)))
    }

    /// An exact copy of the tag.
    pub fn duplicate(&self) -> (r: Tag)
        ensures
            r.chars() == self.chars(),
    {
        Tag(self.0.clone())
    }

    /// Whether two tags hold the same characters.
    pub fn same(&self, other: &Tag) -> (r: bool)
        ensures
            r <==> self.chars() == other.chars(),
    {
        crate::text::str_eq(self.0.as_str(), other.0.as_str())
    }
}

/// A ledger account: its type, its name, and its tags.
#[derive(Debug)]
pub struct Account {
    pub acc_type: Type,
    pub name: String,
    pub tags: Vec<Tag>,
}

impl Account {
    /// Builds an account.
    pub fn new(acc_type: Type, name: &str, tags: Vec<Tag>) -> (r: Account)
        ensures
            r.acc_type == acc_type,
            r.name@ == name@,
            r.tags == tags,
    {
        Account { acc_type, name: name.to_owned(), tags }
    }

    /// The side the account's balance normally sits on: assets and
    /// expenses are debit accounts, all others credit accounts.
    pub fn sign(&self) -> (r: Sign)
        ensures
            r == (match self.acc_type {
                Type::Asset | Type::Expense => Sign::Debit,
                Type::Liability | Type::Revenue | Type::Equity => Sign::Credit,
            }),
    {
        match self.acc_type {
            Type::Asset | Type::Expense => Sign::Debit,
            Type::Liability | Type::Revenue | Type::Equity => Sign::Credit,
        }
    }

    /// Whether the account normally carries a debit balance.
    pub fn is_debit(&self) -> (r: bool)
        ensures
            r <==> (self.acc_type is Asset || self.acc_type is Expense),
    {
        match self.sign() {
            Sign::Debit => true,
            Sign::Credit => false,
        }
    }

    /// Whether the account normally carries a credit balance.
    pub fn is_credit(&self) -> (r: bool)
        ensures
            r <==> !(self.acc_type is Asset || self.acc_type is Expense),
    {
        !self.is_debit()
    }

    /// Builds an account from its raw form: the type name must parse
    /// and every tag must fit the length bound.
    pub fn from_raw(raw: &raw::Account) -> (r: Option<Account>)
        ensures
            r matches Some(a) ==> ({
                &&& Type::parse_spec(raw.acc_type@) == Some(a.acc_type)
                &&& a.name@ == raw.name@
                &&& match raw.tags {
                        Some(ts) => a.tags@.len() == ts@.len()
                            && forall|i: int| 0 <= i < ts@.len()
                                ==> (#[trigger] a.tags@[i]).chars() == lower_of(ts@[i]@),
                        None => a.tags@.len() == 0,
                    }
            }),
    {
        let acc_type = match Type::parse(raw.acc_type.as_str()) {
            Some(t) => t,
            None => {
                return None;
            },
        };
        let mut tags: Vec<Tag> = Vec::new();
        if let Some(ts) = &raw.tags {
            let mut i: usize = 0;
            while i < ts.len()
                invariant
                    0 <= i <= ts@.len(),
                    tags@.len() == i,
                    forall|j: int| 0 <= j < i
                        ==> (#[trigger] tags@[j]).chars() == lower_of(ts@[j]@),
                decreases ts@.len() - i,
            {
                match Tag::new(ts[i].as_str()) {
                    Some(t) => {
                        tags.push(t);
                    },
                    None => {
                        return None;
                    },
                }
                i = i + 1;
            }
        }
        Some(Account { acc_type, name: raw.name.clone(), tags })
    }

    /// Whether the account carries the given tag.
    pub fn has_tag(&self, tag: &Tag) -> (r: bool)
        ensures
            r <==> exists|i: int| 0 <= i < self.tags@.len()
                && (#[trigger] self.tags@[i]).chars() == tag.chars(),
    {
        let mut i: usize = 0;
        while i < self.tags.len()
            invariant
                0 <= i <= self.tags@.len(),
                forall|j: int| 0 <= j < i
                    ==> (#[trigger] self.tags@[j]).chars() != tag.chars(),
            decreases self.tags@.len() - i,
        {
            if self.tags[i].same(tag) {
                return true;
            }
            i = i + 1;
        }
        false
    }
}

} // verus!
