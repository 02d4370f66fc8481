//! The chart of accounts: a lookup from account name to account.

use vstd::prelude::*;
use crate::account::Account;

verus! {

/// An ordered list of accounts, looked up by name.
#[derive(Debug)]
pub struct ChartOfAccounts {
    accounts: Vec<Account>,
}

impl ChartOfAccounts {
    /// The accounts, in order.
    pub closed spec fn accounts_spec(self) -> Seq<Account> {
        self.accounts@
    }

    /// A chart holding the given accounts.
    pub fn new(accounts: Vec<Account>) -> (r: ChartOfAccounts)
        ensures
            r.accounts_spec() == accounts@,
    {
        ChartOfAccounts { accounts }
    }

    /// The first account with the given name, when one exists.
    pub fn get(&self, name: &str) -> (r: Option<&Account>)
        ensures
            r is Some <==> exists|i: int| 0 <= i < self.accounts_spec().len()
                && (#[trigger] self.accounts_spec()[i]).name@ == name@,
            r matches Some(a) ==> a.name@ == name@
                && exists|i: int| 0 <= i < self.accounts_spec().len()
                    && #[trigger] self.accounts_spec()[i] == *a,
    {
        let mut i: usize = 0;
        while i < self.accounts.len()
            invariant
                0 <= i <= self.accounts@.len(),
                forall|j: int| 0 <= j < i
                    ==> (#[trigger] self.accounts@[j]).name@ != name@,
            decreases self.accounts@.len() - i,
        {
            if crate::text::str_eq(self.accounts[i].name.as_str(), name) {
                return Some(&self.accounts[i]);
            }
            i = i + 1;
        }
        None
    }
}

} // verus!
