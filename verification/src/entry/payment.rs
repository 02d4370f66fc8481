//! A payment entry body: a party, the bank account it touches, and the
//! amount paid.

use vstd::prelude::*;
use crate::money::Money;
use super::raw;
use super::EntryError;

verus! {

/// A payment sent or received.
#[derive(Debug, PartialEq)]
pub struct Payment {
    pub party: String,
    pub account: String,
    pub amount: Money,
}

impl Payment {
    /// Builds a payment from a raw entry: `party`, `account` and
    /// `amount` are all required.
    pub fn from_raw(raw: &raw::Entry) -> (r: Result<Payment, EntryError>)
        ensures
            r is Ok <==> raw.party is Some && raw.account is Some && raw.amount is Some,
            r matches Ok(p) ==> (raw.party matches Some(party) && p.party@ == party@)
                && (raw.account matches Some(account) && p.account@ == account@)
                && raw.amount == Some(p.amount),
    {
        let party = match &raw.party {
            Some(p) => p.clone(),
            None => {
                return Err(EntryError::new("Party required for Payment Entry"));
            },
        };
        let account = match &raw.account {
            Some(a) => a.clone(),
            None => {
                return Err(EntryError::new("Account required for Payment Entry"));
            },
        };
        let amount = match &raw.amount {
            Some(m) => *m,
            None => {
                return Err(EntryError::new("Amount required for Payment Entry"));
            },
        };
        Ok(Payment { party, account, amount })
    }

    /// An exact copy of the payment.
    pub fn duplicate(&self) -> (r: Payment)
        ensures
            r.party@ == self.party@,
            r.account@ == self.account@,
            r.amount == self.amount,
    {
        Payment {
            party: self.party.clone(),
            account: self.account.clone(),
            amount: self.amount,
        }
    }
}

} // verus!
