//! A small double-entry ledger library centred on bank reconciliation:
//! parsing bank-statement lines, matching them against recorded entries
//! through a declarative rule language, and generating balanced entries
//! for whatever remains unmatched.

use vstd::prelude::*;

pub mod date;
pub mod entry;
pub mod account;
pub mod bank_txs;
pub mod chart_of_accounts;
pub mod expr;
pub mod money;
pub mod text;
pub mod value;

verus! {

/// Handle for a ledger rooted at a directory, a file, or standard input.
/// The surrounding application streams the entry documents; this library
/// holds only the configured path.
pub struct Ledger {
    path: Option<String>,
}

impl Ledger {
    /// The configured path as a sequence of characters, if any.
    pub closed spec fn path_spec(self) -> Option<Seq<char>> {
        match self.path {
            Some(p) => Some(p@),
            None => None,
        }
    }

    /// Creates a ledger reading from the given directory or file,
    /// or from standard input when `None`.
    pub fn new(dir: Option<&str>) -> (r: Ledger)
        ensures
            r.path_spec() is Some <==> dir is Some,
            dir matches Some(d) ==> r.path_spec() == Some(d@),
    {
        match dir {
            Some(d) => Ledger { path: Some(d.to_owned()) },
            None => Ledger { path: None },
        }
    }

    /// The configured path, if any.
    pub fn path(&self) -> (r: Option<&String>)
        ensures
            r is Some <==> self.path_spec() is Some,
            r matches Some(p) ==> self.path_spec() == Some(p@),
    {
        self.path.as_ref()
    }
}

} // verus!
