//! The raw shape of an account document, before its type name and
//! tags are validated.

use vstd::prelude::*;

verus! {

/// The raw fields of an account document.
#[derive(Debug, PartialEq)]
pub struct Account {
    pub name: String,
    pub description: Option<String>,
    pub acc_type: String,
    pub tags: Option<Vec<String>>,
}

} // verus!
