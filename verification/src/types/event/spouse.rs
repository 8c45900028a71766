//! The partners of a family.
use vstd::prelude::*;
use vstd::string::StringExecFns;

verus! {

/// One of the two partners of a family (`HUSB` and `WIFE`).
#[derive(Clone, Copy, Debug, PartialEq, Eq)]
pub enum Spouse {
    Spouse1,
    Spouse2,
}

impl Spouse {
    /// The name of the variant, as `Display` writes it.
    pub fn to_display_string(&self) -> (r: String)
        ensures
            r@ == (match self {
                Spouse::Spouse1 => "Spouse1"@,
                Spouse::Spouse2 => "Spouse2"@,
            }),
    {
        match self {
            Spouse::Spouse1 => String::from_str("Spouse1"),
            Spouse::Spouse2 => String::from_str("Spouse2"),
        }
    }
}

} // verus!
