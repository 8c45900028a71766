//! Which parents adopted a child.
use vstd::prelude::*;
use vstd::string::StringExecFns;

verus! {

/// The parent or parents who adopted a child.
#[derive(Clone, Copy, Debug, PartialEq, Eq, Structural)]
pub enum AdoptedByWhichParent {
    Husband,
    Wife,
    Both,
}

/// The name of a value.
pub open spec fn adopted_name(a: AdoptedByWhichParent) -> Seq<char> {
    match a {
        AdoptedByWhichParent::Husband => "Husband"@,
        AdoptedByWhichParent::Wife => "Wife"@,
        AdoptedByWhichParent::Both => "Both"@,
    }
}

impl AdoptedByWhichParent {
    /// The name of this value.
    pub fn to_display_string(&self) -> (r: String)
        ensures
            r@ == adopted_name(*self),
    {
        match self {
            AdoptedByWhichParent::Husband => String::from_str("Husband"),
            AdoptedByWhichParent::Wife => String::from_str("Wife"),
            AdoptedByWhichParent::Both => String::from_str("Both"),
        }
    }
}

} // verus!
