//! How a child belongs to a family.
use vstd::prelude::*;
use vstd::string::StringExecFns;

verus! {

/// The kind of tie between a child and the family it is linked to.
#[derive(Clone, Copy, Debug, PartialEq, Eq, Structural)]
pub enum Pedigree {
    Adopted,
    Birth,
    Foster,
    Sealing,
}

/// The name of a value.
pub open spec fn pedigree_name(p: Pedigree) -> Seq<char> {
    match p {
        Pedigree::Adopted => "Adopted"@,
        Pedigree::Birth => "Birth"@,
        Pedigree::Foster => "Foster"@,
        Pedigree::Sealing => "Sealing"@,
    }
}

impl Pedigree {
    /// The name of this value.
    pub fn to_display_string(&self) -> (r: String)
        ensures
            r@ == pedigree_name(*self),
    {
        match self {
            Pedigree::Adopted => String::from_str("Adopted"),
            Pedigree::Birth => String::from_str("Birth"),
            Pedigree::Foster => String::from_str("Foster"),
            Pedigree::Sealing => String::from_str("Sealing"),
        }
    }
}

} // verus!
