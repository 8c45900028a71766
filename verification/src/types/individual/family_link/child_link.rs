//! How certain the link between a child and a family is.
use vstd::prelude::*;
use vstd::string::StringExecFns;

verus! {

/// The status of the link between a child and a family.
#[derive(Clone, Copy, Debug, PartialEq, Eq, Structural)]
pub enum ChildLinkStatus {
    Challenged,
    Disproven,
    Proven,
}

/// The name of a value.
pub open spec fn child_link_name(s: ChildLinkStatus) -> Seq<char> {
    match s {
        ChildLinkStatus::Challenged => "Challenged"@,
        ChildLinkStatus::Disproven => "Disproven"@,
        ChildLinkStatus::Proven => "Proven"@,
    }
}

impl ChildLinkStatus {
    /// The name of this value.
    pub fn to_display_string(&self) -> (r: String)
        ensures
            r@ == child_link_name(*self),
    {
        match self {
            ChildLinkStatus::Challenged => String::from_str("Challenged"),
            ChildLinkStatus::Disproven => String::from_str("Disproven"),
            ChildLinkStatus::Proven => String::from_str("Proven"),
        }
    }
}

} // verus!
