//! Attributes of an individual: occupations, descriptions, counts and the like.
use vstd::prelude::*;
use vstd::string::StringExecFns;

pub mod detail;

verus! {

/// The kind of an attribute.
#[derive(Clone, Copy, Debug, PartialEq, Eq, Structural)]
pub enum IndividualAttribute {
    CastName,
    PhysicalDescription,
    ScholasticAchievement,
    NationalIDNumber,
    NationalOrTribalOrigin,
    CountOfChildren,
    CountOfMarriages,
    Occupation,
    Possessions,
    ReligiousAffiliation,
    ResidesAt,
    SocialSecurityNumber,
    NobilityTypeTitle,
    Fact,
}

/// The kind of attribute that a tag names.
pub open spec fn attribute_of_tag(tag: Seq<char>) -> Option<IndividualAttribute> {
    if tag == "CAST"@ {
        Some(IndividualAttribute::CastName)
    } else if tag == "DSCR"@ {
        Some(IndividualAttribute::PhysicalDescription)
    } else if tag == "EDUC"@ {
        Some(IndividualAttribute::ScholasticAchievement)
    } else if tag == "IDNO"@ {
        Some(IndividualAttribute::NationalIDNumber)
    } else if tag == "NATI"@ {
        Some(IndividualAttribute::NationalOrTribalOrigin)
    } else if tag == "NCHI"@ {
        Some(IndividualAttribute::CountOfChildren)
    } else if tag == "NMR"@ {
        Some(IndividualAttribute::CountOfMarriages)
    } else if tag == "OCCU"@ {
        Some(IndividualAttribute::Occupation)
    } else if tag == "PROP"@ {
        Some(IndividualAttribute::Possessions)
    } else if tag == "RELI"@ {
        Some(IndividualAttribute::ReligiousAffiliation)
    } else if tag == "RESI"@ {
        Some(IndividualAttribute::ResidesAt)
    } else if tag == "SSN"@ {
        Some(IndividualAttribute::SocialSecurityNumber)
    } else if tag == "TITL"@ {
        Some(IndividualAttribute::NobilityTypeTitle)
    } else if tag == "FACT"@ {
        Some(IndividualAttribute::Fact)
    } else {
        None
    }
}

/// The name of a kind of attribute.
pub open spec fn attribute_name(a: IndividualAttribute) -> Seq<char> {
    match a {
        IndividualAttribute::CastName => "CastName"@,
        IndividualAttribute::PhysicalDescription => "PhysicalDescription"@,
        IndividualAttribute::ScholasticAchievement => "ScholasticAchievement"@,
        IndividualAttribute::NationalIDNumber => "NationalIDNumber"@,
        IndividualAttribute::NationalOrTribalOrigin => "NationalOrTribalOrigin"@,
        IndividualAttribute::CountOfChildren => "CountOfChildren"@,
        IndividualAttribute::CountOfMarriages => "CountOfMarriages"@,
        IndividualAttribute::Occupation => "Occupation"@,
        IndividualAttribute::Possessions => "Possessions"@,
        IndividualAttribute::ReligiousAffiliation => "ReligiousAffiliation"@,
        IndividualAttribute::ResidesAt => "ResidesAt"@,
        IndividualAttribute::SocialSecurityNumber => "SocialSecurityNumber"@,
        IndividualAttribute::NobilityTypeTitle => "NobilityTypeTitle"@,
        IndividualAttribute::Fact => "Fact"@,
    }
}

impl IndividualAttribute {
    /// The name of this kind of attribute.
    pub fn to_display_string(&self) -> (r: String)
        ensures
            r@ == attribute_name(*self),
    {
        match self {
            IndividualAttribute::CastName => String::from_str("CastName"),
            IndividualAttribute::PhysicalDescription => String::from_str("PhysicalDescription"),
            IndividualAttribute::ScholasticAchievement => String::from_str("ScholasticAchievement"),
            IndividualAttribute::NationalIDNumber => String::from_str("NationalIDNumber"),
            IndividualAttribute::NationalOrTribalOrigin => String::from_str("NationalOrTribalOrigin"),
            IndividualAttribute::CountOfChildren => String::from_str("CountOfChildren"),
            IndividualAttribute::CountOfMarriages => String::from_str("CountOfMarriages"),
            IndividualAttribute::Occupation => String::from_str("Occupation"),
            IndividualAttribute::Possessions => String::from_str("Possessions"),
            IndividualAttribute::ReligiousAffiliation => String::from_str("ReligiousAffiliation"),
            IndividualAttribute::ResidesAt => String::from_str("ResidesAt"),
            IndividualAttribute::SocialSecurityNumber => String::from_str("SocialSecurityNumber"),
            IndividualAttribute::NobilityTypeTitle => String::from_str("NobilityTypeTitle"),
            IndividualAttribute::Fact => String::from_str("Fact"),
        }
    }
}

} // verus!
