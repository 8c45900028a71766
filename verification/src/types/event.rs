//! Events in a life or a family.
use vstd::prelude::*;
use vstd::string::StringExecFns;
use crate::text::str_eq;

pub mod detail;
pub mod family;
pub mod spouse;
pub mod util;

verus! {

/// The kind of an event. `SourceData` carries the text of a source's data.
#[derive(Clone, Debug, PartialEq)]
pub enum Event {
    Adoption,
    AdultChristening,
    Annulment,
    Baptism,
    BarMitzvah,
    BasMitzvah,
    Birth,
    Blessing,
    Burial,
    Census,
    Christening,
    Confirmation,
    Cremation,
    Death,
    Divorce,
    DivorceFiled,
    Emigration,
    Engagement,
    Event,
    FirstCommunion,
    Graduation,
    Immigration,
    Marriage,
    MarriageBann,
    MarriageContract,
    MarriageLicense,
    MarriageSettlement,
    Naturalization,
    Ordination,
    Other,
    Probate,
    Residence,
    Retired,
    Separated,
    Will,
    SourceData(String),
}

/// The kind of event that a tag names.
pub open spec fn event_of_tag(tag: Seq<char>) -> Option<Event> {
    if tag == "ADOP"@ {
        Some(Event::Adoption)
    } else if tag == "ANUL"@ {
        Some(Event::Annulment)
    } else if tag == "BAPM"@ {
        Some(Event::Baptism)
    } else if tag == "BARM"@ {
        Some(Event::BarMitzvah)
    } else if tag == "BASM"@ {
        Some(Event::BasMitzvah)
    } else if tag == "BIRT"@ {
        Some(Event::Birth)
    } else if tag == "BLES"@ {
        Some(Event::Blessing)
    } else if tag == "BURI"@ {
        Some(Event::Burial)
    } else if tag == "CENS"@ {
        Some(Event::Census)
    } else if tag == "CHR"@ {
        Some(Event::Christening)
    } else if tag == "CHRA"@ {
        Some(Event::AdultChristening)
    } else if tag == "CONF"@ {
        Some(Event::Confirmation)
    } else if tag == "CREM"@ {
        Some(Event::Cremation)
    } else if tag == "DEAT"@ {
        Some(Event::Death)
    } else if tag == "DIV"@ {
        Some(Event::Divorce)
    } else if tag == "DIVF"@ {
        Some(Event::DivorceFiled)
    } else if tag == "EMIG"@ {
        Some(Event::Emigration)
    } else if tag == "ENGA"@ {
        Some(Event::Engagement)
    } else if tag == "EVEN"@ {
        Some(Event::Event)
    } else if tag == "FCOM"@ {
        Some(Event::FirstCommunion)
    } else if tag == "GRAD"@ {
        Some(Event::Graduation)
    } else if tag == "IMMI"@ {
        Some(Event::Immigration)
    } else if tag == "MARB"@ {
        Some(Event::MarriageBann)
    } else if tag == "MARC"@ {
        Some(Event::MarriageContract)
    } else if tag == "MARL"@ {
        Some(Event::MarriageLicense)
    } else if tag == "MARR"@ {
        Some(Event::Marriage)
    } else if tag == "MARS"@ {
        Some(Event::MarriageSettlement)
    } else if tag == "NATU"@ {
        Some(Event::Naturalization)
    } else if tag == "ORDN"@ {
        Some(Event::Ordination)
    } else if tag == "OTHER"@ {
        Some(Event::Other)
    } else if tag == "PROB"@ {
        Some(Event::Probate)
    } else if tag == "RESI"@ {
        Some(Event::Residence)
    } else if tag == "RETI"@ {
        Some(Event::Retired)
    } else if tag == "SEP"@ {
        Some(Event::Separated)
    } else if tag == "WILL"@ {
        Some(Event::Will)
    } else {
        None
    }
}

/// The name of a kind of event.
pub open spec fn event_name(e: Event) -> Seq<char> {
    match e {
        Event::Adoption => "Adoption"@,
        Event::AdultChristening => "AdultChristening"@,
        Event::Annulment => "Annulment"@,
        Event::Baptism => "Baptism"@,
        Event::BarMitzvah => "BarMitzvah"@,
        Event::BasMitzvah => "BasMitzvah"@,
        Event::Birth => "Birth"@,
        Event::Blessing => "Blessing"@,
        Event::Burial => "Burial"@,
        Event::Census => "Census"@,
        Event::Christening => "Christening"@,
        Event::Confirmation => "Confirmation"@,
        Event::Cremation => "Cremation"@,
        Event::Death => "Death"@,
        Event::Divorce => "Divorce"@,
        Event::DivorceFiled => "DivorceFiled"@,
        Event::Emigration => "Emigration"@,
        Event::Engagement => "Engagement"@,
        Event::Event => "Event"@,
        Event::FirstCommunion => "FirstCommunion"@,
        Event::Graduation => "Graduation"@,
        Event::Immigration => "Immigration"@,
        Event::Marriage => "Marriage"@,
        Event::MarriageBann => "MarriageBann"@,
        Event::MarriageContract => "MarriageContract"@,
        Event::MarriageLicense => "MarriageLicense"@,
        Event::MarriageSettlement => "MarriageSettlement"@,
        Event::Naturalization => "Naturalization"@,
        Event::Ordination => "Ordination"@,
        Event::Other => "Other"@,
        Event::Probate => "Probate"@,
        Event::Residence => "Residence"@,
        Event::Retired => "Retired"@,
        Event::Separated => "Separated"@,
        Event::Will => "Will"@,
        Event::SourceData(s) => "SourceData("@ + s@ + ")"@,
    }
}

/// Whether two events are of the same kind, and carry the same text where
/// they carry one.
pub open spec fn same_event(a: Event, b: Event) -> bool {
    match (a, b) {
        (Event::SourceData(x), Event::SourceData(y)) => x@ == y@,
        (Event::SourceData(_), _) => false,
        (_, Event::SourceData(_)) => false,
        _ => a == b,
    }
}

impl Event {
    /// The name of this kind of event.
    pub fn to_display_string(&self) -> (r: String)
        ensures
            r@ == event_name(*self),
    {
        match self {
            Event::Adoption => String::from_str("Adoption"),
            Event::AdultChristening => String::from_str("AdultChristening"),
            Event::Annulment => String::from_str("Annulment"),
            Event::Baptism => String::from_str("Baptism"),
            Event::BarMitzvah => String::from_str("BarMitzvah"),
            Event::BasMitzvah => String::from_str("BasMitzvah"),
            Event::Birth => String::from_str("Birth"),
            Event::Blessing => String::from_str("Blessing"),
            Event::Burial => String::from_str("Burial"),
            Event::Census => String::from_str("Census"),
            Event::Christening => String::from_str("Christening"),
            Event::Confirmation => String::from_str("Confirmation"),
            Event::Cremation => String::from_str("Cremation"),
            Event::Death => String::from_str("Death"),
            Event::Divorce => String::from_str("Divorce"),
            Event::DivorceFiled => String::from_str("DivorceFiled"),
            Event::Emigration => String::from_str("Emigration"),
            Event::Engagement => String::from_str("Engagement"),
            Event::Event => String::from_str("Event"),
            Event::FirstCommunion => String::from_str("FirstCommunion"),
            Event::Graduation => String::from_str("Graduation"),
            Event::Immigration => String::from_str("Immigration"),
            Event::Marriage => String::from_str("Marriage"),
            Event::MarriageBann => String::from_str("MarriageBann"),
            Event::MarriageContract => String::from_str("MarriageContract"),
            Event::MarriageLicense => String::from_str("MarriageLicense"),
            Event::MarriageSettlement => String::from_str("MarriageSettlement"),
            Event::Naturalization => String::from_str("Naturalization"),
            Event::Ordination => String::from_str("Ordination"),
            Event::Other => String::from_str("Other"),
            Event::Probate => String::from_str("Probate"),
            Event::Residence => String::from_str("Residence"),
            Event::Retired => String::from_str("Retired"),
            Event::Separated => String::from_str("Separated"),
            Event::Will => String::from_str("Will"),
            Event::SourceData(s) => {
                let mut r = String::from_str("SourceData(");
                r.append(s.as_str());
                r.append(")");
                r
            },
        }
    }

    /// Whether `self` and `other` are of the same kind, and carry the same
    /// text where they carry one.
    pub fn is_same(&self, other: &Event) -> (r: bool)
        ensures
            r == same_event(*self, *other),
    {
        match (self, other) {
            (Event::SourceData(x), Event::SourceData(y)) => str_eq(x.as_str(), y.as_str()),
            (Event::SourceData(_), _) => false,
            (_, Event::SourceData(_)) => false,
            (Event::Adoption, Event::Adoption) => true,
            (Event::AdultChristening, Event::AdultChristening) => true,
            (Event::Annulment, Event::Annulment) => true,
            (Event::Baptism, Event::Baptism) => true,
            (Event::BarMitzvah, Event::BarMitzvah) => true,
            (Event::BasMitzvah, Event::BasMitzvah) => true,
            (Event::Birth, Event::Birth) => true,
            (Event::Blessing, Event::Blessing) => true,
            (Event::Burial, Event::Burial) => true,
            (Event::Census, Event::Census) => true,
            (Event::Christening, Event::Christening) => true,
            (Event::Confirmation, Event::Confirmation) => true,
            (Event::Cremation, Event::Cremation) => true,
            (Event::Death, Event::Death) => true,
            (Event::Divorce, Event::Divorce) => true,
            (Event::DivorceFiled, Event::DivorceFiled) => true,
            (Event::Emigration, Event::Emigration) => true,
            (Event::Engagement, Event::Engagement) => true,
            (Event::Event, Event::Event) => true,
            (Event::FirstCommunion, Event::FirstCommunion) => true,
            (Event::Graduation, Event::Graduation) => true,
            (Event::Immigration, Event::Immigration) => true,
            (Event::Marriage, Event::Marriage) => true,
            (Event::MarriageBann, Event::MarriageBann) => true,
            (Event::MarriageContract, Event::MarriageContract) => true,
            (Event::MarriageLicense, Event::MarriageLicense) => true,
            (Event::MarriageSettlement, Event::MarriageSettlement) => true,
            (Event::Naturalization, Event::Naturalization) => true,
            (Event::Ordination, Event::Ordination) => true,
            (Event::Other, Event::Other) => true,
            (Event::Probate, Event::Probate) => true,
            (Event::Residence, Event::Residence) => true,
            (Event::Retired, Event::Retired) => true,
            (Event::Separated, Event::Separated) => true,
            (Event::Will, Event::Will) => true,
            _ => false,
        }
    }
}

} // verus!
