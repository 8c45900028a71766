//! Latter-day Saint ordinances: baptisms, confirmations, endowments and
//! sealings, with their dates, temples and statuses.
use vstd::prelude::*;
use crate::types::shared::{shared_end, Shared};
use vstd::string::StringExecFns;
use crate::error::GedcomError;
use crate::parser::{at_level_end, child_level, parse_subset, record_read, spec_child_level, step_subset_end, tag_error, value_end, value_flat_end, Parser, TagHandler};
use crate::text::{all_ascii, ascii_upper_char, str_eq, to_uppercase, uppercase};
use crate::tokenizer::{TokState, Tokenizer};
use crate::types::date::Date;
use crate::types::note::Note;
use crate::types::source::citation::Citation;

verus! {

/// The kind of an ordinance.
#[derive(Clone, Copy, Debug, PartialEq, Eq, Structural)]
pub enum LdsOrdinanceType {
    Baptism,
    Confirmation,
    Initiatory,
    Endowment,
    SealingChild,
    SealingSpouse,
}

/// The kind of ordinance that a tag names.
pub open spec fn ordinance_type_of(tag: Seq<char>) -> Option<LdsOrdinanceType> {
    if tag == "BAPL"@ {
        Some(LdsOrdinanceType::Baptism)
    } else if tag == "CONL"@ {
        Some(LdsOrdinanceType::Confirmation)
    } else if tag == "INIL"@ {
        Some(LdsOrdinanceType::Initiatory)
    } else if tag == "ENDL"@ {
        Some(LdsOrdinanceType::Endowment)
    } else if tag == "SLGC"@ {
        Some(LdsOrdinanceType::SealingChild)
    } else if tag == "SLGS"@ {
        Some(LdsOrdinanceType::SealingSpouse)
    } else {
        None
    }
}

/// The tag of a kind of ordinance.
pub open spec fn ordinance_tag(t: LdsOrdinanceType) -> Seq<char> {
    match t {
        LdsOrdinanceType::Baptism => "BAPL"@,
        LdsOrdinanceType::Confirmation => "CONL"@,
        LdsOrdinanceType::Initiatory => "INIL"@,
        LdsOrdinanceType::Endowment => "ENDL"@,
        LdsOrdinanceType::SealingChild => "SLGC"@,
        LdsOrdinanceType::SealingSpouse => "SLGS"@,
    }
}

/// The description of a kind of ordinance.
pub open spec fn ordinance_description(t: LdsOrdinanceType) -> Seq<char> {
    match t {
        LdsOrdinanceType::Baptism => "LDS Baptism"@,
        LdsOrdinanceType::Confirmation => "LDS Confirmation"@,
        LdsOrdinanceType::Initiatory => "LDS Initiatory"@,
        LdsOrdinanceType::Endowment => "LDS Endowment"@,
        LdsOrdinanceType::SealingChild => "Sealing to Parents"@,
        LdsOrdinanceType::SealingSpouse => "Sealing to Spouse"@,
    }
}

impl LdsOrdinanceType {
    /// The kind of ordinance that `tag` names, if any.
    pub fn from_tag(tag: &str) -> (r: Option<Self>)
        ensures
            r == ordinance_type_of(tag@),
    {
        if str_eq(tag, "BAPL") {
            Some(LdsOrdinanceType::Baptism)
        } else if str_eq(tag, "CONL") {
            Some(LdsOrdinanceType::Confirmation)
        } else if str_eq(tag, "INIL") {
            Some(LdsOrdinanceType::Initiatory)
        } else if str_eq(tag, "ENDL") {
            Some(LdsOrdinanceType::Endowment)
        } else if str_eq(tag, "SLGC") {
            Some(LdsOrdinanceType::SealingChild)
        } else if str_eq(tag, "SLGS") {
            Some(LdsOrdinanceType::SealingSpouse)
        } else {
            None
        }
    }

    /// The tag of this kind of ordinance.
    pub fn to_tag(&self) -> (r: &'static str)
        ensures
            r@ == ordinance_tag(*self),
    {
        match self {
            LdsOrdinanceType::Baptism => "BAPL",
            LdsOrdinanceType::Confirmation => "CONL",
            LdsOrdinanceType::Initiatory => "INIL",
            LdsOrdinanceType::Endowment => "ENDL",
            LdsOrdinanceType::SealingChild => "SLGC",
            LdsOrdinanceType::SealingSpouse => "SLGS",
        }
    }

    /// Whether only GEDCOM 7 has this kind of ordinance (the initiatory).
    pub fn is_gedcom_7_only(&self) -> (r: bool)
        ensures
            r == (*self == LdsOrdinanceType::Initiatory),
    {
        matches!(self, LdsOrdinanceType::Initiatory)
    }

    /// A description of this kind of ordinance.
    pub fn description(&self) -> (r: &'static str)
        ensures
            r@ == ordinance_description(*self),
    {
        match self {
            LdsOrdinanceType::Baptism => "LDS Baptism",
            LdsOrdinanceType::Confirmation => "LDS Confirmation",
            LdsOrdinanceType::Initiatory => "LDS Initiatory",
            LdsOrdinanceType::Endowment => "LDS Endowment",
            LdsOrdinanceType::SealingChild => "Sealing to Parents",
            LdsOrdinanceType::SealingSpouse => "Sealing to Spouse",
        }
    }

    /// Whether the ordinance is for one person (all but the sealing to a spouse).
    pub fn is_individual_ordinance(&self) -> (r: bool)
        ensures
            r == (*self != LdsOrdinanceType::SealingSpouse),
    {
        !matches!(self, LdsOrdinanceType::SealingSpouse)
    }

    /// The text of this kind of ordinance: its description.
    pub fn to_display_string(&self) -> (r: String)
        ensures
            r@ == ordinance_description(*self),
    {
        String::from_str(self.description())
    }
}

/// Reading the tag of a kind of ordinance gives that kind back.
pub proof fn lemma_ordinance_tag_roundtrip(t: LdsOrdinanceType)
    ensures
        ordinance_type_of(ordinance_tag(t)) == Some(t),
{
    reveal_strlit("BAPL");
    reveal_strlit("CONL");
    reveal_strlit("INIL");
    reveal_strlit("ENDL");
    reveal_strlit("SLGC");
    reveal_strlit("SLGS");
    let tag = ordinance_tag(t);
    assert(tag[0] != "BAPL"@[0] || tag == "BAPL"@);
    assert(tag[0] != "CONL"@[0] || tag == "CONL"@);
    assert(tag[0] != "INIL"@[0] || tag == "INIL"@);
    assert(tag[0] != "ENDL"@[0] || tag == "ENDL"@);
    assert(tag[3] != "SLGC"@[3] || tag == "SLGC"@);
    assert(tag[3] != "SLGS"@[3] || tag == "SLGS"@);
}

/// The status of an ordinance.
#[derive(Clone, Copy, Debug, PartialEq, Eq, Structural)]
pub enum LdsOrdinanceStatus {
    BicCompleted,
    BornInCovenant,
    Canceled,
    Child,
    Completed,
    TempleClearanceReceived,
    DoNotPerform,
    Infant,
    NotAuthorized,
    PreApproved1970,
    Pre1970,
    Stillborn,
    Submitted,
    Uncleared,
}

/// The status that an uppercase status value names.
pub open spec fn ordinance_status_of(u: Seq<char>) -> Option<LdsOrdinanceStatus> {
    if u == "BIC"@ {
        Some(LdsOrdinanceStatus::BornInCovenant)
    } else if u == "CANCELED"@ || u == "DNS/CAN"@ {
        Some(LdsOrdinanceStatus::Canceled)
    } else if u == "CHILD"@ {
        Some(LdsOrdinanceStatus::Child)
    } else if u == "COMPLETED"@ {
        Some(LdsOrdinanceStatus::Completed)
    } else if u == "DNS"@ {
        Some(LdsOrdinanceStatus::DoNotPerform)
    } else if u == "INFANT"@ {
        Some(LdsOrdinanceStatus::Infant)
    } else if u == "PRE-1970"@ {
        Some(LdsOrdinanceStatus::Pre1970)
    } else if u == "STILLBORN"@ {
        Some(LdsOrdinanceStatus::Stillborn)
    } else if u == "SUBMITTED"@ {
        Some(LdsOrdinanceStatus::Submitted)
    } else if u == "UNCLEARED"@ {
        Some(LdsOrdinanceStatus::Uncleared)
    } else {
        None
    }
}

/// The value written for a status.
pub open spec fn ordinance_status_value(s: LdsOrdinanceStatus) -> Seq<char> {
    match s {
        LdsOrdinanceStatus::BicCompleted | LdsOrdinanceStatus::BornInCovenant => "BIC"@,
        LdsOrdinanceStatus::Canceled => "CANCELED"@,
        LdsOrdinanceStatus::Child => "CHILD"@,
        LdsOrdinanceStatus::Completed => "COMPLETED"@,
        LdsOrdinanceStatus::TempleClearanceReceived
        | LdsOrdinanceStatus::DoNotPerform
        | LdsOrdinanceStatus::NotAuthorized => "DNS"@,
        LdsOrdinanceStatus::Infant => "INFANT"@,
        LdsOrdinanceStatus::PreApproved1970 | LdsOrdinanceStatus::Pre1970 => "PRE-1970"@,
        LdsOrdinanceStatus::Stillborn => "STILLBORN"@,
        LdsOrdinanceStatus::Submitted => "SUBMITTED"@,
        LdsOrdinanceStatus::Uncleared => "UNCLEARED"@,
    }
}

/// The status that reading a written value gives: several statuses share a
/// value, and each value is read as one of them.
pub open spec fn canonical_status(s: LdsOrdinanceStatus) -> LdsOrdinanceStatus {
    match s {
        LdsOrdinanceStatus::BicCompleted => LdsOrdinanceStatus::BornInCovenant,
        LdsOrdinanceStatus::TempleClearanceReceived | LdsOrdinanceStatus::NotAuthorized => LdsOrdinanceStatus::DoNotPerform,
        LdsOrdinanceStatus::PreApproved1970 => LdsOrdinanceStatus::Pre1970,
        _ => s,
    }
}

impl LdsOrdinanceStatus {
    /// Reads a status value, in any case.
    pub fn parse(s: &str) -> (r: Option<Self>)
        ensures
            r == ordinance_status_of(uppercase(s@)),
            all_ascii(s@) ==> r == ordinance_status_of(s@.map_values(|c: char| ascii_upper_char(c))),
    {
        let upper = to_uppercase(s);
        let u = upper.as_str();
        if str_eq(u, "BIC") {
            Some(LdsOrdinanceStatus::BornInCovenant)
        } else if str_eq(u, "CANCELED") || str_eq(u, "DNS/CAN") {
            Some(LdsOrdinanceStatus::Canceled)
        } else if str_eq(u, "CHILD") {
            Some(LdsOrdinanceStatus::Child)
        } else if str_eq(u, "COMPLETED") {
            Some(LdsOrdinanceStatus::Completed)
        } else if str_eq(u, "DNS") {
            Some(LdsOrdinanceStatus::DoNotPerform)
        } else if str_eq(u, "INFANT") {
            Some(LdsOrdinanceStatus::Infant)
        } else if str_eq(u, "PRE-1970") {
            Some(LdsOrdinanceStatus::Pre1970)
        } else if str_eq(u, "STILLBORN") {
            Some(LdsOrdinanceStatus::Stillborn)
        } else if str_eq(u, "SUBMITTED") {
            Some(LdsOrdinanceStatus::Submitted)
        } else if str_eq(u, "UNCLEARED") {
            Some(LdsOrdinanceStatus::Uncleared)
        } else {
            None
        }
    }

    /// The value written for this status.
    pub fn to_gedcom_value(&self) -> (r: &'static str)
        ensures
            r@ == ordinance_status_value(*self),
    {
        match self {
            LdsOrdinanceStatus::BicCompleted | LdsOrdinanceStatus::BornInCovenant => "BIC",
            LdsOrdinanceStatus::Canceled => "CANCELED",
            LdsOrdinanceStatus::Child => "CHILD",
            LdsOrdinanceStatus::Completed => "COMPLETED",
            LdsOrdinanceStatus::TempleClearanceReceived
            | LdsOrdinanceStatus::DoNotPerform
            | LdsOrdinanceStatus::NotAuthorized => "DNS",
            LdsOrdinanceStatus::Infant => "INFANT",
            LdsOrdinanceStatus::PreApproved1970 | LdsOrdinanceStatus::Pre1970 => "PRE-1970",
            LdsOrdinanceStatus::Stillborn => "STILLBORN",
            LdsOrdinanceStatus::Submitted => "SUBMITTED",
            LdsOrdinanceStatus::Uncleared => "UNCLEARED",
        }
    }

    /// The text of this status: its written value.
    pub fn to_display_string(&self) -> (r: String)
        ensures
            r@ == ordinance_status_value(*self),
    {
        String::from_str(self.to_gedcom_value())
    }
}

/// Reading the value written for a status gives that status, or the one
/// that shares its value (see [`canonical_status`]).
pub proof fn lemma_ordinance_status_roundtrip(s: LdsOrdinanceStatus)
    ensures
        all_ascii(ordinance_status_value(s)),
        ordinance_status_value(s).map_values(|c: char| ascii_upper_char(c)) == ordinance_status_value(s),
        ordinance_status_of(ordinance_status_value(s)) == Some(canonical_status(s)),
{
    reveal_strlit("BIC");
    reveal_strlit("CANCELED");
    reveal_strlit("DNS/CAN");
    reveal_strlit("CHILD");
    reveal_strlit("COMPLETED");
    reveal_strlit("DNS");
    reveal_strlit("INFANT");
    reveal_strlit("PRE-1970");
    reveal_strlit("STILLBORN");
    reveal_strlit("SUBMITTED");
    reveal_strlit("UNCLEARED");
    let v = ordinance_status_value(s);
    assert(v.map_values(|c: char| ascii_upper_char(c)) =~= v);
    assert(v == "BIC"@ || v.len() != "BIC"@.len() || v[0] != "BIC"@[0] || v[1] != "BIC"@[1]);
    assert(v == "CANCELED"@ || v.len() != "CANCELED"@.len() || v[0] != "CANCELED"@[0] || v[1] != "CANCELED"@[1]);
    assert(v == "DNS/CAN"@ || v.len() != "DNS/CAN"@.len() || v[0] != "DNS/CAN"@[0] || v[1] != "DNS/CAN"@[1]);
    assert(v == "CHILD"@ || v.len() != "CHILD"@.len() || v[0] != "CHILD"@[0] || v[1] != "CHILD"@[1]);
    assert(v == "COMPLETED"@ || v.len() != "COMPLETED"@.len() || v[0] != "COMPLETED"@[0] || v[1] != "COMPLETED"@[1]);
    assert(v == "DNS"@ || v.len() != "DNS"@.len() || v[0] != "DNS"@[0] || v[1] != "DNS"@[1]);
    assert(v == "INFANT"@ || v.len() != "INFANT"@.len() || v[0] != "INFANT"@[0] || v[1] != "INFANT"@[1]);
    assert(v == "PRE-1970"@ || v.len() != "PRE-1970"@.len() || v[0] != "PRE-1970"@[0] || v[1] != "PRE-1970"@[1]);
    assert(v == "STILLBORN"@ || v.len() != "STILLBORN"@.len() || v[0] != "STILLBORN"@[0] || v[1] != "STILLBORN"@[1]);
    assert(v == "SUBMITTED"@ || v.len() != "SUBMITTED"@.len() || v[0] != "SUBMITTED"@[0] || v[1] != "SUBMITTED"@[1]);
    assert(v == "UNCLEARED"@ || v.len() != "UNCLEARED"@.len() || v[0] != "UNCLEARED"@[0] || v[1] != "UNCLEARED"@[1]);
}

/// An ordinance: its kind, date, temple, status and sources.
#[derive(Clone, Debug)]
pub struct LdsOrdinance {
    pub ordinance_type: Option<LdsOrdinanceType>,
    pub date: Option<Date>,
    pub temple: Option<String>,
    pub status: Option<LdsOrdinanceStatus>,
    pub status_date: Option<Date>,
    pub family_xref: Option<String>,
    pub note: Option<Note>,
    pub source_citations: Vec<Citation>,
}

impl Default for LdsOrdinance {
    fn default() -> (r: Self)
        ensures
            r.ordinance_type is None && r.date is None && r.temple is None,
            r.status is None && r.status_date is None && r.family_xref is None,
            r.note is None && r.source_citations@.len() == 0,
    {
        LdsOrdinance {
            ordinance_type: None,
            date: None,
            temple: None,
            status: None,
            status_date: None,
            family_xref: None,
            note: None,
            source_citations: Vec::new(),
        }
    }
}

impl LdsOrdinance {
    /// Reads an ordinance structure at `level` whose tag is `tag`.
    pub fn new(tokenizer: &mut Tokenizer, level: u8, tag: &str) -> (r: Result<LdsOrdinance, GedcomError>)
        requires
            old(tokenizer).wf(),
            old(tokenizer).token() is Tag,
        ensures
            record_read(*old(tokenizer), *final(tokenizer), r is Ok, level),
            r matches Ok(o) ==> o.ordinance_type == ordinance_type_of(tag@),
            r is Ok <==> step_subset_end::<LdsOrdinance>(old(tokenizer).input(), old(tokenizer).state(), level) is Ok,
            r is Ok ==> step_subset_end::<LdsOrdinance>(old(tokenizer).input(), old(tokenizer).state(), level) == Ok::<TokState, ()>(final(tokenizer).state()),
    {
        let ordinance_type = LdsOrdinanceType::from_tag(tag);
        let mut ordinance = LdsOrdinance::default();
        tokenizer.next_token()?;
        parse_subset(tokenizer, level, &mut ordinance)?;
        ordinance.ordinance_type = ordinance_type;
        Ok(ordinance)
    }

    /// An ordinance of the given kind and nothing more.
    pub fn with_type(ordinance_type: LdsOrdinanceType) -> (r: Self)
        ensures
            r.ordinance_type == Some(ordinance_type),
            r.date is None && r.temple is None && r.status is None && r.status_date is None,
            r.family_xref is None && r.note is None && r.source_citations@.len() == 0,
    {
        let mut o = LdsOrdinance::default();
        o.ordinance_type = Some(ordinance_type);
        o
    }

    /// The same ordinance on the given date.
    pub fn with_date(self, date: &str) -> (r: Self)
        ensures
            r.date matches Some(d) && d.value matches Some(v) && v@ == date@ && d.time is None,
            r.ordinance_type == self.ordinance_type && r.temple == self.temple && r.status == self.status,
    {
        let mut o = self;
        o.date = Some(Date { value: Some(String::from_str(date)), time: None });
        o
    }

    /// The same ordinance in the given temple.
    pub fn with_temple(self, temple: &str) -> (r: Self)
        ensures
            r.temple matches Some(t) && t@ == temple@,
            r.ordinance_type == self.ordinance_type && r.date == self.date && r.status == self.status,
    {
        let mut o = self;
        o.temple = Some(String::from_str(temple));
        o
    }

    /// The same ordinance with the given status.
    pub fn with_status(self, status: LdsOrdinanceStatus) -> (r: Self)
        ensures
            r.status == Some(status),
            r.ordinance_type == self.ordinance_type && r.date == self.date && r.temple == self.temple,
    {
        let mut o = self;
        o.status = Some(status);
        o
    }

    /// Whether the ordinance was done: completed, completed by birth in the
    /// covenant, or done before 1970.
    pub fn is_completed(&self) -> (r: bool)
        ensures
            r == (self.status == Some(LdsOrdinanceStatus::Completed)
                || self.status == Some(LdsOrdinanceStatus::BicCompleted)
                || self.status == Some(LdsOrdinanceStatus::Pre1970)),
    {
        matches!(
            self.status,
            Some(LdsOrdinanceStatus::Completed) | Some(LdsOrdinanceStatus::BicCompleted) | Some(LdsOrdinanceStatus::Pre1970)
        )
    }

    /// Whether only GEDCOM 7 has this kind of ordinance.
    pub fn is_gedcom_7_only(&self) -> (r: bool)
        ensures
            r == (self.ordinance_type == Some(LdsOrdinanceType::Initiatory)),
    {
        match &self.ordinance_type {
            Some(t) => t.is_gedcom_7_only(),
            None => false,
        }
    }
}

impl TagHandler for LdsOrdinance {
    open spec fn exact() -> bool {
        true
    }

    open spec fn tag_end(s: Seq<char>, st: TokState, t: Seq<char>, level: u8) -> Result<TokState, ()> {
        if t == "DATE"@ {
            value_flat_end::<Date>(s, st, spec_child_level(level))
        } else if t == "TEMP"@ {
            value_end(s, st)
        } else if t == "STAT"@ {
            value_end(s, st)
        } else if t == "FAMC"@ {
            value_end(s, st)
        } else if t == "NOTE"@ {
            shared_end(Shared::Note, s, st, spec_child_level(level))
        } else if t == "SOUR"@ {
            shared_end(Shared::Citation, s, st, spec_child_level(level))
        } else {
            Err(())
        }
    }

    fn handle_tag(&mut self, tag: &str, tokenizer: &mut Tokenizer, level: u8) -> (r: Result<(), GedcomError>) {
        let sub = child_level(level);
        if str_eq(tag, "DATE") {
            self.date = Some(Date::new(tokenizer, sub)?);
        } else if str_eq(tag, "TEMP") {
            self.temple = Some(tokenizer.take_line_value()?);
        } else if str_eq(tag, "STAT") {
            let status = tokenizer.take_line_value()?;
            self.status = LdsOrdinanceStatus::parse(status.as_str());
        } else if str_eq(tag, "FAMC") {
            self.family_xref = Some(tokenizer.take_line_value()?);
        } else if str_eq(tag, "NOTE") {
            self.note = Some(Note::new(tokenizer, sub)?);
        } else if str_eq(tag, "SOUR") {
            let c = Citation::new(tokenizer, sub)?;
            self.source_citations.push(c);
        } else {
            return Err(tag_error("Unhandled LDS Ordinance Tag: ", tag, tokenizer.line()));
        }
        Ok(())
    }
}

impl Parser for LdsOrdinance {
    fn parse(&mut self, tokenizer: &mut Tokenizer, level: u8) -> (r: Result<(), GedcomError>) 
        ensures
            r is Ok ==> at_level_end(*final(tokenizer), level),
            r is Ok <==> step_subset_end::<LdsOrdinance>(old(tokenizer).input(), old(tokenizer).state(), level) is Ok,
    {
        tokenizer.next_token()?;
        parse_subset(tokenizer, level, self)?;
        Ok(())
    }
}

} // verus!
