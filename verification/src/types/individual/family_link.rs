//! Links from an individual to the families it belongs to.
use vstd::prelude::*;
use crate::parser::last_tag_state;
use crate::parser::last_tag_value;
use crate::parser::lemma_kids_push;
use crate::parser::value_subset_kids;
use crate::parser::subset_kids;
use crate::types::shared::{shared_end, Shared};
use vstd::string::StringExecFns;
use crate::error::GedcomError;
use crate::parser::{at_level_end, child_level, line_value, parse_subset, record_read, spec_child_level, subset_end, tag_error, value_subset_end, Parser, TagHandler};
use crate::text::{lowercase, str_eq, to_lowercase};
use crate::tokenizer::{take_value, TokState, Tokenizer};
use crate::types::custom::UserDefinedTag;
use crate::types::individual::family_link::adopted::AdoptedByWhichParent;
use crate::types::individual::family_link::child_link::ChildLinkStatus;
use crate::types::individual::family_link::pedigree::Pedigree;
use crate::types::note::Note;
use crate::types::Xref;

pub mod adopted;
pub mod child_link;
pub mod pedigree;

verus! {

/// Whether an individual is a partner or a child in the family.
#[derive(Clone, Copy, Debug, PartialEq, Eq, Structural)]
pub enum FamilyLinkType {
    Spouse,
    Child,
}

/// The name of a value.
pub open spec fn link_type_name(t: FamilyLinkType) -> Seq<char> {
    match t {
        FamilyLinkType::Spouse => "Spouse"@,
        FamilyLinkType::Child => "Child"@,
    }
}

impl FamilyLinkType {
    /// The name of this value.
    pub fn to_display_string(&self) -> (r: String)
        ensures
            r@ == link_type_name(*self),
    {
        match self {
            FamilyLinkType::Spouse => String::from_str("Spouse"),
            FamilyLinkType::Child => String::from_str("Child"),
        }
    }
}

/// A link to a family (`FAMC` as a child, `FAMS` as a partner), with how the
/// individual belongs to it.
#[derive(Clone, Debug)]
pub struct FamilyLink {
    pub xref: Xref,
    pub family_link_type: FamilyLinkType,
    pub pedigree_linkage_type: Option<Pedigree>,
    pub child_linkage_status: Option<ChildLinkStatus>,
    pub adopted_by: Option<AdoptedByWhichParent>,
    pub note: Option<Note>,
    pub custom_data: Vec<Box<UserDefinedTag>>,
}

/// The kind of link that a tag names: `FAMC` a child's, `FAMS` a partner's.
pub open spec fn link_type_of_tag(tag: Seq<char>) -> FamilyLinkType {
    if tag == "FAMC"@ { FamilyLinkType::Child } else { FamilyLinkType::Spouse }
}

/// The pedigree that a lowercase code names.
pub open spec fn pedigree_of_code(l: Seq<char>) -> Option<Pedigree> {
    if l == "adopted"@ {
        Some(Pedigree::Adopted)
    } else if l == "birth"@ {
        Some(Pedigree::Birth)
    } else if l == "foster"@ {
        Some(Pedigree::Foster)
    } else if l == "sealing"@ {
        Some(Pedigree::Sealing)
    } else {
        None
    }
}

/// The status that a lowercase code names.
pub open spec fn child_status_of_code(l: Seq<char>) -> Option<ChildLinkStatus> {
    if l == "challenged"@ {
        Some(ChildLinkStatus::Challenged)
    } else if l == "disproven"@ {
        Some(ChildLinkStatus::Disproven)
    } else if l == "proven"@ {
        Some(ChildLinkStatus::Proven)
    } else {
        None
    }
}

/// The adopting parents that a lowercase code names.
pub open spec fn adopted_of_code(l: Seq<char>) -> Option<AdoptedByWhichParent> {
    if l == "husb"@ {
        Some(AdoptedByWhichParent::Husband)
    } else if l == "wife"@ {
        Some(AdoptedByWhichParent::Wife)
    } else if l == "both"@ {
        Some(AdoptedByWhichParent::Both)
    } else {
        None
    }
}

fn pedigree_from(text: &str) -> (r: Option<Pedigree>)
    ensures
        r == pedigree_of_code(lowercase(text@)),
{
    let lower = to_lowercase(text);
    let l = lower.as_str();
    if str_eq(l, "adopted") {
        Some(Pedigree::Adopted)
    } else if str_eq(l, "birth") {
        Some(Pedigree::Birth)
    } else if str_eq(l, "foster") {
        Some(Pedigree::Foster)
    } else if str_eq(l, "sealing") {
        Some(Pedigree::Sealing)
    } else {
        None
    }
}

fn child_status_from(text: &str) -> (r: Option<ChildLinkStatus>)
    ensures
        r == child_status_of_code(lowercase(text@)),
{
    let lower = to_lowercase(text);
    let l = lower.as_str();
    if str_eq(l, "challenged") {
        Some(ChildLinkStatus::Challenged)
    } else if str_eq(l, "disproven") {
        Some(ChildLinkStatus::Disproven)
    } else if str_eq(l, "proven") {
        Some(ChildLinkStatus::Proven)
    } else {
        None
    }
}

fn adopted_from(text: &str) -> (r: Option<AdoptedByWhichParent>)
    ensures
        r == adopted_of_code(lowercase(text@)),
{
    let lower = to_lowercase(text);
    let l = lower.as_str();
    if str_eq(l, "husb") {
        Some(AdoptedByWhichParent::Husband)
    } else if str_eq(l, "wife") {
        Some(AdoptedByWhichParent::Wife)
    } else if str_eq(l, "both") {
        Some(AdoptedByWhichParent::Both)
    } else {
        None
    }
}

impl FamilyLink {
    /// Reads a `FAMC` or `FAMS` structure at `level`; its value is the family.
    pub fn new(tokenizer: &mut Tokenizer, level: u8, tag: &str) -> (r: Result<FamilyLink, GedcomError>)
        requires
            old(tokenizer).wf(),
            old(tokenizer).token() is Tag,
            tag@ == "FAMC"@ || tag@ == "FAMS"@,
        ensures
            record_read(*old(tokenizer), *final(tokenizer), r is Ok, level),
            r matches Ok(f) ==> f.xref@ == line_value(*old(tokenizer)) && f.family_link_type == link_type_of_tag(tag@),
            r is Ok <==> value_subset_end::<FamilyLink>(old(tokenizer).input(), old(tokenizer).state(), level) is Ok,
            r is Ok ==> value_subset_end::<FamilyLink>(old(tokenizer).input(), old(tokenizer).state(), level) == Ok::<TokState, ()>(final(tokenizer).state()),
            r matches Ok(x) ==> x.holds(old(tokenizer).input(), value_subset_kids::<FamilyLink>(old(tokenizer).input(), old(tokenizer).state(), level), level),
    {
        let xref = tokenizer.take_line_value()?;
        let link_type = if str_eq(tag, "FAMC") { FamilyLinkType::Child } else { FamilyLinkType::Spouse };
        let mut family_link = FamilyLink {
            xref: String::new(),
            family_link_type: link_type,
            pedigree_linkage_type: None,
            child_linkage_status: None,
            adopted_by: None,
            note: None,
            custom_data: Vec::new(),
        };
        let custom = parse_subset(tokenizer, level, &mut family_link)?;
        family_link.custom_data = custom;
        family_link.xref = xref;
        family_link.family_link_type = link_type;
        Ok(family_link)
    }

    /// Sets the pedigree from its code, in any case.
    pub fn set_pedigree(&mut self, pedigree_text: &str)
        requires
            pedigree_of_code(lowercase(pedigree_text@)) is Some,
        ensures
            final(self).pedigree_linkage_type == pedigree_of_code(lowercase(pedigree_text@)),
            final(self).xref == old(self).xref,
            final(self).family_link_type == old(self).family_link_type,
            final(self).child_linkage_status == old(self).child_linkage_status,
            final(self).adopted_by == old(self).adopted_by,
            final(self).note == old(self).note,
            final(self).custom_data == old(self).custom_data,
    {
        self.pedigree_linkage_type = pedigree_from(pedigree_text);
    }

    /// Sets the status of the link from its code, in any case.
    pub fn set_child_linkage_status(&mut self, status_text: &str)
        requires
            child_status_of_code(lowercase(status_text@)) is Some,
        ensures
            final(self).child_linkage_status == child_status_of_code(lowercase(status_text@)),
            final(self).xref == old(self).xref,
            final(self).family_link_type == old(self).family_link_type,
            final(self).pedigree_linkage_type == old(self).pedigree_linkage_type,
            final(self).adopted_by == old(self).adopted_by,
            final(self).note == old(self).note,
            final(self).custom_data == old(self).custom_data,
    {
        self.child_linkage_status = child_status_from(status_text);
    }

    /// Sets which parents adopted the child from its code, in any case.
    pub fn set_adopted_by_which_parent(&mut self, adopted_by_text: &str)
        requires
            adopted_of_code(lowercase(adopted_by_text@)) is Some,
        ensures
            final(self).adopted_by == adopted_of_code(lowercase(adopted_by_text@)),
            final(self).xref == old(self).xref,
            final(self).family_link_type == old(self).family_link_type,
            final(self).pedigree_linkage_type == old(self).pedigree_linkage_type,
            final(self).child_linkage_status == old(self).child_linkage_status,
            final(self).note == old(self).note,
            final(self).custom_data == old(self).custom_data,
    {
        self.adopted_by = adopted_from(adopted_by_text);
    }

    /// The status of the link, if given.
    pub fn child_linkage_status(&self) -> (r: Option<&ChildLinkStatus>)
        ensures
            match self.child_linkage_status {
                Some(s) => r == Some(&s),
                None => r is None,
            },
    {
        self.child_linkage_status.as_ref()
    }
}

impl TagHandler for FamilyLink {
    open spec fn exact() -> bool {
        true
    }

    open spec fn tag_end(s: Seq<char>, st: TokState, t: Seq<char>, level: u8) -> Result<TokState, ()> {
        if t == "PEDI"@ {
            match take_value(s, st) {
            Ok((st1, v)) => if pedigree_of_code(lowercase(v)) is Some {
                Ok(st1)
            } else {
                Err(())
            },
            Err(_) => Err(()),
        }
        } else if t == "STAT"@ {
            match take_value(s, st) {
            Ok((st1, v)) => if child_status_of_code(lowercase(v)) is Some {
                Ok(st1)
            } else {
                Err(())
            },
            Err(_) => Err(()),
        }
        } else if t == "NOTE"@ {
            shared_end(Shared::Note, s, st, spec_child_level(level))
        } else if t == "ADOP"@ {
            match take_value(s, st) {
            Ok((st1, v)) => if adopted_of_code(lowercase(v)) is Some {
                Ok(st1)
            } else {
                Err(())
            },
            Err(_) => Err(()),
        }
        } else {
            Err(())
        }
    }

    open spec fn holds(&self, s: Seq<char>, kids: Seq<(Seq<char>, TokState)>, level: u8) -> bool {
        &&& self.pedigree_linkage_type == match last_tag_value(s, kids, "PEDI"@) {
            Some(v) => pedigree_of_code(lowercase(v)),
            None => None,
        }
        &&& self.child_linkage_status == match last_tag_value(s, kids, "STAT"@) {
            Some(v) => child_status_of_code(lowercase(v)),
            None => None,
        }
        &&& self.adopted_by == match last_tag_value(s, kids, "ADOP"@) {
            Some(v) => adopted_of_code(lowercase(v)),
            None => None,
        }
        &&& (match last_tag_state(kids, "NOTE"@) {
            Some(_) => self.note is Some,
            None => self.note is None,
        })
    }

    fn handle_tag(&mut self, tag: &str, tokenizer: &mut Tokenizer, level: u8) -> (r: Result<(), GedcomError>) {
        proof {
            reveal_strlit("PEDI");
            assert("PEDI"@.len() == 4);
            reveal_strlit("STAT");
            assert("STAT"@.len() == 4);
            reveal_strlit("NOTE");
            assert("NOTE"@.len() == 4);
            reveal_strlit("ADOP");
            assert("ADOP"@.len() == 4);
            assert("PEDI"@[0] != "STAT"@[0]);
            assert("PEDI"@[0] != "NOTE"@[0]);
            assert("PEDI"@[0] != "ADOP"@[0]);
            assert("STAT"@[0] != "NOTE"@[0]);
            assert("STAT"@[0] != "ADOP"@[0]);
            assert("NOTE"@[0] != "ADOP"@[0]);
        }
        if str_eq(tag, "PEDI") {
            let code = tokenizer.take_line_value()?;
            if pedigree_from(code.as_str()).is_none() {
                return Err(tag_error("Unrecognized FamilyLink.pedigree code: ", code.as_str(), tokenizer.line()));
            }
            self.set_pedigree(code.as_str());
        } else if str_eq(tag, "STAT") {
            let code = tokenizer.take_line_value()?;
            if child_status_from(code.as_str()).is_none() {
                return Err(tag_error("Unrecognized FamilyLink.child_linkage_status code: ", code.as_str(), tokenizer.line()));
            }
            self.set_child_linkage_status(code.as_str());
        } else if str_eq(tag, "NOTE") {
            self.note = Some(Note::new(tokenizer, child_level(level))?);
        } else if str_eq(tag, "ADOP") {
            let code = tokenizer.take_line_value()?;
            if adopted_from(code.as_str()).is_none() {
                return Err(tag_error("Unrecognized FamilyLink.adopted_by code: ", code.as_str(), tokenizer.line()));
            }
            self.set_adopted_by_which_parent(code.as_str());
        } else {
            return Err(tag_error("Unhandled FamilyLink Tag: ", tag, tokenizer.line()));
        }
        proof {
            let kid = (tag@, old(tokenizer).state());
            assert forall|kids: Seq<(Seq<char>, TokState)>| old(self).holds(old(tokenizer).input(), kids, level)
                implies #[trigger] self.holds(old(tokenizer).input(), kids.push(kid), level) by {
                lemma_kids_push(old(tokenizer).input(), kids, kid);
            }
        }
        Ok(())
    }
}

impl Parser for FamilyLink {
    fn parse(&mut self, tokenizer: &mut Tokenizer, level: u8) -> (r: Result<(), GedcomError>) 
        ensures
            r is Ok ==> at_level_end(*final(tokenizer), level),
            r is Ok <==> subset_end::<FamilyLink>(old(tokenizer).input(), old(tokenizer).state(), level) is Ok,
            r is Ok && old(self).holds(old(tokenizer).input(), Seq::empty(), level)
                ==> final(self).holds(old(tokenizer).input(), subset_kids::<FamilyLink>(old(tokenizer).input(), old(tokenizer).state(), level), level),
    {
        let custom = parse_subset(tokenizer, level, self)?;
        self.custom_data = custom;
        Ok(())
    }
}

} // verus!
