//! The age of a partner at a family event.
use vstd::prelude::*;
use crate::error::GedcomError;
use crate::parser::{at_level_end, parse_subset, record_read, step_subset_end, tag_error, value_end, Parser, TagHandler};
use crate::text::str_eq;
use crate::tokenizer::{TokState, Tokenizer};
use crate::types::event::spouse::Spouse;

verus! {

/// A partner's part in a family event: which partner, and their age.
#[derive(Clone, Debug, PartialEq)]
pub struct FamilyEventDetail {
    pub member: Spouse,
    pub age: Option<String>,
}

impl TagHandler for FamilyEventDetail {
    open spec fn exact() -> bool {
        true
    }

    open spec fn tag_end(s: Seq<char>, st: TokState, t: Seq<char>, level: u8) -> Result<TokState, ()> {
        if t == "AGE"@ {
            value_end(s, st)
        } else {
            Err(())
        }
    }

    fn handle_tag(&mut self, tag: &str, tokenizer: &mut Tokenizer, level: u8) -> (r: Result<(), GedcomError>) {
        if str_eq(tag, "AGE") {
            self.age = Some(tokenizer.take_line_value()?);
        } else {
            return Err(tag_error("Unhandled FamilyEventDetail Tag: ", tag, tokenizer.line()));
        }
        Ok(())
    }
}

/// The partner that a tag names: `HUSB` the first, `WIFE` the second.
pub open spec fn spouse_of_tag(tag: Seq<char>) -> Spouse {
    if tag == "HUSB"@ { Spouse::Spouse1 } else { Spouse::Spouse2 }
}

impl FamilyEventDetail {
    /// Reads a `HUSB` or `WIFE` structure of a family event at `level`.
    pub fn new(tokenizer: &mut Tokenizer, level: u8, tag: &str) -> (r: Result<FamilyEventDetail, GedcomError>)
        requires
            old(tokenizer).wf(),
            old(tokenizer).token() is Tag,
            tag@ == "HUSB"@ || tag@ == "WIFE"@,
        ensures
            record_read(*old(tokenizer), *final(tokenizer), r is Ok, level),
            r matches Ok(d) ==> d.member == spouse_of_tag(tag@),
            r is Ok <==> step_subset_end::<FamilyEventDetail>(old(tokenizer).input(), old(tokenizer).state(), level) is Ok,
            r is Ok ==> step_subset_end::<FamilyEventDetail>(old(tokenizer).input(), old(tokenizer).state(), level) == Ok::<TokState, ()>(final(tokenizer).state()),
    {
        let member = Self::from_tag(tag);
        let mut fe = FamilyEventDetail { member, age: None };
        tokenizer.next_token()?;
        parse_subset(tokenizer, level, &mut fe)?;
        fe.member = member;
        Ok(fe)
    }

    /// The partner that `tag` names.
    pub fn from_tag(tag: &str) -> (r: Spouse)
        requires
            tag@ == "HUSB"@ || tag@ == "WIFE"@,
        ensures
            r == spouse_of_tag(tag@),
    {
        if str_eq(tag, "HUSB") { Spouse::Spouse1 } else { Spouse::Spouse2 }
    }
}

impl Parser for FamilyEventDetail {
    fn parse(&mut self, tokenizer: &mut Tokenizer, level: u8) -> (r: Result<(), GedcomError>) 
        ensures
            r is Ok ==> at_level_end(*final(tokenizer), level),
            r is Ok <==> step_subset_end::<FamilyEventDetail>(old(tokenizer).input(), old(tokenizer).state(), level) is Ok,
    {
        tokenizer.next_token()?;
        parse_subset(tokenizer, level, self)?;
        Ok(())
    }
}

} // verus!
