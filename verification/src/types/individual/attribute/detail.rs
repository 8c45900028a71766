//! The details of an attribute of an individual.
use vstd::prelude::*;
use crate::types::shared::{shared_end, Shared};
use vstd::string::StringExecFns;
use crate::error::GedcomError;
use crate::parser::{after_value_subset_end, at_level_end, child_level, continued_end, kept_value, line_value, parse_subset, record_read, spec_child_level, tag_error, value_end, value_flat_end, value_subset_end, Parser, TagHandler};
use crate::text::str_eq;
use crate::tokenizer::{TokState, Token, Tokenizer};
use crate::types::address::{address_end, Address};
use crate::types::date::Date;
use crate::types::individual::attribute::{attribute_of_tag, IndividualAttribute};
use crate::types::note::Note;
use crate::types::place::Place;
use crate::types::source::citation::Citation;

verus! {

/// An attribute of an individual: its kind, its value and what describes it.
#[derive(Clone, Debug)]
pub struct AttributeDetail {
    pub attribute: IndividualAttribute,
    pub value: Option<String>,
    pub place: Option<Place>,
    pub date: Option<Date>,
    pub sources: Vec<Citation>,
    pub note: Option<Note>,
    pub attribute_type: Option<String>,
    pub restriction: Option<String>,
    pub age: Option<String>,
    pub address: Option<Address>,
    pub cause: Option<String>,
    pub agency: Option<String>,
}

impl AttributeDetail {
    /// Reads an attribute structure at `level` whose tag is `tag`; an unknown
    /// tag is an error.
    pub fn new(tokenizer: &mut Tokenizer, level: u8, tag: &str) -> (r: Result<AttributeDetail, GedcomError>)
        requires
            old(tokenizer).wf(),
            old(tokenizer).token() is Tag,
        ensures
            record_read(*old(tokenizer), *final(tokenizer), r is Ok, level),
            attribute_of_tag(tag@) is None ==> r is Err,
            r matches Ok(a) ==> Some(a.attribute) == attribute_of_tag(tag@),
            r matches Ok(a) ==> kept_value(a.value, line_value(*old(tokenizer))),
            r is Ok <==> (attribute_of_tag(tag@) is Some && after_value_subset_end::<AttributeDetail>(old(tokenizer).input(), old(tokenizer).state(), level) is Ok),
            r is Ok ==> after_value_subset_end::<AttributeDetail>(old(tokenizer).input(), old(tokenizer).state(), level) == Ok::<TokState, ()>(final(tokenizer).state()),
    {
        let attribute = Self::from_tag(tag, tokenizer.line())?;
        let mut detail = AttributeDetail {
            attribute,
            value: None,
            place: None,
            date: None,
            sources: Vec::new(),
            note: None,
            attribute_type: None,
            restriction: None,
            age: None,
            address: None,
            cause: None,
            agency: None,
        };
        tokenizer.next_token()?;
        let mut value = String::new();
        if let Token::LineValue(v) = tokenizer.current_token() {
            value.append(v.as_str());
            tokenizer.next_token()?;
        }
        parse_subset(tokenizer, level, &mut detail)?;
        detail.attribute = attribute;
        if value.as_str().is_empty() {
            detail.value = None;
        } else {
            detail.value = Some(value);
        }
        Ok(detail)
    }

    /// The kind of attribute that `tag` names; an unknown tag is an error at `line_number`.
    pub fn from_tag(tag: &str, line_number: u32) -> (r: Result<IndividualAttribute, GedcomError>)
        ensures
            match attribute_of_tag(tag@) {
                Some(a) => r == Ok::<IndividualAttribute, GedcomError>(a),
                None => r matches Err(GedcomError::ParseError { line, message })
                    && line == line_number && message@ == "Unhandled IndividualAttribute Tag: "@ + tag@,
            },
    {
        if str_eq(tag, "CAST") {
            Ok(IndividualAttribute::CastName)
        } else if str_eq(tag, "DSCR") {
            Ok(IndividualAttribute::PhysicalDescription)
        } else if str_eq(tag, "EDUC") {
            Ok(IndividualAttribute::ScholasticAchievement)
        } else if str_eq(tag, "IDNO") {
            Ok(IndividualAttribute::NationalIDNumber)
        } else if str_eq(tag, "NATI") {
            Ok(IndividualAttribute::NationalOrTribalOrigin)
        } else if str_eq(tag, "NCHI") {
            Ok(IndividualAttribute::CountOfChildren)
        } else if str_eq(tag, "NMR") {
            Ok(IndividualAttribute::CountOfMarriages)
        } else if str_eq(tag, "OCCU") {
            Ok(IndividualAttribute::Occupation)
        } else if str_eq(tag, "PROP") {
            Ok(IndividualAttribute::Possessions)
        } else if str_eq(tag, "RELI") {
            Ok(IndividualAttribute::ReligiousAffiliation)
        } else if str_eq(tag, "RESI") {
            Ok(IndividualAttribute::ResidesAt)
        } else if str_eq(tag, "SSN") {
            Ok(IndividualAttribute::SocialSecurityNumber)
        } else if str_eq(tag, "TITL") {
            Ok(IndividualAttribute::NobilityTypeTitle)
        } else if str_eq(tag, "FACT") {
            Ok(IndividualAttribute::Fact)
        } else {
            Err(tag_error("Unhandled IndividualAttribute Tag: ", tag, line_number))
        }
    }

    /// Adds a source of the attribute.
    pub fn add_source_citation(&mut self, sour: Citation)
        ensures
            final(self).sources@ == old(self).sources@.push(sour),
            final(self).attribute == old(self).attribute,
    {
        self.sources.push(sour);
    }
}

impl TagHandler for AttributeDetail {
    open spec fn exact() -> bool {
        true
    }

    open spec fn tag_end(s: Seq<char>, st: TokState, t: Seq<char>, level: u8) -> Result<TokState, ()> {
        if t == "DATE"@ {
            value_flat_end::<Date>(s, st, spec_child_level(level))
        } else if t == "SOUR"@ {
            shared_end(Shared::Citation, s, st, spec_child_level(level))
        } else if t == "PLAC"@ {
            value_subset_end::<Place>(s, st, spec_child_level(level))
        } else if t == "NOTE"@ {
            shared_end(Shared::Note, s, st, spec_child_level(level))
        } else if t == "TYPE"@ {
            continued_end(s, st, spec_child_level(level))
        } else if t == "RESN"@ {
            value_end(s, st)
        } else if t == "AGE"@ {
            value_end(s, st)
        } else if t == "ADDR"@ {
            address_end(s, st, spec_child_level(level))
        } else if t == "CAUS"@ {
            continued_end(s, st, spec_child_level(level))
        } else if t == "AGNC"@ {
            value_end(s, st)
        } else {
            value_end(s, st)
        }
    }

    fn handle_tag(&mut self, tag: &str, tokenizer: &mut Tokenizer, level: u8) -> (r: Result<(), GedcomError>) {
        let sub = child_level(level);
        if str_eq(tag, "DATE") {
            self.date = Some(Date::new(tokenizer, sub)?);
        } else if str_eq(tag, "SOUR") {
            let c = Citation::new(tokenizer, sub)?;
            self.add_source_citation(c);
        } else if str_eq(tag, "PLAC") {
            self.place = Some(Place::new(tokenizer, sub)?);
        } else if str_eq(tag, "NOTE") {
            self.note = Some(Note::new(tokenizer, sub)?);
        } else if str_eq(tag, "TYPE") {
            self.attribute_type = Some(tokenizer.take_continued_text(sub)?);
        } else if str_eq(tag, "RESN") {
            self.restriction = Some(tokenizer.take_line_value()?);
        } else if str_eq(tag, "AGE") {
            self.age = Some(tokenizer.take_line_value()?);
        } else if str_eq(tag, "ADDR") {
            self.address = Some(Address::new(tokenizer, sub)?);
        } else if str_eq(tag, "CAUS") {
            self.cause = Some(tokenizer.take_continued_text(sub)?);
        } else if str_eq(tag, "AGNC") {
            self.agency = Some(tokenizer.take_line_value()?);
        } else {
            // other tags are passed over with their values
            tokenizer.take_line_value()?;
        }
        Ok(())
    }
}

impl Parser for AttributeDetail {
    fn parse(&mut self, tokenizer: &mut Tokenizer, level: u8) -> (r: Result<(), GedcomError>) 
        ensures
            r is Ok ==> at_level_end(*final(tokenizer), level),
            r is Ok <==> after_value_subset_end::<AttributeDetail>(old(tokenizer).input(), old(tokenizer).state(), level) is Ok,
    {
        tokenizer.next_token()?;
        let mut value = String::new();
        if let Token::LineValue(v) = tokenizer.current_token() {
            value.append(v.as_str());
            tokenizer.next_token()?;
        }
        parse_subset(tokenizer, level, self)?;
        if !value.as_str().is_empty() {
            self.value = Some(value);
        }
        Ok(())
    }
}

} // verus!
