//! The sex of an individual.
use vstd::prelude::*;
use crate::types::shared::{shared_end, Shared};
use vstd::string::StringExecFns;
use crate::error::GedcomError;
use crate::parser::{child_level, continued_end, line_value, parse_subset, record_read, spec_child_level, subset_end, tag_error, Parser, TagHandler};
use crate::text::str_eq;
use crate::tokenizer::{step, SpecToken, TokState, Token, Tokenizer};
use crate::types::custom::UserDefinedTag;
use crate::types::source::citation::Citation;

verus! {

/// The sex recorded for an individual.
#[derive(Clone, Copy, Debug, PartialEq, Eq, Structural)]
pub enum GenderType {
    Male,
    Female,
    Nonbinary,
    Unknown,
}

/// The name of a value.
pub open spec fn gender_name(g: GenderType) -> Seq<char> {
    match g {
        GenderType::Male => "Male"@,
        GenderType::Female => "Female"@,
        GenderType::Nonbinary => "Nonbinary"@,
        GenderType::Unknown => "Unknown"@,
    }
}

/// The sex that a `SEX` value names: `M`, `F`, `X` or `U`.
pub open spec fn gender_of_code(v: Seq<char>) -> Option<GenderType> {
    if v == "M"@ {
        Some(GenderType::Male)
    } else if v == "F"@ {
        Some(GenderType::Female)
    } else if v == "X"@ {
        Some(GenderType::Nonbinary)
    } else if v == "U"@ {
        Some(GenderType::Unknown)
    } else {
        None
    }
}

impl GenderType {
    /// The name of this value.
    pub fn to_display_string(&self) -> (r: String)
        ensures
            r@ == gender_name(*self),
    {
        match self {
            GenderType::Male => String::from_str("Male"),
            GenderType::Female => String::from_str("Female"),
            GenderType::Nonbinary => String::from_str("Nonbinary"),
            GenderType::Unknown => String::from_str("Unknown"),
        }
    }
}

/// The `SEX` structure of an individual: the sex, a fact about it and its sources.
#[derive(Clone, Debug)]
pub struct Gender {
    pub value: GenderType,
    pub fact: Option<String>,
    pub sources: Vec<Citation>,
    pub custom_data: Vec<Box<UserDefinedTag>>,
}

impl Default for Gender {
    fn default() -> (r: Self)
        ensures
            r.value == GenderType::Unknown,
            r.fact is None && r.sources@.len() == 0 && r.custom_data@.len() == 0,
    {
        Gender { value: GenderType::Unknown, fact: None, sources: Vec::new(), custom_data: Vec::new() }
    }
}

impl Gender {
    /// Reads a `SEX` structure at `level`. A value other than `M`, `F`, `X`
    /// or `U` is an error; a missing value leaves the sex unknown.
    pub fn new(tokenizer: &mut Tokenizer, level: u8) -> (r: Result<Gender, GedcomError>)
        requires
            old(tokenizer).wf(),
            old(tokenizer).token() is Tag,
        ensures
            record_read(*old(tokenizer), *final(tokenizer), r is Ok, level),
            r matches Ok(g) ==> (line_value(*old(tokenizer)).len() == 0 && g.value == GenderType::Unknown)
                || gender_of_code(line_value(*old(tokenizer))) == Some(g.value),
            (step(old(tokenizer).input(), old(tokenizer).state()) matches Ok(st1)
                && st1.token matches SpecToken::LineValue(c) && gender_of_code(c) is None) ==> r is Err,
            r is Ok <==> gender_end(old(tokenizer).input(), old(tokenizer).state(), level) is Ok,
            r is Ok ==> gender_end(old(tokenizer).input(), old(tokenizer).state(), level) == Ok::<TokState, ()>(final(tokenizer).state()),
    {
        let mut gender = Gender::default();
        tokenizer.next_token()?;
        let mut value = GenderType::Unknown;
        if let Token::LineValue(code) = tokenizer.current_token() {
            let c = code.as_str();
            if str_eq(c, "M") {
                value = GenderType::Male;
            } else if str_eq(c, "F") {
                value = GenderType::Female;
            } else if str_eq(c, "X") {
                value = GenderType::Nonbinary;
            } else if str_eq(c, "U") {
                value = GenderType::Unknown;
            } else {
                return Err(tag_error("Unknown gender value: ", c, tokenizer.line()));
            }
            tokenizer.next_token()?;
        }
        let custom = parse_subset(tokenizer, level, &mut gender)?;
        gender.custom_data = custom;
        gender.value = value;
        Ok(gender)
    }

    /// Adds a source of the recorded sex.
    pub fn add_source_citation(&mut self, sour: Citation)
        ensures
            final(self).sources@ == old(self).sources@.push(sour),
            final(self).value == old(self).value,
            final(self).fact == old(self).fact,
    {
        self.sources.push(sour);
    }
}

/// Where reading a `SEX` structure at `level` stops, from its tag at `st`:
/// the code after the tag, if there is one, must name a sex.
pub open spec fn gender_end(s: Seq<char>, st: TokState, level: u8) -> Result<TokState, ()> {
    match step(s, st) {
        Ok(st1) => match st1.token {
            SpecToken::LineValue(c) => if gender_of_code(c) is Some {
                match step(s, st1) {
                    Ok(st2) => subset_end::<Gender>(s, st2, level),
                    Err(_) => Err(()),
                }
            } else {
                Err(())
            },
            _ => subset_end::<Gender>(s, st1, level),
        },
        Err(_) => Err(()),
    }
}

impl TagHandler for Gender {
    open spec fn exact() -> bool {
        true
    }

    open spec fn tag_end(s: Seq<char>, st: TokState, t: Seq<char>, level: u8) -> Result<TokState, ()> {
        if t == "FACT"@ {
            continued_end(s, st, spec_child_level(level))
        } else if t == "SOUR"@ {
            shared_end(Shared::Citation, s, st, spec_child_level(level))
        } else {
            Err(())
        }
    }

    fn handle_tag(&mut self, tag: &str, tokenizer: &mut Tokenizer, level: u8) -> (r: Result<(), GedcomError>) {
        if str_eq(tag, "FACT") {
            self.fact = Some(tokenizer.take_continued_text(child_level(level))?);
        } else if str_eq(tag, "SOUR") {
            let c = Citation::new(tokenizer, child_level(level))?;
            self.add_source_citation(c);
        } else {
            return Err(tag_error("Unhandled Gender Tag: ", tag, tokenizer.line()));
        }
        Ok(())
    }
}

impl Parser for Gender {
    fn parse(&mut self, tokenizer: &mut Tokenizer, level: u8) -> (r: Result<(), GedcomError>)
        ensures
            r is Ok ==> crate::parser::at_level_end(*final(tokenizer), level),
            r is Ok ==> (line_value(*old(tokenizer)).len() == 0 && final(self).value == GenderType::Unknown)
                || gender_of_code(line_value(*old(tokenizer))) == Some(final(self).value),
            old(tokenizer).token() is Tag ==> ((step(old(tokenizer).input(), old(tokenizer).state()) matches Ok(st1)
                && st1.token matches SpecToken::LineValue(c) && gender_of_code(c) is None) ==> r is Err),
            !(old(tokenizer).token() is Tag) ==> r is Err,
            r is Ok <==> (old(tokenizer).token() is Tag && gender_end(old(tokenizer).input(), old(tokenizer).state(), level) is Ok),
    {
        if let Token::Tag(_) = tokenizer.current_token() {
            let g = Gender::new(tokenizer, level)?;
            *self = g;
            Ok(())
        } else {
            Err(GedcomError::ParseError { line: tokenizer.line(), message: String::from_str("Expected the SEX tag") })
        }
    }
}

} // verus!
