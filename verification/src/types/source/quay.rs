//! How certain a cited fact is.
use vstd::prelude::*;
use vstd::string::StringExecFns;
use crate::error::GedcomError;
use crate::parser::{line_value, value_read, Parser};
use crate::text::str_eq;
use crate::tokenizer::{take_value, Token, Tokenizer};

verus! {

/// The quality of the evidence for a fact (`QUAY`, 0 to 3).
#[derive(Clone, Copy, Debug, PartialEq, Eq)]
pub enum CertaintyAssessment {
    Unreliable,
    Questionable,
    Secondary,
    Direct,
    NotGiven,
}

/// The assessment that a `QUAY` value names.
pub open spec fn assessment_of(v: Seq<char>) -> Option<CertaintyAssessment> {
    if v == "0"@ {
        Some(CertaintyAssessment::Unreliable)
    } else if v == "1"@ {
        Some(CertaintyAssessment::Questionable)
    } else if v == "2"@ {
        Some(CertaintyAssessment::Secondary)
    } else if v == "3"@ {
        Some(CertaintyAssessment::Direct)
    } else {
        Option::None
    }
}

impl CertaintyAssessment {
    /// Reads a `QUAY` structure at `level`: the tag and its value, 0 to 3.
    pub fn new(tokenizer: &mut Tokenizer, level: u8) -> (r: Result<CertaintyAssessment, GedcomError>)
        requires
            old(tokenizer).wf(),
            old(tokenizer).token() is Tag,
        ensures
            value_read(*old(tokenizer), *final(tokenizer), r is Ok),
            r is Ok <==> (take_value(old(tokenizer).input(), old(tokenizer).state()) matches Ok((_, v))
                && assessment_of(v) is Some),
            r matches Ok(q) ==> Some(q) == assessment_of(line_value(*old(tokenizer))),
            r is Ok ==> crate::parser::value_end(old(tokenizer).input(), old(tokenizer).state())
                == Ok::<crate::tokenizer::TokState, ()>(final(tokenizer).state()),
    {
        proof {
            reveal_strlit("0");
            reveal_strlit("1");
            reveal_strlit("2");
            reveal_strlit("3");
            // an empty value names no assessment
            assert(Seq::<char>::empty().len() == 0);
            assert(Seq::<char>::empty() != "0"@);
            assert(Seq::<char>::empty() != "1"@);
            assert(Seq::<char>::empty() != "2"@);
            assert(Seq::<char>::empty() != "3"@);
        }
        let mut quay = CertaintyAssessment::NotGiven;
        tokenizer.next_token()?;
        let value = match tokenizer.current_token() {
            Token::LineValue(val) => val.clone(),
            _ => {
                return Err(GedcomError::ParseError {
                    line: tokenizer.line(),
                    message: String::from_str("Expected CertaintyAssessment LineValue"),
                });
            },
        };
        match Self::from_value(value.as_str()) {
            Some(q) => quay = q,
            Option::None => {
                return Err(GedcomError::ParseError {
                    line: tokenizer.line(),
                    message: String::from_str("Unknown CertaintyAssessment value ").concat(value.as_str()),
                });
            },
        }
        tokenizer.next_token()?;
        Ok(quay)
    }

    /// The assessment that a `QUAY` value names, if any.
    pub fn from_value(v: &str) -> (r: Option<CertaintyAssessment>)
        ensures
            r == assessment_of(v@),
    {
        proof {
            reveal_strlit("0");
            reveal_strlit("1");
            reveal_strlit("2");
            reveal_strlit("3");
        }
        if str_eq(v, "0") {
            Some(CertaintyAssessment::Unreliable)
        } else if str_eq(v, "1") {
            Some(CertaintyAssessment::Questionable)
        } else if str_eq(v, "2") {
            Some(CertaintyAssessment::Secondary)
        } else if str_eq(v, "3") {
            Some(CertaintyAssessment::Direct)
        } else {
            Option::None
        }
    }

    /// The number of the assessment, 0 to 3; none when no value was given.
    pub fn get_int(&self) -> (r: Option<u8>)
        ensures
            r == (match self {
                CertaintyAssessment::Unreliable => Some(0u8),
                CertaintyAssessment::Questionable => Some(1u8),
                CertaintyAssessment::Secondary => Some(2u8),
                CertaintyAssessment::Direct => Some(3u8),
                CertaintyAssessment::NotGiven => Option::<u8>::None,
            }),
    {
        match self {
            CertaintyAssessment::Unreliable => Some(0),
            CertaintyAssessment::Questionable => Some(1),
            CertaintyAssessment::Secondary => Some(2),
            CertaintyAssessment::Direct => Some(3),
            CertaintyAssessment::NotGiven => Option::None,
        }
    }

    /// The name of the variant, as `Display` writes it.
    pub fn to_display_string(&self) -> (r: String)
        ensures
            r@ == (match self {
                CertaintyAssessment::Unreliable => "Unreliable"@,
                CertaintyAssessment::Questionable => "Questionable"@,
                CertaintyAssessment::Secondary => "Secondary"@,
                CertaintyAssessment::Direct => "Direct"@,
                CertaintyAssessment::NotGiven => "None"@,
            }),
    {
        match self {
            CertaintyAssessment::Unreliable => String::from_str("Unreliable"),
            CertaintyAssessment::Questionable => String::from_str("Questionable"),
            CertaintyAssessment::Secondary => String::from_str("Secondary"),
            CertaintyAssessment::Direct => String::from_str("Direct"),
            CertaintyAssessment::NotGiven => String::from_str("None"),
        }
    }
}

impl Parser for CertaintyAssessment {
    fn parse(&mut self, tokenizer: &mut Tokenizer, level: u8) -> (r: Result<(), GedcomError>)
        ensures
            r is Ok <==> (take_value(old(tokenizer).input(), old(tokenizer).state()) matches Ok((_, v))
                && old(tokenizer).token() is Tag
                && assessment_of(v) is Some),
            r is Ok ==> Some(*final(self)) == assessment_of(line_value(*old(tokenizer))),
            r is Ok ==> crate::parser::advanced(*old(tokenizer), *final(tokenizer)),
    {
        if let Token::Tag(_) = tokenizer.current_token() {
            *self = CertaintyAssessment::new(tokenizer, level)?;
            Ok(())
        } else {
            Err(GedcomError::ParseError { line: tokenizer.line(), message: String::from_str("Expected the QUAY tag") })
        }
    }
}

} // verus!
