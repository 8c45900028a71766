//! The program that produced a file.
use vstd::prelude::*;
use crate::error::GedcomError;
use crate::parser::{at_level_end, child_level, line_value, parse_subset, record_read, spec_child_level, tag_error, value_end, value_subset_end, Parser, TagHandler};
use crate::text::str_eq;
use crate::tokenizer::{TokState, Tokenizer};
use crate::types::corporation::Corporation;
use crate::types::header::source::data::HeadSourData;

pub mod data;

verus! {

/// The system that produced a file: its identifier, version, name, maker and data.
#[derive(Clone, Debug)]
pub struct HeadSour {
    pub value: Option<String>,
    pub version: Option<String>,
    pub name: Option<String>,
    pub corporation: Option<Corporation>,
    pub data: Option<HeadSourData>,
}

impl TagHandler for HeadSour {
    open spec fn exact() -> bool {
        true
    }

    open spec fn tag_end(s: Seq<char>, st: TokState, t: Seq<char>, level: u8) -> Result<TokState, ()> {
        if t == "VERS"@ || t == "NAME"@ {
            value_end(s, st)
        } else if t == "CORP"@ {
            value_subset_end::<Corporation>(s, st, spec_child_level(level))
        } else if t == "DATA"@ {
            value_subset_end::<HeadSourData>(s, st, spec_child_level(level))
        } else {
            Err(())
        }
    }

    fn handle_tag(&mut self, tag: &str, tokenizer: &mut Tokenizer, level: u8) -> (r: Result<(), GedcomError>) {
        if str_eq(tag, "VERS") {
            self.version = Some(tokenizer.take_line_value()?);
        } else if str_eq(tag, "NAME") {
            self.name = Some(tokenizer.take_line_value()?);
        } else if str_eq(tag, "CORP") {
            self.corporation = Some(Corporation::new(tokenizer, child_level(level))?);
        } else if str_eq(tag, "DATA") {
            self.data = Some(HeadSourData::new(tokenizer, child_level(level))?);
        } else {
            return Err(tag_error("Unhandled SOUR Tag: ", tag, tokenizer.line()));
        }
        Ok(())
    }
}

impl HeadSour {
    /// Reads a `SOUR` structure of the header at `level`.
    pub fn new(tokenizer: &mut Tokenizer, level: u8) -> (r: Result<HeadSour, GedcomError>)
        requires
            old(tokenizer).wf(),
            old(tokenizer).token() is Tag,
        ensures
            record_read(*old(tokenizer), *final(tokenizer), r is Ok, level),
            r matches Ok(x) ==> x.value matches Some(v) && v@ == line_value(*old(tokenizer)),
            r is Ok <==> value_subset_end::<HeadSour>(old(tokenizer).input(), old(tokenizer).state(), level) is Ok,
            r is Ok ==> value_subset_end::<HeadSour>(old(tokenizer).input(), old(tokenizer).state(), level) == Ok::<TokState, ()>(final(tokenizer).state()),
    {
        let value = tokenizer.take_line_value()?;
        let mut head_sour = HeadSour { value: None, version: None, name: None, corporation: None, data: None };
        parse_subset(tokenizer, level, &mut head_sour)?;
        head_sour.value = Some(value);
        Ok(head_sour)
    }
}

impl Parser for HeadSour {
    fn parse(&mut self, tokenizer: &mut Tokenizer, level: u8) -> (r: Result<(), GedcomError>) 
        ensures
            r is Ok ==> at_level_end(*final(tokenizer), level),
            r is Ok <==> value_subset_end::<HeadSour>(old(tokenizer).input(), old(tokenizer).state(), level) is Ok,
    {
        self.value = Some(tokenizer.take_line_value()?);
        parse_subset(tokenizer, level, self)?;
        Ok(())
    }
}

} // verus!
