//! The data that a header's source program names.
use vstd::prelude::*;
use crate::error::GedcomError;
use crate::parser::{at_level_end, child_level, continued_end, line_value, parse_subset, record_read, spec_child_level, tag_error, value_flat_end, value_subset_end, Parser, TagHandler};
use crate::text::str_eq;
use crate::tokenizer::{TokState, Tokenizer};
use crate::types::date::Date;

verus! {

/// The name of the source data, its date and its copyright.
#[derive(Clone, Debug)]
pub struct HeadSourData {
    pub value: Option<String>,
    pub date: Option<Date>,
    pub copyright: Option<String>,
}

impl TagHandler for HeadSourData {
    open spec fn exact() -> bool {
        true
    }

    open spec fn tag_end(s: Seq<char>, st: TokState, t: Seq<char>, level: u8) -> Result<TokState, ()> {
        if t == "DATE"@ {
            value_flat_end::<Date>(s, st, spec_child_level(level))
        } else if t == "COPR"@ {
            continued_end(s, st, spec_child_level(level))
        } else {
            Err(())
        }
    }

    fn handle_tag(&mut self, tag: &str, tokenizer: &mut Tokenizer, level: u8) -> (r: Result<(), GedcomError>) {
        if str_eq(tag, "DATE") {
            self.date = Some(Date::new(tokenizer, child_level(level))?);
        } else if str_eq(tag, "COPR") {
            self.copyright = Some(tokenizer.take_continued_text(child_level(level))?);
        } else {
            return Err(tag_error("Unhandled HeadSourData Tag: ", tag, tokenizer.line()));
        }
        Ok(())
    }
}

impl HeadSourData {
    /// Reads a `DATA` structure of a header source at `level`.
    pub fn new(tokenizer: &mut Tokenizer, level: u8) -> (r: Result<HeadSourData, GedcomError>)
        requires
            old(tokenizer).wf(),
            old(tokenizer).token() is Tag,
        ensures
            record_read(*old(tokenizer), *final(tokenizer), r is Ok, level),
            r matches Ok(x) ==> x.value matches Some(v) && v@ == line_value(*old(tokenizer)),
            r is Ok <==> value_subset_end::<HeadSourData>(old(tokenizer).input(), old(tokenizer).state(), level) is Ok,
            r is Ok ==> value_subset_end::<HeadSourData>(old(tokenizer).input(), old(tokenizer).state(), level) == Ok::<TokState, ()>(final(tokenizer).state()),
    {
        let value = tokenizer.take_line_value()?;
        let mut data = HeadSourData { value: None, date: None, copyright: None };
        parse_subset(tokenizer, level, &mut data)?;
        data.value = Some(value);
        Ok(data)
    }
}

impl Parser for HeadSourData {
    fn parse(&mut self, tokenizer: &mut Tokenizer, level: u8) -> (r: Result<(), GedcomError>) 
        ensures
            r is Ok ==> at_level_end(*final(tokenizer), level),
            r is Ok <==> value_subset_end::<HeadSourData>(old(tokenizer).input(), old(tokenizer).state(), level) is Ok,
    {
        self.value = Some(tokenizer.take_line_value()?);
        parse_subset(tokenizer, level, self)?;
        Ok(())
    }
}

} // verus!
