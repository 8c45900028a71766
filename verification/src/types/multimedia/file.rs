//! The file of a multimedia record.
use vstd::prelude::*;
use crate::error::GedcomError;
use crate::parser::{at_level_end, child_level, line_value, parse_subset, record_read, spec_child_level, step_subset_end, tag_error, value_end, value_flat_end, value_subset_end, Parser, TagHandler};
use crate::text::str_eq;
use crate::tokenizer::{TokState, Tokenizer};
use crate::types::gedcom7::Crop;
use crate::types::multimedia::format::Format;

verus! {

/// A reference to a file: where it is, its title and format, and how to crop it.
#[derive(Clone, Debug, PartialEq)]
pub struct Reference {
    pub value: Option<String>,
    pub title: Option<String>,
    pub form: Option<Format>,
    pub crop: Option<Crop>,
}

impl TagHandler for Reference {
    open spec fn exact() -> bool {
        true
    }

    open spec fn tag_end(s: Seq<char>, st: TokState, t: Seq<char>, level: u8) -> Result<TokState, ()> {
        if t == "TITL"@ {
            value_end(s, st)
        } else if t == "FORM"@ {
            value_flat_end::<Format>(s, st, spec_child_level(level))
        } else if t == "CROP"@ {
            step_subset_end::<Crop>(s, st, spec_child_level(level))
        } else {
            Err(())
        }
    }

    fn handle_tag(&mut self, tag: &str, tokenizer: &mut Tokenizer, level: u8) -> (r: Result<(), GedcomError>) {
        if str_eq(tag, "TITL") {
            self.title = Some(tokenizer.take_line_value()?);
        } else if str_eq(tag, "FORM") {
            self.form = Some(Format::new(tokenizer, child_level(level))?);
        } else if str_eq(tag, "CROP") {
            self.crop = Some(Crop::new(tokenizer, child_level(level))?);
        } else {
            return Err(tag_error("Unhandled MultimediaFileRefn Tag: ", tag, tokenizer.line()));
        }
        Ok(())
    }
}

impl Reference {
    /// Reads a `FILE` structure at `level`.
    pub fn new(tokenizer: &mut Tokenizer, level: u8) -> (r: Result<Reference, GedcomError>)
        requires
            old(tokenizer).wf(),
            old(tokenizer).token() is Tag,
        ensures
            record_read(*old(tokenizer), *final(tokenizer), r is Ok, level),
            r matches Ok(x) ==> x.value matches Some(v) && v@ == line_value(*old(tokenizer)),
            r is Ok <==> value_subset_end::<Reference>(old(tokenizer).input(), old(tokenizer).state(), level) is Ok,
            r is Ok ==> value_subset_end::<Reference>(old(tokenizer).input(), old(tokenizer).state(), level) == Ok::<TokState, ()>(final(tokenizer).state()),
    {
        let value = tokenizer.take_line_value()?;
        let mut file = Reference { value: None, title: None, form: None, crop: None };
        parse_subset(tokenizer, level, &mut file)?;
        file.value = Some(value);
        Ok(file)
    }
}

impl Parser for Reference {
    fn parse(&mut self, tokenizer: &mut Tokenizer, level: u8) -> (r: Result<(), GedcomError>) 
        ensures
            r is Ok ==> at_level_end(*final(tokenizer), level),
            r is Ok <==> value_subset_end::<Reference>(old(tokenizer).input(), old(tokenizer).state(), level) is Ok,
    {
        self.value = Some(tokenizer.take_line_value()?);
        parse_subset(tokenizer, level, self)?;
        Ok(())
    }
}

} // verus!
