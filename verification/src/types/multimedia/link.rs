//! Links from a submitter to multimedia.
use vstd::prelude::*;
use crate::error::GedcomError;
use crate::parser::{at_level_end, child_level, parse_subset, record_read, spec_child_level, step_subset_end, tag_error, value_end, value_flat_end, value_subset_end, Parser, TagHandler};
use crate::text::str_eq;
use crate::tokenizer::{TokState, Tokenizer};
use crate::types::multimedia::file::Reference;
use crate::types::multimedia::format::Format;
use crate::types::Xref;

verus! {

/// A link to a multimedia object: its identifier, file, format and title.
#[derive(Clone, Debug, PartialEq)]
pub struct Link {
    pub xref: Option<Xref>,
    pub file: Option<Reference>,
    pub form: Option<Format>,
    pub title: Option<String>,
}

impl TagHandler for Link {
    open spec fn exact() -> bool {
        true
    }

    open spec fn tag_end(s: Seq<char>, st: TokState, t: Seq<char>, level: u8) -> Result<TokState, ()> {
        if t == "FILE"@ {
            value_subset_end::<Reference>(s, st, spec_child_level(level))
        } else if t == "FORM"@ {
            value_flat_end::<Format>(s, st, spec_child_level(level))
        } else if t == "TITL"@ {
            value_end(s, st)
        } else {
            Err(())
        }
    }

    fn handle_tag(&mut self, tag: &str, tokenizer: &mut Tokenizer, level: u8) -> (r: Result<(), GedcomError>) {
        if str_eq(tag, "FILE") {
            self.file = Some(Reference::new(tokenizer, child_level(level))?);
        } else if str_eq(tag, "FORM") {
            self.form = Some(Format::new(tokenizer, child_level(level))?);
        } else if str_eq(tag, "TITL") {
            self.title = Some(tokenizer.take_line_value()?);
        } else {
            return Err(tag_error("Unhandled Link Tag: ", tag, tokenizer.line()));
        }
        Ok(())
    }
}

impl Link {
    /// Reads an `OBJE` link at `level` whose identifier is `xref`.
    pub fn new(tokenizer: &mut Tokenizer, level: u8, xref: Option<Xref>) -> (r: Result<Link, GedcomError>)
        requires
            old(tokenizer).wf(),
            old(tokenizer).token() is Tag,
        ensures
            record_read(*old(tokenizer), *final(tokenizer), r is Ok, level),
            r matches Ok(l) ==> l.xref == xref,
            r is Ok <==> step_subset_end::<Link>(old(tokenizer).input(), old(tokenizer).state(), level) is Ok,
            r is Ok ==> step_subset_end::<Link>(old(tokenizer).input(), old(tokenizer).state(), level) == Ok::<TokState, ()>(final(tokenizer).state()),
    {
        let mut obje = Link { xref: None, file: None, form: None, title: None };
        tokenizer.next_token()?;
        parse_subset(tokenizer, level, &mut obje)?;
        obje.xref = xref;
        Ok(obje)
    }
}

impl Parser for Link {
    fn parse(&mut self, tokenizer: &mut Tokenizer, level: u8) -> (r: Result<(), GedcomError>) 
        ensures
            r is Ok ==> at_level_end(*final(tokenizer), level),
            r is Ok <==> step_subset_end::<Link>(old(tokenizer).input(), old(tokenizer).state(), level) is Ok,
    {
        tokenizer.next_token()?;
        parse_subset(tokenizer, level, self)?;
        Ok(())
    }
}

} // verus!
