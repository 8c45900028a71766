//! Citations of a repository that holds a source.
use vstd::prelude::*;
use crate::types::shared::{shared_end, Shared};
use vstd::string::StringExecFns;
use crate::error::GedcomError;
use crate::parser::{at_level_end, child_level, line_value, parse_subset, record_read, spec_child_level, subset_end, value_end, value_subset_end, Parser, TagHandler};
use crate::text::{is_text, str_eq};
use crate::tokenizer::{TokState, Tokenizer};
use crate::types::custom::UserDefinedTag;
use crate::types::note::Note;
use crate::types::Xref;

verus! {

/// A citation of a repository (`REPO` below a source): the repository, and
/// where the source is found in it.
#[derive(Clone, Debug)]
pub struct Citation {
    pub xref: Xref,
    pub call_number: Option<String>,
    pub media_type: Option<String>,
    pub notes: Vec<Note>,
    pub custom_data: Vec<Box<UserDefinedTag>>,
}

impl Default for Citation {
    fn default() -> (r: Self)
        ensures
            r.xref@.len() == 0 && r.call_number is None && r.media_type is None,
            r.notes@.len() == 0 && r.custom_data@.len() == 0,
    {
        Citation { xref: String::new(), call_number: None, media_type: None, notes: Vec::new(), custom_data: Vec::new() }
    }
}

impl Citation {
    /// Reads a `REPO` structure of a source at `level`; its value is the repository.
    pub fn new(tokenizer: &mut Tokenizer, level: u8) -> (r: Result<Citation, GedcomError>)
        requires
            old(tokenizer).wf(),
            old(tokenizer).token() is Tag,
        ensures
            record_read(*old(tokenizer), *final(tokenizer), r is Ok, level),
            r matches Ok(c) ==> c.xref@ == line_value(*old(tokenizer)),
            r is Ok <==> value_subset_end::<Citation>(old(tokenizer).input(), old(tokenizer).state(), level) is Ok,
            r is Ok ==> value_subset_end::<Citation>(old(tokenizer).input(), old(tokenizer).state(), level) == Ok::<TokState, ()>(final(tokenizer).state()),
    {
        let xref = tokenizer.take_line_value()?;
        let mut rc = Citation::default();
        let custom = parse_subset(tokenizer, level, &mut rc)?;
        rc.custom_data = custom;
        rc.xref = xref;
        Ok(rc)
    }

    /// A citation of the repository `xref` and nothing more.
    pub fn for_repository(xref: &str) -> (r: Self)
        ensures
            r.xref@ == xref@,
            r.call_number is None && r.media_type is None,
            r.notes@.len() == 0 && r.custom_data@.len() == 0,
    {
        let mut c = Citation::default();
        c.xref = String::from_str(xref);
        c
    }

    /// Sets the call number.
    pub fn set_call_number(&mut self, call_number: &str)
        ensures
            is_text(final(self).call_number, call_number@),
            final(self).xref == old(self).xref,
            final(self).media_type == old(self).media_type,
    {
        self.call_number = Some(String::from_str(call_number));
    }

    /// Sets the kind of medium.
    pub fn set_media_type(&mut self, media_type: &str)
        ensures
            is_text(final(self).media_type, media_type@),
            final(self).xref == old(self).xref,
            final(self).call_number == old(self).call_number,
    {
        self.media_type = Some(String::from_str(media_type));
    }

    /// Whether a call number is given.
    pub fn has_call_number(&self) -> (r: bool)
        ensures
            r == self.call_number is Some,
    {
        self.call_number.is_some()
    }

    /// Whether a kind of medium is given.
    pub fn has_media_type(&self) -> (r: bool)
        ensures
            r == self.media_type is Some,
    {
        self.media_type.is_some()
    }
}

impl TagHandler for Citation {
    open spec fn exact() -> bool {
        true
    }

    open spec fn tag_end(s: Seq<char>, st: TokState, t: Seq<char>, level: u8) -> Result<TokState, ()> {
        if t == "CALN"@ {
            value_end(s, st)
        } else if t == "MEDI"@ {
            value_end(s, st)
        } else if t == "NOTE"@ {
            shared_end(Shared::Note, s, st, spec_child_level(level))
        } else {
            value_end(s, st)
        }
    }

    fn handle_tag(&mut self, tag: &str, tokenizer: &mut Tokenizer, level: u8) -> (r: Result<(), GedcomError>) {
        if str_eq(tag, "CALN") {
            self.call_number = Some(tokenizer.take_line_value()?);
        } else if str_eq(tag, "MEDI") {
            self.media_type = Some(tokenizer.take_line_value()?);
        } else if str_eq(tag, "NOTE") {
            let n = Note::new(tokenizer, child_level(level))?;
            self.notes.push(n);
        } else {
            // other tags are passed over with their values
            tokenizer.take_line_value()?;
        }
        Ok(())
    }
}

impl Parser for Citation {
    fn parse(&mut self, tokenizer: &mut Tokenizer, level: u8) -> (r: Result<(), GedcomError>) 
        ensures
            r is Ok ==> at_level_end(*final(tokenizer), level),
            r is Ok <==> subset_end::<Citation>(old(tokenizer).input(), old(tokenizer).state(), level) is Ok,
    {
        let custom = parse_subset(tokenizer, level, self)?;
        self.custom_data = custom;
        Ok(())
    }
}

} // verus!
