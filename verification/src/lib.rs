//! Parsing of GEDCOM, the text format in which genealogy programs exchange
//! family history: individuals, families, sources, notes and the links
//! between them.
use vstd::prelude::*;
use vstd::std_specs::iter::IteratorSpec;

pub mod builder;
pub mod cli;
pub mod debug;
pub mod display;
pub mod encoding;
pub mod error;
pub mod gedzip;
pub mod indexed;
pub mod parser;
pub mod references;
pub mod stream;
pub mod text;
pub mod tokenizer;
pub mod types;

pub use builder::{GedcomBuilder, ParserConfig};
pub use debug::ImprovedDebug;
pub use display::DisplayText;
pub use encoding::{decode_gedcom_bytes, detect_encoding, GedcomEncoding};
pub use error::GedcomError;

use crate::parser::same_text;
use crate::stream::initial_state;
use crate::tokenizer::{step, Tokenizer, TokState};
use crate::types::records::{holds_contents, holds_records, records_accepted, records_walk};
use crate::types::GedcomData;

verus! {

/// A GEDCOM text ready to be parsed: its tokenizer, moved to the first token.
pub struct Gedcom {
    tokenizer: Tokenizer,
}

impl Gedcom {
    /// The tokenizer of the text.
    pub closed spec fn tokenizer_state(&self) -> Tokenizer {
        self.tokenizer
    }

    /// Prepares the text that `chars` yields: reads its first token, which
    /// fails when the text does not begin with a level number.
    pub fn new(chars: std::str::Chars<'_>) -> (r: Result<Gedcom, GedcomError>)
        ensures
            r is Ok <==> step(chars.remaining(), initial_state()) is Ok,
            r is Err ==> (r->Err_0 matches GedcomError::ParseError { line, .. } && line == 0),
            r matches Ok(g) ==> g.tokenizer_state().input() == chars.remaining(),
            r matches Ok(g) ==> g.tokenizer_state().wf(),
            r matches Ok(g) ==> step(g.tokenizer_state().input(), initial_state()) == Ok::<TokState, ()>(
                g.tokenizer_state().state(),
            ),
    {
        let mut tokenizer = Tokenizer::new(chars);
        tokenizer.next_token()?;
        Ok(Gedcom { tokenizer })
    }

    /// Parses the records of the text, from the first to the `TRLR` line.
    ///
    /// The records are those on the lines at level 0, by kind, in the order
    /// of the file, each with the xref of its line.
    pub fn parse_data(&mut self) -> (r: Result<GedcomData, GedcomError>)
        requires
            old(self).tokenizer_state().wf(),
        ensures
            same_text(old(self).tokenizer_state(), final(self).tokenizer_state()),
            r is Ok ==> (records_walk(old(self).tokenizer_state().input(), old(self).tokenizer_state().state(), 0)
                matches Ok(recs) && holds_records(r->Ok_0, recs)
                && holds_contents(r->Ok_0, old(self).tokenizer_state().input(), recs, 0)),
            r is Ok <==> records_accepted(old(self).tokenizer_state().input(), old(self).tokenizer_state().state(), 0),
    {
        GedcomData::new(&mut self.tokenizer, 0)
    }
}

} // verus!
