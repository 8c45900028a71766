//! Citations of a source.
use vstd::prelude::*;
use crate::error::GedcomError;
use crate::parser::{at_level_end, child_level, ends_within, line_value, record_read, same_text, subset_step, Parser, SubsetItem};
use crate::text::str_eq;
use crate::tokenizer::{TokState, Tokenizer};
use crate::types::shared::{lemma_shared_lines_done, lemma_shared_lines_step, shared_end, shared_lines_end, Shared};
use crate::types::custom::UserDefinedTag;
use crate::types::multimedia::Multimedia;
use crate::types::note::Note;
use crate::types::source::citation::data::Data as SourceCitationData;
use crate::types::source::quay::CertaintyAssessment;
use crate::types::Xref;

pub mod data;

verus! {

/// A citation of a source, with where in the source the fact was found.
#[derive(Debug)]
pub struct Citation {
    pub xref: Xref,
    pub page: Option<String>,
    pub data: Option<SourceCitationData>,
    pub note: Option<Note>,
    pub certainty_assessment: Option<CertaintyAssessment>,
    pub submitter_registered_rfn: Option<String>,
    pub multimedia: Vec<Multimedia>,
    pub custom_data: Vec<Box<UserDefinedTag>>,
    pub event_type: Option<String>,
    pub role: Option<String>,
}

impl Citation {
    /// Reads a `SOUR` citation at `level`; its value is the cited source.
    pub fn new(tokenizer: &mut Tokenizer, level: u8) -> (r: Result<Citation, GedcomError>)
        requires
            old(tokenizer).wf(),
            old(tokenizer).token() is Tag,
        ensures
            record_read(*old(tokenizer), *final(tokenizer), r is Ok, level),
            r matches Ok(c) ==> c.xref@ == line_value(*old(tokenizer)),
            r is Ok <==> shared_end(Shared::Citation, old(tokenizer).input(), old(tokenizer).state(), level) is Ok,
            r is Ok ==> shared_end(Shared::Citation, old(tokenizer).input(), old(tokenizer).state(), level) == Ok::<TokState, ()>(final(tokenizer).state()),
        decreases old(tokenizer).measure(), 0nat,
    {
        let xref = tokenizer.take_line_value()?;
        let mut citation = Citation {
            xref,
            page: None,
            data: None,
            note: None,
            certainty_assessment: None,
            submitter_registered_rfn: None,
            multimedia: Vec::new(),
            custom_data: Vec::new(),
            event_type: None,
            role: None,
        };
        citation.parse_lines(tokenizer, level)?;
        Ok(citation)
    }

    /// Adds a multimedia link.
    pub fn add_multimedia(&mut self, m: Multimedia)
        ensures
            final(self).multimedia@ == old(self).multimedia@.push(m),
            final(self).xref == old(self).xref,
    {
        self.multimedia.push(m);
    }

    #[verifier::rlimit(80)]
    fn parse_lines(&mut self, tokenizer: &mut Tokenizer, level: u8) -> (r: Result<(), GedcomError>)
        requires
            old(tokenizer).wf(),
        ensures
            same_text(*old(tokenizer), *final(tokenizer)),
            r is Ok ==> final(tokenizer).measure() <= old(tokenizer).measure(),
            r is Ok ==> at_level_end(*final(tokenizer), level),
            r is Ok ==> ends_within(*old(tokenizer), *final(tokenizer), level),
            final(self).xref == old(self).xref,
            r is Ok <==> shared_lines_end(Shared::Citation, old(tokenizer).input(), old(tokenizer).state(), level) is Ok,
            r is Ok ==> shared_lines_end(Shared::Citation, old(tokenizer).input(), old(tokenizer).state(), level) == Ok::<TokState, ()>(final(tokenizer).state()),
        decreases old(tokenizer).measure(), 1nat,
    {
        let ghost start = *old(tokenizer);
        let mut custom: Vec<Box<UserDefinedTag>> = Vec::new();
        loop
            invariant_except_break
                shared_lines_end(Shared::Citation, start.input(), tokenizer.state(), level) == shared_lines_end(Shared::Citation, start.input(), start.state(), level),
            invariant
                start == *old(tokenizer),
                same_text(start, *tokenizer),
                tokenizer.measure() <= start.measure(),
                ends_within(start, *tokenizer, level),
                self.xref == old(self).xref,
            ensures
                same_text(start, *tokenizer),
                tokenizer.measure() <= start.measure(),
                ends_within(start, *tokenizer, level),
                shared_lines_end(Shared::Citation, start.input(), start.state(), level) == Ok::<TokState, ()>(tokenizer.state()),
                at_level_end(*tokenizer, level),
                self.xref == old(self).xref,
            decreases tokenizer.measure(),
        {
            let ghost before = tokenizer.state();
            let item = subset_step(tokenizer, level, &mut custom)?;
            let ghost at = tokenizer.state();
            match item {
                SubsetItem::Done => {
                    proof {
                        lemma_shared_lines_done(Shared::Citation, start.input(), before, at, level);
                    }
                    break;
                },
                SubsetItem::Tag(tag) => {
                    proof {
                        lemma_shared_lines_step(Shared::Citation, start.input(), before, at, tag@, level);
                    }
                    let tag = tag.as_str();
                    if str_eq(tag, "PAGE") {
                        self.page = Some(tokenizer.take_continued_text(child_level(level))?);
                    } else if str_eq(tag, "DATA") {
                        self.data = Some(SourceCitationData::new(tokenizer, child_level(level))?);
                    } else if str_eq(tag, "NOTE") {
                        self.note = Some(Note::new(tokenizer, child_level(level))?);
                    } else if str_eq(tag, "QUAY") {
                        self.certainty_assessment = Some(CertaintyAssessment::new(tokenizer, child_level(level))?);
                    } else if str_eq(tag, "RFN") {
                        self.submitter_registered_rfn = Some(tokenizer.take_line_value()?);
                    } else if str_eq(tag, "OBJE") {
                        let m = Multimedia::new(tokenizer, child_level(level), None)?;
                        self.add_multimedia(m);
                    } else if str_eq(tag, "EVEN") {
                        self.event_type = Some(tokenizer.take_line_value()?);
                    } else if str_eq(tag, "ROLE") {
                        self.role = Some(tokenizer.take_line_value()?);
                    } else {
                        tokenizer.take_line_value()?;
                    }
                },
            }
        }
        self.custom_data = custom;
        Ok(())
    }
}

impl Parser for Citation {
    fn parse(&mut self, tokenizer: &mut Tokenizer, level: u8) -> (r: Result<(), GedcomError>) 
        ensures
            r is Ok ==> at_level_end(*final(tokenizer), level),
            r is Ok <==> shared_lines_end(Shared::Citation, old(tokenizer).input(), old(tokenizer).state(), level) is Ok,
    {
        self.parse_lines(tokenizer, level)
    }
}

/// A copy of a citation and of what it holds.
/// `r` has the cited source, the page, the assessment, the record number,
/// the event and the role of `c`, as many multimedia links and
/// user-defined structures, and data and a note where `c` has them.
pub open spec fn citation_kept(r: Citation, c: Citation) -> bool {
    &&& r.xref == c.xref
    &&& r.page == c.page
    &&& r.certainty_assessment == c.certainty_assessment
    &&& r.submitter_registered_rfn == c.submitter_registered_rfn
    &&& r.event_type == c.event_type
    &&& r.role == c.role
    &&& r.multimedia@.len() == c.multimedia@.len()
    &&& r.custom_data@.len() == c.custom_data@.len()
    &&& (r.data is Some <==> c.data is Some)
    &&& (r.note is Some <==> c.note is Some)
}

pub(crate) fn copy_citation(c: &Citation) -> (r: Citation)
    ensures
        citation_kept(r, *c),
        r.note matches Some(x) ==> c.note matches Some(y) && crate::types::note::note_kept(x, y),
    decreases c,
{
    let note = match &c.note {
        Some(n) => Some(crate::types::note::copy_note(n)),
        None => None,
    };
    let mut multimedia: Vec<Multimedia> = Vec::new();
    let mut i: usize = 0;
    while i < c.multimedia.len()
        invariant
            i <= c.multimedia@.len(),
            multimedia@.len() == i,
        decreases c.multimedia@.len() - i,
    {
        proof {
            assert(decreases_to!(c => c.multimedia@[i as int]));
        }
        multimedia.push(crate::types::multimedia::copy_multimedia(&c.multimedia[i]));
        i = i + 1;
    }
    Citation {
        xref: c.xref.clone(),
        page: c.page.clone(),
        data: c.data.clone(),
        note,
        certainty_assessment: c.certainty_assessment.clone(),
        submitter_registered_rfn: c.submitter_registered_rfn.clone(),
        multimedia,
        custom_data: c.custom_data.clone(),
        event_type: c.event_type.clone(),
        role: c.role.clone(),
    }
}

impl Clone for Citation {
    fn clone(&self) -> (r: Self) {
        copy_citation(self)
    }
}

} // verus!
