//! Reading a GEDCOM file one record at a time.
//!
//! The reader is read line by line; the lines of a record (from one line
//! of level 0 to the next) are gathered and parsed as a small document of
//! their own.
use vstd::prelude::*;
use vstd::string::StringExecFns;
use crate::error::GedcomError;
use crate::text::{chars_of, decimal, starts_with, str_eq, trim, trimmed, trim_start_index};
use crate::tokenizer::{is_white_space, is_whitespace, step, SpecToken, Token, TokState, Tokenizer};
use crate::parser::{continued_subset_end, step_subset_end};
use crate::types::custom::{udt_end, UserDefinedTag};
use crate::types::family::family_end;
use crate::types::individual::individual_end;
use crate::types::shared::{shared_end, Shared};
use crate::types::source::source_walk;
use crate::types::family::Family;
use crate::types::header::Header;
use crate::types::individual::Individual;
use crate::types::multimedia::Multimedia;
use crate::types::repository::Repository;
use crate::types::shared_note::SharedNote;
use crate::types::source::Source;
use crate::types::submission::Submission;
use crate::types::submitter::Submitter;
use crate::types::GedcomData;

use crate::types::records::{
    family_read_at, header_read_at, individual_read_at, multimedia_read_at, repository_read_at, shared_note_read_at, source_read_at, submission_read_at,
    submitter_read_at,
};

verus! {

/// One record of a file.
#[derive(Clone, Debug)]
pub enum GedcomRecord {
    Header(Header),
    Individual(Individual),
    Family(Family),
    Source(Source),
    Repository(Repository),
    Submitter(Submitter),
    Submission(Submission),
    Multimedia(Multimedia),
    SharedNote(SharedNote),
    CustomData(Box<UserDefinedTag>),
}

impl GedcomRecord {
    /// The individual, if the record is one.
    pub fn as_individual(&self) -> (r: Option<&Individual>)
        ensures
            match self {
                GedcomRecord::Individual(i) => r == Some(i),
                _ => r is None,
            },
    {
        match self {
            GedcomRecord::Individual(i) => Some(i),
            _ => None,
        }
    }

    /// The individual, if the record is one.
    pub fn into_individual(self) -> (r: Option<Individual>)
        ensures
            match self {
                GedcomRecord::Individual(i) => r == Some(i),
                _ => r is None,
            },
    {
        match self {
            GedcomRecord::Individual(i) => Some(i),
            _ => None,
        }
    }

    /// The family, if the record is one.
    pub fn as_family(&self) -> (r: Option<&Family>)
        ensures
            match self {
                GedcomRecord::Family(f) => r == Some(f),
                _ => r is None,
            },
    {
        match self {
            GedcomRecord::Family(f) => Some(f),
            _ => None,
        }
    }

    /// The family, if the record is one.
    pub fn into_family(self) -> (r: Option<Family>)
        ensures
            match self {
                GedcomRecord::Family(f) => r == Some(f),
                _ => r is None,
            },
    {
        match self {
            GedcomRecord::Family(f) => Some(f),
            _ => None,
        }
    }

    /// The header, if the record is one.
    pub fn as_header(&self) -> (r: Option<&Header>)
        ensures
            match self {
                GedcomRecord::Header(h) => r == Some(h),
                _ => r is None,
            },
    {
        match self {
            GedcomRecord::Header(h) => Some(h),
            _ => None,
        }
    }

    /// The header, if the record is one.
    pub fn into_header(self) -> (r: Option<Header>)
        ensures
            match self {
                GedcomRecord::Header(h) => r == Some(h),
                _ => r is None,
            },
    {
        match self {
            GedcomRecord::Header(h) => Some(h),
            _ => None,
        }
    }

    /// The source, if the record is one.
    pub fn as_source(&self) -> (r: Option<&Source>)
        ensures
            match self {
                GedcomRecord::Source(s) => r == Some(s),
                _ => r is None,
            },
    {
        match self {
            GedcomRecord::Source(s) => Some(s),
            _ => None,
        }
    }

    /// The source, if the record is one.
    pub fn into_source(self) -> (r: Option<Source>)
        ensures
            match self {
                GedcomRecord::Source(s) => r == Some(s),
                _ => r is None,
            },
    {
        match self {
            GedcomRecord::Source(s) => Some(s),
            _ => None,
        }
    }

    /// The repository, if the record is one.
    pub fn as_repository(&self) -> (r: Option<&Repository>)
        ensures
            match self {
                GedcomRecord::Repository(x) => r == Some(x),
                _ => r is None,
            },
    {
        match self {
            GedcomRecord::Repository(x) => Some(x),
            _ => None,
        }
    }

    /// The submitter, if the record is one.
    pub fn as_submitter(&self) -> (r: Option<&Submitter>)
        ensures
            match self {
                GedcomRecord::Submitter(x) => r == Some(x),
                _ => r is None,
            },
    {
        match self {
            GedcomRecord::Submitter(x) => Some(x),
            _ => None,
        }
    }

    /// The multimedia record, if the record is one.
    pub fn as_multimedia(&self) -> (r: Option<&Multimedia>)
        ensures
            match self {
                GedcomRecord::Multimedia(x) => r == Some(x),
                _ => r is None,
            },
    {
        match self {
            GedcomRecord::Multimedia(x) => Some(x),
            _ => None,
        }
    }

    /// The shared note, if the record is one.
    pub fn as_shared_note(&self) -> (r: Option<&SharedNote>)
        ensures
            match self {
                GedcomRecord::SharedNote(x) => r == Some(x),
                _ => r is None,
            },
    {
        match self {
            GedcomRecord::SharedNote(x) => Some(x),
            _ => None,
        }
    }

    /// Whether the record is an individual.
    pub fn is_individual(&self) -> (r: bool)
        ensures
            r == (self is Individual),
    {
        matches!(self, GedcomRecord::Individual(_))
    }

    /// Whether the record is a family.
    pub fn is_family(&self) -> (r: bool)
        ensures
            r == (self is Family),
    {
        matches!(self, GedcomRecord::Family(_))
    }

    /// Whether the record is the header.
    pub fn is_header(&self) -> (r: bool)
        ensures
            r == (self is Header),
    {
        matches!(self, GedcomRecord::Header(_))
    }
}

/// The values that `pick` takes from a list of records, in order.
pub open spec fn picked<T>(rs: Seq<GedcomRecord>, pick: spec_fn(GedcomRecord) -> Option<T>) -> Seq<T>
    decreases rs.len(),
{
    if rs.len() == 0 {
        Seq::empty()
    } else {
        let before = picked(rs.drop_last(), pick);
        match pick(rs.last()) {
            Some(x) => before.push(x),
            None => before,
        }
    }
}

proof fn lemma_picked_push<T>(rs: Seq<GedcomRecord>, x: GedcomRecord, pick: spec_fn(GedcomRecord) -> Option<T>)
    ensures
        picked(rs.push(x), pick) == (match pick(x) {
            Some(v) => picked(rs, pick).push(v),
            None => picked(rs, pick),
        }),
{
    assert(rs.push(x).drop_last() =~= rs);
}

/// The header of a list of records: the last one.
pub open spec fn last_header(rs: Seq<GedcomRecord>) -> Option<Header>
    decreases rs.len(),
{
    if rs.len() == 0 {
        None
    } else {
        match rs.last() {
            GedcomRecord::Header(h) => Some(h),
            _ => last_header(rs.drop_last()),
        }
    }
}

/// Whether data holds the records of a list, by kind and in order.
pub open spec fn gathers(d: GedcomData, rs: Seq<GedcomRecord>) -> bool {
    &&& d.header == last_header(rs)
    &&& d.individuals@ == picked(rs, |r: GedcomRecord| match r { GedcomRecord::Individual(x) => Some(x), _ => None })
    &&& d.families@ == picked(rs, |r: GedcomRecord| match r { GedcomRecord::Family(x) => Some(x), _ => None })
    &&& d.sources@ == picked(rs, |r: GedcomRecord| match r { GedcomRecord::Source(x) => Some(x), _ => None })
    &&& d.repositories@ == picked(rs, |r: GedcomRecord| match r { GedcomRecord::Repository(x) => Some(x), _ => None })
    &&& d.submitters@ == picked(rs, |r: GedcomRecord| match r { GedcomRecord::Submitter(x) => Some(x), _ => None })
    &&& d.submissions@ == picked(rs, |r: GedcomRecord| match r { GedcomRecord::Submission(x) => Some(x), _ => None })
    &&& d.multimedia@ == picked(rs, |r: GedcomRecord| match r { GedcomRecord::Multimedia(x) => Some(x), _ => None })
    &&& d.shared_notes@ == picked(rs, |r: GedcomRecord| match r { GedcomRecord::SharedNote(x) => Some(x), _ => None })
    &&& d.custom_data@ == picked(rs, |r: GedcomRecord| match r { GedcomRecord::CustomData(x) => Some(x), _ => None })
}

impl GedcomData {
    /// Gathers records into the data of a file: the last header, and the
    /// other records by kind, in order.
    pub fn from_records(records: Vec<GedcomRecord>) -> (r: GedcomData)
        ensures
            gathers(r, records@),
    {
        let ghost all = records@;
        let n = records.len();
        let mut records = records;
        let mut rev: Vec<GedcomRecord> = Vec::new();
        while records.len() > 0
            invariant
                records@.len() + rev@.len() == n,
                n == all.len(),
                records@ == all.subrange(0, records@.len() as int),
                forall|j: int| 0 <= j < rev@.len() ==> #[trigger] rev@[j] == all[n - 1 - j],
            decreases records@.len(),
        {
            let record = records.pop().unwrap();
            rev.push(record);
        }
        let mut data = GedcomData::default();
        proof {
            assert(all.subrange(0, 0) =~= Seq::<GedcomRecord>::empty());
            assert(data.individuals@ =~= picked(all.subrange(0, 0), |r: GedcomRecord| match r { GedcomRecord::Individual(x) => Some(x), _ => None }));
            assert(data.families@ =~= picked(all.subrange(0, 0), |r: GedcomRecord| match r { GedcomRecord::Family(x) => Some(x), _ => None }));
            assert(data.sources@ =~= picked(all.subrange(0, 0), |r: GedcomRecord| match r { GedcomRecord::Source(x) => Some(x), _ => None }));
            assert(data.repositories@ =~= picked(all.subrange(0, 0), |r: GedcomRecord| match r { GedcomRecord::Repository(x) => Some(x), _ => None }));
            assert(data.submitters@ =~= picked(all.subrange(0, 0), |r: GedcomRecord| match r { GedcomRecord::Submitter(x) => Some(x), _ => None }));
            assert(data.submissions@ =~= picked(all.subrange(0, 0), |r: GedcomRecord| match r { GedcomRecord::Submission(x) => Some(x), _ => None }));
            assert(data.multimedia@ =~= picked(all.subrange(0, 0), |r: GedcomRecord| match r { GedcomRecord::Multimedia(x) => Some(x), _ => None }));
            assert(data.shared_notes@ =~= picked(all.subrange(0, 0), |r: GedcomRecord| match r { GedcomRecord::SharedNote(x) => Some(x), _ => None }));
            assert(data.custom_data@ =~= picked(all.subrange(0, 0), |r: GedcomRecord| match r { GedcomRecord::CustomData(x) => Some(x), _ => None }));
        }
        let mut k: usize = 0;
        while rev.len() > 0
            invariant
                k + rev@.len() == n,
                n == all.len(),
                forall|j: int| 0 <= j < rev@.len() ==> #[trigger] rev@[j] == all[n - 1 - j],
                gathers(data, all.subrange(0, k as int)),
            decreases rev@.len(),
        {
            let record = rev.pop().unwrap();
            proof {
                assert(record == all[k as int]);
                assert(all.subrange(0, k + 1).drop_last() =~= all.subrange(0, k as int));
            }
            match record {
                GedcomRecord::Header(h) => data.header = Some(h),
                GedcomRecord::Individual(x) => data.add_individual(x),
                GedcomRecord::Family(x) => data.add_family(x),
                GedcomRecord::Source(x) => data.add_source(x),
                GedcomRecord::Repository(x) => data.add_repository(x),
                GedcomRecord::Submitter(x) => data.add_submitter(x),
                GedcomRecord::Submission(x) => data.add_submission(x),
                GedcomRecord::Multimedia(x) => data.add_multimedia(x),
                GedcomRecord::SharedNote(x) => data.add_shared_note(x),
                GedcomRecord::CustomData(c) => data.custom_data.push(c),
            }
            proof {
                let s1 = all.subrange(0, k + 1);
                let s0 = all.subrange(0, k as int);
                assert(s1 =~= s0.push(all[k as int]));
                assert(data.header == last_header(s1));
                lemma_picked_push(s0, all[k as int], |r: GedcomRecord| match r { GedcomRecord::Individual(x) => Some(x), _ => None });
                lemma_picked_push(s0, all[k as int], |r: GedcomRecord| match r { GedcomRecord::Family(x) => Some(x), _ => None });
                lemma_picked_push(s0, all[k as int], |r: GedcomRecord| match r { GedcomRecord::Source(x) => Some(x), _ => None });
                lemma_picked_push(s0, all[k as int], |r: GedcomRecord| match r { GedcomRecord::Repository(x) => Some(x), _ => None });
                lemma_picked_push(s0, all[k as int], |r: GedcomRecord| match r { GedcomRecord::Submitter(x) => Some(x), _ => None });
                lemma_picked_push(s0, all[k as int], |r: GedcomRecord| match r { GedcomRecord::Submission(x) => Some(x), _ => None });
                lemma_picked_push(s0, all[k as int], |r: GedcomRecord| match r { GedcomRecord::Multimedia(x) => Some(x), _ => None });
                lemma_picked_push(s0, all[k as int], |r: GedcomRecord| match r { GedcomRecord::SharedNote(x) => Some(x), _ => None });
                lemma_picked_push(s0, all[k as int], |r: GedcomRecord| match r { GedcomRecord::CustomData(x) => Some(x), _ => None });
            }
            k = k + 1;
        }
        proof {
            assert(all.subrange(0, n as int) =~= all);
        }
        data
    }
}

/// Whether a line ends the file: once trimmed, it is `0 TRLR` or begins
/// with `0 TRLR `.
pub open spec fn is_trailer_line(line: Seq<char>) -> bool {
    let t = trimmed(line);
    t == "0 TRLR"@ || (t.len() >= 7 && t.subrange(0, 7) == "0 TRLR "@)
}

/// Whether a line begins a record: once white space at its start is
/// removed, it begins with `0` and a white space character.
pub open spec fn begins_record(line: Seq<char>) -> bool {
    let a = trim_start_index(line, 0);
    0 <= a && a + 1 < line.len() && line[a] == '0' && is_white_space(line[a + 1])
}

fn line_begins_record(line: &str) -> (r: bool)
    ensures
        r == begins_record(line@),
{
    let v = chars_of(line);
    let mut a: usize = 0;
    while a < v.len() && is_whitespace(v[a])
        invariant
            a <= v@.len(),
            v@ == line@,
            trim_start_index(line@, a as int) == trim_start_index(line@, 0),
        decreases v@.len() - a,
    {
        a = a + 1;
    }
    v.len() > 1 && a < v.len() - 1 && v[a] == '0' && is_whitespace(v[a + 1])
}

fn line_is_trailer(line: &str) -> (r: bool)
    ensures
        r == is_trailer_line(line@),
{
    let t = trim(line);
    proof {
        reveal_strlit("0 TRLR ");
    }
    str_eq(t.as_str(), "0 TRLR") || starts_with(t.as_str(), "0 TRLR ")
}

/// The text that a record is read from: its lines, then a trailer line.
pub open spec fn record_doc(text: Seq<char>) -> Seq<char> {
    text + "0 TRLR\n"@
}

/// A tokenizer before its first token.
pub open spec fn initial_state() -> TokState {
    TokState { cursor: -1, token: SpecToken::Initial, line: 0 }
}

/// After the level of a record's first line: the xref, if one follows, and
/// the state at the token after it; `Err` where a step fails.
pub open spec fn record_head(s: Seq<char>, st1: TokState) -> Result<(Option<Seq<char>>, TokState), ()> {
    match step(s, st1) {
        Err(_) => Err(()),
        Ok(st2) => match st2.token {
            SpecToken::Pointer(p) => match step(s, st2) {
                Ok(st3) => Ok((Some(p), st3)),
                Err(_) => Err(()),
            },
            _ => Ok((None, st2)),
        },
    }
}

/// Whether a record's xref is the one read.
pub open spec fn xref_is(x: Option<String>, p: Option<Seq<char>>) -> bool {
    match p {
        Some(v) => x matches Some(s) && s@ == v,
        None => x is None,
    }
}

/// What reading a record whose tag (or other token) is at `st` in `s`, after
/// the xref `ptr`, can give: for a tag of a known kind, success exactly where
/// that record's reader reads it, and then a record of that kind with that
/// xref (a record of each standard kind as read from its lines); an error for the trailer, an unknown tag, the end of the text or
/// another token.
pub open spec fn record_outcome(r: Result<GedcomRecord, GedcomError>, s: Seq<char>, st: TokState, ptr: Option<Seq<char>>) -> bool {
    match st.token {
        SpecToken::Tag(t) => if t == "HEAD"@ {
            &&& (r is Ok <==> step_subset_end::<Header>(s, st, 0) is Ok)
            &&& (r is Ok ==> (r->Ok_0 matches GedcomRecord::Header(h) && header_read_at(h, s, st, 0)))
        } else if t == "FAM"@ {
            &&& (r is Ok <==> family_end(s, st, 0) is Ok)
            &&& (r is Ok ==> (r->Ok_0 matches GedcomRecord::Family(f) && xref_is(f.xref, ptr)
                && family_read_at(f, s, st, 0)))
        } else if t == "INDI"@ {
            &&& (r is Ok <==> individual_end(s, st, 0) is Ok)
            &&& (r is Ok ==> (r->Ok_0 matches GedcomRecord::Individual(i) && xref_is(i.xref, ptr)
                && individual_read_at(i, s, st, 0)))
        } else if t == "REPO"@ {
            &&& (r is Ok <==> step_subset_end::<Repository>(s, st, 0) is Ok)
            &&& (r is Ok ==> (r->Ok_0 matches GedcomRecord::Repository(x) && xref_is(x.xref, ptr)
                && repository_read_at(x, s, st, 0)))
        } else if t == "SOUR"@ {
            &&& (r is Ok <==> (step(s, st) matches Ok(st1) && source_walk(s, st1, 0) is Ok))
            &&& (r is Ok ==> (r->Ok_0 matches GedcomRecord::Source(x) && xref_is(x.xref, ptr)
                && source_read_at(x, s, st, 0)))
        } else if t == "SUBN"@ {
            &&& (r is Ok <==> step_subset_end::<Submission>(s, st, 0) is Ok)
            &&& (r is Ok ==> (r->Ok_0 matches GedcomRecord::Submission(x) && xref_is(x.xref, ptr)
                && submission_read_at(x, s, st, 0)))
        } else if t == "SUBM"@ {
            &&& (r is Ok <==> step_subset_end::<Submitter>(s, st, 0) is Ok)
            &&& (r is Ok ==> (r->Ok_0 matches GedcomRecord::Submitter(x) && xref_is(x.xref, ptr)
                && submitter_read_at(x, s, st, 0)))
        } else if t == "OBJE"@ {
            &&& (r is Ok <==> shared_end(Shared::Multimedia, s, st, 0) is Ok)
            &&& (r is Ok ==> (r->Ok_0 matches GedcomRecord::Multimedia(x) && xref_is(x.xref, ptr)
                && multimedia_read_at(x, s, st, 0)))
        } else if t == "SNOTE"@ {
            &&& (r is Ok <==> continued_subset_end::<SharedNote>(s, st, 0) is Ok)
            &&& (r is Ok ==> (r->Ok_0 matches GedcomRecord::SharedNote(x) && xref_is(x.xref, ptr)
                && shared_note_read_at(x, s, st, 0)))
        } else if t == "TRLR"@ {
            r matches Err(GedcomError::ParseError { message, .. }) && message@ == "Unexpected TRLR"@
        } else {
            r matches Err(GedcomError::ParseError { message, .. }) && message@ == "Unhandled tag "@ + t
        },
        SpecToken::CustomTag(t) => {
            &&& (r is Ok <==> udt_end(s, st, 1) is Ok)
            &&& (r is Ok ==> (r->Ok_0 matches GedcomRecord::CustomData(c) && c.tag@ == t))
        },
        SpecToken::EOF => r matches Err(GedcomError::ParseError { message, .. }) && message@ == "Unexpected EOF"@,
        _ => r is Err,
    }
}

/// What parsing the gathered text of one record gives, as
/// [`StreamState::parse_record_text`] parses it: the text and a trailer line
/// are read as a small document whose first line must be at level 0.
pub open spec fn record_parsed(r: Result<GedcomRecord, GedcomError>, text: Seq<char>) -> bool {
    let s = record_doc(text);
    match step(s, initial_state()) {
        Err(_) => r is Err,
        Ok(st1) => match st1.token {
            SpecToken::Level(l) => if l != 0 {
                (r matches Err(GedcomError::ParseError { message, .. })
                    && message@ == "Expected level 0, found level "@ + decimal(l as nat))
            } else {
                match record_head(s, st1) {
                    Err(_) => r is Err,
                    Ok((ptr, st)) => record_outcome(r, s, st, ptr),
                }
            },
            SpecToken::EOF => (r matches Err(GedcomError::ParseError { message, .. })
                && message@ == "Empty record"@),
            _ => r is Err,
        },
    }
}

/// What reading a line of the input gave.
pub enum LineRead {
    /// A line, with its newline if it had one.
    Line(String),
    /// The end of the input.
    End,
    /// A failed read: whether the data was not valid UTF-8, and the message
    /// of the error.
    Failed { invalid_data: bool, message: String },
}

/// What the reader of records asks for, or gives, next.
pub enum StreamStep {
    /// The next line of the input is needed: hand it to `feed`.
    NeedLine,
    /// A record was read, or reading failed.
    Yield(Result<GedcomRecord, GedcomError>),
    /// There are no more records.
    Done,
}

/// The reading of a file one record at a time, driven by the lines that
/// its caller reads: the text of the record being gathered, the line of
/// level 0 read ahead, and whether reading has ended.
pub struct StreamState {
    record_buffer: String,
    peeked_line: Option<String>,
    line_number: u32,
    finished: bool,
    gathering: bool,
}

impl StreamState {
    /// Whether reading has ended.
    pub closed spec fn is_finished(&self) -> bool {
        self.finished
    }

    /// Whether a record is being gathered (its first line was read).
    pub closed spec fn is_gathering(&self) -> bool {
        self.gathering
    }

    /// The text of the record gathered so far.
    pub closed spec fn gathered(&self) -> Seq<char> {
        self.record_buffer@
    }

    /// The line of level 0 read ahead, if any.
    pub closed spec fn peeked(&self) -> Option<Seq<char>> {
        match self.peeked_line {
            Some(l) => Some(l@),
            None => None,
        }
    }

    /// Starts reading from what reading the first line gave. An empty input
    /// gives a reader that yields nothing; input that is not UTF-8 (such as
    /// UTF-16) is an encoding error; a leading byte order mark is dropped.
    pub fn start(first: LineRead) -> (r: Result<StreamState, GedcomError>)
        ensures
            match first {
                LineRead::End => (r matches Ok(s) && s.is_finished() && s.peeked() is None),
                LineRead::Failed { invalid_data, message } => (r matches Err(e) && (if invalid_data {
                    e matches GedcomError::EncodingError(m) && m@ == "Streaming parser requires UTF-8 input; file appears to use a different encoding (possibly UTF-16)"@
                } else {
                    e == GedcomError::IoError(message)
                })),
                LineRead::Line(l) => (r matches Ok(s) && !s.is_finished() && !s.is_gathering()
                    && s.peeked() == Some(if l@.len() > 0 && l@[0] == '\u{FEFF}' {
                        l@.subrange(1, l@.len() as int)
                    } else {
                        l@
                    })),
            },
    {
        match first {
            LineRead::End => Ok(StreamState {
                record_buffer: String::new(),
                peeked_line: None,
                line_number: 0,
                finished: true,
                gathering: false,
            }),
            LineRead::Failed { invalid_data, message } => {
                if invalid_data {
                    Err(GedcomError::EncodingError(String::from_str(
                        "Streaming parser requires UTF-8 input; file appears to use a different encoding (possibly UTF-16)",
                    )))
                } else {
                    Err(GedcomError::IoError(message))
                }
            },
            LineRead::Line(first_line) => {
                let v = chars_of(first_line.as_str());
                let first_line = if v.len() > 0 && v[0] == '\u{FEFF}' {
                    crate::text::string_of_range(&v, 1, v.len())
                } else {
                    first_line
                };
                Ok(StreamState {
                    record_buffer: String::new(),
                    peeked_line: Some(first_line),
                    line_number: 1,
                    finished: false,
                    gathering: false,
                })
            },
        }
    }

    /// Begins reading the next record: the line read ahead is its first
    /// line; without one, the next line of the input is needed.
    pub fn begin_next(&mut self) -> (r: StreamStep)
        ensures
            old(self).is_finished() ==> r is Done && *final(self) == *old(self),
            !old(self).is_finished() ==> match old(self).peeked() {
                None => r is NeedLine && !final(self).is_gathering() && !final(self).is_finished()
                    && final(self).peeked() is None,
                Some(l) => if is_trailer_line(l) {
                    r is Done && final(self).is_finished()
                } else {
                    r is NeedLine && final(self).is_gathering() && final(self).gathered() == l
                        && final(self).peeked() is None && !final(self).is_finished()
                },
            },
    {
        if self.finished {
            return StreamStep::Done;
        }
        self.record_buffer = String::new();
        self.gathering = false;
        match self.peeked_line.take() {
            Some(line) => self.start_record(line),
            None => StreamStep::NeedLine,
        }
    }

    /// Takes the first line of a record.
    fn start_record(&mut self, line: String) -> (r: StreamStep)
        requires
            !old(self).finished,
            old(self).peeked_line is None,
        ensures
            if is_trailer_line(line@) {
                r is Done && final(self).is_finished()
            } else {
                r is NeedLine && final(self).is_gathering() && final(self).gathered() == line@
                    && final(self).peeked() is None && !final(self).is_finished()
            },
    {
        if line_is_trailer(line.as_str()) {
            self.finished = true;
            return StreamStep::Done;
        }
        self.record_buffer = line;
        self.gathering = true;
        StreamStep::NeedLine
    }

    /// Takes what reading the next line gave: the first line of a record,
    /// a line of the record being gathered, or the end of it (a line that
    /// begins the next record, which is read ahead, or the end of the input).
    pub fn feed(&mut self, read: LineRead) -> (r: StreamStep)
        requires
            !old(self).is_finished(),
            old(self).peeked() is None,
        ensures
            match read {
                LineRead::Failed { message, .. } => (r matches StreamStep::Yield(Err(e))
                    && e == GedcomError::IoError(message)) && final(self).is_finished(),
                LineRead::End => if old(self).is_gathering() {
                    r matches StreamStep::Yield(res) && record_parsed(res, old(self).gathered())
                        && final(self).peeked() is None && !final(self).is_gathering()
                } else {
                    r is Done && final(self).is_finished()
                },
                LineRead::Line(l) => if !old(self).is_gathering() {
                    if is_trailer_line(l@) {
                        r is Done && final(self).is_finished()
                    } else {
                        r is NeedLine && final(self).gathered() == l@ && final(self).is_gathering()
                            && final(self).peeked() is None && !final(self).is_finished()
                    }
                } else if begins_record(l@) {
                    r matches StreamStep::Yield(res) && record_parsed(res, old(self).gathered())
                        && final(self).peeked() == Some(l@) && !final(self).is_gathering()
                } else {
                    r is NeedLine && final(self).gathered() == old(self).gathered() + l@
                        && final(self).is_gathering() && final(self).peeked() is None
                        && !final(self).is_finished()
                },
            },
            r matches StreamStep::Yield(Err(_)) ==> final(self).is_finished(),
            r matches StreamStep::Yield(Ok(_)) ==> !final(self).is_finished(),
    {
        match read {
            LineRead::Failed { message, .. } => {
                self.finished = true;
                StreamStep::Yield(Err(GedcomError::IoError(message)))
            },
            LineRead::End => {
                if !self.gathering {
                    self.finished = true;
                    return StreamStep::Done;
                }
                self.finish_record()
            },
            LineRead::Line(line) => {
                if self.line_number < u32::MAX {
                    self.line_number = self.line_number + 1;
                }
                if !self.gathering {
                    return self.start_record(line);
                }
                if line_begins_record(line.as_str()) {
                    self.peeked_line = Some(line);
                    return self.finish_record();
                }
                self.record_buffer.append(line.as_str());
                StreamStep::NeedLine
            },
        }
    }

    /// Parses the gathered record; a failure ends the reading.
    fn finish_record(&mut self) -> (r: StreamStep)
        ensures
            r is Yield,
            !final(self).is_gathering(),
            final(self).peeked() == old(self).peeked(),
            r matches StreamStep::Yield(Err(_)) ==> final(self).is_finished(),
            r matches StreamStep::Yield(Ok(_)) ==> final(self).is_finished() == old(self).is_finished(),
            r matches StreamStep::Yield(res) && record_parsed(res, old(self).gathered()),
    {
        let mut text = String::new();
        std::mem::swap(&mut text, &mut self.record_buffer);
        self.gathering = false;
        match self.parse_record_text(text.as_str()) {
            Ok(record) => StreamStep::Yield(Ok(record)),
            Err(e) => {
                self.finished = true;
                StreamStep::Yield(Err(e))
            },
        }
    }

    /// Parses the text of one record, followed by a trailer line, as a
    /// small document: a header, a record of a known kind, or a
    /// user-defined structure. The text must begin with level 0; the tag
    /// after the optional xref decides the kind of record.
    #[verifier::rlimit(60)]
    #[verifier::spinoff_prover]
    pub fn parse_record_text(&self, text: &str) -> (r: Result<GedcomRecord, GedcomError>)
        ensures
            record_parsed(r, text@),
    {
        let mut doc_text = String::from_str(text);
        doc_text.append("0 TRLR\n");
        let mut tokenizer = Tokenizer::from_str(doc_text.as_str());
        tokenizer.next_token()?;
        let level = match tokenizer.current_token() {
            Token::Level(l) => *l,
            Token::EOF => {
                return Err(GedcomError::ParseError { line: self.line_number, message: String::from_str("Empty record") });
            },
            other => {
                return Err(GedcomError::ParseError {
                    line: self.line_number,
                    message: crate::tokenizer::token_message("Expected Level, found ", other),
                });
            },
        };
        if level != 0 {
            let mut message = String::from_str("Expected level 0, found level ");
            crate::text::append_decimal(&mut message, level as u64);
            return Err(GedcomError::ParseError { line: self.line_number, message });
        }
        tokenizer.next_token()?;
        let mut pointer: Option<String> = None;
        if let Token::Pointer(xref) = tokenizer.current_token() {
            pointer = Some(xref.clone());
            tokenizer.next_token()?;
        }
        if let Token::Tag(tag) = tokenizer.current_token() {
            let tag = tag.clone();
            let t = tag.as_str();
            if str_eq(t, "HEAD") {
                let h = Header::new(&mut tokenizer, 0)?;
                proof {
                    reveal(header_read_at);
                }
                Ok(GedcomRecord::Header(h))
            } else if str_eq(t, "FAM") {
                let f = Family::new(&mut tokenizer, 0, pointer)?;
                proof {
                    reveal(family_read_at);
                }
                Ok(GedcomRecord::Family(f))
            } else if str_eq(t, "INDI") {
                let i = Individual::new(&mut tokenizer, level, pointer)?;
                proof {
                    reveal(individual_read_at);
                }
                Ok(GedcomRecord::Individual(i))
            } else if str_eq(t, "REPO") {
                let x = Repository::new(&mut tokenizer, level, pointer)?;
                proof {
                    reveal(repository_read_at);
                }
                Ok(GedcomRecord::Repository(x))
            } else if str_eq(t, "SOUR") {
                let x = Source::new(&mut tokenizer, level, pointer)?;
                proof {
                    reveal(source_read_at);
                }
                Ok(GedcomRecord::Source(x))
            } else if str_eq(t, "SUBN") {
                let x = Submission::new(&mut tokenizer, 0, pointer)?;
                proof {
                    reveal(submission_read_at);
                }
                Ok(GedcomRecord::Submission(x))
            } else if str_eq(t, "SUBM") {
                let x = Submitter::new(&mut tokenizer, 0, pointer)?;
                proof {
                    reveal(submitter_read_at);
                }
                Ok(GedcomRecord::Submitter(x))
            } else if str_eq(t, "OBJE") {
                let x = Multimedia::new(&mut tokenizer, 0, pointer)?;
                proof {
                    reveal(multimedia_read_at);
                }
                Ok(GedcomRecord::Multimedia(x))
            } else if str_eq(t, "SNOTE") {
                let x = SharedNote::new(&mut tokenizer, 0, pointer)?;
                proof {
                    reveal(shared_note_read_at);
                }
                Ok(GedcomRecord::SharedNote(x))
            } else if str_eq(t, "TRLR") {
                Err(GedcomError::ParseError { line: self.line_number, message: String::from_str("Unexpected TRLR") })
            } else {
                Err(crate::parser::tag_error("Unhandled tag ", t, self.line_number))
            }
        } else if let Token::CustomTag(tag) = tokenizer.current_token() {
            let tag = tag.clone();
            Ok(GedcomRecord::CustomData(Box::new(UserDefinedTag::new(&mut tokenizer, 1, tag.as_str())?)))
        } else if let Token::EOF = tokenizer.current_token() {
            Err(GedcomError::ParseError { line: self.line_number, message: String::from_str("Unexpected EOF") })
        } else {
            Err(GedcomError::ParseError {
                line: self.line_number,
                message: crate::tokenizer::token_message("Unhandled token ", tokenizer.current_token()),
            })
        }
    }
}

} // verus!
