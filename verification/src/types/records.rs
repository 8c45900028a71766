//! The records of a file as its reader meets them: the kind, the tag and the
//! xref of each line at the level of records, in order, up to the trailer.
use vstd::prelude::*;
use crate::indexed::CrossReferenced;
use crate::parser::{continued_subset_end, continued_text_at, spec_child_level, step_subset_end, text_of};
use crate::stream::record_head;
use crate::tokenizer::{level_end, lemma_step_progress, state_measure, step, valid_state, SpecToken, TokState};
use crate::types::custom::{udt_end, UserDefinedTag};
use crate::types::family::{family_details, family_end, family_walk, members_from, Family};
use crate::types::header::Header;
use crate::parser::{step_subset_kids, TagHandler};
use crate::types::individual::{individual_end, individual_walk, link_xrefs, linked_families, Individual};
use crate::types::repository::Repository;
use crate::types::shared::{shared_end, Shared};
use crate::types::multimedia::{bare_multimedia, multimedia_holds, multimedia_kids, Multimedia};
use crate::types::shared_note::{shared_note_kids, SharedNote};
use crate::types::submission::Submission;
use crate::types::submitter::Submitter;
use crate::types::source::{source_record_kids, source_walk, Source};
use crate::types::GedcomData;

verus! {

/// The kinds of lines at the level of records.
pub enum RecordKind {
    Header,
    Family,
    Individual,
    Repository,
    Source,
    Submission,
    Submitter,
    Multimedia,
    SharedNote,
    Trailer,
    Custom,
}

/// The kind of record that a standard tag begins, in the order in which the
/// reader tries them; `None` for a tag that begins no record.
pub open spec fn kind_of_tag(t: Seq<char>) -> Option<RecordKind> {
    if t == "HEAD"@ {
        Some(RecordKind::Header)
    } else if t == "FAM"@ {
        Some(RecordKind::Family)
    } else if t == "INDI"@ {
        Some(RecordKind::Individual)
    } else if t == "REPO"@ {
        Some(RecordKind::Repository)
    } else if t == "SOUR"@ {
        Some(RecordKind::Source)
    } else if t == "SUBN"@ {
        Some(RecordKind::Submission)
    } else if t == "SUBM"@ {
        Some(RecordKind::Submitter)
    } else if t == "OBJE"@ {
        Some(RecordKind::Multimedia)
    } else if t == "SNOTE"@ {
        Some(RecordKind::SharedNote)
    } else if t == "TRLR"@ {
        Some(RecordKind::Trailer)
    } else {
        None
    }
}

/// A record met at the level of records: its kind, its tag, its xref, the
/// state at its tag and the level of its line.
pub struct RecordSeen {
    pub kind: RecordKind,
    pub tag: Seq<char>,
    pub xref: Option<Seq<char>>,
    pub at: TokState,
    pub line_level: u8,
}

/// Where reading a record of kind `k` goes on, from its tag at `st`, where
/// its first line is at `cl` and records are at `level`. Individuals,
/// repositories and sources are read at the level of their own line, the
/// others at `level`. `Err` for a kind that is read no further.
pub open spec fn record_end(s: Seq<char>, st: TokState, k: RecordKind, cl: u8, level: u8) -> Result<TokState, ()> {
    match k {
        RecordKind::Header | RecordKind::Family => Ok(level_end(s, st, level)),
        RecordKind::Individual | RecordKind::Repository => Ok(level_end(s, st, cl)),
        RecordKind::Source => match step(s, st) {
            Ok(st1) => source_walk(s, st1, cl),
            Err(_) => Err(()),
        },
        RecordKind::Submission | RecordKind::Submitter | RecordKind::Multimedia | RecordKind::SharedNote => Ok(
            level_end(s, st, level),
        ),
        _ => Err(()),
    }
}

/// Where reading goes on after a user-defined record: the next line at
/// exactly `level`. `Err` where the text ends first.
pub open spec fn skip_to_level(s: Seq<char>, st: TokState, level: u8) -> Result<TokState, ()>
    decreases state_measure(s, st),
{
    if !valid_state(s, st) {
        Err(())
    } else {
        match st.token {
            SpecToken::EOF => Err(()),
            _ => if st.token == SpecToken::Level(level) {
                Ok(st)
            } else {
                match step(s, st) {
                    Ok(st1) => {
                        proof {
                            lemma_step_progress(s, st);
                        }
                        skip_to_level(s, st1, level)
                    },
                    Err(_) => Err(()),
                }
            },
        }
    }
}

/// Where reading a record of kind `k` stops, from its tag at `st`, where its
/// line is at `cl` and records are at `level`, as each record's reader reads
/// it; `Err` where reading fails.
pub open spec fn record_read_end(s: Seq<char>, st: TokState, k: RecordKind, cl: u8, level: u8) -> Result<TokState, ()> {
    match k {
        RecordKind::Header => step_subset_end::<Header>(s, st, level),
        RecordKind::Family => family_end(s, st, level),
        RecordKind::Individual => individual_end(s, st, cl),
        RecordKind::Repository => step_subset_end::<Repository>(s, st, cl),
        RecordKind::Source => match step(s, st) {
            Ok(st1) => source_walk(s, st1, cl),
            Err(_) => Err(()),
        },
        RecordKind::Submission => step_subset_end::<Submission>(s, st, level),
        RecordKind::Submitter => step_subset_end::<Submitter>(s, st, level),
        RecordKind::Multimedia => shared_end(Shared::Multimedia, s, st, level),
        RecordKind::SharedNote => continued_subset_end::<SharedNote>(s, st, level),
        _ => Err(()),
    }
}

/// Where reading a user-defined record whose tag is at `st` stops, where
/// records are at `level`: the structure, then the lines after it up to the
/// next line at `level`.
pub open spec fn custom_record_end(s: Seq<char>, st: TokState, level: u8) -> Result<TokState, ()> {
    match udt_end(s, st, spec_child_level(level)) {
        Ok(n1) => skip_to_level(s, n1, level),
        Err(_) => Err(()),
    }
}

/// Whether reading the records of a text at `level` succeeds, from `st` on:
/// each record is read up to the `TRLR` line.
pub open spec fn records_accepted(s: Seq<char>, st: TokState, level: u8) -> bool
    decreases state_measure(s, st),
{
    match st.token {
        SpecToken::Level(cl) => match record_head(s, st) {
            Ok((ptr, st_t)) => match st_t.token {
                SpecToken::Tag(t) => match kind_of_tag(t) {
                    Some(RecordKind::Trailer) => true,
                    Some(k) => match record_read_end(s, st_t, k, cl, level) {
                        Ok(next) => state_measure(s, next) < state_measure(s, st) && records_accepted(s, next, level),
                        Err(_) => false,
                    },
                    None => false,
                },
                SpecToken::CustomTag(t) => match custom_record_end(s, st_t, level) {
                    Ok(next) => state_measure(s, next) < state_measure(s, st) && records_accepted(s, next, level),
                    Err(_) => false,
                },
                _ => false,
            },
            Err(_) => false,
        },
        _ => false,
    }
}

/// `seen` followed by the records of `rest`, where there are any.
pub open spec fn after_seen(seen: Seq<RecordSeen>, rest: Result<Seq<RecordSeen>, ()>) -> Result<Seq<RecordSeen>, ()> {
    match rest {
        Ok(r) => Ok(seen + r),
        Err(_) => Err(()),
    }
}

/// The records of a text from the line at `st` on, as the reader of a file
/// with records at `level` meets them, up to the trailer (which is not
/// listed). `Err` where the reader fails at the level of records: a line
/// that does not begin with a level, a tag that begins no record, or the
/// end of the text before the trailer.
pub open spec fn records_walk(s: Seq<char>, st: TokState, level: u8) -> Result<Seq<RecordSeen>, ()>
    decreases state_measure(s, st),
{
    match st.token {
        SpecToken::Level(cl) => match record_head(s, st) {
            Ok((ptr, st_t)) => match st_t.token {
                SpecToken::Tag(t) => match kind_of_tag(t) {
                    Some(RecordKind::Trailer) => Ok(Seq::empty()),
                    Some(k) => match record_end(s, st_t, k, cl, level) {
                        Ok(next) => if state_measure(s, next) < state_measure(s, st) {
                            after_seen(
                                seq![RecordSeen { kind: k, tag: t, xref: ptr, at: st_t, line_level: cl }],
                                records_walk(s, next, level),
                            )
                        } else {
                            Err(())
                        },
                        Err(_) => Err(()),
                    },
                    None => Err(()),
                },
                SpecToken::CustomTag(t) => match skip_to_level(s, level_end(s, st_t, spec_child_level(level)), level) {
                    Ok(next) => if state_measure(s, next) < state_measure(s, st) {
                        after_seen(
                            seq![RecordSeen { kind: RecordKind::Custom, tag: t, xref: ptr, at: st_t, line_level: cl }],
                            records_walk(s, next, level),
                        )
                    } else {
                        Err(())
                    },
                    Err(_) => Err(()),
                },
                _ => Err(()),
            },
            Err(_) => Err(()),
        },
        _ => Err(()),
    }
}

/// The xrefs of the records of kind `k`, in order.
pub open spec fn xrefs_of_kind(recs: Seq<RecordSeen>, k: RecordKind) -> Seq<Option<Seq<char>>>
    decreases recs.len(),
{
    if recs.len() == 0 {
        Seq::empty()
    } else {
        xrefs_of_kind(recs.drop_last(), k) + if recs.last().kind == k {
            seq![recs.last().xref]
        } else {
            Seq::empty()
        }
    }
}

/// Whether a record of kind `k` is among `recs`.
pub open spec fn has_kind(recs: Seq<RecordSeen>, k: RecordKind) -> bool {
    exists|i: int| 0 <= i < recs.len() && #[trigger] recs[i].kind == k
}

/// The tags of the user-defined records, in order.
pub open spec fn custom_tags(recs: Seq<RecordSeen>) -> Seq<Seq<char>>
    decreases recs.len(),
{
    if recs.len() == 0 {
        Seq::empty()
    } else {
        custom_tags(recs.drop_last()) + if recs.last().kind == RecordKind::Custom {
            seq![recs.last().tag]
        } else {
            Seq::empty()
        }
    }
}

/// The xrefs of records, as texts.
pub open spec fn xref_texts<T: CrossReferenced>(v: Seq<T>) -> Seq<Option<Seq<char>>> {
    v.map_values(|r: T| text_of(r.xref_of()))
}

/// The tags of user-defined structures.
pub open spec fn custom_tag_texts(v: Seq<Box<UserDefinedTag>>) -> Seq<Seq<char>> {
    v.map_values(|c: Box<UserDefinedTag>| c.tag@)
}

/// `d` holds the records `seen`: the xref of each, in order, in the list of
/// its kind; a header where one was seen; each user-defined record, by its tag.
pub open spec fn holds_records(d: GedcomData, seen: Seq<RecordSeen>) -> bool {
    &&& xref_texts(d.individuals@) == xrefs_of_kind(seen, RecordKind::Individual)
    &&& xref_texts(d.families@) == xrefs_of_kind(seen, RecordKind::Family)
    &&& xref_texts(d.repositories@) == xrefs_of_kind(seen, RecordKind::Repository)
    &&& xref_texts(d.sources@) == xrefs_of_kind(seen, RecordKind::Source)
    &&& xref_texts(d.submissions@) == xrefs_of_kind(seen, RecordKind::Submission)
    &&& xref_texts(d.submitters@) == xrefs_of_kind(seen, RecordKind::Submitter)
    &&& xref_texts(d.multimedia@) == xrefs_of_kind(seen, RecordKind::Multimedia)
    &&& xref_texts(d.shared_notes@) == xrefs_of_kind(seen, RecordKind::SharedNote)
    &&& (d.header is Some <==> has_kind(seen, RecordKind::Header))
    &&& custom_tag_texts(d.custom_data@) == custom_tags(seen)
}

/// Reading a standard record from the line at `top`, whose head is `ptr` and
/// the tag at `st_t`, and going on at `next`: the walk meets the record and
/// then those from `next` on.
pub proof fn lemma_walk_record(
    s: Seq<char>,
    top: TokState,
    st_t: TokState,
    ptr: Option<Seq<char>>,
    t: Seq<char>,
    k: RecordKind,
    next: TokState,
    level: u8,
    seen: Seq<RecordSeen>,
)
    requires
        top.token is Level,
        record_head(s, top) == Ok::<(Option<Seq<char>>, TokState), ()>((ptr, st_t)),
        st_t.token == SpecToken::Tag(t),
        kind_of_tag(t) == Some(k),
        k != RecordKind::Trailer,
        record_end(s, st_t, k, top.token->Level_0, level) == Ok::<TokState, ()>(next),
        state_measure(s, next) < state_measure(s, top),
    ensures
        after_seen(seen, records_walk(s, top, level)) == after_seen(
            seen.push(RecordSeen { kind: k, tag: t, xref: ptr, at: st_t, line_level: top.token->Level_0 }),
            records_walk(s, next, level),
        ),
{
    lemma_after_seen_push(
        seen,
        RecordSeen { kind: k, tag: t, xref: ptr, at: st_t, line_level: top.token->Level_0 },
        records_walk(s, next, level),
    );
}

/// Reading a user-defined record from the line at `top`, whose head is `ptr`
/// and the tag at `st_t`, and going on at `next`.
pub proof fn lemma_walk_custom(
    s: Seq<char>,
    top: TokState,
    st_t: TokState,
    ptr: Option<Seq<char>>,
    t: Seq<char>,
    next: TokState,
    level: u8,
    seen: Seq<RecordSeen>,
)
    requires
        top.token is Level,
        record_head(s, top) == Ok::<(Option<Seq<char>>, TokState), ()>((ptr, st_t)),
        st_t.token == SpecToken::CustomTag(t),
        skip_to_level(s, level_end(s, st_t, spec_child_level(level)), level) == Ok::<TokState, ()>(next),
        state_measure(s, next) < state_measure(s, top),
    ensures
        after_seen(seen, records_walk(s, top, level)) == after_seen(
            seen.push(RecordSeen { kind: RecordKind::Custom, tag: t, xref: ptr, at: st_t, line_level: top.token->Level_0 }),
            records_walk(s, next, level),
        ),
{
    lemma_after_seen_push(
        seen,
        RecordSeen { kind: RecordKind::Custom, tag: t, xref: ptr, at: st_t, line_level: top.token->Level_0 },
        records_walk(s, next, level),
    );
}

/// `v`, with the xref of `r` after it where `r` is of kind `k`.
pub open spec fn pushed_if(v: Seq<Option<Seq<char>>>, r: RecordSeen, k: RecordKind) -> Seq<Option<Seq<char>>> {
    if r.kind == k {
        v.push(r.xref)
    } else {
        v
    }
}

/// `d1` is `d0` with the record `r` added: its xref after those of its kind,
/// a header where it is one, its tag after those of the user-defined records.
pub open spec fn adds_record(d0: GedcomData, d1: GedcomData, r: RecordSeen) -> bool {
    &&& xref_texts(d1.individuals@) == pushed_if(xref_texts(d0.individuals@), r, RecordKind::Individual)
    &&& xref_texts(d1.families@) == pushed_if(xref_texts(d0.families@), r, RecordKind::Family)
    &&& xref_texts(d1.repositories@) == pushed_if(xref_texts(d0.repositories@), r, RecordKind::Repository)
    &&& xref_texts(d1.sources@) == pushed_if(xref_texts(d0.sources@), r, RecordKind::Source)
    &&& xref_texts(d1.submissions@) == pushed_if(xref_texts(d0.submissions@), r, RecordKind::Submission)
    &&& xref_texts(d1.submitters@) == pushed_if(xref_texts(d0.submitters@), r, RecordKind::Submitter)
    &&& xref_texts(d1.multimedia@) == pushed_if(xref_texts(d0.multimedia@), r, RecordKind::Multimedia)
    &&& xref_texts(d1.shared_notes@) == pushed_if(xref_texts(d0.shared_notes@), r, RecordKind::SharedNote)
    &&& (d1.header is Some <==> (d0.header is Some || r.kind == RecordKind::Header))
    &&& custom_tag_texts(d1.custom_data@) == if r.kind == RecordKind::Custom {
        custom_tag_texts(d0.custom_data@).push(r.tag)
    } else {
        custom_tag_texts(d0.custom_data@)
    }
}

/// `d1` holds what `d0` held and then the records `recs`.
pub open spec fn adds_records(d0: GedcomData, d1: GedcomData, recs: Seq<RecordSeen>) -> bool {
    &&& xref_texts(d1.individuals@) == xref_texts(d0.individuals@) + xrefs_of_kind(recs, RecordKind::Individual)
    &&& xref_texts(d1.families@) == xref_texts(d0.families@) + xrefs_of_kind(recs, RecordKind::Family)
    &&& xref_texts(d1.repositories@) == xref_texts(d0.repositories@) + xrefs_of_kind(recs, RecordKind::Repository)
    &&& xref_texts(d1.sources@) == xref_texts(d0.sources@) + xrefs_of_kind(recs, RecordKind::Source)
    &&& xref_texts(d1.submissions@) == xref_texts(d0.submissions@) + xrefs_of_kind(recs, RecordKind::Submission)
    &&& xref_texts(d1.submitters@) == xref_texts(d0.submitters@) + xrefs_of_kind(recs, RecordKind::Submitter)
    &&& xref_texts(d1.multimedia@) == xref_texts(d0.multimedia@) + xrefs_of_kind(recs, RecordKind::Multimedia)
    &&& xref_texts(d1.shared_notes@) == xref_texts(d0.shared_notes@) + xrefs_of_kind(recs, RecordKind::SharedNote)
    &&& (d1.header is Some <==> (d0.header is Some || has_kind(recs, RecordKind::Header)))
    &&& custom_tag_texts(d1.custom_data@) == custom_tag_texts(d0.custom_data@) + custom_tags(recs)
}

/// The records of kind `k` among `recs`, in order.
pub open spec fn records_of_kind(recs: Seq<RecordSeen>, k: RecordKind) -> Seq<RecordSeen>
    decreases recs.len(),
{
    if recs.len() == 0 {
        Seq::empty()
    } else if recs.last().kind == k {
        records_of_kind(recs.drop_last(), k).push(recs.last())
    } else {
        records_of_kind(recs.drop_last(), k)
    }
}

/// The last record of kind `k` among `recs`, if there is one.
pub open spec fn last_of_kind(recs: Seq<RecordSeen>, k: RecordKind) -> Option<RecordSeen> {
    let rs = records_of_kind(recs, k);
    if rs.len() == 0 {
        None
    } else {
        Some(rs.last())
    }
}

/// `i` is the individual read from the record whose tag is at `st` and whose
/// line is at `cl`: what the lines below it give, as `Individual::holds` states,
/// and a link to each family that its `FAMC` and `FAMS` lines name.
#[verifier::opaque]
pub open spec fn individual_read_at(i: Individual, s: Seq<char>, st: TokState, cl: u8) -> bool {
    &&& step(s, st) matches Ok(st1)
    &&& individual_walk(s, st1, cl) matches Ok((_, kids))
    &&& i.holds(s, kids, cl)
    &&& link_xrefs(i.families@) == linked_families(s, kids)
}

/// `f` is the family read from the record whose tag is at `st`, where records
/// are at `level`: its partners and children, and the details of its other
/// lines, as they give them.
#[verifier::opaque]
pub open spec fn family_read_at(f: Family, s: Seq<char>, st: TokState, level: u8) -> bool {
    step(s, st) matches Ok(st1) && family_walk(s, st1, level) matches Ok((_, kids)) && members_from(f, s, kids)
        && family_details(f, s, kids, level)
}

/// `x` is the repository read from the record whose tag is at `st`, read at
/// `cl`: what the lines below it give, as `Repository::holds` states.
#[verifier::opaque]
pub open spec fn repository_read_at(x: Repository, s: Seq<char>, st: TokState, cl: u8) -> bool {
    x.holds(s, step_subset_kids::<Repository>(s, st, cl), cl)
}

/// `x` is the submitter read from the record whose tag is at `st`, read at
/// `level`: what the lines below it give, as `Submitter::holds` states.
#[verifier::opaque]
pub open spec fn submitter_read_at(x: Submitter, s: Seq<char>, st: TokState, level: u8) -> bool {
    x.holds(s, step_subset_kids::<Submitter>(s, st, level), level)
}

/// `x` is the submission read from the record whose tag is at `st`, read at
/// `level`: what the lines below it give, as `Submission::holds` states.
#[verifier::opaque]
pub open spec fn submission_read_at(x: Submission, s: Seq<char>, st: TokState, level: u8) -> bool {
    x.holds(s, step_subset_kids::<Submission>(s, st, level), level)
}

/// `x` is the shared note read from the record whose tag is at `st`, read
/// at `level`: its text, and what the lines below it give, as
/// `SharedNote::holds` states.
#[verifier::opaque]
pub open spec fn shared_note_read_at(x: SharedNote, s: Seq<char>, st: TokState, level: u8) -> bool {
    x.holds(s, shared_note_kids(s, st, level), level) && x.text@ == continued_text_at(s, st, level)
}

/// `x` is the multimedia record read from the record whose tag is at `st`,
/// read at `level`: what the lines below it give, as `multimedia_holds`
/// states.
#[verifier::opaque]
pub open spec fn multimedia_read_at(x: Multimedia, s: Seq<char>, st: TokState, level: u8) -> bool {
    multimedia_holds(x, bare_multimedia(x.xref), s, multimedia_kids(s, st, level), level)
}

/// `x` is the source read from the record whose tag is at `st` and whose
/// line is at `cl`: what the lines below it give, as `Source::holds` states.
#[verifier::opaque]
pub open spec fn source_read_at(x: Source, s: Seq<char>, st: TokState, cl: u8) -> bool {
    x.holds(s, source_record_kids(s, st, cl), cl)
}

/// `h` is the header read from the record whose tag is at `st`, where records
/// are at `level`: what the lines below it give, as `Header::holds` states.
#[verifier::opaque]
pub open spec fn header_read_at(h: Header, s: Seq<char>, st: TokState, level: u8) -> bool {
    h.holds(s, step_subset_kids::<Header>(s, st, level), level)
}

/// `d1` is `d0` with what the record `r` gives: an individual, a family, a
/// repository, a submitter, a submission, a shared note, a multimedia record or a source read from it after the others of
/// its kind, or the header read from it.
pub open spec fn adds_record_contents(d0: GedcomData, d1: GedcomData, s: Seq<char>, r: RecordSeen, level: u8) -> bool {
    &&& if r.kind == RecordKind::Source {
        d1.sources@.len() == d0.sources@.len() + 1
            && d1.sources@.drop_last() == d0.sources@
            && source_read_at(d1.sources@.last(), s, r.at, r.line_level)
    } else {
        d1.sources@ == d0.sources@
    }
    &&& if r.kind == RecordKind::Multimedia {
        d1.multimedia@.len() == d0.multimedia@.len() + 1
            && d1.multimedia@.drop_last() == d0.multimedia@
            && multimedia_read_at(d1.multimedia@.last(), s, r.at, level)
    } else {
        d1.multimedia@ == d0.multimedia@
    }
    &&& if r.kind == RecordKind::SharedNote {
        d1.shared_notes@.len() == d0.shared_notes@.len() + 1
            && d1.shared_notes@.drop_last() == d0.shared_notes@
            && shared_note_read_at(d1.shared_notes@.last(), s, r.at, level)
    } else {
        d1.shared_notes@ == d0.shared_notes@
    }
    &&& if r.kind == RecordKind::Repository {
        d1.repositories@.len() == d0.repositories@.len() + 1
            && d1.repositories@.drop_last() == d0.repositories@
            && repository_read_at(d1.repositories@.last(), s, r.at, r.line_level)
    } else {
        d1.repositories@ == d0.repositories@
    }
    &&& if r.kind == RecordKind::Submitter {
        d1.submitters@.len() == d0.submitters@.len() + 1
            && d1.submitters@.drop_last() == d0.submitters@
            && submitter_read_at(d1.submitters@.last(), s, r.at, level)
    } else {
        d1.submitters@ == d0.submitters@
    }
    &&& if r.kind == RecordKind::Submission {
        d1.submissions@.len() == d0.submissions@.len() + 1
            && d1.submissions@.drop_last() == d0.submissions@
            && submission_read_at(d1.submissions@.last(), s, r.at, level)
    } else {
        d1.submissions@ == d0.submissions@
    }
    &&& if r.kind == RecordKind::Family {
        d1.families@.len() == d0.families@.len() + 1
            && d1.families@.drop_last() == d0.families@
            && family_read_at(d1.families@.last(), s, r.at, level)
    } else {
        d1.families@ == d0.families@
    }
    &&& if r.kind == RecordKind::Individual {
        d1.individuals@.len() == d0.individuals@.len() + 1
            && d1.individuals@.drop_last() == d0.individuals@
            && individual_read_at(d1.individuals@.last(), s, r.at, r.line_level)
    } else {
        d1.individuals@ == d0.individuals@
    }
    &&& if r.kind == RecordKind::Header {
        d1.header matches Some(h) && header_read_at(h, s, r.at, level)
    } else {
        d1.header == d0.header
    }
}

/// `d1` holds the individuals, families, repositories, submitters,
/// submissions, shared notes, multimedia records and sources of `d0`, then one read from each record of `recs` of those
/// kinds, in order; and the header read from the last header record of
/// `recs`, or that of `d0` where there is none.
pub open spec fn adds_contents(d0: GedcomData, d1: GedcomData, s: Seq<char>, recs: Seq<RecordSeen>, level: u8) -> bool {
    let inds = records_of_kind(recs, RecordKind::Individual);
    let fams = records_of_kind(recs, RecordKind::Family);
    &&& ({
        let xs = records_of_kind(recs, RecordKind::Source);
        &&& d1.sources@.len() == d0.sources@.len() + xs.len()
        &&& d1.sources@.subrange(0, d0.sources@.len() as int) == d0.sources@
        &&& forall|j: int| 0 <= j < xs.len() ==> source_read_at(#[trigger] d1.sources@[d0.sources@.len() + j], s, xs[j].at, xs[j].line_level)
    })
    &&& ({
        let xs = records_of_kind(recs, RecordKind::Multimedia);
        &&& d1.multimedia@.len() == d0.multimedia@.len() + xs.len()
        &&& d1.multimedia@.subrange(0, d0.multimedia@.len() as int) == d0.multimedia@
        &&& forall|j: int| 0 <= j < xs.len() ==> multimedia_read_at(#[trigger] d1.multimedia@[d0.multimedia@.len() + j], s, xs[j].at, level)
    })
    &&& ({
        let xs = records_of_kind(recs, RecordKind::SharedNote);
        &&& d1.shared_notes@.len() == d0.shared_notes@.len() + xs.len()
        &&& d1.shared_notes@.subrange(0, d0.shared_notes@.len() as int) == d0.shared_notes@
        &&& forall|j: int| 0 <= j < xs.len() ==> shared_note_read_at(#[trigger] d1.shared_notes@[d0.shared_notes@.len() + j], s, xs[j].at, level)
    })
    &&& ({
        let xs = records_of_kind(recs, RecordKind::Repository);
        &&& d1.repositories@.len() == d0.repositories@.len() + xs.len()
        &&& d1.repositories@.subrange(0, d0.repositories@.len() as int) == d0.repositories@
        &&& forall|j: int| 0 <= j < xs.len() ==> repository_read_at(#[trigger] d1.repositories@[d0.repositories@.len() + j], s, xs[j].at, xs[j].line_level)
    })
    &&& ({
        let xs = records_of_kind(recs, RecordKind::Submitter);
        &&& d1.submitters@.len() == d0.submitters@.len() + xs.len()
        &&& d1.submitters@.subrange(0, d0.submitters@.len() as int) == d0.submitters@
        &&& forall|j: int| 0 <= j < xs.len() ==> submitter_read_at(#[trigger] d1.submitters@[d0.submitters@.len() + j], s, xs[j].at, level)
    })
    &&& ({
        let xs = records_of_kind(recs, RecordKind::Submission);
        &&& d1.submissions@.len() == d0.submissions@.len() + xs.len()
        &&& d1.submissions@.subrange(0, d0.submissions@.len() as int) == d0.submissions@
        &&& forall|j: int| 0 <= j < xs.len() ==> submission_read_at(#[trigger] d1.submissions@[d0.submissions@.len() + j], s, xs[j].at, level)
    })
    &&& d1.families@.len() == d0.families@.len() + fams.len()
    &&& d1.families@.subrange(0, d0.families@.len() as int) == d0.families@
    &&& forall|j: int| 0 <= j < fams.len() ==> family_read_at(#[trigger] d1.families@[d0.families@.len() + j], s, fams[j].at, level)
    &&& d1.individuals@.len() == d0.individuals@.len() + inds.len()
    &&& d1.individuals@.subrange(0, d0.individuals@.len() as int) == d0.individuals@
    &&& forall|j: int| 0 <= j < inds.len() ==> individual_read_at(
        #[trigger] d1.individuals@[d0.individuals@.len() + j],
        s,
        inds[j].at,
        inds[j].line_level,
    )
    &&& match last_of_kind(recs, RecordKind::Header) {
        Some(r) => d1.header matches Some(h) && header_read_at(h, s, r.at, level),
        None => d1.header == d0.header,
    }
}

/// `d` holds what the reader reads from the records `recs` of the text `s`,
/// read at `level`: one individual, family, repository, submitter,
/// submission, shared note, multimedia record or source from each record of that kind, in order, each with what its
/// lines give; and, where there is a header record, the header read from the
/// last of them.
pub open spec fn holds_contents(d: GedcomData, s: Seq<char>, recs: Seq<RecordSeen>, level: u8) -> bool {
    let inds = records_of_kind(recs, RecordKind::Individual);
    let fams = records_of_kind(recs, RecordKind::Family);
    &&& ({
        let xs = records_of_kind(recs, RecordKind::Source);
        &&& d.sources@.len() == xs.len()
        &&& forall|j: int| 0 <= j < xs.len() ==> source_read_at(#[trigger] d.sources@[j], s, xs[j].at, xs[j].line_level)
    })
    &&& ({
        let xs = records_of_kind(recs, RecordKind::Multimedia);
        &&& d.multimedia@.len() == xs.len()
        &&& forall|j: int| 0 <= j < xs.len() ==> multimedia_read_at(#[trigger] d.multimedia@[j], s, xs[j].at, level)
    })
    &&& ({
        let xs = records_of_kind(recs, RecordKind::SharedNote);
        &&& d.shared_notes@.len() == xs.len()
        &&& forall|j: int| 0 <= j < xs.len() ==> shared_note_read_at(#[trigger] d.shared_notes@[j], s, xs[j].at, level)
    })
    &&& ({
        let xs = records_of_kind(recs, RecordKind::Repository);
        &&& d.repositories@.len() == xs.len()
        &&& forall|j: int| 0 <= j < xs.len() ==> repository_read_at(#[trigger] d.repositories@[j], s, xs[j].at, xs[j].line_level)
    })
    &&& ({
        let xs = records_of_kind(recs, RecordKind::Submitter);
        &&& d.submitters@.len() == xs.len()
        &&& forall|j: int| 0 <= j < xs.len() ==> submitter_read_at(#[trigger] d.submitters@[j], s, xs[j].at, level)
    })
    &&& ({
        let xs = records_of_kind(recs, RecordKind::Submission);
        &&& d.submissions@.len() == xs.len()
        &&& forall|j: int| 0 <= j < xs.len() ==> submission_read_at(#[trigger] d.submissions@[j], s, xs[j].at, level)
    })
    &&& d.families@.len() == fams.len()
    &&& forall|j: int| 0 <= j < fams.len() ==> family_read_at(#[trigger] d.families@[j], s, fams[j].at, level)
    &&& d.individuals@.len() == inds.len()
    &&& forall|j: int| 0 <= j < inds.len() ==> individual_read_at(#[trigger] d.individuals@[j], s, inds[j].at, inds[j].line_level)
    &&& match last_of_kind(recs, RecordKind::Header) {
        Some(r) => d.header matches Some(h) && header_read_at(h, s, r.at, level),
        None => d.header is None,
    }
}

/// Nothing read: the data holds what it held.
pub proof fn lemma_adds_no_contents(d: GedcomData, s: Seq<char>, level: u8)
    ensures
        adds_contents(d, d, s, Seq::empty(), level),
{
    assert(d.individuals@.subrange(0, d.individuals@.len() as int) =~= d.individuals@);
    assert(d.families@.subrange(0, d.families@.len() as int) =~= d.families@);
    assert(d.sources@.subrange(0, d.sources@.len() as int) =~= d.sources@);
    assert(d.multimedia@.subrange(0, d.multimedia@.len() as int) =~= d.multimedia@);
    assert(d.shared_notes@.subrange(0, d.shared_notes@.len() as int) =~= d.shared_notes@);
    assert(d.repositories@.subrange(0, d.repositories@.len() as int) =~= d.repositories@);
    assert(d.submitters@.subrange(0, d.submitters@.len() as int) =~= d.submitters@);
    assert(d.submissions@.subrange(0, d.submissions@.len() as int) =~= d.submissions@);
}

/// Records read one after another.
#[verifier::rlimit(100)]
#[verifier::spinoff_prover]
pub proof fn lemma_adds_contents_step(base: GedcomData, d0: GedcomData, d1: GedcomData, s: Seq<char>, seen: Seq<RecordSeen>, r: RecordSeen, level: u8)
    requires
        adds_contents(base, d0, s, seen, level),
        adds_record_contents(d0, d1, s, r, level),
    ensures
        adds_contents(base, d1, s, seen.push(r), level),
{
    assert(seen.push(r).drop_last() =~= seen);
    let n = base.individuals@.len();
    let inds0 = records_of_kind(seen, RecordKind::Individual);
    let inds1 = records_of_kind(seen.push(r), RecordKind::Individual);
    if r.kind == RecordKind::Individual {
        assert(inds1 == inds0.push(r));
        assert(d1.individuals@.subrange(0, n as int) =~= d0.individuals@.subrange(0, n as int)) by {
            assert forall|j: int| 0 <= j < n implies d1.individuals@[j] == d0.individuals@[j] by {
                assert(d1.individuals@.drop_last()[j] == d1.individuals@[j]);
            }
        }
        assert forall|j: int| 0 <= j < inds1.len() implies individual_read_at(
            #[trigger] d1.individuals@[n + j], s, inds1[j].at, inds1[j].line_level) by {
            if j < inds0.len() {
                assert(d1.individuals@.drop_last()[n + j] == d1.individuals@[n + j]);
            }
        }
    } else {
        assert(inds1 == inds0);
    }
    let m = base.families@.len();
    let fams0 = records_of_kind(seen, RecordKind::Family);
    let fams1 = records_of_kind(seen.push(r), RecordKind::Family);
    if r.kind == RecordKind::Family {
        assert(fams1 == fams0.push(r));
        assert(d1.families@.subrange(0, m as int) =~= d0.families@.subrange(0, m as int)) by {
            assert forall|j: int| 0 <= j < m implies d1.families@[j] == d0.families@[j] by {
                assert(d1.families@.drop_last()[j] == d1.families@[j]);
            }
        }
        assert forall|j: int| 0 <= j < fams1.len() implies family_read_at(#[trigger] d1.families@[m + j], s, fams1[j].at, level) by {
            if j < fams0.len() {
                assert(d1.families@.drop_last()[m + j] == d1.families@[m + j]);
            }
        }
    } else {
        assert(fams1 == fams0);
    }
    lemma_repository_step(base, d0, d1, s, seen, r, level);
    lemma_submitter_step(base, d0, d1, s, seen, r, level);
    lemma_submission_step(base, d0, d1, s, seen, r, level);
    lemma_source_step(base, d0, d1, s, seen, r, level);
    lemma_multimedia_step(base, d0, d1, s, seen, r, level);
    lemma_shared_note_step(base, d0, d1, s, seen, r, level);
    if r.kind == RecordKind::Header {
        assert(records_of_kind(seen.push(r), RecordKind::Header) == records_of_kind(seen, RecordKind::Header).push(r));
    } else {
        assert(records_of_kind(seen.push(r), RecordKind::Header) == records_of_kind(seen, RecordKind::Header));
    }
}

/// One more record read: the repositories read so far stay, and one read from
/// the record joins them where it is of that kind.
proof fn lemma_repository_step(base: GedcomData, d0: GedcomData, d1: GedcomData, s: Seq<char>, seen: Seq<RecordSeen>, r: RecordSeen, level: u8)
    requires
        ({
            let xs = records_of_kind(seen, RecordKind::Repository);
            &&& d0.repositories@.len() == base.repositories@.len() + xs.len()
            &&& d0.repositories@.subrange(0, base.repositories@.len() as int) == base.repositories@
            &&& forall|j: int| 0 <= j < xs.len() ==> repository_read_at(#[trigger] d0.repositories@[base.repositories@.len() + j], s, xs[j].at, xs[j].line_level)
        }),
        adds_record_contents(d0, d1, s, r, level),
    ensures
        ({
            let xs = records_of_kind(seen.push(r), RecordKind::Repository);
            &&& d1.repositories@.len() == base.repositories@.len() + xs.len()
            &&& d1.repositories@.subrange(0, base.repositories@.len() as int) == base.repositories@
            &&& forall|j: int| 0 <= j < xs.len() ==> repository_read_at(#[trigger] d1.repositories@[base.repositories@.len() + j], s, xs[j].at, xs[j].line_level)
        }),
{
    assert(seen.push(r).drop_last() =~= seen);
    let m = base.repositories@.len();
    let x0 = records_of_kind(seen, RecordKind::Repository);
    let x1 = records_of_kind(seen.push(r), RecordKind::Repository);
    if r.kind == RecordKind::Repository {
        assert(x1 == x0.push(r));
        assert(d1.repositories@.subrange(0, m as int) =~= d0.repositories@.subrange(0, m as int)) by {
            assert forall|j: int| 0 <= j < m implies d1.repositories@[j] == d0.repositories@[j] by {
                assert(d1.repositories@.drop_last()[j] == d1.repositories@[j]);
            }
        }
        assert forall|j: int| 0 <= j < x1.len() implies repository_read_at(#[trigger] d1.repositories@[m + j], s, x1[j].at, x1[j].line_level) by {
            if j < x0.len() {
                assert(d1.repositories@.drop_last()[m + j] == d1.repositories@[m + j]);
            }
        }
    } else {
        assert(x1 == x0);
    }
}

/// One more record read: the sources read so far stay, and one read from
/// the record joins them where it is of that kind.
proof fn lemma_source_step(base: GedcomData, d0: GedcomData, d1: GedcomData, s: Seq<char>, seen: Seq<RecordSeen>, r: RecordSeen, level: u8)
    requires
        ({
            let xs = records_of_kind(seen, RecordKind::Source);
            &&& d0.sources@.len() == base.sources@.len() + xs.len()
            &&& d0.sources@.subrange(0, base.sources@.len() as int) == base.sources@
            &&& forall|j: int| 0 <= j < xs.len() ==> source_read_at(#[trigger] d0.sources@[base.sources@.len() + j], s, xs[j].at, xs[j].line_level)
        }),
        adds_record_contents(d0, d1, s, r, level),
    ensures
        ({
            let xs = records_of_kind(seen.push(r), RecordKind::Source);
            &&& d1.sources@.len() == base.sources@.len() + xs.len()
            &&& d1.sources@.subrange(0, base.sources@.len() as int) == base.sources@
            &&& forall|j: int| 0 <= j < xs.len() ==> source_read_at(#[trigger] d1.sources@[base.sources@.len() + j], s, xs[j].at, xs[j].line_level)
        }),
{
    assert(seen.push(r).drop_last() =~= seen);
    let m = base.sources@.len();
    let x0 = records_of_kind(seen, RecordKind::Source);
    let x1 = records_of_kind(seen.push(r), RecordKind::Source);
    if r.kind == RecordKind::Source {
        assert(x1 == x0.push(r));
        assert(d1.sources@.subrange(0, m as int) =~= d0.sources@.subrange(0, m as int)) by {
            assert forall|j: int| 0 <= j < m implies d1.sources@[j] == d0.sources@[j] by {
                assert(d1.sources@.drop_last()[j] == d1.sources@[j]);
            }
        }
        assert forall|j: int| 0 <= j < x1.len() implies source_read_at(#[trigger] d1.sources@[m + j], s, x1[j].at, x1[j].line_level) by {
            if j < x0.len() {
                assert(d1.sources@.drop_last()[m + j] == d1.sources@[m + j]);
            }
        }
    } else {
        assert(x1 == x0);
    }
}

/// One more record read: the submitters read so far stay, and one read from
/// the record joins them where it is of that kind.
proof fn lemma_submitter_step(base: GedcomData, d0: GedcomData, d1: GedcomData, s: Seq<char>, seen: Seq<RecordSeen>, r: RecordSeen, level: u8)
    requires
        ({
            let xs = records_of_kind(seen, RecordKind::Submitter);
            &&& d0.submitters@.len() == base.submitters@.len() + xs.len()
            &&& d0.submitters@.subrange(0, base.submitters@.len() as int) == base.submitters@
            &&& forall|j: int| 0 <= j < xs.len() ==> submitter_read_at(#[trigger] d0.submitters@[base.submitters@.len() + j], s, xs[j].at, level)
        }),
        adds_record_contents(d0, d1, s, r, level),
    ensures
        ({
            let xs = records_of_kind(seen.push(r), RecordKind::Submitter);
            &&& d1.submitters@.len() == base.submitters@.len() + xs.len()
            &&& d1.submitters@.subrange(0, base.submitters@.len() as int) == base.submitters@
            &&& forall|j: int| 0 <= j < xs.len() ==> submitter_read_at(#[trigger] d1.submitters@[base.submitters@.len() + j], s, xs[j].at, level)
        }),
{
    assert(seen.push(r).drop_last() =~= seen);
    let m = base.submitters@.len();
    let x0 = records_of_kind(seen, RecordKind::Submitter);
    let x1 = records_of_kind(seen.push(r), RecordKind::Submitter);
    if r.kind == RecordKind::Submitter {
        assert(x1 == x0.push(r));
        assert(d1.submitters@.subrange(0, m as int) =~= d0.submitters@.subrange(0, m as int)) by {
            assert forall|j: int| 0 <= j < m implies d1.submitters@[j] == d0.submitters@[j] by {
                assert(d1.submitters@.drop_last()[j] == d1.submitters@[j]);
            }
        }
        assert forall|j: int| 0 <= j < x1.len() implies submitter_read_at(#[trigger] d1.submitters@[m + j], s, x1[j].at, level) by {
            if j < x0.len() {
                assert(d1.submitters@.drop_last()[m + j] == d1.submitters@[m + j]);
            }
        }
    } else {
        assert(x1 == x0);
    }
}

/// One more record read: the submissions read so far stay, and one read from
/// the record joins them where it is of that kind.
proof fn lemma_submission_step(base: GedcomData, d0: GedcomData, d1: GedcomData, s: Seq<char>, seen: Seq<RecordSeen>, r: RecordSeen, level: u8)
    requires
        ({
            let xs = records_of_kind(seen, RecordKind::Submission);
            &&& d0.submissions@.len() == base.submissions@.len() + xs.len()
            &&& d0.submissions@.subrange(0, base.submissions@.len() as int) == base.submissions@
            &&& forall|j: int| 0 <= j < xs.len() ==> submission_read_at(#[trigger] d0.submissions@[base.submissions@.len() + j], s, xs[j].at, level)
        }),
        adds_record_contents(d0, d1, s, r, level),
    ensures
        ({
            let xs = records_of_kind(seen.push(r), RecordKind::Submission);
            &&& d1.submissions@.len() == base.submissions@.len() + xs.len()
            &&& d1.submissions@.subrange(0, base.submissions@.len() as int) == base.submissions@
            &&& forall|j: int| 0 <= j < xs.len() ==> submission_read_at(#[trigger] d1.submissions@[base.submissions@.len() + j], s, xs[j].at, level)
        }),
{
    assert(seen.push(r).drop_last() =~= seen);
    let m = base.submissions@.len();
    let x0 = records_of_kind(seen, RecordKind::Submission);
    let x1 = records_of_kind(seen.push(r), RecordKind::Submission);
    if r.kind == RecordKind::Submission {
        assert(x1 == x0.push(r));
        assert(d1.submissions@.subrange(0, m as int) =~= d0.submissions@.subrange(0, m as int)) by {
            assert forall|j: int| 0 <= j < m implies d1.submissions@[j] == d0.submissions@[j] by {
                assert(d1.submissions@.drop_last()[j] == d1.submissions@[j]);
            }
        }
        assert forall|j: int| 0 <= j < x1.len() implies submission_read_at(#[trigger] d1.submissions@[m + j], s, x1[j].at, level) by {
            if j < x0.len() {
                assert(d1.submissions@.drop_last()[m + j] == d1.submissions@[m + j]);
            }
        }
    } else {
        assert(x1 == x0);
    }
}

/// One more record read: the multimedia records read so far stay, and one read from
/// the record joins them where it is of that kind.
proof fn lemma_multimedia_step(base: GedcomData, d0: GedcomData, d1: GedcomData, s: Seq<char>, seen: Seq<RecordSeen>, r: RecordSeen, level: u8)
    requires
        ({
            let xs = records_of_kind(seen, RecordKind::Multimedia);
            &&& d0.multimedia@.len() == base.multimedia@.len() + xs.len()
            &&& d0.multimedia@.subrange(0, base.multimedia@.len() as int) == base.multimedia@
            &&& forall|j: int| 0 <= j < xs.len() ==> multimedia_read_at(#[trigger] d0.multimedia@[base.multimedia@.len() + j], s, xs[j].at, level)
        }),
        adds_record_contents(d0, d1, s, r, level),
    ensures
        ({
            let xs = records_of_kind(seen.push(r), RecordKind::Multimedia);
            &&& d1.multimedia@.len() == base.multimedia@.len() + xs.len()
            &&& d1.multimedia@.subrange(0, base.multimedia@.len() as int) == base.multimedia@
            &&& forall|j: int| 0 <= j < xs.len() ==> multimedia_read_at(#[trigger] d1.multimedia@[base.multimedia@.len() + j], s, xs[j].at, level)
        }),
{
    assert(seen.push(r).drop_last() =~= seen);
    let m = base.multimedia@.len();
    let x0 = records_of_kind(seen, RecordKind::Multimedia);
    let x1 = records_of_kind(seen.push(r), RecordKind::Multimedia);
    if r.kind == RecordKind::Multimedia {
        assert(x1 == x0.push(r));
        assert(d1.multimedia@.subrange(0, m as int) =~= d0.multimedia@.subrange(0, m as int)) by {
            assert forall|j: int| 0 <= j < m implies d1.multimedia@[j] == d0.multimedia@[j] by {
                assert(d1.multimedia@.drop_last()[j] == d1.multimedia@[j]);
            }
        }
        assert forall|j: int| 0 <= j < x1.len() implies multimedia_read_at(#[trigger] d1.multimedia@[m + j], s, x1[j].at, level) by {
            if j < x0.len() {
                assert(d1.multimedia@.drop_last()[m + j] == d1.multimedia@[m + j]);
            }
        }
    } else {
        assert(x1 == x0);
    }
}

/// One more record read: the shared notes read so far stay, and one read from
/// the record joins them where it is of that kind.
proof fn lemma_shared_note_step(base: GedcomData, d0: GedcomData, d1: GedcomData, s: Seq<char>, seen: Seq<RecordSeen>, r: RecordSeen, level: u8)
    requires
        ({
            let xs = records_of_kind(seen, RecordKind::SharedNote);
            &&& d0.shared_notes@.len() == base.shared_notes@.len() + xs.len()
            &&& d0.shared_notes@.subrange(0, base.shared_notes@.len() as int) == base.shared_notes@
            &&& forall|j: int| 0 <= j < xs.len() ==> shared_note_read_at(#[trigger] d0.shared_notes@[base.shared_notes@.len() + j], s, xs[j].at, level)
        }),
        adds_record_contents(d0, d1, s, r, level),
    ensures
        ({
            let xs = records_of_kind(seen.push(r), RecordKind::SharedNote);
            &&& d1.shared_notes@.len() == base.shared_notes@.len() + xs.len()
            &&& d1.shared_notes@.subrange(0, base.shared_notes@.len() as int) == base.shared_notes@
            &&& forall|j: int| 0 <= j < xs.len() ==> shared_note_read_at(#[trigger] d1.shared_notes@[base.shared_notes@.len() + j], s, xs[j].at, level)
        }),
{
    assert(seen.push(r).drop_last() =~= seen);
    let m = base.shared_notes@.len();
    let x0 = records_of_kind(seen, RecordKind::SharedNote);
    let x1 = records_of_kind(seen.push(r), RecordKind::SharedNote);
    if r.kind == RecordKind::SharedNote {
        assert(x1 == x0.push(r));
        assert(d1.shared_notes@.subrange(0, m as int) =~= d0.shared_notes@.subrange(0, m as int)) by {
            assert forall|j: int| 0 <= j < m implies d1.shared_notes@[j] == d0.shared_notes@[j] by {
                assert(d1.shared_notes@.drop_last()[j] == d1.shared_notes@[j]);
            }
        }
        assert forall|j: int| 0 <= j < x1.len() implies shared_note_read_at(#[trigger] d1.shared_notes@[m + j], s, x1[j].at, level) by {
            if j < x0.len() {
                assert(d1.shared_notes@.drop_last()[m + j] == d1.shared_notes@[m + j]);
            }
        }
    } else {
        assert(x1 == x0);
    }
}

/// Records read into data that held no individual and no header are all
/// that it holds of them.
#[verifier::rlimit(100)]
#[verifier::spinoff_prover]
pub proof fn lemma_contents_from_empty(d0: GedcomData, d: GedcomData, s: Seq<char>, recs: Seq<RecordSeen>, level: u8)
    requires
        adds_contents(d0, d, s, recs, level),
        d0.header is None,
        d0.individuals@.len() == 0,
        d0.families@.len() == 0,
        d0.repositories@.len() == 0,
        d0.submitters@.len() == 0,
        d0.submissions@.len() == 0,
        d0.shared_notes@.len() == 0,
        d0.multimedia@.len() == 0,
        d0.sources@.len() == 0,
    ensures
        holds_contents(d, s, recs, level),
{
    let xs = records_of_kind(recs, RecordKind::Source);
    assert forall|j: int| 0 <= j < xs.len() implies source_read_at(#[trigger] d.sources@[j], s, xs[j].at, xs[j].line_level) by {
        assert(d.sources@[d0.sources@.len() + j] == d.sources@[j]);
    }
    let xs = records_of_kind(recs, RecordKind::Multimedia);
    assert forall|j: int| 0 <= j < xs.len() implies multimedia_read_at(#[trigger] d.multimedia@[j], s, xs[j].at, level) by {
        assert(d.multimedia@[d0.multimedia@.len() + j] == d.multimedia@[j]);
    }
    let xs = records_of_kind(recs, RecordKind::SharedNote);
    assert forall|j: int| 0 <= j < xs.len() implies shared_note_read_at(#[trigger] d.shared_notes@[j], s, xs[j].at, level) by {
        assert(d.shared_notes@[d0.shared_notes@.len() + j] == d.shared_notes@[j]);
    }
    let xs = records_of_kind(recs, RecordKind::Repository);
    assert forall|j: int| 0 <= j < xs.len() implies repository_read_at(#[trigger] d.repositories@[j], s, xs[j].at, xs[j].line_level) by {
        assert(d.repositories@[d0.repositories@.len() + j] == d.repositories@[j]);
    }
    let xs = records_of_kind(recs, RecordKind::Submitter);
    assert forall|j: int| 0 <= j < xs.len() implies submitter_read_at(#[trigger] d.submitters@[j], s, xs[j].at, level) by {
        assert(d.submitters@[d0.submitters@.len() + j] == d.submitters@[j]);
    }
    let xs = records_of_kind(recs, RecordKind::Submission);
    assert forall|j: int| 0 <= j < xs.len() implies submission_read_at(#[trigger] d.submissions@[j], s, xs[j].at, level) by {
        assert(d.submissions@[d0.submissions@.len() + j] == d.submissions@[j]);
    }

    let fams = records_of_kind(recs, RecordKind::Family);
    assert forall|j: int| 0 <= j < fams.len() implies family_read_at(#[trigger] d.families@[j], s, fams[j].at, level) by {
        assert(d.families@[d0.families@.len() + j] == d.families@[j]);
    }
    let inds = records_of_kind(recs, RecordKind::Individual);
    assert forall|j: int| 0 <= j < inds.len() implies individual_read_at(#[trigger] d.individuals@[j], s, inds[j].at, inds[j].line_level) by {
        assert(d.individuals@[d0.individuals@.len() + j] == d.individuals@[j]);
    }
}

/// Nothing added: the data holds what it held.
pub proof fn lemma_adds_nothing(d: GedcomData)
    ensures
        adds_records(d, d, Seq::empty()),
{
    assert forall|a: Seq<Option<Seq<char>>>| #[trigger] (a + Seq::<Option<Seq<char>>>::empty()) == a by {
        assert(a + Seq::<Option<Seq<char>>>::empty() =~= a);
    }
    assert(custom_tag_texts(d.custom_data@) + Seq::<Seq<char>>::empty() =~= custom_tag_texts(d.custom_data@));
}

/// Records added one after another.
pub proof fn lemma_adds_step(base: GedcomData, d0: GedcomData, d1: GedcomData, seen: Seq<RecordSeen>, r: RecordSeen)
    requires
        adds_records(base, d0, seen),
        adds_record(d0, d1, r),
    ensures
        adds_records(base, d1, seen.push(r)),
{
    lemma_seen_push(seen, r);
    assert forall|a: Seq<Option<Seq<char>>>, b: Seq<Option<Seq<char>>>, x: Option<Seq<char>>|
        #[trigger] (a + b).push(x) == a + b.push(x) by {
        assert((a + b).push(x) =~= a + b.push(x));
    }
    let c0 = custom_tag_texts(base.custom_data@);
    assert((c0 + custom_tags(seen)).push(r.tag) =~= c0 + custom_tags(seen).push(r.tag));
}

/// Records added to data that held none are all that it holds.
pub proof fn lemma_holds_from_empty(d0: GedcomData, d: GedcomData, recs: Seq<RecordSeen>)
    requires
        adds_records(d0, d, recs),
        d0.header is None,
        d0.individuals@.len() == 0 && d0.families@.len() == 0 && d0.repositories@.len() == 0,
        d0.sources@.len() == 0 && d0.submissions@.len() == 0 && d0.submitters@.len() == 0,
        d0.multimedia@.len() == 0 && d0.shared_notes@.len() == 0 && d0.custom_data@.len() == 0,
    ensures
        holds_records(d, recs),
{
    assert forall|a: Seq<Option<Seq<char>>>| #[trigger] (Seq::<Option<Seq<char>>>::empty() + a) == a by {
        assert(Seq::<Option<Seq<char>>>::empty() + a =~= a);
    }
    assert(xref_texts(d0.individuals@) =~= Seq::empty());
    assert(xref_texts(d0.families@) =~= Seq::empty());
    assert(xref_texts(d0.repositories@) =~= Seq::empty());
    assert(xref_texts(d0.sources@) =~= Seq::empty());
    assert(xref_texts(d0.submissions@) =~= Seq::empty());
    assert(xref_texts(d0.submitters@) =~= Seq::empty());
    assert(xref_texts(d0.multimedia@) =~= Seq::empty());
    assert(xref_texts(d0.shared_notes@) =~= Seq::empty());
    assert(custom_tag_texts(d0.custom_data@) =~= Seq::empty());
    assert(Seq::<Seq<char>>::empty() + custom_tags(recs) =~= custom_tags(recs));
}

/// The records seen and then those of `w` are those seen with `r` and then those of `w`.
pub proof fn lemma_after_seen_push(seen: Seq<RecordSeen>, r: RecordSeen, w: Result<Seq<RecordSeen>, ()>)
    ensures
        after_seen(seen, after_seen(seq![r], w)) == after_seen(seen.push(r), w),
{
    if let Ok(rest) = w {
        assert(seen + (seq![r] + rest) =~= seen.push(r) + rest);
    }
}

/// One more record seen adds its xref to those of its kind, and its tag to
/// the user-defined ones where it is one.
pub proof fn lemma_seen_push(seen: Seq<RecordSeen>, r: RecordSeen)
    ensures
        xrefs_of_kind(seen.push(r), r.kind) == xrefs_of_kind(seen, r.kind).push(r.xref),
        forall|k: RecordKind| k != r.kind ==> #[trigger] xrefs_of_kind(seen.push(r), k) == xrefs_of_kind(seen, k),
        forall|k: RecordKind| #[trigger] has_kind(seen.push(r), k) == (has_kind(seen, k) || r.kind == k),
        r.kind == RecordKind::Custom ==> custom_tags(seen.push(r)) == custom_tags(seen).push(r.tag),
        r.kind != RecordKind::Custom ==> custom_tags(seen.push(r)) == custom_tags(seen),
{
    assert(seen.push(r).drop_last() =~= seen);
    assert(xrefs_of_kind(seen, r.kind) + seq![r.xref] =~= xrefs_of_kind(seen, r.kind).push(r.xref));
    assert(custom_tags(seen) + seq![r.tag] =~= custom_tags(seen).push(r.tag));
    assert forall|k: RecordKind| k != r.kind implies #[trigger] xrefs_of_kind(seen.push(r), k) == xrefs_of_kind(seen, k) by {
        assert(xrefs_of_kind(seen, k) + Seq::<Option<Seq<char>>>::empty() =~= xrefs_of_kind(seen, k));
    }
    assert(custom_tags(seen) + Seq::<Seq<char>>::empty() =~= custom_tags(seen));
    assert forall|k: RecordKind| #[trigger] has_kind(seen.push(r), k) == (has_kind(seen, k) || r.kind == k) by {
        if has_kind(seen, k) {
            let i = choose|i: int| 0 <= i < seen.len() && #[trigger] seen[i].kind == k;
            assert(seen.push(r)[i].kind == k);
        }
        if r.kind == k {
            assert(seen.push(r)[seen.len() as int].kind == k);
        }
        if has_kind(seen.push(r), k) {
            let i = choose|i: int| 0 <= i < seen.push(r).len() && #[trigger] seen.push(r)[i].kind == k;
            if i < seen.len() {
                assert(seen[i].kind == k);
            }
        }
    }
}

/// Adding a record after the others adds its xref after theirs.
pub proof fn lemma_xref_texts_push<T: CrossReferenced>(v: Seq<T>, x: T)
    ensures
        xref_texts(v.push(x)) == xref_texts(v).push(text_of(x.xref_of())),
{
    assert(xref_texts(v.push(x)) =~= xref_texts(v).push(text_of(x.xref_of())));
}

} // verus!
