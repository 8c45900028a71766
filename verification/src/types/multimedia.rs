//! Multimedia records and links.
use vstd::prelude::*;
use crate::error::GedcomError;
use crate::parser::{
    at_level_end, child_level, ends_within, last_tag_state, last_tag_value, lemma_kids_push, record_read, same_text,
    spec_child_level, subset_step, tag_error, value_at, Parser, SubsetItem,
};
use crate::tokenizer::step;
use crate::types::date::change_date::{change_date_holds, change_date_kids};
use crate::types::note::{note_read_at, replaced_by};
use crate::text::str_eq;
use crate::tokenizer::{TokState, Tokenizer};
use crate::types::shared::{lemma_shared_lines_done, lemma_shared_lines_step, shared_end, shared_kids, shared_lines_end, Shared};
use crate::types::custom::UserDefinedTag;
use crate::types::date::change_date::ChangeDate;
use crate::types::multimedia::file::Reference;
use crate::types::multimedia::format::Format;
use crate::types::multimedia::user::UserReferenceNumber;
use crate::types::note::Note;
use crate::types::source::citation::Citation;
use crate::types::Xref;

pub mod file;
pub mod format;
pub mod link;
pub mod user;

verus! {

/// A multimedia record: a file, its format and title, and what describes it.
#[derive(Debug)]
pub struct Multimedia {
    pub xref: Option<Xref>,
    pub file: Option<Reference>,
    pub form: Option<Format>,
    pub title: Option<String>,
    pub user_reference_number: Option<UserReferenceNumber>,
    pub automated_record_id: Option<String>,
    pub source_citation: Option<Citation>,
    pub change_date: Option<ChangeDate>,
    pub note_structure: Option<Note>,
}

/// `m` is `m0` after reading the lines `kids` below a multimedia record at
/// `level`: the title and record id of the last `TITL` and `RIN` lines, the
/// note and change date read from the last `NOTE` and `CHAN` lines, and a
/// file, format, reference number and citation where there are `FILE`,
/// `FORM`, `REFN` and `SOUR` lines; what no line gives stays as in `m0`.
pub open spec fn multimedia_holds(m: Multimedia, m0: Multimedia, s: Seq<char>, kids: Seq<(Seq<char>, TokState)>, level: u8) -> bool {
    let sub = spec_child_level(level);
    &&& (if last_tag_state(kids, "FILE"@) is Some { m.file is Some } else { m.file == m0.file })
    &&& (if last_tag_state(kids, "FORM"@) is Some { m.form is Some } else { m.form == m0.form })
    &&& replaced_by(m.title, m0.title, last_tag_value(s, kids, "TITL"@))
    &&& (if last_tag_state(kids, "REFN"@) is Some { m.user_reference_number is Some } else {
        m.user_reference_number == m0.user_reference_number
    })
    &&& replaced_by(m.automated_record_id, m0.automated_record_id, last_tag_value(s, kids, "RIN"@))
    &&& match last_tag_state(kids, "NOTE"@) {
        Some(at) => m.note_structure matches Some(n) && note_read_at(n, s, at, sub),
        None => m.note_structure == m0.note_structure,
    }
    &&& (if last_tag_state(kids, "SOUR"@) is Some { m.source_citation is Some } else { m.source_citation == m0.source_citation })
    &&& match last_tag_state(kids, "CHAN"@) {
        Some(at) => m.change_date matches Some(c) && change_date_holds(
            c, (ChangeDate { date: None, note: None }), s, change_date_kids(s, at, sub), sub),
        None => m.change_date == m0.change_date,
    }
}

/// The lines below a multimedia record whose tag is at `st`.
pub open spec fn multimedia_kids(s: Seq<char>, st: TokState, level: u8) -> Seq<(Seq<char>, TokState)> {
    match step(s, st) {
        Ok(st1) => shared_kids(Shared::Multimedia, s, st1, level),
        Err(_) => Seq::empty(),
    }
}

/// A multimedia record with the xref `x` and nothing else.
pub open spec fn bare_multimedia(x: Option<Xref>) -> Multimedia {
    Multimedia {
        xref: x,
        file: None,
        form: None,
        title: None,
        user_reference_number: None,
        automated_record_id: None,
        source_citation: None,
        change_date: None,
        note_structure: None,
    }
}

/// What reading the line `kid` does to a multimedia record: the field of its
/// tag takes what the line gives, and the others stay.
spec fn multimedia_line_read(prev: Multimedia, cur: Multimedia, s: Seq<char>, kid: (Seq<char>, TokState), level: u8) -> bool {
    let t = kid.0;
    let at = kid.1;
    let sub = spec_child_level(level);
    let v = value_at(s, at);
    let others = |f: Multimedia| f.file == prev.file && f.form == prev.form && f.title == prev.title
        && f.user_reference_number == prev.user_reference_number && f.automated_record_id == prev.automated_record_id
        && f.note_structure == prev.note_structure && f.source_citation == prev.source_citation
        && f.change_date == prev.change_date;
    ||| t == "FILE"@ && others(Multimedia { file: prev.file, ..cur }) && cur.file is Some
    ||| t == "FORM"@ && others(Multimedia { form: prev.form, ..cur }) && cur.form is Some
    ||| t == "TITL"@ && others(Multimedia { title: prev.title, ..cur }) && (cur.title matches Some(x) && x@ == v)
    ||| t == "REFN"@ && others(Multimedia { user_reference_number: prev.user_reference_number, ..cur })
        && cur.user_reference_number is Some
    ||| t == "RIN"@ && others(Multimedia { automated_record_id: prev.automated_record_id, ..cur })
        && (cur.automated_record_id matches Some(x) && x@ == v)
    ||| t == "NOTE"@ && others(Multimedia { note_structure: prev.note_structure, ..cur })
        && (cur.note_structure matches Some(n) && note_read_at(n, s, at, sub))
    ||| t == "SOUR"@ && others(Multimedia { source_citation: prev.source_citation, ..cur }) && cur.source_citation is Some
    ||| t == "CHAN"@ && others(Multimedia { change_date: prev.change_date, ..cur }) && (cur.change_date matches Some(c)
        && change_date_holds(c, (ChangeDate { date: None, note: None }), s, change_date_kids(s, at, sub), sub))
}

/// One more line below a multimedia record: what it gives joins what the
/// lines before gave.
#[verifier::rlimit(100)]
#[verifier::spinoff_prover]
proof fn lemma_multimedia_line(prev: Multimedia, cur: Multimedia, m0: Multimedia, s: Seq<char>, seen: Seq<(Seq<char>, TokState)>, kid: (Seq<char>, TokState), level: u8)
    requires
        multimedia_holds(prev, m0, s, seen, level),
        multimedia_line_read(prev, cur, s, kid, level),
    ensures
        multimedia_holds(cur, m0, s, seen.push(kid), level),
{
    reveal_strlit("FILE");
    reveal_strlit("FORM");
    reveal_strlit("TITL");
    reveal_strlit("REFN");
    reveal_strlit("RIN");
    reveal_strlit("NOTE");
    reveal_strlit("SOUR");
    reveal_strlit("CHAN");
    assert("FILE"@.len() == 4 && "FORM"@.len() == 4 && "FILE"@[1] == 'I' && "FORM"@[1] == 'O');
    assert("FILE"@[0] == 'F' && "TITL"@[0] == 'T' && "REFN"@[0] == 'R' && "RIN"@.len() == 3 && "REFN"@.len() == 4);
    assert("NOTE"@[0] == 'N' && "SOUR"@[0] == 'S' && "CHAN"@[0] == 'C' && "TITL"@.len() == 4);
    assert("NOTE"@.len() == 4 && "SOUR"@.len() == 4 && "CHAN"@.len() == 4 && "RIN"@[0] == 'R');
    lemma_kids_push(s, seen, kid);
}

impl Multimedia {
    fn with_xref(xref: Option<Xref>) -> (r: Self)
        ensures
            r.xref == xref,
            r == bare_multimedia(xref),
    {
        Multimedia {
            xref,
            file: None,
            form: None,
            title: None,
            user_reference_number: None,
            automated_record_id: None,
            source_citation: None,
            change_date: None,
            note_structure: None,
        }
    }

    /// Reads an `OBJE` structure at `level` whose identifier is `xref`.
    pub fn new(tokenizer: &mut Tokenizer, level: u8, xref: Option<Xref>) -> (r: Result<Multimedia, GedcomError>)
        requires
            old(tokenizer).wf(),
            old(tokenizer).token() is Tag,
        ensures
            record_read(*old(tokenizer), *final(tokenizer), r is Ok, level),
            r matches Ok(m) ==> m.xref == xref,
            r is Ok <==> shared_end(Shared::Multimedia, old(tokenizer).input(), old(tokenizer).state(), level) is Ok,
            r is Ok ==> shared_end(Shared::Multimedia, old(tokenizer).input(), old(tokenizer).state(), level) == Ok::<TokState, ()>(final(tokenizer).state()),
            r matches Ok(m) ==> multimedia_holds(m, bare_multimedia(xref), old(tokenizer).input(),
                multimedia_kids(old(tokenizer).input(), old(tokenizer).state(), level), level),
        decreases old(tokenizer).measure(), 0nat,
    {
        let mut obje = Multimedia::with_xref(xref);
        tokenizer.next_token()?;
        obje.parse_lines(tokenizer, level)?;
        Ok(obje)
    }

    #[verifier::rlimit(100)]
    #[verifier::spinoff_prover]
    fn parse_lines(&mut self, tokenizer: &mut Tokenizer, level: u8) -> (r: Result<(), GedcomError>)
        requires
            old(tokenizer).wf(),
        ensures
            same_text(*old(tokenizer), *final(tokenizer)),
            r is Ok ==> final(tokenizer).measure() <= old(tokenizer).measure(),
            r is Ok ==> at_level_end(*final(tokenizer), level),
            r is Ok ==> ends_within(*old(tokenizer), *final(tokenizer), level),
            final(self).xref == old(self).xref,
            r is Ok <==> shared_lines_end(Shared::Multimedia, old(tokenizer).input(), old(tokenizer).state(), level) is Ok,
            r is Ok ==> shared_lines_end(Shared::Multimedia, old(tokenizer).input(), old(tokenizer).state(), level) == Ok::<TokState, ()>(final(tokenizer).state()),
            r is Ok ==> multimedia_holds(*final(self), *old(self), old(tokenizer).input(),
                shared_kids(Shared::Multimedia, old(tokenizer).input(), old(tokenizer).state(), level), level),
        decreases old(tokenizer).measure(), 1nat,
    {
        let ghost start = *old(tokenizer);
        let ghost s = start.input();
        let ghost m0 = *old(self);
        let ghost mut seen: Seq<(Seq<char>, TokState)> = Seq::empty();
        proof {
            assert(seen + shared_kids(Shared::Multimedia, s, start.state(), level) =~= shared_kids(Shared::Multimedia, s, start.state(), level));
        }
        let mut custom: Vec<Box<UserDefinedTag>> = Vec::new();
        loop
            invariant_except_break
                shared_lines_end(Shared::Multimedia, start.input(), tokenizer.state(), level) == shared_lines_end(Shared::Multimedia, start.input(), start.state(), level),
                seen + shared_kids(Shared::Multimedia, s, tokenizer.state(), level) == shared_kids(Shared::Multimedia, s, start.state(), level),
            invariant
                start == *old(tokenizer),
                s == start.input(),
                multimedia_holds(*self, m0, s, seen, level),
                same_text(start, *tokenizer),
                tokenizer.measure() <= start.measure(),
                ends_within(start, *tokenizer, level),
                self.xref == old(self).xref,
            ensures
                same_text(start, *tokenizer),
                tokenizer.measure() <= start.measure(),
                ends_within(start, *tokenizer, level),
                shared_lines_end(Shared::Multimedia, start.input(), start.state(), level) == Ok::<TokState, ()>(tokenizer.state()),
                at_level_end(*tokenizer, level),
                self.xref == old(self).xref,
                seen == shared_kids(Shared::Multimedia, s, start.state(), level),
            decreases tokenizer.measure(),
        {
            let ghost before = tokenizer.state();
            let item = subset_step(tokenizer, level, &mut custom)?;
            let ghost at = tokenizer.state();
            match item {
                SubsetItem::Done => {
                    proof {
                        lemma_shared_lines_done(Shared::Multimedia, start.input(), before, at, level);
                        assert(seen + Seq::<(Seq<char>, TokState)>::empty() =~= seen);
                    }
                    break;
                },
                SubsetItem::Tag(tag) => {
                    proof {
                        lemma_shared_lines_step(Shared::Multimedia, start.input(), before, at, tag@, level);
                    }
                    let ghost prev = *self;
                    let tag = tag.as_str();
                    if str_eq(tag, "FILE") {
                        self.file = Some(Reference::new(tokenizer, child_level(level))?);
                    } else if str_eq(tag, "FORM") {
                        self.form = Some(Format::new(tokenizer, child_level(level))?);
                    } else if str_eq(tag, "TITL") {
                        self.title = Some(tokenizer.take_line_value()?);
                    } else if str_eq(tag, "REFN") {
                        self.user_reference_number = Some(UserReferenceNumber::new(tokenizer, child_level(level))?);
                    } else if str_eq(tag, "RIN") {
                        self.automated_record_id = Some(tokenizer.take_line_value()?);
                    } else if str_eq(tag, "NOTE") {
                        self.note_structure = Some(Note::new(tokenizer, child_level(level))?);
                    } else if str_eq(tag, "SOUR") {
                        self.source_citation = Some(Citation::new(tokenizer, child_level(level))?);
                    } else if str_eq(tag, "CHAN") {
                        self.change_date = Some(ChangeDate::new(tokenizer, child_level(level))?);
                    } else {
                        return Err(tag_error("Unhandled Multimedia Tag: ", tag, tokenizer.line()));
                    }
                    proof {
                        let kid = (tag@, at);
                        assert(multimedia_line_read(prev, *self, s, kid, level));
                        lemma_multimedia_line(prev, *self, m0, s, seen, kid, level);
                        assert(seen.push(kid) + shared_kids(Shared::Multimedia, s, tokenizer.state(), level)
                            =~= seen + (seq![kid] + shared_kids(Shared::Multimedia, s, tokenizer.state(), level)));
                        seen = seen.push(kid);
                    }
                },
            }
        }
        Ok(())
    }
}

impl Parser for Multimedia {
    fn parse(&mut self, tokenizer: &mut Tokenizer, level: u8) -> (r: Result<(), GedcomError>) 
        ensures
            r is Ok ==> at_level_end(*final(tokenizer), level),
            r is Ok <==> shared_end(Shared::Multimedia, old(tokenizer).input(), old(tokenizer).state(), level) is Ok,
            r is Ok ==> multimedia_holds(*final(self), *old(self), old(tokenizer).input(),
                multimedia_kids(old(tokenizer).input(), old(tokenizer).state(), level), level),
    {
        tokenizer.next_token()?;
        self.parse_lines(tokenizer, level)
    }
}

/// A copy of a multimedia record and of what it holds.
/// `r` has the xref, the title and the record number of `m`, and a file, a
/// format, a reference number, a citation, a change date and a note where
/// `m` has them.
pub open spec fn multimedia_kept(r: Multimedia, m: Multimedia) -> bool {
    &&& r.xref == m.xref
    &&& r.title == m.title
    &&& r.automated_record_id == m.automated_record_id
    &&& (r.file is Some <==> m.file is Some)
    &&& (r.form is Some <==> m.form is Some)
    &&& (r.user_reference_number is Some <==> m.user_reference_number is Some)
    &&& (r.source_citation is Some <==> m.source_citation is Some)
    &&& (r.change_date is Some <==> m.change_date is Some)
    &&& (r.note_structure is Some <==> m.note_structure is Some)
}

pub(crate) fn copy_multimedia(m: &Multimedia) -> (r: Multimedia)
    ensures
        multimedia_kept(r, *m),
        r.source_citation matches Some(x) ==> m.source_citation matches Some(y)
            && crate::types::source::citation::citation_kept(x, y),
        r.note_structure matches Some(x) ==> m.note_structure matches Some(y) && crate::types::note::note_kept(x, y),
    decreases m,
{
    let source_citation = match &m.source_citation {
        Some(c) => Some(crate::types::source::citation::copy_citation(c)),
        None => None,
    };
    let change_date = match &m.change_date {
        Some(d) => Some(crate::types::date::change_date::copy_change_date(d)),
        None => None,
    };
    let note_structure = match &m.note_structure {
        Some(n) => Some(crate::types::note::copy_note(n)),
        None => None,
    };
    Multimedia {
        xref: m.xref.clone(),
        file: m.file.clone(),
        form: m.form.clone(),
        title: m.title.clone(),
        user_reference_number: m.user_reference_number.clone(),
        automated_record_id: m.automated_record_id.clone(),
        source_citation,
        change_date,
        note_structure,
    }
}

impl Clone for Multimedia {
    fn clone(&self) -> (r: Self) {
        copy_multimedia(self)
    }
}

} // verus!
