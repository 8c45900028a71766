//! When a record was last changed.
use vstd::prelude::*;
use crate::error::GedcomError;
use crate::parser::{
    at_level_end, child_level, ends_within, last_tag_state, lemma_kids_push, record_read, same_text, spec_child_level,
    subset_step, tag_error, FlatHandler, Parser, SubsetItem,
};
use crate::text::str_eq;
use crate::tokenizer::{TokState, Tokenizer};
use crate::tokenizer::step;
use crate::types::date::date_fields_at;
use crate::types::note::note_read_at;
use crate::types::shared::{lemma_shared_lines_done, lemma_shared_lines_step, shared_end, shared_kids, shared_lines_end, Shared};
use crate::types::custom::UserDefinedTag;
use crate::types::date::Date;
use crate::types::note::Note;

verus! {

/// The date of the last change to a record, with an optional note.
#[derive(Debug)]
pub struct ChangeDate {
    pub date: Option<Date>,
    pub note: Option<Note>,
}

impl Default for ChangeDate {
    fn default() -> (r: Self)
        ensures
            r.date is None && r.note is None,
    {
        ChangeDate { date: None, note: None }
    }
}

/// `c` is `c0` after reading the lines `kids` below a change date at
/// `level`: the date of the last `DATE` line and the note of the last `NOTE`
/// line, each as read at the level below; what no line gives stays as in `c0`.
pub open spec fn change_date_holds(c: ChangeDate, c0: ChangeDate, s: Seq<char>, kids: Seq<(Seq<char>, TokState)>, level: u8) -> bool {
    &&& match last_tag_state(kids, "DATE"@) {
        Some(at) => c.date matches Some(d) && d.fields() == date_fields_at(s, at, spec_child_level(level)),
        None => c.date == c0.date,
    }
    &&& match last_tag_state(kids, "NOTE"@) {
        Some(at) => c.note matches Some(n) && note_read_at(n, s, at, spec_child_level(level)),
        None => c.note == c0.note,
    }
}

/// The lines below a change date whose tag is at `st`.
pub open spec fn change_date_kids(s: Seq<char>, st: TokState, level: u8) -> Seq<(Seq<char>, TokState)> {
    match step(s, st) {
        Ok(st1) => shared_kids(Shared::ChangeDate, s, st1, level),
        Err(_) => Seq::empty(),
    }
}

/// One more line below a change date: what it gives joins what the lines
/// before gave.
#[verifier::rlimit(100)]
#[verifier::spinoff_prover]
proof fn lemma_change_date_line(prev: ChangeDate, cur: ChangeDate, c0: ChangeDate, s: Seq<char>, seen: Seq<(Seq<char>, TokState)>, kid: (Seq<char>, TokState), level: u8)
    requires
        change_date_holds(prev, c0, s, seen, level),
        (kid.0 == "DATE"@ && cur.note == prev.note && (cur.date matches Some(d)
            && d.fields() == date_fields_at(s, kid.1, spec_child_level(level))))
        || (kid.0 == "NOTE"@ && cur.date == prev.date && (cur.note matches Some(n)
            && note_read_at(n, s, kid.1, spec_child_level(level)))),
    ensures
        change_date_holds(cur, c0, s, seen.push(kid), level),
{
    reveal_strlit("DATE");
    reveal_strlit("NOTE");
    assert("DATE"@[0] == 'D' && "NOTE"@[0] == 'N');
    lemma_kids_push(s, seen, kid);
}

impl ChangeDate {
    /// Reads a `CHAN` structure at `level`.
    pub fn new(tokenizer: &mut Tokenizer, level: u8) -> (r: Result<ChangeDate, GedcomError>)
        requires
            old(tokenizer).wf(),
            old(tokenizer).token() is Tag,
        ensures
            record_read(*old(tokenizer), *final(tokenizer), r is Ok, level),
            r is Ok <==> shared_end(Shared::ChangeDate, old(tokenizer).input(), old(tokenizer).state(), level) is Ok,
            r is Ok ==> shared_end(Shared::ChangeDate, old(tokenizer).input(), old(tokenizer).state(), level) == Ok::<TokState, ()>(final(tokenizer).state()),
            r matches Ok(c) ==> change_date_holds(c, (ChangeDate { date: None, note: None }), old(tokenizer).input(),
                change_date_kids(old(tokenizer).input(), old(tokenizer).state(), level), level),
        decreases old(tokenizer).measure(), 0nat,
    {
        let mut date = ChangeDate::default();
        tokenizer.next_token()?;
        date.parse_lines(tokenizer, level)?;
        Ok(date)
    }

    #[verifier::rlimit(100)]
    #[verifier::spinoff_prover]
    fn parse_lines(&mut self, tokenizer: &mut Tokenizer, level: u8) -> (r: Result<(), GedcomError>)
        requires
            old(tokenizer).wf(),
        ensures
            same_text(*old(tokenizer), *final(tokenizer)),
            r is Ok ==> final(tokenizer).measure() <= old(tokenizer).measure(),
            r is Ok ==> at_level_end(*final(tokenizer), level),
            r is Ok ==> ends_within(*old(tokenizer), *final(tokenizer), level),
            r is Ok <==> shared_lines_end(Shared::ChangeDate, old(tokenizer).input(), old(tokenizer).state(), level) is Ok,
            r is Ok ==> shared_lines_end(Shared::ChangeDate, old(tokenizer).input(), old(tokenizer).state(), level) == Ok::<TokState, ()>(final(tokenizer).state()),
            r is Ok ==> change_date_holds(*final(self), *old(self), old(tokenizer).input(),
                shared_kids(Shared::ChangeDate, old(tokenizer).input(), old(tokenizer).state(), level), level),
        decreases old(tokenizer).measure(), 1nat,
    {
        let ghost start = *old(tokenizer);
        let ghost s = start.input();
        let ghost c0 = *old(self);
        let ghost mut seen: Seq<(Seq<char>, TokState)> = Seq::empty();
        proof {
            assert(seen + shared_kids(Shared::ChangeDate, s, start.state(), level) =~= shared_kids(Shared::ChangeDate, s, start.state(), level));
        }
        let mut custom: Vec<Box<UserDefinedTag>> = Vec::new();
        loop
            invariant_except_break
                shared_lines_end(Shared::ChangeDate, start.input(), tokenizer.state(), level) == shared_lines_end(Shared::ChangeDate, start.input(), start.state(), level),
                seen + shared_kids(Shared::ChangeDate, s, tokenizer.state(), level) == shared_kids(Shared::ChangeDate, s, start.state(), level),
            invariant
                start == *old(tokenizer),
                s == start.input(),
                change_date_holds(*self, c0, s, seen, level),
                same_text(start, *tokenizer),
                tokenizer.measure() <= start.measure(),
                ends_within(start, *tokenizer, level),
            ensures
                same_text(start, *tokenizer),
                tokenizer.measure() <= start.measure(),
                ends_within(start, *tokenizer, level),
                shared_lines_end(Shared::ChangeDate, start.input(), start.state(), level) == Ok::<TokState, ()>(tokenizer.state()),
                at_level_end(*tokenizer, level),
                seen == shared_kids(Shared::ChangeDate, s, start.state(), level),
            decreases tokenizer.measure(),
        {
            let ghost before = tokenizer.state();
            let item = subset_step(tokenizer, level, &mut custom)?;
            let ghost at = tokenizer.state();
            match item {
                SubsetItem::Done => {
                    proof {
                        lemma_shared_lines_done(Shared::ChangeDate, start.input(), before, at, level);
                        assert(seen + Seq::<(Seq<char>, TokState)>::empty() =~= seen);
                    }
                    break;
                },
                SubsetItem::Tag(tag) => {
                    proof {
                        lemma_shared_lines_step(Shared::ChangeDate, start.input(), before, at, tag@, level);
                    }
                    let ghost prev = *self;
                    let tag = tag.as_str();
                    if str_eq(tag, "DATE") {
                        self.date = Some(Date::new(tokenizer, child_level(level))?);
                    } else if str_eq(tag, "NOTE") {
                        self.note = Some(Note::new(tokenizer, child_level(level))?);
                    } else {
                        return Err(tag_error("Unhandled ChangeDate Tag: ", tag, tokenizer.line()));
                    }
                    proof {
                        let kid = (tag@, at);
                        lemma_change_date_line(prev, *self, c0, s, seen, kid, level);
                        assert(seen.push(kid) + shared_kids(Shared::ChangeDate, s, tokenizer.state(), level)
                            =~= seen + (seq![kid] + shared_kids(Shared::ChangeDate, s, tokenizer.state(), level)));
                        seen = seen.push(kid);
                    }
                },
            }
        }
        Ok(())
    }
}

impl Parser for ChangeDate {
    fn parse(&mut self, tokenizer: &mut Tokenizer, level: u8) -> (r: Result<(), GedcomError>) 
        ensures
            r is Ok ==> at_level_end(*final(tokenizer), level),
            r is Ok <==> shared_end(Shared::ChangeDate, old(tokenizer).input(), old(tokenizer).state(), level) is Ok,
            r is Ok ==> change_date_holds(*final(self), *old(self), old(tokenizer).input(),
                change_date_kids(old(tokenizer).input(), old(tokenizer).state(), level), level),
    {
        tokenizer.next_token()?;
        self.parse_lines(tokenizer, level)
    }
}

/// A copy of a change date and of its note.
pub(crate) fn copy_change_date(d: &ChangeDate) -> (r: ChangeDate)
    ensures
        r.date == d.date,
        r.note is Some <==> d.note is Some,
        r.note matches Some(x) ==> d.note matches Some(y) && crate::types::note::note_kept(x, y),
    decreases d,
{
    let note = match &d.note {
        Some(n) => Some(crate::types::note::copy_note(n)),
        None => None,
    };
    ChangeDate { date: d.date.clone(), note }
}

impl Clone for ChangeDate {
    fn clone(&self) -> (r: Self) {
        copy_change_date(self)
    }
}

} // verus!
