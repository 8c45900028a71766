//! Notes attached to a structure.
use vstd::prelude::*;
use vstd::string::StringExecFns;
use crate::error::GedcomError;
use crate::parser::{
    at_level_end, child_level, ends_within, last_tag_state, last_tag_value, lemma_kids_push, record_read, same_text,
    subset_step, tag_error, Parser, SubsetItem,
};
use crate::text::{push_char, str_eq};
use crate::parser::value_at;
use crate::tokenizer::{take_value, TokState, Tokenizer};
use crate::types::shared::{
    lemma_shared_lines_done, lemma_shared_lines_step, note_text, shared_end, shared_kids, shared_lines_end, Shared,
};
use crate::types::custom::UserDefinedTag;
use crate::types::source::citation::Citation;
use crate::types::translation::Translation;

verus! {

/// A note: its text, which may continue over `CONT` and `CONC` lines, and
/// what describes it.
#[derive(Debug)]
pub struct Note {
    pub value: Option<String>,
    pub mime: Option<String>,
    pub translation: Option<Translation>,
    pub citation: Option<Box<Citation>>,
    pub language: Option<String>,
}

impl Default for Note {
    fn default() -> (r: Self)
        ensures
            r.value is None && r.mime is None && r.translation is None,
            r.citation is None && r.language is None,
    {
        Note { value: None, mime: None, translation: None, citation: None, language: None }
    }
}

/// A note with nothing in it.
pub open spec fn empty_note() -> Note {
    Note { value: None, mime: None, translation: None, citation: None, language: None }
}

/// `o` is the text `v` where there is one, and otherwise `o0`.
pub open spec fn replaced_by(o: Option<String>, o0: Option<String>, v: Option<Seq<char>>) -> bool {
    match v {
        Some(x) => o matches Some(m) && m@ == x,
        None => o == o0,
    }
}

/// `n` is `n0` after reading a note whose first value is `first` and whose
/// lines below are `kids`: its text where that is not empty, the last media
/// type and language, and a translation and a citation where there are
/// `TRAN` and `SOUR` lines; what no line gives stays as in `n0`.
pub open spec fn note_holds(n: Note, n0: Note, s: Seq<char>, first: Seq<char>, kids: Seq<(Seq<char>, TokState)>) -> bool {
    let text = note_text(first, s, kids);
    &&& (if text.len() == 0 { n.value == n0.value } else { n.value matches Some(v) && v@ == text })
    &&& note_fields_hold(n, n0, s, kids)
}

/// What the lines `kids` below a note give besides its text.
pub open spec fn note_fields_hold(n: Note, n0: Note, s: Seq<char>, kids: Seq<(Seq<char>, TokState)>) -> bool {
    &&& replaced_by(n.mime, n0.mime, last_tag_value(s, kids, "MIME"@))
    &&& replaced_by(n.language, n0.language, last_tag_value(s, kids, "LANG"@))
    &&& (if last_tag_state(kids, "TRAN"@) is Some { n.translation is Some } else { n.translation == n0.translation })
    &&& (if last_tag_state(kids, "SOUR"@) is Some { n.citation is Some } else { n.citation == n0.citation })
}

/// `n` is the note read at `level` from its tag at `st`.
pub open spec fn note_read_at(n: Note, s: Seq<char>, st: TokState, level: u8) -> bool {
    take_value(s, st) matches Ok((st1, first)) && note_holds(n, empty_note(), s, first, shared_kids(Shared::Note, s, st1, level))
}

/// Reading the line `kid` below a note takes `prev` to `cur` and the text
/// read so far from `v0` to `v1`.
spec fn note_line_read(prev: Note, cur: Note, v0: Seq<char>, v1: Seq<char>, s: Seq<char>, kid: (Seq<char>, TokState)) -> bool {
    let x = value_at(s, kid.1);
    let keeps_mime = cur.mime == prev.mime;
    let keeps_lang = cur.language == prev.language;
    let keeps_tran = cur.translation == prev.translation;
    let keeps_sour = cur.citation == prev.citation;
    ||| kid.0 == "MIME"@ && (cur.mime matches Some(m) && m@ == x) && keeps_lang && keeps_tran && keeps_sour && v1 == v0
    ||| kid.0 == "LANG"@ && (cur.language matches Some(m) && m@ == x) && keeps_mime && keeps_tran && keeps_sour && v1 == v0
    ||| kid.0 == "TRAN"@ && cur.translation is Some && keeps_mime && keeps_lang && keeps_sour && v1 == v0
    ||| kid.0 == "SOUR"@ && cur.citation is Some && keeps_mime && keeps_lang && keeps_tran && v1 == v0
    ||| kid.0 == "CONC"@ && keeps_mime && keeps_lang && keeps_tran && keeps_sour && v1 == v0 + x
    ||| kid.0 == "CONT"@ && keeps_mime && keeps_lang && keeps_tran && keeps_sour && v1 == v0.push('\n') + x
}

/// One more line below a note: what it gives joins what the lines before gave.
#[verifier::rlimit(100)]
#[verifier::spinoff_prover]
proof fn lemma_note_line(
    prev: Note,
    cur: Note,
    n0: Note,
    v0: Seq<char>,
    v1: Seq<char>,
    first: Seq<char>,
    s: Seq<char>,
    seen: Seq<(Seq<char>, TokState)>,
    kid: (Seq<char>, TokState),
)
    requires
        note_fields_hold(prev, n0, s, seen),
        v0 == note_text(first, s, seen),
        note_line_read(prev, cur, v0, v1, s, kid),
    ensures
        note_fields_hold(cur, n0, s, seen.push(kid)),
        v1 == note_text(first, s, seen.push(kid)),
{
    reveal_strlit("MIME");
    reveal_strlit("LANG");
    reveal_strlit("TRAN");
    reveal_strlit("SOUR");
    reveal_strlit("CONC");
    reveal_strlit("CONT");
    assert("MIME"@[0] == 'M' && "LANG"@[0] == 'L' && "TRAN"@[0] == 'T' && "SOUR"@[0] == 'S');
    assert("CONC"@[0] == 'C' && "CONT"@[0] == 'C' && "CONC"@[3] == 'C' && "CONT"@[3] == 'T');
    lemma_kids_push(s, seen, kid);
    let next = seen.push(kid);
    assert(next.drop_last() =~= seen);
    assert(next.last() == kid);
    if kid.0 == "MIME"@ {
        assert(last_tag_value(s, next, "LANG"@) == last_tag_value(s, seen, "LANG"@));
        assert(last_tag_state(next, "TRAN"@) == last_tag_state(seen, "TRAN"@));
        assert(last_tag_state(next, "SOUR"@) == last_tag_state(seen, "SOUR"@));
    } else if kid.0 == "LANG"@ {
        assert(last_tag_value(s, next, "MIME"@) == last_tag_value(s, seen, "MIME"@));
        assert(last_tag_state(next, "TRAN"@) == last_tag_state(seen, "TRAN"@));
        assert(last_tag_state(next, "SOUR"@) == last_tag_state(seen, "SOUR"@));
    } else if kid.0 == "TRAN"@ {
        assert(last_tag_value(s, next, "MIME"@) == last_tag_value(s, seen, "MIME"@));
        assert(last_tag_value(s, next, "LANG"@) == last_tag_value(s, seen, "LANG"@));
        assert(last_tag_state(next, "SOUR"@) == last_tag_state(seen, "SOUR"@));
    } else if kid.0 == "SOUR"@ {
        assert(last_tag_value(s, next, "MIME"@) == last_tag_value(s, seen, "MIME"@));
        assert(last_tag_value(s, next, "LANG"@) == last_tag_value(s, seen, "LANG"@));
        assert(last_tag_state(next, "TRAN"@) == last_tag_state(seen, "TRAN"@));
    } else {
        assert(last_tag_value(s, next, "MIME"@) == last_tag_value(s, seen, "MIME"@));
        assert(last_tag_value(s, next, "LANG"@) == last_tag_value(s, seen, "LANG"@));
        assert(last_tag_state(next, "TRAN"@) == last_tag_state(seen, "TRAN"@));
        assert(last_tag_state(next, "SOUR"@) == last_tag_state(seen, "SOUR"@));
    }
    assert(note_text(first, s, next) == v1);
}

impl Note {
    /// Reads a `NOTE` structure at `level`.
    pub fn new(tokenizer: &mut Tokenizer, level: u8) -> (r: Result<Note, GedcomError>)
        requires
            old(tokenizer).wf(),
            old(tokenizer).token() is Tag,
        ensures
            record_read(*old(tokenizer), *final(tokenizer), r is Ok, level),
            r is Ok <==> shared_end(Shared::Note, old(tokenizer).input(), old(tokenizer).state(), level) is Ok,
            r is Ok ==> shared_end(Shared::Note, old(tokenizer).input(), old(tokenizer).state(), level) == Ok::<TokState, ()>(final(tokenizer).state()),
            r matches Ok(n) ==> note_read_at(n, old(tokenizer).input(), old(tokenizer).state(), level),
        decreases old(tokenizer).measure(), 0nat,
    {
        let mut note = Note::default();
        assert(note == empty_note());
        let first = tokenizer.take_line_value()?;
        note.parse_lines(tokenizer, level, first)?;
        Ok(note)
    }

    #[verifier::rlimit(100)]
    #[verifier::spinoff_prover]
    fn parse_lines(&mut self, tokenizer: &mut Tokenizer, level: u8, first: String) -> (r: Result<(), GedcomError>)
        requires
            old(tokenizer).wf(),
        ensures
            same_text(*old(tokenizer), *final(tokenizer)),
            r is Ok ==> final(tokenizer).measure() <= old(tokenizer).measure(),
            r is Ok ==> at_level_end(*final(tokenizer), level),
            r is Ok ==> ends_within(*old(tokenizer), *final(tokenizer), level),
            r is Ok <==> shared_lines_end(Shared::Note, old(tokenizer).input(), old(tokenizer).state(), level) is Ok,
            r is Ok ==> shared_lines_end(Shared::Note, old(tokenizer).input(), old(tokenizer).state(), level) == Ok::<TokState, ()>(final(tokenizer).state()),
            r is Ok ==> note_holds(*final(self), *old(self), old(tokenizer).input(), first@,
                shared_kids(Shared::Note, old(tokenizer).input(), old(tokenizer).state(), level)),
        decreases old(tokenizer).measure(), 1nat,
    {
        let ghost start = *old(tokenizer);
        let ghost s = start.input();
        let ghost n0 = *old(self);
        let ghost mut seen: Seq<(Seq<char>, TokState)> = Seq::empty();
        let mut value = first;
        proof {
            assert(seen + shared_kids(Shared::Note, s, start.state(), level) =~= shared_kids(Shared::Note, s, start.state(), level));
        }
        let mut custom: Vec<Box<UserDefinedTag>> = Vec::new();
        loop
            invariant_except_break
                shared_lines_end(Shared::Note, start.input(), tokenizer.state(), level) == shared_lines_end(Shared::Note, start.input(), start.state(), level),
                seen + shared_kids(Shared::Note, s, tokenizer.state(), level) == shared_kids(Shared::Note, s, start.state(), level),
            invariant
                start == *old(tokenizer),
                s == start.input(),
                value@ == note_text(first@, s, seen),
                self.value == n0.value,
                note_fields_hold(*self, n0, s, seen),
                same_text(start, *tokenizer),
                tokenizer.measure() <= start.measure(),
                ends_within(start, *tokenizer, level),
            ensures
                same_text(start, *tokenizer),
                tokenizer.measure() <= start.measure(),
                ends_within(start, *tokenizer, level),
                shared_lines_end(Shared::Note, start.input(), start.state(), level) == Ok::<TokState, ()>(tokenizer.state()),
                at_level_end(*tokenizer, level),
                seen == shared_kids(Shared::Note, s, start.state(), level),
            decreases tokenizer.measure(),
        {
            let ghost before = tokenizer.state();
            let item = subset_step(tokenizer, level, &mut custom)?;
            let ghost at = tokenizer.state();
            match item {
                SubsetItem::Done => {
                    proof {
                        lemma_shared_lines_done(Shared::Note, start.input(), before, at, level);
                        assert(seen + Seq::<(Seq<char>, TokState)>::empty() =~= seen);
                    }
                    break;
                },
                SubsetItem::Tag(tag) => {
                    proof {
                        lemma_shared_lines_step(Shared::Note, start.input(), before, at, tag@, level);
                    }
                    let ghost prev = *self;
                    let ghost value0 = value@;
                    let tag = tag.as_str();
                    if str_eq(tag, "MIME") {
                        self.mime = Some(tokenizer.take_line_value()?);
                    } else if str_eq(tag, "TRAN") {
                        self.translation = Some(Translation::new(tokenizer, child_level(level))?);
                    } else if str_eq(tag, "LANG") {
                        self.language = Some(tokenizer.take_line_value()?);
                    } else if str_eq(tag, "CONC") {
                        let v = tokenizer.take_line_value()?;
                        value.append(v.as_str());
                    } else if str_eq(tag, "CONT") {
                        let v = tokenizer.take_line_value()?;
                        push_char(&mut value, '\n');
                        value.append(v.as_str());
                    } else if str_eq(tag, "SOUR") {
                        self.citation = Some(Box::new(Citation::new(tokenizer, child_level(level))?));
                    } else {
                        return Err(tag_error("Unhandled Note Tag: ", tag, tokenizer.line()));
                    }
                    proof {
                        let kid = (tag@, at);
                        assert(note_line_read(prev, *self, value0, value@, s, kid));
                        lemma_note_line(prev, *self, n0, value0, value@, first@, s, seen, kid);
                        assert(seen.push(kid) + shared_kids(Shared::Note, s, tokenizer.state(), level)
                            =~= seen + (seq![kid] + shared_kids(Shared::Note, s, tokenizer.state(), level)));
                        seen = seen.push(kid);
                    }
                },
            }
        }
        if !value.as_str().is_empty() {
            self.value = Some(value);
        }
        Ok(())
    }
}

impl Parser for Note {
    fn parse(&mut self, tokenizer: &mut Tokenizer, level: u8) -> (r: Result<(), GedcomError>) 
        ensures
            r is Ok ==> at_level_end(*final(tokenizer), level),
            r is Ok <==> (take_value(old(tokenizer).input(), old(tokenizer).state()) matches Ok((st1, _))
                && shared_lines_end(Shared::Note, old(tokenizer).input(), st1, level) is Ok),
            r is Ok ==> (take_value(old(tokenizer).input(), old(tokenizer).state()) matches Ok((st1, first))
                && note_holds(*final(self), *old(self), old(tokenizer).input(), first,
                    shared_kids(Shared::Note, old(tokenizer).input(), st1, level))),
    {
        let first = tokenizer.take_line_value()?;
        self.parse_lines(tokenizer, level, first)
    }
}

/// A copy of a note and of what it holds.
/// `r` has the text, media type and language of `n`, and a translation and
/// a citation where `n` has them.
pub open spec fn note_kept(r: Note, n: Note) -> bool {
    &&& r.value == n.value
    &&& r.mime == n.mime
    &&& r.language == n.language
    &&& (r.translation is Some <==> n.translation is Some)
    &&& (r.citation is Some <==> n.citation is Some)
}

pub(crate) fn copy_note(n: &Note) -> (r: Note)
    ensures
        note_kept(r, *n),
    decreases n,
{
    let citation = match &n.citation {
        Some(c) => Some(Box::new(crate::types::source::citation::copy_citation(c))),
        None => None,
    };
    Note {
        value: n.value.clone(),
        mime: n.mime.clone(),
        translation: n.translation.clone(),
        citation,
        language: n.language.clone(),
    }
}

impl Clone for Note {
    fn clone(&self) -> (r: Self) {
        copy_note(self)
    }
}

} // verus!
