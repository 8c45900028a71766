//! Shared parsing utilities for GEDCOM records.
//!
//! A structure at some `level` owns the lines below it, up to the next line
//! whose level is at most `level`. [`subset_step`] walks those lines: it skips
//! level numbers, keeps user-defined (`_`) structures aside, and stops at each
//! standard tag, which the structure's own parser then handles.
use vstd::prelude::*;
use crate::error::GedcomError;
use crate::tokenizer::{continued, lemma_step_progress, reads_on, same_ends, state_measure, step, take_value, valid_state, SpecToken, Token, Tokenizer, TokState};
use crate::types::address::after_tag_value;
use crate::types::custom::{udt_end, UserDefinedTag};
use crate::types::records::custom_tag_texts;
use vstd::string::StringExecFns;

verus! {

/// The tokenizer still reads the same text and is in a consistent state.
pub open spec fn same_text(before: Tokenizer, after: Tokenizer) -> bool {
    &&& after.wf()
    &&& after.input() == before.input()
}

/// Reading has moved forward.
pub open spec fn advanced(before: Tokenizer, after: Tokenizer) -> bool {
    after.measure() < before.measure()
}

/// Reading stopped at a line whose level is at most `level`: the end of the
/// structure at `level`.
pub open spec fn at_level_end(t: Tokenizer, level: u8) -> bool {
    t.token() matches SpecToken::Level(l) && l <= level
}

/// Reading stopped at the end of a structure at `level`, or at the end of the text.
pub open spec fn at_level_end_or_eof(t: Tokenizer, level: u8) -> bool {
    at_level_end(t, level) || t.token() is EOF
}

/// Reading from `before` to `after` passed no line at `level` or less: both
/// end a structure at such a level at the same place.
pub open spec fn ends_within(before: Tokenizer, after: Tokenizer, level: u8) -> bool {
    same_ends(before.input(), before.state(), after.state(), level)
}

/// A structure at `level` was read: the text is the same and, when reading
/// succeeded, it moved forward and stopped at the end of the structure, the
/// first line at `level` or less.
pub open spec fn record_read(before: Tokenizer, after: Tokenizer, ok: bool, level: u8) -> bool {
    &&& same_text(before, after)
    &&& ok ==> advanced(before, after) && at_level_end(after, level) && ends_within(before, after, level)
}

/// A value was read: the text is the same and, when reading succeeded, it
/// moved forward and passed no line that ends a structure around the start.
pub open spec fn value_read(before: Tokenizer, after: Tokenizer, ok: bool) -> bool {
    &&& same_text(before, after)
    &&& ok ==> advanced(before, after) && reads_on(before.input(), before.state(), after.state())
}

/// The value that reading the rest of the current line gives, as
/// `Tokenizer::take_line_value` reads it.
pub open spec fn line_value(t: Tokenizer) -> Seq<char> {
    match take_value(t.input(), t.state()) {
        Ok((_, v)) => v,
        Err(_) => Seq::empty(),
    }
}

/// The value token that follows the current one, if the next token is a value.
pub open spec fn value_token_after(t: Tokenizer) -> Option<Seq<char>> {
    match step(t.input(), t.state()) {
        Ok(st1) => match st1.token {
            SpecToken::LineValue(v) => Some(v),
            _ => None,
        },
        Err(_) => None,
    }
}

/// The text that an optional string holds.
pub open spec fn text_of(o: Option<String>) -> Option<Seq<char>> {
    match o {
        Some(s) => Some(s@),
        None => None,
    }
}

/// `o` holds the value `v` of a line, kept only where it is not empty.
pub open spec fn kept_value(o: Option<String>, v: Seq<char>) -> bool {
    if v.len() == 0 {
        o is None
    } else {
        o matches Some(s) && s@ == v
    }
}

/// The level of the structures below one at `level` (held at 255).
pub open spec fn spec_child_level(level: u8) -> u8 {
    if level < 255 { (level + 1) as u8 } else { 255 }
}

/// The level of the structures below one at `level` (held at 255).
#[verifier::when_used_as_spec(spec_child_level)]
pub fn child_level(level: u8) -> (r: u8)
    ensures
        r == spec_child_level(level),
{
    if level < 255 { level + 1 } else { 255 }
}

/// The current token is a tag (a standard one or a user-defined one).
pub open spec fn at_tag(t: Tokenizer) -> bool {
    t.token() is Tag || t.token() is CustomTag
}

/// Defines shared parsing functionality for GEDCOM records.
pub trait Parser {
    /// Parses GEDCOM data at the specified hierarchical level.
    fn parse(&mut self, tokenizer: &mut Tokenizer, level: u8) -> (r: Result<(), GedcomError>)
        requires
            old(tokenizer).wf(),
        ensures
            same_text(*old(tokenizer), *final(tokenizer));
}

/// Handles one standard tag below a structure.
pub trait TagHandler {
    /// Whether handling a tag reads only the lines below the structure, so
    /// that reading stops where the structure ends.
    open spec fn stays_below() -> bool {
        true
    }

    /// Whether [`TagHandler::tag_end`] says exactly when handling a tag
    /// succeeds and where reading then stops. It does not where success
    /// depends on what the structure read before.
    open spec fn exact() -> bool {
        false
    }

    /// Where handling the tag `t`, the token at `st`, below a structure at
    /// `level` stops reading; `Err` where handling it fails. It speaks of a
    /// handler only where [`TagHandler::exact`] holds.
    open spec fn tag_end(s: Seq<char>, st: TokState, t: Seq<char>, level: u8) -> Result<TokState, ()> {
        Err(())
    }

    /// What the structure holds once the standard tags `kids` below it, each
    /// with the state at its tag, have been handled, in order, from its
    /// first state on.
    open spec fn holds(&self, s: Seq<char>, kids: Seq<(Seq<char>, TokState)>, level: u8) -> bool {
        true
    }

    /// Handles `tag`, the current token, reading at least that token.
    fn handle_tag(&mut self, tag: &str, tokenizer: &mut Tokenizer, level: u8) -> (r: Result<(), GedcomError>)
        requires
            old(tokenizer).wf(),
            old(tokenizer).token() == SpecToken::Tag(tag@),
        ensures
            r is Ok ==> forall|kids: Seq<(Seq<char>, TokState)>| old(self).holds(old(tokenizer).input(), kids, level)
                ==> #[trigger] final(self).holds(old(tokenizer).input(), kids.push((tag@, old(tokenizer).state())), level),
            same_text(*old(tokenizer), *final(tokenizer)),
            r is Ok ==> advanced(*old(tokenizer), *final(tokenizer)),
            r is Ok && Self::stays_below() ==> ends_within(*old(tokenizer), *final(tokenizer), level),
            Self::exact() ==> (r is Ok <==> Self::tag_end(old(tokenizer).input(), old(tokenizer).state(), tag@, level) is Ok),
            Self::exact() && r is Ok ==> Self::tag_end(old(tokenizer).input(), old(tokenizer).state(), tag@, level)
                == Ok::<TokState, ()>(final(tokenizer).state());
}

/// Where reading the lines below a structure at `level` into `H` stops, from
/// `st` on: at the first line at `level` or less, each standard tag handled as
/// [`TagHandler::tag_end`] says. `Err` where reading fails.
pub open spec fn subset_end<H: TagHandler>(s: Seq<char>, st: TokState, level: u8) -> Result<TokState, ()>
    decreases state_measure(s, st),
{
    match subset_walk(s, st, level) {
        Ok(st1) => match st1.token {
            SpecToken::Tag(t) => match H::tag_end(s, st1, t, level) {
                Ok(st2) => if state_measure(s, st2) < state_measure(s, st) {
                    subset_end::<H>(s, st2, level)
                } else {
                    Err(())
                },
                Err(_) => Err(()),
            },
            _ => Ok(st1),
        },
        Err(_) => Err(()),
    }
}

/// The standard tags handled while reading the lines below a structure at
/// `level` into `H`, from `st` on, each with the state at it, in order.
pub open spec fn subset_kids<H: TagHandler>(s: Seq<char>, st: TokState, level: u8) -> Seq<(Seq<char>, TokState)>
    decreases state_measure(s, st),
{
    match subset_walk(s, st, level) {
        Ok(st1) => match st1.token {
            SpecToken::Tag(t) => match H::tag_end(s, st1, t, level) {
                Ok(st2) => if state_measure(s, st2) < state_measure(s, st) {
                    seq![(t, st1)] + subset_kids::<H>(s, st2, level)
                } else {
                    Seq::empty()
                },
                Err(_) => Seq::empty(),
            },
            _ => Seq::empty(),
        },
        Err(_) => Seq::empty(),
    }
}

/// The kids below a structure read into `H` from its tag at `st`, past the
/// value of the tag's line.
pub open spec fn value_subset_kids<H: TagHandler>(s: Seq<char>, st: TokState, level: u8) -> Seq<(Seq<char>, TokState)> {
    match take_value(s, st) {
        Ok((st1, _)) => subset_kids::<H>(s, st1, level),
        Err(_) => Seq::empty(),
    }
}

/// The kids below a structure read into `H` from its tag at `st`, past the
/// token after the tag.
pub open spec fn step_subset_kids<H: TagHandler>(s: Seq<char>, st: TokState, level: u8) -> Seq<(Seq<char>, TokState)> {
    match step(s, st) {
        Ok(st1) => subset_kids::<H>(s, st1, level),
        Err(_) => Seq::empty(),
    }
}

/// The state at the last of `kids` whose tag is `t`, if there is one.
pub open spec fn last_tag_state(kids: Seq<(Seq<char>, TokState)>, t: Seq<char>) -> Option<TokState>
    decreases kids.len(),
{
    if kids.len() == 0 {
        None
    } else if kids.last().0 == t {
        Some(kids.last().1)
    } else {
        last_tag_state(kids.drop_last(), t)
    }
}

/// The states at the kids whose tag is `t`, in order.
pub open spec fn tag_states(kids: Seq<(Seq<char>, TokState)>, t: Seq<char>) -> Seq<TokState>
    decreases kids.len(),
{
    if kids.len() == 0 {
        Seq::empty()
    } else if kids.last().0 == t {
        tag_states(kids.drop_last(), t).push(kids.last().1)
    } else {
        tag_states(kids.drop_last(), t)
    }
}

/// Where reading a structure at `level` into `H` stops, from its tag at `st`:
/// the value of the tag's line, then the lines below it.
pub open spec fn value_subset_end<H: TagHandler>(s: Seq<char>, st: TokState, level: u8) -> Result<TokState, ()> {
    match take_value(s, st) {
        Ok((st1, _)) => subset_end::<H>(s, st1, level),
        Err(_) => Err(()),
    }
}

/// Where reading a structure at `level` into `H` stops, from its tag at `st`:
/// the token after the tag, then the lines below it.
pub open spec fn step_subset_end<H: TagHandler>(s: Seq<char>, st: TokState, level: u8) -> Result<TokState, ()> {
    match step(s, st) {
        Ok(st1) => subset_end::<H>(s, st1, level),
        Err(_) => Err(()),
    }
}

/// Where reading a value continued over `CONT` and `CONC` lines below `level`
/// stops, from its tag at `st`.
pub open spec fn continued_end(s: Seq<char>, st: TokState, level: u8) -> Result<TokState, ()> {
    match take_value(s, st) {
        Ok((st1, first)) => match continued(s, st1, level, first) {
            Ok((e, _)) => Ok(e),
            Err(_) => Err(()),
        },
        Err(_) => Err(()),
    }
}

/// Where reading a structure at `level` into `H` stops, from its tag at `st`:
/// a value continued over `CONT` and `CONC` lines, then the lines below it.
pub open spec fn continued_subset_end<H: TagHandler>(s: Seq<char>, st: TokState, level: u8) -> Result<TokState, ()> {
    match continued_end(s, st, level) {
        Ok(st1) => subset_end::<H>(s, st1, level),
        Err(_) => Err(()),
    }
}

/// Where reading a structure at `level` into `H` stops, from its tag at `st`:
/// past the tag and a value on its line, then the lines below it.
pub open spec fn after_value_subset_end<H: TagHandler>(s: Seq<char>, st: TokState, level: u8) -> Result<TokState, ()> {
    match after_tag_value(s, st) {
        Ok(st1) => subset_end::<H>(s, st1, level),
        Err(_) => Err(()),
    }
}

/// Where reading a line's value stops, from its tag at `st`.
pub open spec fn value_end(s: Seq<char>, st: TokState) -> Result<TokState, ()> {
    match take_value(s, st) {
        Ok((st1, _)) => Ok(st1),
        Err(_) => Err(()),
    }
}

/// Where [`subset_step`] stops from `st` for a structure at `level`: at a
/// line at `level` or less, or at a standard tag. Deeper level numbers are
/// passed over and user-defined structures are read whole. `Err` where it fails.
pub open spec fn subset_walk(s: Seq<char>, st: TokState, level: u8) -> Result<TokState, ()>
    decreases state_measure(s, st),
{
    if !valid_state(s, st) {
        Err(())
    } else {
        match st.token {
            SpecToken::Level(l) => {
                if l <= level {
                    Ok(st)
                } else {
                    match step(s, st) {
                        Ok(st1) => {
                            proof {
                                lemma_step_progress(s, st);
                            }
                            subset_walk(s, st1, level)
                        },
                        Err(_) => Err(()),
                    }
                }
            },
            SpecToken::Tag(_) => Ok(st),
            SpecToken::CustomTag(_) => match udt_end(s, st, spec_child_level(level)) {
                Ok(n) => if state_measure(s, n) < state_measure(s, st) {
                    subset_walk(s, n, level)
                } else {
                    Err(())
                },
                Err(_) => Err(()),
            },
            _ => Err(()),
        }
    }
}

/// The tags of the user-defined structures that [`subset_step`] reads from
/// `st`, in order, up to where it stops.
pub open spec fn walk_customs(s: Seq<char>, st: TokState, level: u8) -> Seq<Seq<char>>
    decreases state_measure(s, st),
{
    if !valid_state(s, st) {
        Seq::empty()
    } else {
        match st.token {
            SpecToken::Level(l) => {
                if l <= level {
                    Seq::empty()
                } else {
                    match step(s, st) {
                        Ok(st1) => {
                            proof {
                                lemma_step_progress(s, st);
                            }
                            walk_customs(s, st1, level)
                        },
                        Err(_) => Seq::empty(),
                    }
                }
            },
            SpecToken::CustomTag(t) => match udt_end(s, st, spec_child_level(level)) {
                Ok(n) => if state_measure(s, n) < state_measure(s, st) {
                    seq![t] + walk_customs(s, n, level)
                } else {
                    Seq::empty()
                },
                Err(_) => Seq::empty(),
            },
            _ => Seq::empty(),
        }
    }
}

/// The tags of the user-defined structures among the lines below a structure
/// at `level`, from `st` on, in order, each standard tag handled as
/// [`TagHandler::tag_end`] says.
pub open spec fn subset_customs<H: TagHandler>(s: Seq<char>, st: TokState, level: u8) -> Seq<Seq<char>>
    decreases state_measure(s, st),
{
    walk_customs(s, st, level) + match subset_walk(s, st, level) {
        Ok(st1) => match st1.token {
            SpecToken::Tag(t) => match H::tag_end(s, st1, t, level) {
                Ok(st2) => if state_measure(s, st2) < state_measure(s, st) {
                    subset_customs::<H>(s, st2, level)
                } else {
                    Seq::empty()
                },
                Err(_) => Seq::empty(),
            },
            _ => Seq::empty(),
        },
        Err(_) => Seq::empty(),
    }
}

/// What a turn of the loop over the lines below a structure found.
pub enum SubsetItem {
    /// The structure has ended: the current token is a level at most its own.
    Done,
    /// A standard tag, which is the current token.
    Tag(String),
}

/// An error at `line` whose message is `prefix` followed by `tag`.
pub fn tag_error(prefix: &str, tag: &str, line: u32) -> (e: GedcomError)
    ensures
        e matches GedcomError::ParseError { line: l, message } && l == line && message@ == prefix@ + tag@,
{
    let message = String::from_str(prefix).concat(tag);
    GedcomError::ParseError { line, message }
}

/// Reads the lines below a structure at `level` up to the next standard tag or
/// the end of the structure. Level numbers deeper than `level` are passed
/// over; user-defined structures are read and added to `custom`.
pub fn subset_step(tokenizer: &mut Tokenizer, level: u8, custom: &mut Vec<Box<UserDefinedTag>>) -> (r: Result<SubsetItem, GedcomError>)
    requires
        old(tokenizer).wf(),
    ensures
        same_text(*old(tokenizer), *final(tokenizer)),
        r is Ok ==> final(tokenizer).measure() <= old(tokenizer).measure(),
        final(custom)@.len() >= old(custom)@.len(),
        final(custom)@.subrange(0, old(custom)@.len() as int) == old(custom)@,
        r matches Ok(SubsetItem::Done) ==> at_level_end(*final(tokenizer), level),
        r matches Ok(SubsetItem::Tag(t)) ==> final(tokenizer).token() == SpecToken::Tag(t@),
        r is Ok ==> ends_within(*old(tokenizer), *final(tokenizer), level),
        r is Ok ==> subset_walk(old(tokenizer).input(), old(tokenizer).state(), level) == Ok::<TokState, ()>(final(tokenizer).state()),
        r is Ok <==> subset_walk(old(tokenizer).input(), old(tokenizer).state(), level) is Ok,
        r is Ok ==> custom_tag_texts(final(custom)@)
            == custom_tag_texts(old(custom)@) + walk_customs(old(tokenizer).input(), old(tokenizer).state(), level),
{
    let ghost c0 = custom@;
    loop
        invariant
            same_text(*old(tokenizer), *tokenizer),
            tokenizer.measure() <= old(tokenizer).measure(),
            custom@.len() >= c0.len(),
            custom@.subrange(0, c0.len() as int) == c0,
            c0 == old(custom)@,
            ends_within(*old(tokenizer), *tokenizer, level),
            subset_walk(tokenizer.input(), tokenizer.state(), level) == subset_walk(old(tokenizer).input(), old(tokenizer).state(), level),
            custom_tag_texts(custom@) + walk_customs(tokenizer.input(), tokenizer.state(), level)
                == custom_tag_texts(c0) + walk_customs(old(tokenizer).input(), old(tokenizer).state(), level),
        ensures
            same_text(*old(tokenizer), *tokenizer),
            tokenizer.measure() <= old(tokenizer).measure(),
            custom@.len() >= c0.len(),
            custom@.subrange(0, c0.len() as int) == c0,
            ends_within(*old(tokenizer), *tokenizer, level),
            subset_walk(tokenizer.input(), tokenizer.state(), level) == subset_walk(old(tokenizer).input(), old(tokenizer).state(), level),
            custom_tag_texts(custom@) + walk_customs(tokenizer.input(), tokenizer.state(), level)
                == custom_tag_texts(c0) + walk_customs(old(tokenizer).input(), old(tokenizer).state(), level),
        decreases tokenizer.measure(),
    {
        proof {
            tokenizer.lemma_cursor();
        }
        let current = tokenizer.current_token();
        match current {
            Token::Level(l) => {
                if *l <= level {
                    proof {
                        let x = custom_tag_texts(custom@);
                        assert(x + Seq::<Seq<char>>::empty() =~= x);
                    }
                    return Ok(SubsetItem::Done);
                }
                tokenizer.next_token()?;
            },
            Token::Tag(tag) => {
                proof {
                    let x = custom_tag_texts(custom@);
                    assert(x + Seq::<Seq<char>>::empty() =~= x);
                }
                return Ok(SubsetItem::Tag(tag.clone()));
            },
            Token::CustomTag(tag) => {
                let tag_clone = tag.clone();
                let ghost st0 = tokenizer.state();
                let ghost s = tokenizer.input();
                let udt = UserDefinedTag::new(tokenizer, child_level(level), tag_clone.as_str())?;

                let ghost before = custom@;
                custom.push(Box::new(udt));
                proof {
                    assert(custom@.subrange(0, c0.len() as int) =~= before.subrange(0, c0.len() as int));
                    let w = walk_customs(s, tokenizer.state(), level);
                    assert(walk_customs(s, st0, level) == seq![tag_clone@] + w);
                    assert(custom_tag_texts(custom@) =~= custom_tag_texts(before).push(tag_clone@));
                    assert(custom_tag_texts(before).push(tag_clone@) + w =~= custom_tag_texts(before) + (seq![tag_clone@] + w));
                }
            },
            _ => {
                return Err(GedcomError::ParseError {
                    line: tokenizer.line(),
                    message: String::from_str("Unhandled Token"),
                });
            },
        }
    }
}

/// Parses the lines below a structure at `level`, handing each standard tag to
/// `handler` and returning the user-defined structures found among them.
pub fn parse_subset<H: TagHandler>(tokenizer: &mut Tokenizer, level: u8, handler: &mut H) -> (r: Result<Vec<Box<UserDefinedTag>>, GedcomError>)
    requires
        old(tokenizer).wf(),
    ensures
        same_text(*old(tokenizer), *final(tokenizer)),
        r is Ok ==> final(tokenizer).measure() <= old(tokenizer).measure(),
        r is Ok ==> at_level_end(*final(tokenizer), level),
        r is Ok && H::stays_below() ==> ends_within(*old(tokenizer), *final(tokenizer), level),
        H::exact() ==> (r is Ok <==> subset_end::<H>(old(tokenizer).input(), old(tokenizer).state(), level) is Ok),
        H::exact() && r is Ok ==> subset_end::<H>(old(tokenizer).input(), old(tokenizer).state(), level)
            == Ok::<TokState, ()>(final(tokenizer).state()),
        H::exact() ==> (r matches Ok(v) ==> custom_tag_texts(v@)
            == subset_customs::<H>(old(tokenizer).input(), old(tokenizer).state(), level)),
        H::exact() && r is Ok && old(handler).holds(old(tokenizer).input(), Seq::empty(), level)
            ==> final(handler).holds(old(tokenizer).input(), subset_kids::<H>(old(tokenizer).input(), old(tokenizer).state(), level), level),
{
    let ghost s = old(tokenizer).input();
    let ghost start = old(tokenizer).state();
    let mut custom: Vec<Box<UserDefinedTag>> = Vec::new();
    let ghost mut seen: Seq<(Seq<char>, TokState)> = Seq::empty();
    let ghost h0 = *handler;
    proof {
        assert(custom_tag_texts(custom@) + subset_customs::<H>(s, start, level) =~= subset_customs::<H>(s, start, level));
        assert(seen + subset_kids::<H>(s, start, level) =~= subset_kids::<H>(s, start, level));
    }
    loop
        invariant_except_break
            H::exact() ==> custom_tag_texts(custom@) + subset_customs::<H>(s, tokenizer.state(), level)
                == subset_customs::<H>(s, start, level),
            H::exact() ==> seen + subset_kids::<H>(s, tokenizer.state(), level) == subset_kids::<H>(s, start, level),
        invariant
            h0 == *old(handler),
            h0.holds(s, Seq::empty(), level) ==> handler.holds(s, seen, level),
            same_text(*old(tokenizer), *tokenizer),
            tokenizer.measure() <= old(tokenizer).measure(),
            H::stays_below() ==> ends_within(*old(tokenizer), *tokenizer, level),
            s == tokenizer.input(),
            start == old(tokenizer).state(),
            H::exact() ==> subset_end::<H>(s, tokenizer.state(), level) == subset_end::<H>(s, start, level),
        ensures
            same_text(*old(tokenizer), *tokenizer),
            tokenizer.measure() <= old(tokenizer).measure(),
            at_level_end(*tokenizer, level),
            H::stays_below() ==> ends_within(*old(tokenizer), *tokenizer, level),
            H::exact() ==> subset_end::<H>(s, start, level) == Ok::<TokState, ()>(tokenizer.state()),
            H::exact() ==> custom_tag_texts(custom@) == subset_customs::<H>(s, start, level),
            H::exact() ==> seen == subset_kids::<H>(s, start, level),
        decreases tokenizer.measure(),
    {
        let ghost before = tokenizer.state();
        let ghost c_head = custom_tag_texts(custom@);
        let step_r = subset_step(tokenizer, level, &mut custom);
        match step_r {
            Err(e) => {
                return Err(e);
            },
            Ok(SubsetItem::Done) => {
                proof {
                    tokenizer.lemma_cursor();
                    let w = walk_customs(s, before, level);
                    assert(subset_customs::<H>(s, before, level) == w + Seq::<Seq<char>>::empty());
                    assert(w + Seq::<Seq<char>>::empty() =~= w);
                    assert(c_head + w =~= custom_tag_texts(custom@));
                    assert(seen + Seq::<(Seq<char>, TokState)>::empty() =~= seen);
                }
                break;
            },
            Ok(SubsetItem::Tag(tag)) => {
                let ghost at_tag = tokenizer.state();
                let ghost c_mid = custom_tag_texts(custom@);
                let hr = handler.handle_tag(tag.as_str(), tokenizer, level);
                match hr {
                    Err(e) => {
                        return Err(e);
                    },
                    Ok(_) => {
                        proof {
                            assert(state_measure(s, tokenizer.state()) < state_measure(s, at_tag));
                            if H::exact() {
                                let w = walk_customs(s, before, level);
                                let rest = subset_customs::<H>(s, tokenizer.state(), level);
                                assert(subset_customs::<H>(s, before, level) == w + rest);
                                assert(c_mid + rest =~= c_head + (w + rest));
                                let kid = (tag@, at_tag);
                                let krest = subset_kids::<H>(s, tokenizer.state(), level);
                                assert(subset_kids::<H>(s, before, level) == seq![kid] + krest);
                                assert(seen.push(kid) + krest =~= seen + (seq![kid] + krest));
                            }
                            if h0.holds(s, Seq::empty(), level) {
                                assert(handler.holds(s, seen.push((tag@, at_tag)), level));
                            }
                            seen = seen.push((tag@, at_tag));
                        }
                    },
                }
            },
        }
    }
    Ok(custom)
}

/// The standard tags below a structure at `level`, from `st` on, where each
/// one is read as a single line: the state at which the structure ends, and
/// each tag with the value of its line, in order. `Err` where reading fails.
pub open spec fn flat_children(s: Seq<char>, st: TokState, level: u8) -> Result<(TokState, Seq<(Seq<char>, Seq<char>)>), ()>
    decreases state_measure(s, st),
{
    match subset_walk(s, st, level) {
        Ok(st1) => match st1.token {
            SpecToken::Tag(t) => match take_value(s, st1) {
                Ok((st2, v)) => if state_measure(s, st2) < state_measure(s, st) {
                    match flat_children(s, st2, level) {
                        Ok((e, rest)) => Ok((e, seq![(t, v)] + rest)),
                        Err(_) => Err(()),
                    }
                } else {
                    Err(())
                },
                Err(_) => Err(()),
            },
            _ => Ok((st1, Seq::empty())),
        },
        Err(_) => Err(()),
    }
}

/// A structure whose lines below it are each read as a single line: a tag
/// and its value, which the structure takes in its fields.
pub trait FlatHandler {
    /// The fields, as values.
    type Fields;

    /// The fields of this structure.
    spec fn fields(&self) -> Self::Fields;

    /// Whether the structure takes the tag `t`; reading fails at any other.
    spec fn accepts(t: Seq<char>) -> bool;

    /// The fields after the value `v` of a line with the tag `t`.
    spec fn with_value(f: Self::Fields, t: Seq<char>, v: Seq<char>) -> Self::Fields;

    /// Whether the structure takes `tag`.
    fn accepts_tag(tag: &str) -> (r: bool)
        ensures
            r == Self::accepts(tag@);

    /// Takes the value of a line with the tag `tag`.
    fn set_value(&mut self, tag: &str, value: String)
        requires
            Self::accepts(tag@),
        ensures
            final(self).fields() == Self::with_value(old(self).fields(), tag@, value@);

    /// The error for a tag that the structure does not take, at `line`.
    fn refusal(tag: &str, line: u32) -> GedcomError;
}

/// Whether reading the lines below a structure at `level` into `H` succeeds,
/// from `st` on: each standard tag is one that `H` takes, with a value that
/// can be read, up to a line at `level` or less.
pub open spec fn flat_accepted<H: FlatHandler>(s: Seq<char>, st: TokState, level: u8) -> bool
    decreases state_measure(s, st),
{
    match subset_walk(s, st, level) {
        Ok(st1) => match st1.token {
            SpecToken::Tag(t) => H::accepts(t) && match take_value(s, st1) {
                Ok((st2, _)) => state_measure(s, st2) < state_measure(s, st) && flat_accepted::<H>(s, st2, level),
                Err(_) => false,
            },
            _ => true,
        },
        Err(_) => false,
    }
}

/// Where reading the lines below a structure at `level` into the flat `H`
/// stops, from `st` on; `Err` where reading fails.
pub open spec fn flat_end<H: FlatHandler>(s: Seq<char>, st: TokState, level: u8) -> Result<TokState, ()> {
    if flat_accepted::<H>(s, st, level) {
        match flat_children(s, st, level) {
            Ok((e, _)) => Ok(e),
            Err(_) => Err(()),
        }
    } else {
        Err(())
    }
}

/// Where reading a structure at `level` into the flat `H` stops, from its tag
/// at `st`: the value of the tag's line, then the lines below it.
pub open spec fn value_flat_end<H: FlatHandler>(s: Seq<char>, st: TokState, level: u8) -> Result<TokState, ()> {
    match take_value(s, st) {
        Ok((st1, _)) => flat_end::<H>(s, st1, level),
        Err(_) => Err(()),
    }
}

/// Where reading a structure at `level` into the flat `H` stops, from its tag
/// at `st`: the token after the tag, then the lines below it.
pub open spec fn step_flat_end<H: FlatHandler>(s: Seq<char>, st: TokState, level: u8) -> Result<TokState, ()> {
    match step(s, st) {
        Ok(st1) => flat_end::<H>(s, st1, level),
        Err(_) => Err(()),
    }
}

/// The fields after the values of `kids`, taken in order.
pub open spec fn fold_values<H: FlatHandler>(f: H::Fields, kids: Seq<(Seq<char>, Seq<char>)>) -> H::Fields
    decreases kids.len(),
{
    if kids.len() == 0 {
        f
    } else {
        H::with_value(fold_values::<H>(f, kids.drop_last()), kids.last().0, kids.last().1)
    }
}

/// `seen` and then the children of `rest`, where there are any.
pub open spec fn after_kids(
    seen: Seq<(Seq<char>, Seq<char>)>,
    rest: Result<(TokState, Seq<(Seq<char>, Seq<char>)>), ()>,
) -> Result<(TokState, Seq<(Seq<char>, Seq<char>)>), ()> {
    match rest {
        Ok((e, r)) => Ok((e, seen + r)),
        Err(_) => Err(()),
    }
}

/// Parses the lines below a structure at `level`, each a tag with its value,
/// into `handler`, and returns the user-defined structures found among them.
pub fn parse_flat<H: FlatHandler>(tokenizer: &mut Tokenizer, level: u8, handler: &mut H) -> (r: Result<Vec<Box<UserDefinedTag>>, GedcomError>)
    requires
        old(tokenizer).wf(),
    ensures
        same_text(*old(tokenizer), *final(tokenizer)),
        r is Ok ==> final(tokenizer).measure() <= old(tokenizer).measure(),
        r is Ok ==> at_level_end(*final(tokenizer), level),
        r is Ok ==> ends_within(*old(tokenizer), *final(tokenizer), level),
        r is Ok ==> (flat_children(old(tokenizer).input(), old(tokenizer).state(), level) matches Ok((e, kids))
            && e == final(tokenizer).state() && final(handler).fields() == fold_values::<H>(old(handler).fields(), kids)),
        r is Ok <==> flat_accepted::<H>(old(tokenizer).input(), old(tokenizer).state(), level),
{
    let ghost s = old(tokenizer).input();
    let ghost start = old(tokenizer).state();
    let ghost mut seen: Seq<(Seq<char>, Seq<char>)> = Seq::empty();
    let mut custom: Vec<Box<UserDefinedTag>> = Vec::new();
    proof {
        assert(seen + Seq::<(Seq<char>, Seq<char>)>::empty() =~= seen);
    }
    loop
        invariant_except_break
            flat_children(s, start, level) == after_kids(seen, flat_children(s, tokenizer.state(), level)),
        invariant
            same_text(*old(tokenizer), *tokenizer),
            tokenizer.measure() <= old(tokenizer).measure(),
            ends_within(*old(tokenizer), *tokenizer, level),
            s == tokenizer.input(),
            start == old(tokenizer).state(),
            handler.fields() == fold_values::<H>(old(handler).fields(), seen),
            flat_accepted::<H>(s, start, level) == flat_accepted::<H>(s, tokenizer.state(), level),
        ensures
            at_level_end(*tokenizer, level),
            flat_children(s, start, level) == Ok::<(TokState, Seq<(Seq<char>, Seq<char>)>), ()>((tokenizer.state(), seen)),
            flat_accepted::<H>(s, start, level),
        decreases tokenizer.measure(),
    {
        let ghost before = tokenizer.state();
        match subset_step(tokenizer, level, &mut custom)? {
            SubsetItem::Done => {
                proof {
                    tokenizer.lemma_cursor();
                    assert(seen + Seq::<(Seq<char>, Seq<char>)>::empty() =~= seen);
                }
                break;
            },
            SubsetItem::Tag(tag) => {
                if H::accepts_tag(tag.as_str()) {
                    let ghost at_tag = tokenizer.state();
                    let value = tokenizer.take_line_value()?;
                    handler.set_value(tag.as_str(), value);
                    proof {
                        let kid = (tag@, value@);
                        let rest = flat_children(s, tokenizer.state(), level);
                        assert(flat_children(s, before, level) == after_kids(seq![kid], rest));
                        if let Ok((e, r)) = rest {
                            assert(seen + (seq![kid] + r) =~= seen.push(kid) + r);
                        }
                        assert(seen.push(kid).drop_last() =~= seen);
                        seen = seen.push(kid);
                    }
                } else {
                    return Err(H::refusal(tag.as_str(), tokenizer.line()));
                }
            },
        }
    }
    Ok(custom)
}

/// The value of the line whose tag is at `st` (empty where it has none).
pub open spec fn value_at(s: Seq<char>, st: TokState) -> Seq<char> {
    match take_value(s, st) {
        Ok((_, v)) => v,
        Err(_) => Seq::empty(),
    }
}

/// The values of the lines among `kids` (each a tag and the state at it)
/// whose tag is `t`, in order.
pub open spec fn tag_values(s: Seq<char>, kids: Seq<(Seq<char>, TokState)>, t: Seq<char>) -> Seq<Seq<char>>
    decreases kids.len(),
{
    if kids.len() == 0 {
        Seq::empty()
    } else {
        tag_values(s, kids.drop_last(), t) + if kids.last().0 == t {
            seq![value_at(s, kids.last().1)]
        } else {
            Seq::empty()
        }
    }
}

/// The value of the last line among `kids` whose tag is `t`, if there is one.
pub open spec fn last_tag_value(s: Seq<char>, kids: Seq<(Seq<char>, TokState)>, t: Seq<char>) -> Option<Seq<char>> {
    let vs = tag_values(s, kids, t);
    if vs.len() == 0 {
        None
    } else {
        Some(vs.last())
    }
}

/// More lines among the children only add to the values of a tag.
pub proof fn lemma_tag_values_append(s: Seq<char>, a: Seq<(Seq<char>, TokState)>, b: Seq<(Seq<char>, TokState)>, t: Seq<char>)
    ensures
        tag_values(s, a + b, t).len() >= tag_values(s, a, t).len(),
    decreases b.len(),
{
    if b.len() == 0 {
        assert(a + b =~= a);
    } else {
        lemma_tag_values_append(s, a, b.drop_last(), t);
        assert((a + b).drop_last() =~= a + b.drop_last());
    }
}

/// One more line among the children: it is the last of its tag, its value
/// and its state join those of its tag, and every other tag keeps its own.
pub proof fn lemma_kids_push(s: Seq<char>, kids: Seq<(Seq<char>, TokState)>, kid: (Seq<char>, TokState))
    ensures
        tag_values(s, kids.push(kid), kid.0) == tag_values(s, kids, kid.0).push(value_at(s, kid.1)),
        last_tag_value(s, kids.push(kid), kid.0) == Some(value_at(s, kid.1)),
        last_tag_state(kids.push(kid), kid.0) == Some(kid.1),
        tag_states(kids.push(kid), kid.0) == tag_states(kids, kid.0).push(kid.1),
        forall|t: Seq<char>| t != kid.0 ==> #[trigger] tag_values(s, kids.push(kid), t) == tag_values(s, kids, t),
        forall|t: Seq<char>| t != kid.0 ==> #[trigger] last_tag_value(s, kids.push(kid), t) == last_tag_value(s, kids, t),
        forall|t: Seq<char>| t != kid.0 ==> #[trigger] last_tag_state(kids.push(kid), t) == last_tag_state(kids, t),
        forall|t: Seq<char>| t != kid.0 ==> #[trigger] tag_states(kids.push(kid), t) == tag_states(kids, t),
{
    lemma_tag_values_push(s, kids, kid);
    assert(kids.push(kid).drop_last() =~= kids);
}

/// The text of a value continued over `CONT` and `CONC` lines below `level`,
/// from its tag at `st`.
pub open spec fn continued_text_at(s: Seq<char>, st: TokState, level: u8) -> Seq<char> {
    match take_value(s, st) {
        Ok((st1, first)) => match continued(s, st1, level, first) {
            Ok((_, text)) => text,
            Err(_) => Seq::empty(),
        },
        Err(_) => Seq::empty(),
    }
}

/// One more line among the children: its value joins those of its tag.
pub proof fn lemma_tag_values_push(s: Seq<char>, kids: Seq<(Seq<char>, TokState)>, kid: (Seq<char>, TokState))
    ensures
        tag_values(s, kids.push(kid), kid.0) == tag_values(s, kids, kid.0).push(value_at(s, kid.1)),
        last_tag_value(s, kids.push(kid), kid.0) == Some(value_at(s, kid.1)),
        forall|t: Seq<char>| t != kid.0 ==> #[trigger] tag_values(s, kids.push(kid), t) == tag_values(s, kids, t),
        forall|t: Seq<char>| t != kid.0 ==> #[trigger] last_tag_value(s, kids.push(kid), t) == last_tag_value(s, kids, t),
{
    assert(kids.push(kid).drop_last() =~= kids);
    assert(tag_values(s, kids, kid.0) + seq![value_at(s, kid.1)] =~= tag_values(s, kids, kid.0).push(value_at(s, kid.1)));
    assert forall|t: Seq<char>| t != kid.0 implies #[trigger] tag_values(s, kids.push(kid), t) == tag_values(s, kids, t) by {
        assert(tag_values(s, kids, t) + Seq::<Seq<char>>::empty() =~= tag_values(s, kids, t));
    }
}

} // verus!
