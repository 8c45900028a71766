//! Turns GEDCOM text into tokens.
//!
//! A GEDCOM line is `level [xref] tag [value]`. The tokenizer walks the
//! characters of the text and yields, line after line, a `Level`, an optional
//! `Pointer`, a `Tag` (or a `CustomTag` that starts with `_`) and a `LineValue`.
//!
//! The lexical rules are stated once, over the sequence of characters, by the
//! spec function [`next_state`]; every step of the executable tokenizer is
//! proved to follow it.
use vstd::prelude::*;
use vstd::std_specs::iter::IteratorSpec;
use crate::debug::{debug_quote, debug_quoted};
use crate::text::{append_decimal, decimal, push_char};
use crate::error::GedcomError;
use vstd::string::StringExecFns;

verus! {

/// The kinds of token in a GEDCOM line.
#[derive(Clone, Debug, PartialEq)]
pub enum Token {
    /// The `level`, denoting the depth within the tree
    Level(u8),
    /// The `tag`, a code that distinguishes datatypes
    Tag(String),
    /// The value of the data: `optional_line_value`
    LineValue(String),
    /// The `optional_xref_ID` used throughout the file to refer to a record
    Pointer(String),
    /// A user-defined tag, always begins with an underscore
    CustomTag(String),
    /// End-of-file indicator
    EOF,
    /// The initial token value, indicating nothing
    Initial,
}

/// A token with its text seen as a sequence of characters.
pub enum SpecToken {
    Level(u8),
    Tag(Seq<char>),
    LineValue(Seq<char>),
    Pointer(Seq<char>),
    CustomTag(Seq<char>),
    EOF,
    Initial,
}

impl View for Token {
    type V = SpecToken;

    open spec fn view(&self) -> SpecToken {
        match self {
            Token::Level(l) => SpecToken::Level(*l),
            Token::Tag(s) => SpecToken::Tag(s@),
            Token::LineValue(s) => SpecToken::LineValue(s@),
            Token::Pointer(s) => SpecToken::Pointer(s@),
            Token::CustomTag(s) => SpecToken::CustomTag(s@),
            Token::EOF => SpecToken::EOF,
            Token::Initial => SpecToken::Initial,
        }
    }
}

impl Token {
    /// A copy of this token.
    pub fn copy(&self) -> (r: Token)
        ensures
            r@ == self@,
    {
        match self {
            Token::Level(l) => Token::Level(*l),
            Token::Tag(s) => Token::Tag(s.clone()),
            Token::LineValue(s) => Token::LineValue(s.clone()),
            Token::Pointer(s) => Token::Pointer(s.clone()),
            Token::CustomTag(s) => Token::CustomTag(s.clone()),
            Token::EOF => Token::EOF,
            Token::Initial => Token::Initial,
        }
    }

    /// Returns the string value of Tag tokens, or None for other token types.
    pub fn as_tag_str(&self) -> (r: Option<&str>)
        ensures
            match self@ {
                SpecToken::Tag(t) => r is Some && r->0@ == t,
                _ => r is None,
            },
    {
        match self {
            Token::Tag(s) => Some(s.as_str()),
            _ => None,
        }
    }

    /// Returns the string value of `LineValue` tokens, or None for other token types.
    pub fn as_line_value_str(&self) -> (r: Option<&str>)
        ensures
            match self@ {
                SpecToken::LineValue(t) => r is Some && r->0@ == t,
                _ => r is None,
            },
    {
        match self {
            Token::LineValue(s) => Some(s.as_str()),
            _ => None,
        }
    }

    /// Returns the string value of Pointer tokens, or None for other token types.
    pub fn as_pointer_str(&self) -> (r: Option<&str>)
        ensures
            match self@ {
                SpecToken::Pointer(t) => r is Some && r->0@ == t,
                _ => r is None,
            },
    {
        match self {
            Token::Pointer(s) => Some(s.as_str()),
            _ => None,
        }
    }

    /// Returns the string value of `CustomTag` tokens, or None for other token types.
    pub fn as_custom_tag_str(&self) -> (r: Option<&str>)
        ensures
            match self@ {
                SpecToken::CustomTag(t) => r is Some && r->0@ == t,
                _ => r is None,
            },
    {
        match self {
            Token::CustomTag(s) => Some(s.as_str()),
            _ => None,
        }
    }
}

// ---------------------------------------------------------------------------
// The lexical rules, over a sequence of characters.
// ---------------------------------------------------------------------------

/// The character under a cursor: before the text it reads as a line break,
/// past its end as `'\0'`.
pub open spec fn char_at(s: Seq<char>, c: int) -> char {
    if c < 0 {
        '\n'
    } else if c < s.len() {
        s[c]
    } else {
        '\0'
    }
}

/// The Unicode `White_Space` property.
pub open spec fn is_white_space(c: char) -> bool {
    ||| ('\u{9}' <= c && c <= '\u{d}')
    ||| c == ' '
    ||| c == '\u{85}'
    ||| c == '\u{a0}'
    ||| c == '\u{1680}'
    ||| ('\u{2000}' <= c && c <= '\u{200a}')
    ||| c == '\u{2028}'
    ||| c == '\u{2029}'
    ||| c == '\u{202f}'
    ||| c == '\u{205f}'
    ||| c == '\u{3000}'
}

/// Whitespace inside a line: white space or a byte order mark, but not `'\n'`.
pub open spec fn is_inline_space(c: char) -> bool {
    (is_white_space(c) || c == '\u{feff}') && c != '\n'
}

/// An ASCII decimal digit.
pub open spec fn is_digit(c: char) -> bool {
    '0' <= c && c <= '9'
}

/// The first cursor at or after `c` whose character is not inline space.
pub open spec fn skip_space(s: Seq<char>, c: int) -> int
    decreases s.len() - c,
{
    if c < s.len() && is_inline_space(char_at(s, c)) {
        skip_space(s, c + 1)
    } else {
        c
    }
}

/// The first cursor at or after `c` whose character is not a byte order mark.
pub open spec fn skip_bom(s: Seq<char>, c: int) -> int
    decreases s.len() - c,
{
    if c < s.len() && char_at(s, c) == '\u{feff}' {
        skip_bom(s, c + 1)
    } else {
        c
    }
}

/// The end of the word that starts at `c`: the first white space or `'\0'`.
pub open spec fn word_end(s: Seq<char>, c: int) -> int
    decreases s.len() - c,
{
    if c < s.len() && !is_white_space(char_at(s, c)) && char_at(s, c) != '\0' {
        word_end(s, c + 1)
    } else {
        c
    }
}

/// The end of the value that starts at `c`: the first `'\n'`, `'\r'` or `'\0'`.
pub open spec fn value_end(s: Seq<char>, c: int) -> int
    decreases s.len() - c,
{
    if c < s.len() && char_at(s, c) != '\n' && char_at(s, c) != '\r' && char_at(s, c) != '\0' {
        value_end(s, c + 1)
    } else {
        c
    }
}

/// The end of the run of digits that starts at `c`.
pub open spec fn digits_end(s: Seq<char>, c: int) -> int
    decreases s.len() - c,
{
    if c < s.len() && is_digit(char_at(s, c)) {
        digits_end(s, c + 1)
    } else {
        c
    }
}

/// The value of a digit character.
pub open spec fn digit_value(c: char) -> nat {
    ((c as int) - ('0' as int)) as nat
}

/// The number written by the digits in `[a, b)`, held at `u32::MAX` once it
/// passes it.
pub open spec fn digits_value(s: Seq<char>, a: int, b: int) -> nat
    decreases b - a,
{
    if b <= a {
        0
    } else {
        let v = digits_value(s, a, b - 1) * 10 + digit_value(char_at(s, b - 1));
        if v > u32::MAX { u32::MAX as nat } else { v }
    }
}

/// The text between two cursors.
pub open spec fn slice(s: Seq<char>, a: int, b: int) -> Seq<char> {
    s.subrange(a, b)
}

/// Reading a level at the start of a line at cursor `c`. The result is the new
/// cursor, the token, and whether a new line was counted.
pub open spec fn line_start(s: Seq<char>, c: int, tok: SpecToken) -> Result<(int, SpecToken, bool), ()> {
    let c1 = if tok is Initial { skip_bom(s, c) } else { c };
    let c2 = if char_at(s, c1) == '\r' {
        if char_at(s, c1 + 1) == '\n' { c1 + 2 } else { c1 + 1 }
    } else {
        c1
    };
    if char_at(s, c2) == '\n' && char_at(s, c2 + 1) == '\0' {
        Ok((c2 + 1, SpecToken::EOF, false))
    } else {
        let c3 = if char_at(s, c2) == '\n' { c2 + 1 } else { c2 };
        let c4 = skip_space(s, c3);
        if !is_digit(char_at(s, c4)) {
            Err(())
        } else {
            let c5 = digits_end(s, c4);
            let v = digits_value(s, c4, c5);
            if v > 255 {
                Err(())
            } else {
                Ok((c5, SpecToken::Level(v as u8), true))
            }
        }
    }
}

/// One step of the tokenizer: from the cursor `c` and the current token, the
/// next cursor, the next token and whether a new line was counted; `Err` where
/// the text cannot be read.
pub open spec fn next_state(s: Seq<char>, c: int, tok: SpecToken) -> Result<(int, SpecToken, bool), ()> {
    if char_at(s, c) == '\0' {
        Ok((c, SpecToken::EOF, false))
    } else if tok is Initial || char_at(s, c) == '\n' {
        line_start(s, c, tok)
    } else {
        let c1 = skip_space(s, c);
        if char_at(s, c1) == '\n' {
            line_start(s, c1, tok)
        } else {
            match tok {
                SpecToken::Level(_) => {
                    let e = word_end(s, c1);
                    let w = slice(s, c1, e);
                    if char_at(s, c1) == '@' {
                        Ok((e, SpecToken::Pointer(w), false))
                    } else if char_at(s, c1) == '_' {
                        Ok((e, SpecToken::CustomTag(w), false))
                    } else {
                        Ok((e, SpecToken::Tag(w), false))
                    }
                },
                SpecToken::Pointer(_) => {
                    let e = word_end(s, c1);
                    Ok((e, SpecToken::Tag(slice(s, c1, e)), false))
                },
                SpecToken::Tag(_) | SpecToken::CustomTag(_) => {
                    let e = value_end(s, c1);
                    Ok((e, SpecToken::LineValue(slice(s, c1, e)), false))
                },
                _ => Err(()),
            }
        }
    }
}

/// The order in which tokens follow each other within a line.
pub open spec fn rank(t: SpecToken) -> nat {
    match t {
        SpecToken::EOF => 0,
        SpecToken::LineValue(_) => 1,
        SpecToken::Tag(_) => 2,
        SpecToken::CustomTag(_) => 2,
        SpecToken::Pointer(_) => 3,
        SpecToken::Level(_) => 4,
        SpecToken::Initial => 5,
    }
}

/// The line count after one more line (held at `u32::MAX`).
pub open spec fn next_line(line: u32) -> u32 {
    if line < u32::MAX { (line + 1) as u32 } else { line }
}

/// Where a tokenizer stands: the cursor, the current token and the line count.
pub struct TokState {
    pub cursor: int,
    pub token: SpecToken,
    pub line: u32,
}

/// A state that a tokenizer over `s` can be in.
pub open spec fn valid_state(s: Seq<char>, st: TokState) -> bool {
    &&& -1 <= st.cursor <= s.len()
    &&& st.token is EOF ==> char_at(s, st.cursor) == '\0'
}

/// One step of reading, with the line count.
pub open spec fn step(s: Seq<char>, st: TokState) -> Result<TokState, ()> {
    match next_state(s, st.cursor, st.token) {
        Ok((c, t, counted)) => Ok(TokState {
            cursor: c,
            token: t,
            line: if counted { next_line(st.line) } else { st.line },
        }),
        Err(_) => Err(()),
    }
}

/// The measure of a state: smaller after every step that is not at the end.
pub open spec fn state_measure(s: Seq<char>, st: TokState) -> nat {
    ((s.len() - st.cursor) * 8 + rank(st.token)) as nat
}

/// Taking the value of a line: one step; a value is returned and a further
/// step taken; a new level yields the empty value; anything else fails.
pub open spec fn take_value(s: Seq<char>, st: TokState) -> Result<(TokState, Seq<char>), ()> {
    match step(s, st) {
        Ok(st1) => match st1.token {
            SpecToken::LineValue(v) => match step(s, st1) {
                Ok(st2) => Ok((st2, v)),
                Err(_) => Err(()),
            },
            SpecToken::Level(_) => Ok((st1, Seq::empty())),
            _ => Err(()),
        },
        Err(_) => Err(()),
    }
}

/// Taking a value that continues over `CONT` (a line break, then the value)
/// and `CONC` (the value) lines below `level`. It stops at a level at or above
/// `level`, at any other tag, and at the end of the text.
pub open spec fn continued(s: Seq<char>, st: TokState, level: u8, acc: Seq<char>) -> Result<(TokState, Seq<char>), ()>
    decreases state_measure(s, st),
{
    if !valid_state(s, st) {
        Err(())
    } else {
        match st.token {
            SpecToken::Level(l) => {
                if l <= level {
                    Ok((st, acc))
                } else {
                    match step(s, st) {
                        Ok(st1) => {
                            proof {
                                lemma_next_state_progress(s, st.cursor, st.token);
                            }
                            continued(s, st1, level, acc)
                        },
                        Err(_) => Err(()),
                    }
                }
            },
            SpecToken::Tag(t) => {
                if t == "CONT"@ || t == "CONC"@ {
                    match take_value(s, st) {
                        Ok((st2, v)) => {
                            proof {
                                lemma_take_value_progress(s, st);
                            }
                            let more = if t == "CONT"@ { seq!['\n'] + v } else { v };
                            continued(s, st2, level, acc + more)
                        },
                        Err(_) => Err(()),
                    }
                } else {
                    Ok((st, acc))
                }
            },
            SpecToken::EOF => Ok((st, acc)),
            _ => Err(()),
        }
    }
}

/// A taken value leaves less text to read.
pub proof fn lemma_take_value_progress(s: Seq<char>, st: TokState)
    requires
        valid_state(s, st),
        !(st.token is EOF),
    ensures
        take_value(s, st) matches Ok((st2, _)) ==> valid_state(s, st2) && state_measure(s, st2) < state_measure(s, st),
{
    lemma_next_state_progress(s, st.cursor, st.token);
    if let Ok(st1) = step(s, st) {
        lemma_next_state_progress(s, st1.cursor, st1.token);
    }
}

/// Every step keeps a state valid, and, unless at the end, makes it smaller.
pub proof fn lemma_step_progress(s: Seq<char>, st: TokState)
    requires
        valid_state(s, st),
    ensures
        step(s, st) matches Ok(st2) ==> {
            &&& valid_state(s, st2)
            &&& (st.token is EOF ==> st2 == st)
            &&& (!(st.token is EOF) ==> state_measure(s, st2) < state_measure(s, st))
        },
{
    lemma_next_state_progress(s, st.cursor, st.token);
}

/// Whether reading the lines below a structure at `level` stops at `t`: a
/// level at most `level`, or the end of the text.
pub open spec fn stops_at(t: SpecToken, level: u8) -> bool {
    ||| t matches SpecToken::Level(l) && l <= level
    ||| t is EOF
}

/// Where reading the lines below a structure at `level` ends, from `st` on:
/// the first state whose token is a level at most `level`, or the end of the
/// text (`st` itself where the text cannot be read further).
pub open spec fn level_end(s: Seq<char>, st: TokState, level: u8) -> TokState
    decreases state_measure(s, st),
{
    if !valid_state(s, st) || stops_at(st.token, level) {
        st
    } else {
        match step(s, st) {
            Ok(st1) => {
                proof {
                    lemma_next_state_progress(s, st.cursor, st.token);
                }
                level_end(s, st1, level)
            },
            Err(_) => st,
        }
    }
}

/// Reading from `a` to `b` passed no line that ends a structure around `a`:
/// for every level at which `a` does not stop, both end at the same place.
pub open spec fn reads_on(s: Seq<char>, a: TokState, b: TokState) -> bool {
    forall|l: u8| !stops_at(a.token, l) ==> #[trigger] level_end(s, a, l) == level_end(s, b, l)
}

/// Reading from `a` to `b` passed no line at a level at most `level`.
pub open spec fn same_ends(s: Seq<char>, a: TokState, b: TokState, level: u8) -> bool {
    forall|l: u8| l <= level ==> #[trigger] level_end(s, a, l) == level_end(s, b, l)
}

/// One step from a state that does not stop at `level` ends where the state does.
pub proof fn lemma_level_end_step(s: Seq<char>, st: TokState, level: u8)
    requires
        valid_state(s, st),
        !stops_at(st.token, level),
        step(s, st) is Ok,
    ensures
        level_end(s, st, level) == level_end(s, step(s, st)->Ok_0, level),
{
}

/// One step reads on.
pub proof fn lemma_step_reads_on(s: Seq<char>, st: TokState)
    requires
        valid_state(s, st),
        step(s, st) is Ok,
    ensures
        reads_on(s, st, step(s, st)->Ok_0),
{
    assert forall|l: u8| !stops_at(st.token, l) implies #[trigger] level_end(s, st, l) == level_end(s, step(s, st)->Ok_0, l) by {
        lemma_level_end_step(s, st, l);
    }
}

/// Where a structure at a lower level ends, reading on from where one at a
/// higher level ended.
pub proof fn lemma_level_end_nested(s: Seq<char>, st: TokState, lo: u8, hi: u8)
    requires
        lo <= hi,
    ensures
        level_end(s, level_end(s, st, hi), lo) == level_end(s, st, lo),
    decreases state_measure(s, st),
{
    if !valid_state(s, st) || stops_at(st.token, hi) {
    } else {
        match step(s, st) {
            Ok(st1) => {
                lemma_next_state_progress(s, st.cursor, st.token);
                lemma_level_end_nested(s, st1, lo, hi);
            },
            Err(_) => {},
        }
    }
}

/// Reading to where a structure at `hi` ends passes no line at `lo` or less.
pub proof fn lemma_level_end_same_ends(s: Seq<char>, st: TokState, hi: u8)
    ensures
        same_ends(s, st, level_end(s, st, hi), hi),
{
    assert forall|l: u8| l <= hi implies #[trigger] level_end(s, st, l) == level_end(s, level_end(s, st, hi), l) by {
        lemma_level_end_nested(s, st, l, hi);
    }
}

/// Taking the value of a tag's line reads on.
pub proof fn lemma_take_value_reads_on(s: Seq<char>, st: TokState)
    requires
        valid_state(s, st),
        st.token is Tag || st.token is CustomTag,
        take_value(s, st) is Ok,
    ensures
        reads_on(s, st, take_value(s, st)->Ok_0.0),
{
    let st1 = step(s, st)->Ok_0;
    lemma_step_progress(s, st);
    lemma_step_reads_on(s, st);
    if st1.token is LineValue {
        lemma_step_progress(s, st1);
        lemma_step_reads_on(s, st1);
        assert forall|l: u8| !stops_at(st.token, l) implies #[trigger] level_end(s, st, l) == level_end(s, take_value(s, st)->Ok_0.0, l) by {
            assert(level_end(s, st, l) == level_end(s, st1, l));
        }
    }
}

/// Where a structure ends is a valid state no further back than `st`, and
/// strictly further on where `st` does not end it and can be read.
pub proof fn lemma_level_end_progress(s: Seq<char>, st: TokState, level: u8)
    requires
        valid_state(s, st),
    ensures
        valid_state(s, level_end(s, st, level)),
        state_measure(s, level_end(s, st, level)) <= state_measure(s, st),
        !stops_at(st.token, level) && step(s, st) is Ok ==> state_measure(s, level_end(s, st, level)) < state_measure(s, st),
    decreases state_measure(s, st),
{
    if !stops_at(st.token, level) {
        if let Ok(st1) = step(s, st) {
            lemma_step_progress(s, st);
            lemma_level_end_progress(s, st1, level);
        }
    }
}

/// A continued value ends at a valid state no further back than where it starts.
pub proof fn lemma_continued_progress(s: Seq<char>, st: TokState, level: u8, acc: Seq<char>)
    ensures
        continued(s, st, level, acc) matches Ok((st2, _)) ==> valid_state(s, st2) && state_measure(s, st2) <= state_measure(s, st),
    decreases state_measure(s, st),
{
    if valid_state(s, st) {
        match st.token {
            SpecToken::Level(l) => {
                if l > level {
                    if let Ok(st1) = step(s, st) {
                        lemma_step_progress(s, st);
                        lemma_continued_progress(s, st1, level, acc);
                    }
                }
            },
            SpecToken::Tag(t) => {
                if t == "CONT"@ || t == "CONC"@ {
                    if let Ok((st2, v)) = take_value(s, st) {
                        lemma_take_value_progress(s, st);
                        let more = if t == "CONT"@ { seq!['\n'] + v } else { v };
                        lemma_continued_progress(s, st2, level, acc + more);
                    }
                }
            },
            _ => {},
        }
    }
}

/// Reading a continued value below `level` passes no line at `level` or less.
pub proof fn lemma_continued_same_ends(s: Seq<char>, st: TokState, level: u8, acc: Seq<char>)
    ensures
        continued(s, st, level, acc) matches Ok((st2, _)) ==> same_ends(s, st, st2, level),
    decreases state_measure(s, st),
{
    if valid_state(s, st) {
        match st.token {
            SpecToken::Level(l) => {
                if l > level {
                    if let Ok(st1) = step(s, st) {
                        lemma_next_state_progress(s, st.cursor, st.token);
                        lemma_continued_same_ends(s, st1, level, acc);
                        lemma_step_reads_on(s, st);
                    }
                }
            },
            SpecToken::Tag(t) => {
                if t == "CONT"@ || t == "CONC"@ {
                    if let Ok((st2, v)) = take_value(s, st) {
                        lemma_take_value_progress(s, st);
                        lemma_take_value_reads_on(s, st);
                        let more = if t == "CONT"@ { seq!['\n'] + v } else { v };
                        lemma_continued_same_ends(s, st2, level, acc + more);
                    }
                }
            },
            _ => {},
        }
    }
}

// ---------------------------------------------------------------------------
// Facts about the lexical rules.
// ---------------------------------------------------------------------------

proof fn lemma_skip_space_bounds(s: Seq<char>, c: int)
    requires
        -1 <= c <= s.len(),
    ensures
        c <= skip_space(s, c) <= s.len(),
        !is_inline_space(char_at(s, skip_space(s, c))),
    decreases s.len() - c,
{
    if c < s.len() && is_inline_space(char_at(s, c)) {
        lemma_skip_space_bounds(s, c + 1);
    }
}

proof fn lemma_skip_bom_bounds(s: Seq<char>, c: int)
    requires
        -1 <= c <= s.len(),
    ensures
        c <= skip_bom(s, c) <= s.len(),
        skip_bom(s, c) < s.len() ==> char_at(s, skip_bom(s, c)) != '\u{feff}',
    decreases s.len() - c,
{
    if c < s.len() && char_at(s, c) == '\u{feff}' {
        lemma_skip_bom_bounds(s, c + 1);
    }
}

proof fn lemma_word_end_bounds(s: Seq<char>, c: int)
    requires
        -1 <= c <= s.len(),
    ensures
        c <= word_end(s, c) <= s.len(),
    decreases s.len() - c,
{
    if c < s.len() && !is_white_space(char_at(s, c)) && char_at(s, c) != '\0' {
        lemma_word_end_bounds(s, c + 1);
    }
}

proof fn lemma_value_end_bounds(s: Seq<char>, c: int)
    requires
        -1 <= c <= s.len(),
    ensures
        c <= value_end(s, c) <= s.len(),
    decreases s.len() - c,
{
    if c < s.len() && char_at(s, c) != '\n' && char_at(s, c) != '\r' && char_at(s, c) != '\0' {
        lemma_value_end_bounds(s, c + 1);
    }
}

proof fn lemma_digits_end_bounds(s: Seq<char>, c: int)
    requires
        -1 <= c <= s.len(),
    ensures
        c <= digits_end(s, c) <= s.len(),
    decreases s.len() - c,
{
    if c < s.len() && is_digit(char_at(s, c)) {
        lemma_digits_end_bounds(s, c + 1);
    }
}

/// Every step that reads text lands within the text, and, unless the
/// tokenizer is already at the end, leaves less text or a lower-ranked token.
pub proof fn lemma_next_state_progress(s: Seq<char>, c: int, tok: SpecToken)
    requires
        -1 <= c <= s.len(),
        tok is EOF ==> char_at(s, c) == '\0',
    ensures
        next_state(s, c, tok) matches Ok((c2, t2, _)) ==> {
            &&& c <= c2 <= s.len()
            &&& (t2 is EOF ==> char_at(s, c2) == '\0')
            &&& (tok is EOF ==> c2 == c && t2 is EOF)
            &&& (!(tok is EOF) ==> (s.len() - c2) * 8 + rank(t2) < (s.len() - c) * 8 + rank(tok))
        },
{
    lemma_skip_space_bounds(s, c);
    let c1 = skip_space(s, c);
    lemma_word_end_bounds(s, c1);
    lemma_value_end_bounds(s, c1);
    lemma_line_start_progress(s, c, tok);
    if c1 <= s.len() {
        lemma_line_start_progress(s, c1, tok);
    }
}

proof fn lemma_line_start_progress(s: Seq<char>, c: int, tok: SpecToken)
    requires
        -1 <= c <= s.len(),
    ensures
        line_start(s, c, tok) matches Ok((c2, t2, _)) ==> {
            &&& c < c2 <= s.len()
            &&& (t2 is EOF ==> char_at(s, c2) == '\0')
            &&& (t2 is Level || t2 is EOF)
        },
{
    lemma_skip_bom_bounds(s, c);
    let c1 = if tok is Initial { skip_bom(s, c) } else { c };
    let c2 = if char_at(s, c1) == '\r' {
        if char_at(s, c1 + 1) == '\n' { c1 + 2 } else { c1 + 1 }
    } else {
        c1
    };
    let c3 = if char_at(s, c2) == '\n' { c2 + 1 } else { c2 };
    if c3 <= s.len() {
        lemma_skip_space_bounds(s, c3);
        let c4 = skip_space(s, c3);
        lemma_digits_end_bounds(s, c4);
        if is_digit(char_at(s, c4)) && c4 < s.len() {
            assert(digits_end(s, c4) == digits_end(s, c4 + 1));
            lemma_digits_end_bounds(s, c4 + 1);
        }
    }
}

// ---------------------------------------------------------------------------
// The tokenizer.
// ---------------------------------------------------------------------------

/// Holds the collected characters of a text (`Iterator::collect` on `Chars`):
/// the characters that the iterator has still to yield, in order.
#[verifier::external_body]
fn collect_chars(chars: std::str::Chars<'_>) -> (v: Vec<char>)
    ensures
        v@ == chars.remaining(),
{
    chars.collect()
}


/// How `{:?}` writes a token: the name of its kind, then its level as a
/// decimal number or its text quoted as `{:?}` quotes a text, in round
/// brackets. The initial token is written `None`.
pub open spec fn token_text(t: SpecToken) -> Seq<char> {
    match t {
        SpecToken::Level(l) => "Level("@ + decimal(l as nat) + ")"@,
        SpecToken::Tag(s) => "Tag("@ + debug_quote(s) + ")"@,
        SpecToken::LineValue(s) => "LineValue("@ + debug_quote(s) + ")"@,
        SpecToken::Pointer(s) => "Pointer("@ + debug_quote(s) + ")"@,
        SpecToken::CustomTag(s) => "CustomTag("@ + debug_quote(s) + ")"@,
        SpecToken::EOF => "EOF"@,
        SpecToken::Initial => "None"@,
    }
}

/// Writes a token after a prefix, for error messages.
pub(crate) fn token_message(prefix: &str, tok: &Token) -> (r: String)
    ensures
        r@ == prefix@ + token_text(tok@),
{
    let mut s = String::from_str(prefix);
    match tok {
        Token::Level(l) => {
            s.append("Level(");
            append_decimal(&mut s, *l as u64);
            s.append(")");
        },
        Token::Tag(x) => {
            s.append("Tag(");
            s.append(debug_quoted(x.as_str()).as_str());
            s.append(")");
        },
        Token::LineValue(x) => {
            s.append("LineValue(");
            s.append(debug_quoted(x.as_str()).as_str());
            s.append(")");
        },
        Token::Pointer(x) => {
            s.append("Pointer(");
            s.append(debug_quoted(x.as_str()).as_str());
            s.append(")");
        },
        Token::CustomTag(x) => {
            s.append("CustomTag(");
            s.append(debug_quoted(x.as_str()).as_str());
            s.append(")");
        },
        Token::EOF => {
            s.append("EOF");
        },
        Token::Initial => {
            s.append("None");
        },
    }
    proof {
        assert(s@ =~= prefix@ + token_text(tok@));
    }
    s
}

/// The tokenizer that turns the GEDCOM characters into a list of tokens.
pub struct Tokenizer {
    /// The active token type
    pub current_token: Token,
    /// The current character
    current_char: char,
    /// The characters of the GEDCOM text
    chars: Vec<char>,
    /// How many characters have been read
    pos: usize,
    /// Whether reading has run past the last character
    ended: bool,
    /// The current line number of the file we are parsing
    pub line: u32,
}

impl Tokenizer {
    /// The text being read.
    pub closed spec fn input(&self) -> Seq<char> {
        self.chars@
    }

    /// The position of the current character in the text: `-1` before the
    /// first character, the length of the text once reading has run past it.
    pub closed spec fn cursor(&self) -> int {
        if self.ended { self.chars.len() as int } else { self.pos - 1 }
    }

    /// The current token as a value.
    pub closed spec fn token(&self) -> SpecToken {
        self.current_token@
    }

    /// Where the tokenizer stands.
    pub open spec fn state(&self) -> TokState {
        TokState { cursor: self.cursor(), token: self.token(), line: self.line_count() }
    }

    /// The line count as a value.
    pub closed spec fn line_count(&self) -> u32 {
        self.line
    }

    /// Returns a reference to the current token.
    pub fn current_token(&self) -> (r: &Token)
        ensures
            r@ == self.token(),
    {
        &self.current_token
    }

    /// Returns the current line number (1-based).
    pub fn line(&self) -> (r: u32)
        ensures
            r == self.line_count(),
    {
        self.line
    }

    /// The state is consistent with the text.
    pub closed spec fn wf(&self) -> bool {
        &&& self.pos <= self.chars.len()
        &&& self.ended ==> self.pos == self.chars.len() && self.current_char == '\0'
        &&& !self.ended ==> self.current_char == (if self.pos == 0 { '\n' } else { self.chars@[self.pos - 1] })
        &&& self.current_token is EOF ==> self.current_char == '\0'
    }

    /// A measure that every step of reading makes smaller.
    pub open spec fn measure(&self) -> nat {
        ((self.input().len() - self.cursor()) * 8 + rank(self.token())) as nat
    }

    /// The cursor stays within the text, and at the end of the text the
    /// character under it reads as `'\0'`.
    pub proof fn lemma_cursor(&self)
        requires
            self.wf(),
        ensures
            -1 <= self.cursor() <= self.input().len(),
            self.token() is EOF ==> char_at(self.input(), self.cursor()) == '\0',
            valid_state(self.input(), self.state()),
    {
    }

    /// The current character is the one under the cursor.
    proof fn lemma_wf(&self)
        requires
            self.wf(),
        ensures
            -1 <= self.cursor() <= self.input().len(),
            self.current_char == char_at(self.input(), self.cursor()),
            self.token() is EOF ==> char_at(self.input(), self.cursor()) == '\0',
    {
    }

    /// Creates a new tokenizer for a char iterator of GEDCOM file contents:
    /// it reads the characters that the iterator has still to yield.
    pub fn new(chars: std::str::Chars<'_>) -> (t: Tokenizer)
        ensures
            t.wf(),
            t.input() == chars.remaining(),
            t.cursor() == -1,
            t.token() is Initial,
            t.line_count() == 0,
    {
        Tokenizer {
            current_char: '\n',
            current_token: Token::Initial,
            chars: collect_chars(chars),
            pos: 0,
            ended: false,
            line: 0,
        }
    }

    /// Creates a new tokenizer for the text of a string slice.
    pub fn from_str(text: &str) -> (t: Tokenizer)
        ensures
            t.wf(),
            t.input() == text@,
            t.cursor() == -1,
            t.token() is Initial,
            t.line_count() == 0,
    {
        Tokenizer {
            current_char: '\n',
            current_token: Token::Initial,
            chars: crate::text::chars_of(text),
            pos: 0,
            ended: false,
            line: 0,
        }
    }

    /// Ends the tokenization.
    pub fn done(&self) -> (r: bool)
        ensures
            r == (self.token() is EOF),
    {
        matches!(self.current_token, Token::EOF)
    }

    fn next_char(&mut self)
        requires
            old(self).wf(),
            old(self).current_char != '\0' || !old(self).ended,
            !(old(self).current_token is EOF),
        ensures
            final(self).wf(),
            final(self).input() == old(self).input(),
            final(self).current_token == old(self).current_token,
            final(self).line_count() == old(self).line_count(),
            final(self).cursor() == old(self).cursor() + 1,
            final(self).current_char == char_at(final(self).input(), final(self).cursor()),
    {
        if self.pos < self.chars.len() {
            self.current_char = self.chars[self.pos];
            self.pos = self.pos + 1;
        } else {
            self.current_char = '\0';
            self.ended = true;
        }
    }

    fn skip_whitespace(&mut self)
        requires
            old(self).wf(),
            !(old(self).current_token is EOF),
        ensures
            final(self).wf(),
            final(self).input() == old(self).input(),
            final(self).current_token == old(self).current_token,
            final(self).line_count() == old(self).line_count(),
            final(self).cursor() == skip_space(old(self).input(), old(self).cursor()),
            final(self).current_char == char_at(final(self).input(), final(self).cursor()),
    {
        proof {
            self.lemma_wf();
        }
        let ghost start = self.cursor();
        while self.is_nonnewline_whitespace()
            invariant
                self.wf(),
                self.input() == old(self).input(),
                self.current_token == old(self).current_token,
                self.line_count() == old(self).line_count(),
                !(self.current_token is EOF),
                -1 <= self.cursor() <= self.input().len(),
                self.current_char == char_at(self.input(), self.cursor()),
                skip_space(self.input(), self.cursor()) == skip_space(self.input(), start),
            decreases self.input().len() - self.cursor(),
        {
            self.next_char();
        }
    }

    fn is_nonnewline_whitespace(&self) -> (r: bool)
        requires
            self.wf(),
        ensures
            r == (self.cursor() < self.input().len() && is_inline_space(self.current_char)),
    {
        proof {
            self.lemma_wf();
        }
        let c = self.current_char;
        (is_whitespace(c) || c == '\u{feff}') && c != '\n'
    }

    fn extract_number(&mut self) -> (r: Result<u8, GedcomError>)
        requires
            old(self).wf(),
            !(old(self).current_token is EOF),
        ensures
            final(self).wf(),
            final(self).input() == old(self).input(),
            final(self).current_token == old(self).current_token,
            final(self).line_count() == old(self).line_count(),
            ({
                let s = old(self).input();
                let c4 = skip_space(s, old(self).cursor());
                if !is_digit(char_at(s, c4)) {
                    r is Err
                } else {
                    let c5 = digits_end(s, c4);
                    let v = digits_value(s, c4, c5);
                    &&& final(self).cursor() == c5
                    &&& (v > 255 ==> r is Err)
                    &&& (v <= 255 ==> r == Ok::<u8, GedcomError>(v as u8))
                }
            }),
            r is Err ==> r->Err_0 is ParseError,
            r is Err ==> (r->Err_0 matches GedcomError::ParseError { line, .. } && line == old(self).line_count()),
    {
        self.skip_whitespace();
        proof {
            self.lemma_wf();
        }
        if !is_ascii_digit(self.current_char) {
            return Err(GedcomError::ParseError {
                line: self.line,
                message: String::from_str("Expected digit for level number"),
            });
        }
        let ghost c4 = self.cursor();
        let ghost s = self.input();
        let mut level: u32 = 0;
        while is_ascii_digit(self.current_char)
            invariant
                self.wf(),
                self.input() == s,
                self.current_token == old(self).current_token,
                self.line_count() == old(self).line_count(),
                !(self.current_token is EOF),
                c4 <= self.cursor() <= s.len(),
                self.current_char == char_at(s, self.cursor()),
                digits_end(s, self.cursor()) == digits_end(s, c4),
                level == digits_value(s, c4, self.cursor()),
            decreases s.len() - self.cursor(),
        {
            let d = (self.current_char as u32) - ('0' as u32);
            // saturating multiply-and-add, as `saturating_mul(10).saturating_add(d)`
            let v: u64 = (level as u64) * 10 + (d as u64);
            level = if v > 4294967295u64 { 4294967295u32 } else { v as u32 };
            proof {
                assert(self.cursor() < s.len());
                assert(digits_value(s, c4, self.cursor() + 1) == ({
                    let v = digits_value(s, c4, self.cursor()) * 10 + digit_value(char_at(s, self.cursor()));
                    if v > u32::MAX { u32::MAX as nat } else { v }
                }));
            }
            self.next_char();
        }
        if level <= 255 {
            Ok(level as u8)
        } else {
            Err(GedcomError::ParseError {
                line: self.line,
                message: String::from_str("Level number too large"),
            })
        }
    }

    fn extract_word(&mut self) -> (w: String)
        requires
            old(self).wf(),
            !(old(self).current_token is EOF),
            old(self).cursor() >= 0,
        ensures
            final(self).wf(),
            final(self).input() == old(self).input(),
            final(self).current_token == old(self).current_token,
            final(self).line_count() == old(self).line_count(),
            final(self).cursor() == word_end(old(self).input(), old(self).cursor()),
            w@ == slice(old(self).input(), old(self).cursor(), final(self).cursor()),
    {
        proof {
            self.lemma_wf();
        }
        let ghost start = self.cursor();
        let ghost s = self.input();
        let mut word = String::new();
        while !is_whitespace(self.current_char) && self.current_char != '\0'
            invariant
                self.wf(),
                self.input() == s,
                self.current_token == old(self).current_token,
                self.line_count() == old(self).line_count(),
                !(self.current_token is EOF),
                0 <= start <= self.cursor() <= s.len(),
                self.current_char == char_at(s, self.cursor()),
                word_end(s, self.cursor()) == word_end(s, start),
                word@ == slice(s, start, self.cursor()),
            decreases s.len() - self.cursor(),
        {
            proof {
                assert(self.cursor() < s.len());
            }
            push_char(&mut word, self.current_char);
            self.next_char();
            proof {
                assert(word@ =~= slice(s, start, self.cursor()));
            }
        }
        word
    }

    fn extract_value(&mut self) -> (w: String)
        requires
            old(self).wf(),
            !(old(self).current_token is EOF),
            old(self).cursor() >= 0,
        ensures
            final(self).wf(),
            final(self).input() == old(self).input(),
            final(self).current_token == old(self).current_token,
            final(self).line_count() == old(self).line_count(),
            final(self).cursor() == value_end(old(self).input(), old(self).cursor()),
            w@ == slice(old(self).input(), old(self).cursor(), final(self).cursor()),
    {
        proof {
            self.lemma_wf();
        }
        let ghost start = self.cursor();
        let ghost s = self.input();
        let mut value = String::new();
        while self.current_char != '\n' && self.current_char != '\r' && self.current_char != '\0'
            invariant
                self.wf(),
                self.input() == s,
                self.current_token == old(self).current_token,
                self.line_count() == old(self).line_count(),
                !(self.current_token is EOF),
                0 <= start <= self.cursor() <= s.len(),
                self.current_char == char_at(s, self.cursor()),
                value_end(s, self.cursor()) == value_end(s, start),
                value@ == slice(s, start, self.cursor()),
            decreases s.len() - self.cursor(),
        {
            proof {
                assert(self.cursor() < s.len());
            }
            push_char(&mut value, self.current_char);
            self.next_char();
            proof {
                assert(value@ =~= slice(s, start, self.cursor()));
            }
        }
        value
    }

    /// Reads the level at the start of a line.
    fn read_line_start(&mut self) -> (r: Result<(), GedcomError>)
        requires
            old(self).wf(),
            !(old(self).current_token is EOF),
        ensures
            final(self).wf(),
            final(self).input() == old(self).input(),
            match line_start(old(self).input(), old(self).cursor(), old(self).token()) {
                Ok((c, t, counted)) => {
                    &&& r is Ok
                    &&& final(self).cursor() == c
                    &&& final(self).token() == t
                    &&& final(self).line_count() == (if counted { next_line(old(self).line_count()) } else { old(self).line_count() })
                },
                Err(_) => r is Err && r->Err_0 is ParseError,
            },
            r is Err ==> (r->Err_0 matches GedcomError::ParseError { line, .. } && line == old(self).line_count()),
    {
        proof {
            self.lemma_wf();
            lemma_skip_bom_bounds(self.input(), self.cursor());
        }
        let ghost s = self.input();
        let ghost c0 = self.cursor();
        let ghost tok0 = self.token();
        let initial = matches!(self.current_token, Token::Initial);
        // Tolerate a byte order mark at the start of the text.
        while initial && (self.current_char as u32) == 65279u32
            invariant
                self.wf(),
                self.input() == s,
                self.current_token == old(self).current_token,
                self.line_count() == old(self).line_count(),
                !(self.current_token is EOF),
                initial == (tok0 is Initial),
                c0 <= self.cursor() <= s.len(),
                self.current_char == char_at(s, self.cursor()),
                initial ==> skip_bom(s, self.cursor()) == skip_bom(s, c0),
                !initial ==> self.cursor() == c0,
            decreases s.len() - self.cursor(),
        {
            self.next_char();
        }
        // Tolerate CRLF and CR-only line endings.
        if self.current_char == '\r' {
            self.next_char();
            if self.current_char == '\n' {
                self.next_char();
            }
        }
        if self.current_char == '\n' {
            self.next_char();
            // Allow a trailing newline at the end of the text.
            if self.current_char == '\0' {
                self.current_token = Token::EOF;
                return Ok(());
            }
        }
        let level = self.extract_number()?;
        self.current_token = Token::Level(level);
        if self.line < u32::MAX {
            self.line = self.line + 1;
        }
        Ok(())
    }

    /// Loads the next token into state.
    pub fn next_token(&mut self) -> (r: Result<(), GedcomError>)
        requires
            old(self).wf(),
        ensures
            final(self).wf(),
            final(self).input() == old(self).input(),
            match step(old(self).input(), old(self).state()) {
                Ok(st) => r is Ok && final(self).state() == st,
                Err(_) => r is Err && r->Err_0 is ParseError,
            },
            r is Ok && !(old(self).token() is EOF) ==> final(self).measure() < old(self).measure(),
            old(self).token() is EOF ==> r is Ok && final(self).state() == old(self).state(),
            r is Ok ==> reads_on(old(self).input(), old(self).state(), final(self).state()),
            r is Err ==> (r->Err_0 matches GedcomError::ParseError { line, .. } && line == old(self).line_count()),
    {
        proof {
            self.lemma_wf();
            lemma_next_state_progress(self.input(), self.cursor(), self.token());
            if step(self.input(), self.state()) is Ok {
                lemma_step_reads_on(self.input(), self.state());
            }
        }
        if self.current_char == '\0' {
            self.current_token = Token::EOF;
            return Ok(());
        }
        if matches!(self.current_token, Token::Initial) || self.current_char == '\n' {
            return self.read_line_start();
        }
        self.skip_whitespace();
        proof {
            self.lemma_wf();
            lemma_skip_space_bounds(old(self).input(), old(self).cursor());
        }
        // Allow empty lines between records.
        if self.current_char == '\n' {
            return self.read_line_start();
        }
        let tok = match self.current_token {
            Token::Level(_) => {
                if self.current_char == '@' {
                    Token::Pointer(self.extract_word())
                } else if self.current_char == '_' {
                    Token::CustomTag(self.extract_word())
                } else {
                    Token::Tag(self.extract_word())
                }
            },
            Token::Pointer(_) => Token::Tag(self.extract_word()),
            Token::Tag(_) | Token::CustomTag(_) => {
                proof {
                    lemma_value_end_bounds(self.input(), self.cursor());
                }
                Token::LineValue(self.extract_value())
            },
            _ => {
                return Err(GedcomError::ParseError {
                    line: self.line,
                    message: token_message("Tokenization error! ", &self.current_token),
                });
            },
        };
        self.current_token = tok;
        Ok(())
    }

    /// Appends text after what was given, without moving: the tokenizer
    /// has not run past the end of its text.
    pub(crate) fn append_text(&mut self, more: &str)
        requires
            old(self).wf(),
            old(self).cursor() < old(self).input().len(),
        ensures
            final(self).wf(),
            final(self).input() == old(self).input() + more@,
            final(self).state() == old(self).state(),
            final(self).cursor() == old(self).cursor(),
    {
        let extra = crate::text::chars_of(more);
        let ghost before = self.chars@;
        let mut i: usize = 0;
        while i < extra.len()
            invariant
                i <= extra@.len(),
                self.chars@ == before + extra@.take(i as int),
                self.pos == old(self).pos,
                self.ended == old(self).ended,
                self.current_char == old(self).current_char,
                self.current_token == old(self).current_token,
                self.line == old(self).line,
                !self.ended,
                self.pos <= before.len(),
            decreases extra@.len() - i,
        {
            self.chars.push(extra[i]);
            proof {
                assert(extra@.take(i + 1) =~= extra@.take(i as int).push(extra@[i as int]));
            }
            i = i + 1;
        }
        proof {
            assert(extra@.take(extra@.len() as int) =~= extra@);
            if self.pos > 0 {
                assert(self.chars@[self.pos - 1] == before[self.pos - 1]);
            }
        }
    }

    /// Whether a step from here is settled (see [`settled`]).
    pub(crate) fn breaks_ahead(&self) -> (r: bool)
        requires
            self.wf(),
        ensures
            r == settled(self.input(), self.cursor()),
    {
        let ghost s = self.input();
        let ghost c = self.cursor();
        let mut i: usize = if self.ended {
            self.chars.len()
        } else if self.pos == 0 {
            0
        } else {
            self.pos - 1
        };
        proof {
            reveal_with_fuel(breaks_from, 2);
            lemma_next_break(s, c);
            assert(next_break(s, i as int) == next_break(s, c));
        }
        let mut need: u8 = 3;
        while i < self.chars.len()
            invariant
                s == self.input(),
                c == self.cursor(),
                i <= s.len(),
                1 <= need <= 3,
                breaks_from(s, i as int, need as nat) == breaks_from(s, c, 3),
            decreases s.len() - i,
        {
            proof {
                reveal_with_fuel(breaks_from, 2);
                lemma_next_break(s, i as int);
            }
            if self.chars[i] == '\n' {
                assert(s[i as int] == '\n');
                assert(next_break(s, i as int) == i);
                if need == 1 {
                    assert(breaks_from(s, i as int, 1));
                    return true;
                }
                need = need - 1;
            } else {
                assert(next_break(s, i as int) == next_break(s, i + 1));
            }
            i = i + 1;
        }
        proof {
            reveal_with_fuel(breaks_from, 2);
        }
        false
    }

    /// Like `next_token`, but returns a copy of the token it moves away from.
    pub fn take_token(&mut self) -> (r: Result<Token, GedcomError>)
        requires
            old(self).wf(),
        ensures
            final(self).wf(),
            final(self).input() == old(self).input(),
            match step(old(self).input(), old(self).state()) {
                Ok(st) => r is Ok && r->Ok_0@ == old(self).token() && final(self).state() == st,
                Err(_) => r is Err,
            },
    {
        let current_token = self.current_token.copy();
        self.next_token()?;
        Ok(current_token)
    }

    /// Debug function displaying GEDCOM line number of error message.
    pub fn debug(&self) -> (r: String)
        ensures
            r@ == "line "@ + crate::text::decimal(self.line_count() as nat) + ":"@,
    {
        let mut s = String::from_str("line ");
        crate::text::append_decimal(&mut s, self.line as u64);
        s.append(":");
        s
    }

    /// Grabs and returns to the end of the current line as a String.
    pub fn take_line_value(&mut self) -> (r: Result<String, GedcomError>)
        requires
            old(self).wf(),
        ensures
            final(self).wf(),
            final(self).input() == old(self).input(),
            match take_value(old(self).input(), old(self).state()) {
                Ok((st, v)) => r is Ok && r->Ok_0@ == v && final(self).state() == st,
                Err(_) => r is Err,
            },
            r is Ok && !(old(self).token() is EOF) ==> final(self).measure() < old(self).measure(),
            r is Ok && (old(self).token() is Tag || old(self).token() is CustomTag)
                ==> reads_on(old(self).input(), old(self).state(), final(self).state()),
    {
        proof {
            self.lemma_wf();
            if (self.token() is Tag || self.token() is CustomTag) && take_value(self.input(), self.state()) is Ok {
                lemma_take_value_reads_on(self.input(), self.state());
            }
        }
        self.next_token()?;
        proof {
            self.lemma_wf();
        }
        match &self.current_token {
            Token::LineValue(val) => {
                let value = val.clone();
                self.next_token()?;
                Ok(value)
            },
            // gracefully handle an attempt to take a value from a valueless line
            Token::Level(_) => Ok(String::new()),
            _ => Err(GedcomError::ParseError {
                line: self.line,
                message: token_message("Expected LineValue, found ", &self.current_token),
            }),
        }
    }

    /// Takes the value of the current line including handling multi-line
    /// values from `CONT` & `CONC` tags.
    ///
    /// This consumes `CONT` and `CONC` continuation tags below `level`, but
    /// stops at any other tag, leaving the tokenizer there.
    pub fn take_continued_text(&mut self, level: u8) -> (r: Result<String, GedcomError>)
        requires
            old(self).wf(),
        ensures
            final(self).wf(),
            final(self).input() == old(self).input(),
            match take_value(old(self).input(), old(self).state()) {
                Ok((st1, first)) => match continued(old(self).input(), st1, level, first) {
                    Ok((st, text)) => r is Ok && r->Ok_0@ == text && final(self).state() == st,
                    Err(_) => r is Err,
                },
                Err(_) => r is Err,
            },
            r is Ok && !(old(self).token() is EOF) ==> final(self).measure() < old(self).measure(),
            r is Ok && (old(self).token() is Tag || old(self).token() is CustomTag)
                ==> same_ends(old(self).input(), old(self).state(), final(self).state(), level),
    {
        proof {
            self.lemma_wf();
            if let Ok((st1, first)) = take_value(self.input(), self.state()) {
                if self.token() is Tag || self.token() is CustomTag {
                    lemma_take_value_reads_on(self.input(), self.state());
                }
                lemma_continued_same_ends(self.input(), st1, level, first);
            }
        }
        let first = self.take_line_value()?;
        let mut value = first.clone();
        let ghost s = self.input();
        let ghost st1 = self.state();
        loop
            invariant
                self.wf(),
                self.input() == s,
                valid_state(s, self.state()),
                s == old(self).input(),
                take_value(s, old(self).state()) == Ok::<(TokState, Seq<char>), ()>((st1, first@)),
                continued(s, self.state(), level, value@) == continued(s, st1, level, first@),
                !(old(self).token() is EOF) ==> self.measure() < old(self).measure(),
            ensures
                continued(s, st1, level, first@) == Ok::<(TokState, Seq<char>), ()>((self.state(), value@)),
            decreases self.measure(),
        {
            proof {
                self.lemma_wf();
            }
            if let Token::Level(cur_level) = &self.current_token {
                if *cur_level <= level {
                    assert(continued(s, self.state(), level, value@) == Ok::<(TokState, Seq<char>), ()>((self.state(), value@)));
                    break;
                }
            }
            let ghost before = self.state();
            let ghost vb = value@;
            let tag_kind: u8 = match &self.current_token {
                Token::Tag(tag) => {
                    if crate::text::str_eq(tag.as_str(), "CONT") {
                        1
                    } else if crate::text::str_eq(tag.as_str(), "CONC") {
                        2
                    } else {
                        3
                    }
                },
                Token::Level(_) => 4,
                Token::EOF => 5,
                _ => 6,
            };
            proof {
                reveal_strlit("CONT");
                reveal_strlit("CONC");
                if !(before.token is EOF) {
                    lemma_take_value_progress(s, before);
                }
                lemma_step_progress(s, before);
            }
            if tag_kind == 1 {
                let r1 = self.take_line_value();
                if r1.is_err() {
                    assert(continued(s, before, level, vb) is Err);
                    return Err(r1.unwrap_err());
                }
                let v = r1.unwrap();
                push_char(&mut value, '\n');
                value.append(v.as_str());
                proof {
                    assert(value@ =~= vb + (seq!['\n'] + v@));
                    assert(continued(s, before, level, vb) == continued(s, self.state(), level, value@));
                }
            } else if tag_kind == 2 {
                let r1 = self.take_line_value();
                if r1.is_err() {
                    assert(continued(s, before, level, vb) is Err);
                    return Err(r1.unwrap_err());
                }
                let v = r1.unwrap();
                value.append(v.as_str());
                proof {
                    assert(continued(s, before, level, vb) == continued(s, self.state(), level, value@));
                }
            } else if tag_kind == 4 {
                let r1 = self.next_token();
                if r1.is_err() {
                    assert(continued(s, before, level, vb) is Err);
                    return Err(r1.unwrap_err());
                }
                proof {
                    assert(continued(s, before, level, vb) == continued(s, self.state(), level, value@));
                }
            } else if tag_kind == 3 || tag_kind == 5 {
                assert(continued(s, before, level, vb) == Ok::<(TokState, Seq<char>), ()>((before, vb)));
                break;
            } else {
                assert(continued(s, before, level, vb) is Err);
                return Err(GedcomError::ParseError {
                    line: self.line,
                    message: token_message("Unhandled Continuation Token: ", &self.current_token),
                });
            }
        }
        Ok(value)
    }
}

/// White space in the sense of `char::is_whitespace` (Unicode `White_Space`).
pub fn is_whitespace(c: char) -> (r: bool)
    ensures
        r == is_white_space(c),
{
    ('\u{9}' <= c && c <= '\u{d}') || c == ' ' || c == '\u{85}' || c == '\u{a0}' || c == '\u{1680}'
        || ('\u{2000}' <= c && c <= '\u{200a}') || c == '\u{2028}' || c == '\u{2029}'
        || c == '\u{202f}' || c == '\u{205f}' || c == '\u{3000}'
}

/// An ASCII decimal digit, in the sense of `char::is_ascii_digit`.
pub fn is_ascii_digit(c: char) -> (r: bool)
    ensures
        r == is_digit(c),
{
    '0' <= c && c <= '9'
}

} // verus!

verus! {

// ---------------------------------------------------------------------------
// What a step reads: nothing past the third line break ahead of the cursor.
// ---------------------------------------------------------------------------

/// The first line break at or after `i` (at or after 0 when `i` is
/// negative); the length of the text when there is none.
pub open spec fn next_break(s: Seq<char>, i: int) -> int
    decreases s.len() - i, (if i < 0 { 1int } else { 0int }),
{
    if i < 0 {
        next_break(s, 0)
    } else if i >= s.len() {
        s.len() as int
    } else if s[i] == '\n' {
        i
    } else {
        next_break(s, i + 1)
    }
}

/// Whether the text holds `n` more line breaks at or after `i`.
pub open spec fn breaks_from(s: Seq<char>, i: int, n: nat) -> bool
    decreases n,
{
    if n == 0 {
        true
    } else {
        let b = next_break(s, i);
        b < s.len() && breaks_from(s, b + 1, (n - 1) as nat)
    }
}

/// Whether a step from cursor `c` is settled: three line breaks lie ahead,
/// and a step reads nothing past the third, so more text after it cannot
/// change what the step gives.
pub open spec fn settled(s: Seq<char>, c: int) -> bool {
    breaks_from(s, c, 3)
}

/// Whether `s` is the beginning of `t`.
pub open spec fn prefix_of(s: Seq<char>, t: Seq<char>) -> bool {
    s.len() <= t.len() && t.subrange(0, s.len() as int) == s
}

proof fn lemma_next_break(s: Seq<char>, i: int)
    ensures
        (if i < 0 { 0 } else { i }) <= next_break(s, i) || next_break(s, i) == s.len(),
        next_break(s, i) <= s.len(),
        next_break(s, i) < s.len() ==> s[next_break(s, i)] == '\n' && (if i < 0 { 0 } else { i }) <= next_break(s, i),
        forall|j: int| (if i < 0 { 0 } else { i }) <= j < next_break(s, i) ==> s[j] != '\n',
        forall|x: int| (if i < 0 { 0 } else { i }) <= x <= next_break(s, i) ==> next_break(s, x) == next_break(s, i),
    decreases s.len() - i, (if i < 0 { 1int } else { 0int }),
{
    if i < 0 {
        lemma_next_break(s, 0);
    } else if i >= s.len() {
    } else if s[i] == '\n' {
    } else {
        lemma_next_break(s, i + 1);
        assert forall|x: int| i <= x <= next_break(s, i) implies next_break(s, x) == next_break(s, i) by {
            if x == i {
            } else {
                assert(i + 1 <= x);
            }
        }
    }
}

proof fn lemma_break_at_most(s: Seq<char>, i: int, k: int)
    requires
        (if i < 0 { 0 } else { i }) <= k < s.len(),
        s[k] == '\n',
    ensures
        next_break(s, i) <= k,
{
    lemma_next_break(s, i);
}

proof fn lemma_prefix_char(s: Seq<char>, t: Seq<char>, i: int)
    requires
        prefix_of(s, t),
        -1 <= i < s.len(),
    ensures
        char_at(t, i) == char_at(s, i),
{
    if i >= 0 {
        assert(t.subrange(0, s.len() as int)[i] == t[i]);
    }
}

proof fn lemma_skip_space_prefix(s: Seq<char>, t: Seq<char>, x: int, k: int)
    requires
        prefix_of(s, t),
        -1 <= x <= k < s.len(),
        s[k] == '\n',
    ensures
        skip_space(s, x) == skip_space(t, x),
        skip_space(s, x) <= k,
    decreases k - x,
{
    lemma_prefix_char(s, t, x);
    if x < k && is_inline_space(char_at(s, x)) {
        lemma_skip_space_prefix(s, t, x + 1, k);
    }
}

proof fn lemma_skip_bom_prefix(s: Seq<char>, t: Seq<char>, x: int, k: int)
    requires
        prefix_of(s, t),
        -1 <= x <= k < s.len(),
        s[k] == '\n',
    ensures
        skip_bom(s, x) == skip_bom(t, x),
        skip_bom(s, x) <= k,
    decreases k - x,
{
    lemma_prefix_char(s, t, x);
    if x < k && char_at(s, x) == '\u{feff}' {
        lemma_skip_bom_prefix(s, t, x + 1, k);
    }
}

proof fn lemma_word_end_prefix(s: Seq<char>, t: Seq<char>, x: int, k: int)
    requires
        prefix_of(s, t),
        -1 <= x <= k < s.len(),
        s[k] == '\n',
    ensures
        word_end(s, x) == word_end(t, x),
        word_end(s, x) <= k,
    decreases k - x,
{
    lemma_prefix_char(s, t, x);
    if x < k && !is_white_space(char_at(s, x)) && char_at(s, x) != '\0' {
        lemma_word_end_prefix(s, t, x + 1, k);
    }
}

proof fn lemma_value_end_prefix(s: Seq<char>, t: Seq<char>, x: int, k: int)
    requires
        prefix_of(s, t),
        -1 <= x <= k < s.len(),
        s[k] == '\n',
    ensures
        value_end(s, x) == value_end(t, x),
        value_end(s, x) <= k,
    decreases k - x,
{
    lemma_prefix_char(s, t, x);
    if x < k && char_at(s, x) != '\n' && char_at(s, x) != '\r' && char_at(s, x) != '\0' {
        lemma_value_end_prefix(s, t, x + 1, k);
    }
}

proof fn lemma_digits_end_prefix(s: Seq<char>, t: Seq<char>, x: int, k: int)
    requires
        prefix_of(s, t),
        -1 <= x <= k < s.len(),
        s[k] == '\n',
    ensures
        digits_end(s, x) == digits_end(t, x),
        digits_end(s, x) <= k,
    decreases k - x,
{
    lemma_prefix_char(s, t, x);
    if x < k && is_digit(char_at(s, x)) {
        lemma_digits_end_prefix(s, t, x + 1, k);
    }
}

proof fn lemma_digits_value_prefix(s: Seq<char>, t: Seq<char>, a: int, b: int)
    requires
        prefix_of(s, t),
        -1 <= a,
        b <= s.len(),
    ensures
        digits_value(s, a, b) == digits_value(t, a, b),
    decreases b - a,
{
    if b > a {
        lemma_digits_value_prefix(s, t, a, b - 1);
        lemma_prefix_char(s, t, b - 1);
    }
}

proof fn lemma_slice_prefix(s: Seq<char>, t: Seq<char>, a: int, b: int)
    requires
        prefix_of(s, t),
        0 <= a <= b <= s.len(),
    ensures
        slice(s, a, b) == slice(t, a, b),
{
    assert(slice(s, a, b) =~= slice(t, a, b)) by {
        assert forall|i: int| 0 <= i < b - a implies slice(s, a, b)[i] == slice(t, a, b)[i] by {
            lemma_prefix_char(s, t, a + i);
        }
    }
}

/// The three line breaks ahead of a cursor.
proof fn lemma_breaks(s: Seq<char>, c: int) -> (r: (int, int, int))
    requires
        settled(s, c),
    ensures
        ({
            let (b1, b2, b3) = r;
            &&& (if c < 0 { 0 } else { c }) <= b1 < b2 < b3 < s.len()
            &&& b1 == next_break(s, c) && b2 == next_break(s, b1 + 1) && b3 == next_break(s, b2 + 1)
            &&& s[b1] == '\n' && s[b2] == '\n' && s[b3] == '\n'
        }),
{
    reveal_with_fuel(breaks_from, 4);
    let b1 = next_break(s, c);
    lemma_next_break(s, c);
    let b2 = next_break(s, b1 + 1);
    lemma_next_break(s, b1 + 1);
    let b3 = next_break(s, b2 + 1);
    lemma_next_break(s, b2 + 1);
    (b1, b2, b3)
}

proof fn lemma_line_start_prefix(s: Seq<char>, t: Seq<char>, c: int, tok: SpecToken)
    requires
        prefix_of(s, t),
        -1 <= c,
        settled(s, c),
    ensures
        line_start(s, c, tok) == line_start(t, c, tok),
        line_start(s, c, tok) matches Ok((c2, _, _)) ==> c2 < s.len(),
{
    let (b1, b2, b3) = lemma_breaks(s, c);
    lemma_next_break(s, c);
    lemma_next_break(s, b1 + 1);
    lemma_next_break(s, b2 + 1);
    if c >= 0 && c <= b1 {
        assert(c <= b1);
    }
    lemma_skip_bom_prefix(s, t, c, b1);
    lemma_skip_bom_bounds(s, c);
    let c1 = if tok is Initial { skip_bom(s, c) } else { c };
    lemma_prefix_char(s, t, c1);
    if char_at(s, c1) == '\r' {
        assert(c1 < b1);
        lemma_prefix_char(s, t, c1 + 1);
    }
    let c2 = if char_at(s, c1) == '\r' {
        if char_at(s, c1 + 1) == '\n' { c1 + 2 } else { c1 + 1 }
    } else {
        c1
    };
    assert(c2 <= b1 + 1);
    lemma_prefix_char(s, t, c2);
    if char_at(s, c2) == '\n' {
        if c2 >= 0 {
            if c2 < b1 {
                assert(s[c2] != '\n');
            }
            if c2 == b1 + 1 {
                assert(b2 == b1 + 1);
            }
        }
        assert(c2 + 1 <= b3);
        lemma_prefix_char(s, t, c2 + 1);
    }
    let c3 = if char_at(s, c2) == '\n' { c2 + 1 } else { c2 };
    assert(0 <= c3 || c3 == c2);
    assert(c3 <= b2 + 1);
    let k = next_break(s, c3);
    lemma_next_break(s, c3);
    if c3 <= b1 {
        lemma_break_at_most(s, c3, b1);
    } else if c3 <= b2 {
        lemma_break_at_most(s, c3, b2);
    } else {
        lemma_break_at_most(s, c3, b3);
    }
    assert(k <= b3);
    lemma_skip_space_prefix(s, t, c3, k);
    lemma_skip_space_bounds(s, c3);
    let c4 = skip_space(s, c3);
    lemma_prefix_char(s, t, c4);
    lemma_digits_end_prefix(s, t, c4, k);
    let c5 = digits_end(s, c4);
    lemma_digits_value_prefix(s, t, c4, c5);
    lemma_skip_space_bounds(s, c3);
    lemma_digits_end_bounds(s, c4);
}

/// More text after a settled step does not change what the step gives;
/// and the step stays within the text.
pub proof fn lemma_step_settled(s: Seq<char>, t: Seq<char>, st: TokState)
    requires
        prefix_of(s, t),
        -1 <= st.cursor,
        settled(s, st.cursor),
    ensures
        step(s, st) == step(t, st),
        step(s, st) matches Ok(st2) ==> st2.cursor < s.len(),
{
    let c = st.cursor;
    let tok = st.token;
    let (b1, b2, b3) = lemma_breaks(s, c);
    lemma_next_break(s, c);
    lemma_prefix_char(s, t, c);
    if char_at(s, c) == '\0' {
        assert(c < s.len());
    } else if tok is Initial || char_at(s, c) == '\n' {
        lemma_line_start_prefix(s, t, c, tok);
    } else {
        lemma_skip_space_prefix(s, t, c, b1);
        let c1 = skip_space(s, c);
        lemma_skip_space_bounds(s, c);
        lemma_prefix_char(s, t, c1);
        if char_at(s, c1) == '\n' {
            assert(next_break(s, c1) == b1);
            lemma_line_start_prefix(s, t, c1, tok);
        } else {
            lemma_word_end_prefix(s, t, c1, b1);
            lemma_value_end_prefix(s, t, c1, b1);
            lemma_word_end_bounds(s, c1);
            lemma_value_end_bounds(s, c1);
            if c1 >= 0 {
                lemma_slice_prefix(s, t, c1, word_end(s, c1));
                lemma_slice_prefix(s, t, c1, value_end(s, c1));
            }
        }
    }
}

} // verus!

verus! {

/// The operations of a GEDCOM tokenizer, whatever holds its text.
pub trait TokenizerTrait {
    /// Whether the tokenizer is in a state that its operations accept.
    spec fn accepts_calls(&self) -> bool;

    /// The current token.
    fn current_token(&self) -> &Token
        requires
            self.accepts_calls(),
    ;

    /// The current line number (1-based).
    fn line(&self) -> u32
        requires
            self.accepts_calls(),
    ;

    /// Whether the end of the input was reached.
    fn done(&self) -> bool
        requires
            self.accepts_calls(),
    ;

    /// Advances to the next token.
    fn next_token(&mut self) -> Result<(), GedcomError>
        requires
            old(self).accepts_calls(),
    ;

    /// Takes the current token and advances to the next one.
    fn take_token(&mut self) -> Result<Token, GedcomError>
        requires
            old(self).accepts_calls(),
    ;

    /// Takes the value of the current line.
    fn take_line_value(&mut self) -> Result<String, GedcomError>
        requires
            old(self).accepts_calls(),
    ;

    /// Takes a value that continues over `CONT` and `CONC` lines.
    fn take_continued_text(&mut self, level: u8) -> Result<String, GedcomError>
        requires
            old(self).accepts_calls(),
    ;

    /// The line number, for error messages.
    fn debug(&self) -> String
        requires
            self.accepts_calls(),
    ;
}

impl TokenizerTrait for Tokenizer {
    open spec fn accepts_calls(&self) -> bool {
        self.wf()
    }

    fn current_token(&self) -> (r: &Token)
        ensures
            r@ == self.token(),
    {
        Tokenizer::current_token(self)
    }

    fn line(&self) -> (r: u32)
        ensures
            r == self.line_count(),
    {
        Tokenizer::line(self)
    }

    fn done(&self) -> (r: bool)
        ensures
            r == (self.token() is EOF),
    {
        Tokenizer::done(self)
    }

    fn next_token(&mut self) -> (r: Result<(), GedcomError>)
        ensures
            final(self).wf(),
            match step(old(self).input(), old(self).state()) {
                Ok(st) => r is Ok && final(self).state() == st,
                Err(_) => r is Err,
            },
    {
        Tokenizer::next_token(self)
    }

    fn take_token(&mut self) -> (r: Result<Token, GedcomError>)
        ensures
            final(self).wf(),
            match step(old(self).input(), old(self).state()) {
                Ok(st) => r is Ok && r->Ok_0@ == old(self).token() && final(self).state() == st,
                Err(_) => r is Err,
            },
    {
        Tokenizer::take_token(self)
    }

    fn take_line_value(&mut self) -> (r: Result<String, GedcomError>)
        ensures
            final(self).wf(),
            match take_value(old(self).input(), old(self).state()) {
                Ok((st, v)) => r is Ok && r->Ok_0@ == v && final(self).state() == st,
                Err(_) => r is Err,
            },
    {
        Tokenizer::take_line_value(self)
    }

    fn take_continued_text(&mut self, level: u8) -> (r: Result<String, GedcomError>)
        ensures
            final(self).wf(),
            match take_value(old(self).input(), old(self).state()) {
                Ok((st1, first)) => match continued(old(self).input(), st1, level, first) {
                    Ok((st, text)) => r is Ok && r->Ok_0@ == text && final(self).state() == st,
                    Err(_) => r is Err,
                },
                Err(_) => r is Err,
            },
    {
        Tokenizer::take_continued_text(self, level)
    }

    fn debug(&self) -> (r: String)
        ensures
            r@ == "line "@ + crate::text::decimal(self.line_count() as nat) + ":"@,
    {
        Tokenizer::debug(self)
    }
}

/// A tokenizer that is given its text one line at a time, as a reader
/// reads it, and tokenizes as [`Tokenizer`] does the whole text.
///
/// A step is taken only when it is settled: three line breaks lie ahead,
/// or the input has ended. Then the step gives what it gives on the whole
/// text, however the text goes on ([`lemma_step_settled`]). Before a step,
/// its caller gives lines while [`StreamTokenizer::needs_line`] says so.
/// The lines given are kept.
pub struct StreamTokenizer {
    tokenizer: Tokenizer,
    input_ended: bool,
    broken: bool,
}

impl StreamTokenizer {
    /// The text given so far.
    pub closed spec fn text(&self) -> Seq<char> {
        self.tokenizer.input()
    }

    /// Where the tokenizer stands in the text.
    pub closed spec fn position(&self) -> TokState {
        self.tokenizer.state()
    }

    /// Whether the input has ended: the text is all there is.
    pub closed spec fn input_ended(&self) -> bool {
        self.input_ended
    }

    /// Whether a step failed; the tokenizer is then no longer given lines.
    pub closed spec fn is_broken(&self) -> bool {
        self.broken
    }

    /// The state is consistent: until the input ends, the tokenizer has not
    /// run past the text.
    pub closed spec fn wf(&self) -> bool {
        &&& self.tokenizer.wf()
        &&& (!self.input_ended && !self.broken ==> self.tokenizer.cursor() < self.tokenizer.input().len())
    }

    /// Whether a step can be taken now.
    pub open spec fn ready(&self) -> bool {
        self.input_ended() || self.is_broken() || settled(self.text(), self.position().cursor)
    }

    /// Starts from what reading the first line gave: a failed read is an
    /// I/O error; a leading byte order mark is dropped.
    pub fn start(first: crate::stream::LineRead) -> (r: Result<StreamTokenizer, GedcomError>)
        ensures
            match first {
                crate::stream::LineRead::Failed { message, .. } => (r matches Err(GedcomError::IoError(m))
                    && m == message),
                crate::stream::LineRead::End => (r matches Ok(t) && t.wf() && t.input_ended()
                    && !t.is_broken() && t.text().len() == 0 && t.position() == TokState {
                    cursor: -1,
                    token: SpecToken::Initial,
                    line: 0,
                }),
                crate::stream::LineRead::Line(l) => (r matches Ok(t) && t.wf() && !t.input_ended()
                    && !t.is_broken() && t.text() == (if l@.len() > 0 && l@[0] == '\u{FEFF}' {
                    l@.subrange(1, l@.len() as int)
                } else {
                    l@
                }) && t.position() == TokState { cursor: -1, token: SpecToken::Initial, line: 0 }),
            },
    {
        match first {
            crate::stream::LineRead::Failed { message, .. } => Err(GedcomError::IoError(message)),
            crate::stream::LineRead::End => {
                let tokenizer = Tokenizer::from_str("");
                proof {
                    reveal_strlit("");
                }
                Ok(StreamTokenizer { tokenizer, input_ended: true, broken: false })
            },
            crate::stream::LineRead::Line(line) => {
                let v = crate::text::chars_of(line.as_str());
                let text = if v.len() > 0 && v[0] == '\u{FEFF}' {
                    crate::text::string_of_range(&v, 1, v.len())
                } else {
                    line
                };
                let tokenizer = Tokenizer::from_str(text.as_str());
                Ok(StreamTokenizer { tokenizer, input_ended: false, broken: false })
            },
        }
    }

    /// Takes what reading the next line gave: a line is added to the text,
    /// the end ends the input, a failed read is an I/O error.
    pub fn feed(&mut self, read: crate::stream::LineRead) -> (r: Result<(), GedcomError>)
        requires
            old(self).wf(),
            !old(self).input_ended(),
            !old(self).is_broken(),
        ensures
            final(self).wf(),
            final(self).position() == old(self).position(),
            !final(self).is_broken(),
            match read {
                crate::stream::LineRead::Line(l) => r is Ok && final(self).text() == old(self).text() + l@
                    && !final(self).input_ended(),
                crate::stream::LineRead::End => r is Ok && final(self).text() == old(self).text()
                    && final(self).input_ended(),
                crate::stream::LineRead::Failed { message, .. } => (r matches Err(GedcomError::IoError(m))
                    && m == message) && final(self).text() == old(self).text() && !final(self).input_ended(),
            },
    {
        match read {
            crate::stream::LineRead::Line(line) => {
                self.tokenizer.append_text(line.as_str());
                Ok(())
            },
            crate::stream::LineRead::End => {
                self.input_ended = true;
                Ok(())
            },
            crate::stream::LineRead::Failed { message, .. } => Err(GedcomError::IoError(message)),
        }
    }

    /// Whether a line is needed before the next step.
    pub fn needs_line(&self) -> (r: bool)
        requires
            self.wf(),
        ensures
            r == !self.ready(),
    {
        !self.input_ended && !self.broken && !self.tokenizer.breaks_ahead()
    }

    /// The current token.
    pub fn current_token(&self) -> (r: &Token)
        ensures
            r@ == self.position().token,
    {
        self.tokenizer.current_token()
    }

    /// The current line number (1-based).
    pub fn line(&self) -> (r: u32)
        ensures
            r == self.position().line,
    {
        self.tokenizer.line()
    }

    /// Whether the end of the input was reached.
    pub fn done(&self) -> (r: bool)
        ensures
            r == (self.position().token is EOF),
    {
        self.tokenizer.done()
    }

    /// The line number, for error messages.
    pub fn debug(&self) -> (r: String)
        ensures
            r@ == "line "@ + crate::text::decimal(self.position().line as nat) + ":"@,
    {
        self.tokenizer.debug()
    }

    /// Advances to the next token, as [`Tokenizer::next_token`] does on the
    /// text; a settled step gives the same on any longer text.
    pub fn next_token(&mut self) -> (r: Result<(), GedcomError>)
        requires
            old(self).wf(),
            old(self).ready(),
        ensures
            final(self).wf(),
            final(self).text() == old(self).text(),
            final(self).input_ended() == old(self).input_ended(),
            final(self).is_broken() == (old(self).is_broken() || r is Err),
            match step(old(self).text(), old(self).position()) {
                Ok(st) => r is Ok && final(self).position() == st,
                Err(_) => r is Err,
            },
            !old(self).input_ended() && !old(self).is_broken() ==> forall|t: Seq<char>|
                prefix_of(old(self).text(), t) ==> #[trigger] step(t, old(self).position()) == step(
                    old(self).text(),
                    old(self).position(),
                ),
    {
        proof {
            self.tokenizer.lemma_cursor();
            if !self.input_ended && !self.broken {
                let s = self.tokenizer.input();
                let st = self.tokenizer.state();
                assert forall|t: Seq<char>| prefix_of(s, t) implies #[trigger] step(t, st) == step(s, st) by {
                    lemma_step_settled(s, t, st);
                }
                let u = s;
                assert(prefix_of(s, u)) by {
                    assert(u.subrange(0, s.len() as int) =~= s);
                }
                lemma_step_settled(s, u, st);
            }
        }
        let r = self.tokenizer.next_token();
        if r.is_err() {
            self.broken = true;
        }
        r
    }

    /// Takes the current token and advances, as [`Tokenizer::take_token`]
    /// does on the text.
    pub fn take_token(&mut self) -> (r: Result<Token, GedcomError>)
        requires
            old(self).wf(),
            old(self).ready(),
        ensures
            final(self).wf(),
            final(self).text() == old(self).text(),
            final(self).input_ended() == old(self).input_ended(),
            match step(old(self).text(), old(self).position()) {
                Ok(st) => r is Ok && r->Ok_0@ == old(self).position().token && final(self).position() == st,
                Err(_) => r is Err,
            },
    {
        proof {
            self.tokenizer.lemma_cursor();
            if !self.input_ended && !self.broken {
                let s = self.tokenizer.input();
                let st = self.tokenizer.state();
                let u = s;
                assert(prefix_of(s, u)) by {
                    assert(u.subrange(0, s.len() as int) =~= s);
                }
                lemma_step_settled(s, u, st);
            }
        }
        let r = self.tokenizer.take_token();
        if r.is_err() {
            self.broken = true;
        }
        r
    }

    /// Whether the input has ended.
    pub fn input_has_ended(&self) -> (r: bool)
        ensures
            r == self.input_ended(),
    {
        self.input_ended
    }

    /// Whether a step failed.
    pub fn has_failed(&self) -> (r: bool)
        ensures
            r == self.is_broken(),
    {
        self.broken
    }

    /// Takes the value of the current line, as
    /// [`Tokenizer::take_line_value`] does on the text; when the first step
    /// was settled, the same holds on any longer text.
    pub fn take_line_value(&mut self) -> (r: Result<String, GedcomError>)
        requires
            old(self).wf(),
            old(self).ready(),
        ensures
            final(self).wf(),
            final(self).text() == old(self).text(),
            final(self).input_ended() == old(self).input_ended(),
            match take_value(old(self).text(), old(self).position()) {
                Ok((st, v)) => r is Ok && r->Ok_0@ == v && final(self).position() == st,
                Err(_) => r is Err,
            },
            !old(self).input_ended() && !old(self).is_broken() ==> forall|t: Seq<char>|
                prefix_of(old(self).text(), t) ==> #[trigger] take_value(t, old(self).position()) == take_value(
                    old(self).text(),
                    old(self).position(),
                ),
    {
        let ghost s = self.text();
        let ghost st0 = self.position();
        proof {
            self.tokenizer.lemma_cursor();
            if !self.input_ended && !self.broken {
                assert forall|t: Seq<char>| prefix_of(s, t) implies #[trigger] take_value(t, st0) == take_value(s, st0) by {
                    lemma_step_settled(s, t, st0);
                    if let Ok(st1) = step(s, st0) {
                        if st1.token is LineValue {
                            lemma_value_step_settled(s, st0);
                            lemma_step_settled(s, t, st1);
                        }
                    }
                }
            }
        }
        self.next_token()?;
        let value = match self.current_token() {
            Token::LineValue(val) => val.clone(),
            Token::Level(_) => {
                return Ok(String::new());
            },
            other => {
                return Err(GedcomError::ParseError {
                    line: self.line(),
                    message: token_message("Expected LineValue, found ", other),
                });
            },
        };
        proof {
            if !self.input_ended && !self.broken {
                lemma_value_step_settled(s, st0);
            }
        }
        self.next_token()?;
        Ok(value)
    }

    /// Takes a value that continues over `CONT` and `CONC` lines, as
    /// [`Tokenizer::take_continued_text`] does on the text. The whole input
    /// must have been given, since how many lines the value takes is known
    /// only once they are read.
    pub fn take_continued_text(&mut self, level: u8) -> (r: Result<String, GedcomError>)
        requires
            old(self).wf(),
            old(self).input_ended() || old(self).is_broken(),
        ensures
            final(self).wf(),
            final(self).text() == old(self).text(),
            final(self).input_ended() == old(self).input_ended(),
            match take_value(old(self).text(), old(self).position()) {
                Ok((st1, first)) => match continued(old(self).text(), st1, level, first) {
                    Ok((st, text)) => r is Ok && r->Ok_0@ == text && final(self).position() == st,
                    Err(_) => r is Err,
                },
                Err(_) => r is Err,
            },
    {
        let r = self.tokenizer.take_continued_text(level);
        if r.is_err() {
            self.broken = true;
        }
        r
    }
}

/// A settled step that reads a value leaves the next step settled: the
/// value ends before the first line break ahead.
proof fn lemma_value_step_settled(s: Seq<char>, st: TokState)
    requires
        -1 <= st.cursor,
        settled(s, st.cursor),
    ensures
        match step(s, st) {
            Ok(st1) => st1.token is LineValue ==> settled(s, st1.cursor) && st.cursor <= st1.cursor,
            Err(_) => true,
        },
{
    let c = st.cursor;
    let (b1, b2, b3) = lemma_breaks(s, c);
    lemma_next_break(s, c);
    if let Ok(st1) = step(s, st) {
        if st1.token is LineValue {
            reveal_with_fuel(breaks_from, 2);
            assert(!(st.token is Initial) && char_at(s, c) != '\n');
            assert(c >= 0);
            let c1 = skip_space(s, c);
            lemma_skip_space_bounds(s, c);
            let t = s;
            assert(prefix_of(s, t)) by {
                assert(t.subrange(0, s.len() as int) =~= s);
            }
            lemma_skip_space_prefix(s, t, c, b1);
            lemma_value_end_prefix(s, t, c1, b1);
            lemma_value_end_bounds(s, c1);
            assert(st1.cursor == value_end(s, c1));
            assert(c <= st1.cursor <= b1);
            assert(next_break(s, st1.cursor) == b1);
        }
    }
}

} // verus!
