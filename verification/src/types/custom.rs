//! User-defined structures: tags that begin with an underscore.
use vstd::prelude::*;
use crate::error::GedcomError;
use crate::parser::{
    advanced, at_level_end_or_eof, at_tag, ends_within, same_text, spec_child_level, text_of, value_token_after, Parser,
};
use crate::tokenizer::{state_measure, step, valid_state, SpecToken, Token, Tokenizer, TokState};
use vstd::string::StringExecFns;

verus! {

/// Where reading a user-defined structure at `level`, whose tag is at `st`,
/// ends: past the tag and the value on its line, then as [`udt_lines`] says.
/// `Err` where reading fails.
pub open spec fn udt_end(s: Seq<char>, st: TokState, level: u8) -> Result<TokState, ()>
    decreases state_measure(s, st), 0nat,
{
    match step(s, st) {
        Ok(st1) => {
            let st2 = if st1.token is LineValue {
                step(s, st1)
            } else {
                Ok(st1)
            };
            match st2 {
                Ok(st3) => if state_measure(s, st3) < state_measure(s, st) {
                    udt_lines(s, st3, level)
                } else {
                    Err(())
                },
                Err(_) => Err(()),
            }
        },
        Err(_) => Err(()),
    }
}

/// Where reading the lines below a user-defined structure at `level` ends,
/// from `st` on: at a line at `level` or less, or at the end of the text;
/// deeper level numbers are passed over, and each tag, standard or not, is
/// read as a user-defined structure one level below. `Err` where it fails.
pub open spec fn udt_lines(s: Seq<char>, st: TokState, level: u8) -> Result<TokState, ()>
    decreases state_measure(s, st), 1nat,
{
    if !valid_state(s, st) {
        Err(())
    } else {
        match st.token {
            SpecToken::Level(l) => if l <= level {
                Ok(st)
            } else {
                match step(s, st) {
                    Ok(st1) => if state_measure(s, st1) < state_measure(s, st) {
                        udt_lines(s, st1, level)
                    } else {
                        Err(())
                    },
                    Err(_) => Err(()),
                }
            },
            SpecToken::Tag(_) | SpecToken::CustomTag(_) => match udt_end(s, st, spec_child_level(level)) {
                Ok(n) => if state_measure(s, n) < state_measure(s, st) {
                    udt_lines(s, n, level)
                } else {
                    Err(())
                },
                Err(_) => Err(()),
            },
            SpecToken::EOF => Ok(st),
            _ => Err(()),
        }
    }
}

/// A structure whose tag is not in the standard: its tag, the value on its
/// line and the structures below it.
#[derive(Debug)]
pub struct UserDefinedTag {
    pub tag: String,
    pub value: Option<String>,
    pub children: Vec<Box<UserDefinedTag>>,
}

impl UserDefinedTag {
    /// Reads a user-defined structure at `level` whose tag is `tag`.
    pub fn new(tokenizer: &mut Tokenizer, level: u8, tag: &str) -> (r: Result<UserDefinedTag, GedcomError>)
        requires
            old(tokenizer).wf(),
            at_tag(*old(tokenizer)),
        ensures
            same_text(*old(tokenizer), *final(tokenizer)),
            r is Ok ==> advanced(*old(tokenizer), *final(tokenizer)),
            r is Ok ==> at_level_end_or_eof(*final(tokenizer), level),
            r is Ok ==> ends_within(*old(tokenizer), *final(tokenizer), level),
            r matches Ok(u) ==> u.tag@ == tag@,
            r matches Ok(u) ==> text_of(u.value) == value_token_after(*old(tokenizer)),
            r is Ok <==> udt_end(old(tokenizer).input(), old(tokenizer).state(), level) is Ok,
            r is Ok ==> udt_end(old(tokenizer).input(), old(tokenizer).state(), level) == Ok::<TokState, ()>(final(tokenizer).state()),
        decreases old(tokenizer).measure(), 1nat,
    {
        let mut udt = UserDefinedTag { tag: String::from_str(tag), value: None, children: Vec::new() };
        udt.parse_lines(tokenizer, level)?;
        Ok(udt)
    }

    /// Adds a structure below this one.
    pub fn add_child(&mut self, child: UserDefinedTag)
        ensures
            final(self).children@ == old(self).children@.push(Box::new(child)),
            final(self).tag == old(self).tag,
            final(self).value == old(self).value,
    {
        self.children.push(Box::new(child));
    }

    fn parse_lines(&mut self, tokenizer: &mut Tokenizer, level: u8) -> (r: Result<(), GedcomError>)
        requires
            old(tokenizer).wf(),
            at_tag(*old(tokenizer)),
        ensures
            same_text(*old(tokenizer), *final(tokenizer)),
            r is Ok ==> advanced(*old(tokenizer), *final(tokenizer)),
            r is Ok ==> at_level_end_or_eof(*final(tokenizer), level),
            r is Ok ==> ends_within(*old(tokenizer), *final(tokenizer), level),
            final(self).tag == old(self).tag,
            r is Ok ==> text_of(final(self).value) == (match value_token_after(*old(tokenizer)) {
                Some(v) => Some(v),
                None => text_of(old(self).value),
            }),
            r is Ok <==> udt_end(old(tokenizer).input(), old(tokenizer).state(), level) is Ok,
            r is Ok ==> udt_end(old(tokenizer).input(), old(tokenizer).state(), level) == Ok::<TokState, ()>(final(tokenizer).state()),
        decreases old(tokenizer).measure(), 0nat,
    {
        let ghost s = tokenizer.input();
        // skip over the tag
        tokenizer.next_token()?;
        // the value on the tag's line
        if let Token::LineValue(val) = tokenizer.current_token() {
            self.value = Some(val.clone());
            tokenizer.next_token()?;
        }
        let ghost lines_start = tokenizer.state();
        assert(udt_end(s, old(tokenizer).state(), level) == udt_lines(s, lines_start, level));
        let ghost start = *old(tokenizer);
        let ghost value = self.value;
        loop
            invariant
                start == *old(tokenizer),
                same_text(start, *tokenizer),
                advanced(start, *tokenizer),
                ends_within(start, *tokenizer, level),
                self.tag == old(self).tag,
                self.value == value,
                s == tokenizer.input(),
                udt_lines(s, tokenizer.state(), level) == udt_lines(s, lines_start, level),
                udt_end(s, old(tokenizer).state(), level) == udt_lines(s, lines_start, level),
            ensures
                same_text(start, *tokenizer),
                advanced(start, *tokenizer),
                at_level_end_or_eof(*tokenizer, level),
                ends_within(start, *tokenizer, level),
                self.tag == old(self).tag,
                self.value == value,
                udt_lines(s, lines_start, level) == Ok::<TokState, ()>(tokenizer.state()),
            decreases tokenizer.measure(),
        {
            proof {
                tokenizer.lemma_cursor();
            }
            let current = tokenizer.current_token();
            match current {
                Token::Level(cur_level) => {
                    if *cur_level <= level {
                        break;
                    }
                    tokenizer.next_token()?;
                },
                Token::Tag(tag) | Token::CustomTag(tag) => {
                    let tag_clone = tag.clone();
                    let child_level = if level < 255 { level + 1 } else { 255 };
                    let child = UserDefinedTag::new(tokenizer, child_level, tag_clone.as_str())?;
                    self.add_child(child);
                },
                Token::EOF => break,
                _ => {
                    return Err(GedcomError::ParseError {
                        line: tokenizer.line(),
                        message: String::from_str("Unhandled Token in user-defined structure"),
                    });
                },
            }
        }
        Ok(())
    }
}

/// A copy of `t` and of the structures below it.
fn copy_tag(t: &UserDefinedTag) -> (r: UserDefinedTag)
    ensures
        r.tag == t.tag,
        r.value == t.value,
        r.children@.len() == t.children@.len(),
    decreases t,
{
    let mut children: Vec<Box<UserDefinedTag>> = Vec::new();
    let mut i: usize = 0;
    while i < t.children.len()
        invariant
            i <= t.children@.len(),
            children@.len() == i,
        decreases t.children@.len() - i,
    {
        proof {
            assert(decreases_to!(t => t.children@[i as int]));
        }
        let child = copy_tag(&t.children[i]);
        children.push(Box::new(child));
        i = i + 1;
    }
    UserDefinedTag { tag: t.tag.clone(), value: t.value.clone(), children }
}

impl Clone for UserDefinedTag {
    fn clone(&self) -> (r: Self)
        ensures
            r.tag == self.tag,
            r.value == self.value,
            r.children@.len() == self.children@.len(),
    {
        copy_tag(self)
    }
}

impl Parser for UserDefinedTag {
    fn parse(&mut self, tokenizer: &mut Tokenizer, level: u8) -> (r: Result<(), GedcomError>)
        ensures
            r is Ok <==> (at_tag(*old(tokenizer)) && udt_end(old(tokenizer).input(), old(tokenizer).state(), level) is Ok),
            r is Ok ==> udt_end(old(tokenizer).input(), old(tokenizer).state(), level) == Ok::<TokState, ()>(final(tokenizer).state()),
            r is Ok ==> at_level_end_or_eof(*final(tokenizer), level),
    {
        if let Token::Tag(_) | Token::CustomTag(_) = tokenizer.current_token() {
            self.parse_lines(tokenizer, level)
        } else {
            Err(GedcomError::ParseError {
                line: tokenizer.line(),
                message: String::from_str("Expected a tag"),
            })
        }
    }
}

} // verus!
