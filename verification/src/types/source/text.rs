//! Text quoted from a source.
use vstd::prelude::*;
use vstd::string::StringExecFns;
use crate::error::GedcomError;
use crate::parser::{flat_accepted, flat_children, fold_values, kept_value, parse_flat, record_read, tag_error, FlatHandler, Parser};
use crate::text::{push_char, str_eq};
use crate::tokenizer::{take_value, TokState, Tokenizer};

verus! {

/// A text quoted from a source, possibly over several lines.
#[derive(Clone, Debug)]
pub struct Text {
    pub value: Option<String>,
}

/// A text after one more line: a `CONC` line's value is joined to it, a
/// `CONT` line's value follows a line break.
pub open spec fn text_with_line(text: Seq<char>, t: Seq<char>, v: Seq<char>) -> Seq<char> {
    if t == "CONC"@ {
        text + v
    } else if t == "CONT"@ {
        text + seq!['\n'] + v
    } else {
        text
    }
}

/// The text that begins with `first` and goes on over the lines `kids`.
pub open spec fn text_over_lines(first: Seq<char>, kids: Seq<(Seq<char>, Seq<char>)>) -> Seq<char>
    decreases kids.len(),
{
    if kids.len() == 0 {
        first
    } else {
        text_with_line(text_over_lines(first, kids.drop_last()), kids.last().0, kids.last().1)
    }
}

/// The text of a `TEXT` structure gathered so far, as its lines are read.
pub struct TextLines {
    value: String,
}

impl FlatHandler for TextLines {
    type Fields = Seq<char>;

    closed spec fn fields(&self) -> Self::Fields {
        self.value@
    }

    open spec fn accepts(t: Seq<char>) -> bool {
        t == "CONC"@ || t == "CONT"@
    }

    open spec fn with_value(f: Self::Fields, t: Seq<char>, v: Seq<char>) -> Self::Fields {
        text_with_line(f, t, v)
    }

    fn accepts_tag(tag: &str) -> (r: bool) {
        str_eq(tag, "CONC") || str_eq(tag, "CONT")
    }

    fn set_value(&mut self, tag: &str, value: String) {
        if str_eq(tag, "CONC") {
            self.value.append(value.as_str());
        } else {
            let ghost before = self.value@;
            push_char(&mut self.value, '\n');
            self.value.append(value.as_str());
            assert(self.value@ =~= before + seq!['\n'] + value@);
        }
    }

    fn refusal(tag: &str, line: u32) -> GedcomError {
        tag_error("Unhandled Text Tag: ", tag, line)
    }
}

proof fn lemma_text_lines(f: Seq<char>, kids: Seq<(Seq<char>, Seq<char>)>)
    ensures
        fold_values::<TextLines>(f, kids) == text_over_lines(f, kids),
    decreases kids.len(),
{
    if kids.len() > 0 {
        lemma_text_lines(f, kids.drop_last());
    }
}

/// The text of a `TEXT` structure read at `level` from its tag at `st`.
pub open spec fn text_value_at(s: Seq<char>, st: TokState, level: u8) -> Seq<char> {
    match take_value(s, st) {
        Ok((st1, v)) => match flat_children(s, st1, level) {
            Ok((_, kids)) => text_over_lines(v, kids),
            Err(_) => Seq::empty(),
        },
        Err(_) => Seq::empty(),
    }
}

impl Text {
    /// Reads a `TEXT` structure at `level`.
    pub fn new(tokenizer: &mut Tokenizer, level: u8) -> (r: Result<Text, GedcomError>)
        requires
            old(tokenizer).wf(),
            old(tokenizer).token() is Tag,
        ensures
            record_read(*old(tokenizer), *final(tokenizer), r is Ok, level),
            r matches Ok(x) ==> (take_value(old(tokenizer).input(), old(tokenizer).state()) matches Ok((st1, v))
                && flat_children(old(tokenizer).input(), st1, level) matches Ok((_, kids))
                && kept_value(x.value, text_over_lines(v, kids))),
            r matches Ok(x) ==> kept_value(x.value, text_value_at(old(tokenizer).input(), old(tokenizer).state(), level)),
            r is Ok <==> (take_value(old(tokenizer).input(), old(tokenizer).state()) matches Ok((st1, _))
                && flat_accepted::<TextLines>(old(tokenizer).input(), st1, level)),
            r is Ok ==> crate::parser::value_flat_end::<TextLines>(old(tokenizer).input(), old(tokenizer).state(), level)
                == Ok::<crate::tokenizer::TokState, ()>(final(tokenizer).state()),
    {
        let mut text = Text { value: None };
        let first = tokenizer.take_line_value()?;
        text.parse_lines(tokenizer, level, first)?;
        Ok(text)
    }

    fn parse_lines(&mut self, tokenizer: &mut Tokenizer, level: u8, first: String) -> (r: Result<(), GedcomError>)
        requires
            old(tokenizer).wf(),
        ensures
            crate::parser::same_text(*old(tokenizer), *final(tokenizer)),
            r is Ok ==> final(tokenizer).measure() <= old(tokenizer).measure(),
            r is Ok ==> crate::parser::at_level_end(*final(tokenizer), level),
            r is Ok ==> crate::parser::ends_within(*old(tokenizer), *final(tokenizer), level),
            r is Ok ==> (flat_children(old(tokenizer).input(), old(tokenizer).state(), level) matches Ok((_, kids))
                && (text_over_lines(first@, kids).len() == 0 ==> final(self).value == old(self).value)
                && (text_over_lines(first@, kids).len() > 0
                    ==> (final(self).value matches Some(s) && s@ == text_over_lines(first@, kids)))),
            r is Ok <==> flat_accepted::<TextLines>(old(tokenizer).input(), old(tokenizer).state(), level),
            r is Ok ==> crate::parser::flat_end::<TextLines>(old(tokenizer).input(), old(tokenizer).state(), level)
                == Ok::<crate::tokenizer::TokState, ()>(final(tokenizer).state()),
    {
        let mut lines = TextLines { value: first };
        parse_flat(tokenizer, level, &mut lines)?;
        proof {
            if let Ok((_, k)) = flat_children(tokenizer.input(), old(tokenizer).state(), level) {
                lemma_text_lines(first@, k);
            }
        }
        if !lines.value.as_str().is_empty() {
            self.value = Some(lines.value);
        }
        Ok(())
    }
}

impl Parser for Text {
    fn parse(&mut self, tokenizer: &mut Tokenizer, level: u8) -> (r: Result<(), GedcomError>)
        ensures
            r is Ok ==> crate::parser::at_level_end(*final(tokenizer), level),
            r is Ok <==> (take_value(old(tokenizer).input(), old(tokenizer).state()) matches Ok((st1, _))
                && flat_accepted::<TextLines>(old(tokenizer).input(), st1, level)),
            r is Ok ==> (take_value(old(tokenizer).input(), old(tokenizer).state()) matches Ok((st1, v))
                && flat_children(old(tokenizer).input(), st1, level) matches Ok((_, kids))
                && (text_over_lines(v, kids).len() == 0 ==> final(self).value == old(self).value)
                && (text_over_lines(v, kids).len() > 0
                    ==> (final(self).value matches Some(t) && t@ == text_over_lines(v, kids)))),
    {
        let first = tokenizer.take_line_value()?;
        self.parse_lines(tokenizer, level, first)
    }
}

} // verus!
