//! Translations of a note.
use vstd::prelude::*;
use vstd::string::StringExecFns;
use crate::error::GedcomError;
use crate::parser::{at_level_end, flat_accepted, flat_children, fold_values, line_value, parse_flat, record_read, tag_error, text_of, FlatHandler, Parser};
use crate::text::str_eq;
use crate::tokenizer::{take_value, Tokenizer};

verus! {

/// A translation of a note into another language or media type.
#[derive(Clone, Debug, PartialEq)]
pub struct Translation {
    pub value: Option<String>,
    pub mime: Option<String>,
    pub language: Option<String>,
}

impl Default for Translation {
    fn default() -> (r: Self)
        ensures
            r.value is None && r.mime is None && r.language is None,
    {
        Translation { value: None, mime: None, language: None }
    }
}

impl FlatHandler for Translation {
    type Fields = (Option<Seq<char>>, Option<Seq<char>>, Option<Seq<char>>);

    /// The translated text, its media type and its language.
    open spec fn fields(&self) -> Self::Fields {
        (text_of(self.value), text_of(self.mime), text_of(self.language))
    }

    open spec fn accepts(t: Seq<char>) -> bool {
        t == "MIME"@ || t == "LANG"@
    }

    /// A `MIME` line gives the media type, a `LANG` line the language.
    open spec fn with_value(f: Self::Fields, t: Seq<char>, v: Seq<char>) -> Self::Fields {
        if t == "MIME"@ {
            (f.0, Some(v), f.2)
        } else if t == "LANG"@ {
            (f.0, f.1, Some(v))
        } else {
            f
        }
    }

    fn accepts_tag(tag: &str) -> (r: bool) {
        str_eq(tag, "MIME") || str_eq(tag, "LANG")
    }

    fn set_value(&mut self, tag: &str, value: String) {
        if str_eq(tag, "MIME") {
            self.mime = Some(value);
        } else {
            self.language = Some(value);
        }
    }

    fn refusal(tag: &str, line: u32) -> GedcomError {
        tag_error("Unhandled Translation Tag: ", tag, line)
    }
}

/// The lines below keep the value of the structure's own line.
pub proof fn lemma_translation_keeps_value(f: (Option<Seq<char>>, Option<Seq<char>>, Option<Seq<char>>), kids: Seq<(Seq<char>, Seq<char>)>)
    ensures
        fold_values::<Translation>(f, kids).0 == f.0,
    decreases kids.len(),
{
    if kids.len() > 0 {
        lemma_translation_keeps_value(f, kids.drop_last());
    }
}

impl Translation {
    /// Reads a `TRAN` structure at `level`.
    pub fn new(tokenizer: &mut Tokenizer, level: u8) -> (r: Result<Translation, GedcomError>)
        requires
            old(tokenizer).wf(),
            old(tokenizer).token() is Tag,
        ensures
            record_read(*old(tokenizer), *final(tokenizer), r is Ok, level),
            r matches Ok(x) ==> x.value matches Some(v) && v@ == line_value(*old(tokenizer)),
            r matches Ok(x) ==> (take_value(old(tokenizer).input(), old(tokenizer).state()) matches Ok((st1, v))
                && flat_children(old(tokenizer).input(), st1, level) matches Ok((_, kids))
                && x.fields() == fold_values::<Translation>((Some(v), None, None), kids)),
            r is Ok <==> (take_value(old(tokenizer).input(), old(tokenizer).state()) matches Ok((st1, _))
                && flat_accepted::<Translation>(old(tokenizer).input(), st1, level)),
            r is Ok ==> crate::parser::value_flat_end::<Translation>(old(tokenizer).input(), old(tokenizer).state(), level)
                == Ok::<crate::tokenizer::TokState, ()>(final(tokenizer).state()),
    {
        let mut tran = Translation::default();
        tran.value = Some(tokenizer.take_line_value()?);
        let ghost f0 = tran.fields();
        let ghost st1 = tokenizer.state();
        parse_flat(tokenizer, level, &mut tran)?;
        proof {
            if let Ok((_, k)) = flat_children(tokenizer.input(), st1, level) {
                lemma_translation_keeps_value(f0, k);
            }
        }
        Ok(tran)
    }
}

impl Parser for Translation {
    fn parse(&mut self, tokenizer: &mut Tokenizer, level: u8) -> (r: Result<(), GedcomError>)
        ensures
            r is Ok ==> at_level_end(*final(tokenizer), level),
            r is Ok <==> (take_value(old(tokenizer).input(), old(tokenizer).state()) matches Ok((st1, _))
                && flat_accepted::<Translation>(old(tokenizer).input(), st1, level)),
            r is Ok ==> (take_value(old(tokenizer).input(), old(tokenizer).state()) matches Ok((st1, v))
                && flat_children(old(tokenizer).input(), st1, level) matches Ok((_, kids))
                && final(self).fields() == fold_values::<Translation>((Some(v), old(self).fields().1, old(self).fields().2), kids)),
    {
        self.value = Some(tokenizer.take_line_value()?);
        parse_flat(tokenizer, level, self)?;
        Ok(())
    }
}

} // verus!
