//! The character set declared in a header.
use vstd::prelude::*;
use crate::error::GedcomError;
use crate::parser::{at_level_end, flat_accepted, flat_children, fold_values, line_value, parse_flat, record_read, tag_error, text_of, FlatHandler, Parser};
use crate::text::str_eq;
use crate::tokenizer::{take_value, Tokenizer};

verus! {

/// The character set of a file (`CHAR`) and its version.
#[derive(Clone, Debug)]
pub struct Encoding {
    pub value: Option<String>,
    pub version: Option<String>,
}

impl FlatHandler for Encoding {
    type Fields = (Option<Seq<char>>, Option<Seq<char>>);

    /// The name of the character set and its version.
    open spec fn fields(&self) -> Self::Fields {
        (text_of(self.value), text_of(self.version))
    }

    open spec fn accepts(t: Seq<char>) -> bool {
        t == "VERS"@
    }

    /// A `VERS` line gives the version.
    open spec fn with_value(f: Self::Fields, t: Seq<char>, v: Seq<char>) -> Self::Fields {
        if t == "VERS"@ {
            (f.0, Some(v))
        } else {
            f
        }
    }

    fn accepts_tag(tag: &str) -> (r: bool) {
        str_eq(tag, "VERS")
    }

    fn set_value(&mut self, tag: &str, value: String) {
        self.version = Some(value);
    }

    fn refusal(tag: &str, line: u32) -> GedcomError {
        tag_error("Unhandled CHAR Tag: ", tag, line)
    }
}

/// The lines below keep the value of the structure's own line.
pub proof fn lemma_encoding_keeps_value(f: (Option<Seq<char>>, Option<Seq<char>>), kids: Seq<(Seq<char>, Seq<char>)>)
    ensures
        fold_values::<Encoding>(f, kids).0 == f.0,
    decreases kids.len(),
{
    if kids.len() > 0 {
        lemma_encoding_keeps_value(f, kids.drop_last());
    }
}

impl Encoding {
    /// Reads a `CHAR` structure at `level`.
    pub fn new(tokenizer: &mut Tokenizer, level: u8) -> (r: Result<Encoding, GedcomError>)
        requires
            old(tokenizer).wf(),
            old(tokenizer).token() is Tag,
        ensures
            record_read(*old(tokenizer), *final(tokenizer), r is Ok, level),
            r matches Ok(x) ==> x.value matches Some(v) && v@ == line_value(*old(tokenizer)),
            r matches Ok(x) ==> (take_value(old(tokenizer).input(), old(tokenizer).state()) matches Ok((st1, v))
                && flat_children(old(tokenizer).input(), st1, level) matches Ok((_, kids))
                && x.fields() == fold_values::<Encoding>((Some(v), None), kids)),
            r is Ok <==> (take_value(old(tokenizer).input(), old(tokenizer).state()) matches Ok((st1, _))
                && flat_accepted::<Encoding>(old(tokenizer).input(), st1, level)),
            r is Ok ==> crate::parser::value_flat_end::<Encoding>(old(tokenizer).input(), old(tokenizer).state(), level)
                == Ok::<crate::tokenizer::TokState, ()>(final(tokenizer).state()),
    {
        let mut chars = Encoding { value: None, version: None };
        chars.value = Some(tokenizer.take_line_value()?);
        let ghost f0 = chars.fields();
        let ghost st1 = tokenizer.state();
        parse_flat(tokenizer, level, &mut chars)?;
        proof {
            if let Ok((_, k)) = flat_children(tokenizer.input(), st1, level) {
                lemma_encoding_keeps_value(f0, k);
            }
        }
        Ok(chars)
    }
}

impl Parser for Encoding {
    fn parse(&mut self, tokenizer: &mut Tokenizer, level: u8) -> (r: Result<(), GedcomError>)
        ensures
            r is Ok ==> at_level_end(*final(tokenizer), level),
            r is Ok <==> (take_value(old(tokenizer).input(), old(tokenizer).state()) matches Ok((st1, _))
                && flat_accepted::<Encoding>(old(tokenizer).input(), st1, level)),
            r is Ok ==> (take_value(old(tokenizer).input(), old(tokenizer).state()) matches Ok((st1, v))
                && flat_children(old(tokenizer).input(), st1, level) matches Ok((_, kids))
                && final(self).fields() == fold_values::<Encoding>((Some(v), old(self).fields().1), kids)),
    {
        self.value = Some(tokenizer.take_line_value()?);
        parse_flat(tokenizer, level, self)?;
        Ok(())
    }
}

} // verus!
