//! The format of a multimedia file.
use vstd::prelude::*;
use crate::error::GedcomError;
use crate::parser::{at_level_end, flat_accepted, flat_children, fold_values, line_value, parse_flat, record_read, tag_error, text_of, value_flat_end, FlatHandler, Parser};
use crate::text::str_eq;
use crate::tokenizer::{take_value, TokState, Tokenizer};

verus! {

/// The format of a file (such as `jpeg`) and the type of its source medium.
#[derive(Clone, Debug, PartialEq)]
pub struct Format {
    pub value: Option<String>,
    pub source_media_type: Option<String>,
}

impl FlatHandler for Format {
    type Fields = (Option<Seq<char>>, Option<Seq<char>>);

    /// The format and the type of the source medium.
    open spec fn fields(&self) -> Self::Fields {
        (text_of(self.value), text_of(self.source_media_type))
    }

    open spec fn accepts(t: Seq<char>) -> bool {
        t == "TYPE"@
    }

    /// A `TYPE` line gives the type of the source medium.
    open spec fn with_value(f: Self::Fields, t: Seq<char>, v: Seq<char>) -> Self::Fields {
        if t == "TYPE"@ {
            (f.0, Some(v))
        } else {
            f
        }
    }

    fn accepts_tag(tag: &str) -> (r: bool) {
        str_eq(tag, "TYPE")
    }

    fn set_value(&mut self, tag: &str, value: String) {
        self.source_media_type = Some(value);
    }

    fn refusal(tag: &str, line: u32) -> GedcomError {
        tag_error("Unhandled MultimediaFormat Tag: ", tag, line)
    }
}

/// The lines below keep the value of the structure's own line.
pub proof fn lemma_format_keeps_value(f: (Option<Seq<char>>, Option<Seq<char>>), kids: Seq<(Seq<char>, Seq<char>)>)
    ensures
        fold_values::<Format>(f, kids).0 == f.0,
    decreases kids.len(),
{
    if kids.len() > 0 {
        lemma_format_keeps_value(f, kids.drop_last());
    }
}

impl Format {
    /// Reads a `FORM` structure at `level`.
    pub fn new(tokenizer: &mut Tokenizer, level: u8) -> (r: Result<Format, GedcomError>)
        requires
            old(tokenizer).wf(),
            old(tokenizer).token() is Tag,
        ensures
            record_read(*old(tokenizer), *final(tokenizer), r is Ok, level),
            r matches Ok(x) ==> x.value matches Some(v) && v@ == line_value(*old(tokenizer)),
            r matches Ok(x) ==> (take_value(old(tokenizer).input(), old(tokenizer).state()) matches Ok((st1, v))
                && flat_children(old(tokenizer).input(), st1, level) matches Ok((_, kids))
                && x.fields() == fold_values::<Format>((Some(v), None), kids)),
            r is Ok <==> (take_value(old(tokenizer).input(), old(tokenizer).state()) matches Ok((st1, _))
                && flat_accepted::<Format>(old(tokenizer).input(), st1, level)),
            r is Ok ==> value_flat_end::<Format>(old(tokenizer).input(), old(tokenizer).state(), level)
                == Ok::<TokState, ()>(final(tokenizer).state()),
    {
        let mut form = Format { value: None, source_media_type: None };
        form.value = Some(tokenizer.take_line_value()?);
        let ghost f0 = form.fields();
        let ghost st1 = tokenizer.state();
        parse_flat(tokenizer, level, &mut form)?;
        proof {
            if let Ok((_, k)) = flat_children(tokenizer.input(), st1, level) {
                lemma_format_keeps_value(f0, k);
            }
        }
        Ok(form)
    }
}

impl Parser for Format {
    fn parse(&mut self, tokenizer: &mut Tokenizer, level: u8) -> (r: Result<(), GedcomError>)
        ensures
            r is Ok ==> at_level_end(*final(tokenizer), level),
            r is Ok <==> (take_value(old(tokenizer).input(), old(tokenizer).state()) matches Ok((st1, _))
                && flat_accepted::<Format>(old(tokenizer).input(), st1, level)),
            r is Ok ==> (take_value(old(tokenizer).input(), old(tokenizer).state()) matches Ok((st1, v))
                && flat_children(old(tokenizer).input(), st1, level) matches Ok((_, kids))
                && final(self).fields() == fold_values::<Format>((Some(v), old(self).fields().1), kids)),
    {
        self.value = Some(tokenizer.take_line_value()?);
        parse_flat(tokenizer, level, self)?;
        Ok(())
    }
}

} // verus!
