//! The GEDCOM version and form declared in a header.
use vstd::prelude::*;
use vstd::string::StringExecFns;
use crate::error::GedcomError;
use crate::parser::{last_tag_value, lemma_tag_values_push, step_subset_kids, text_of, at_level_end, parse_subset, record_read, step_subset_end, tag_error, value_end, Parser, TagHandler};
use crate::text::{str_eq, to_uppercase, uppercase};
use crate::tokenizer::{take_value, TokState, Tokenizer};

verus! {

/// The version of GEDCOM that a file follows, and its form.
#[derive(Clone, Debug, PartialEq)]
pub struct HeadMeta {
    pub version: Option<String>,
    pub form: Option<String>,
}

impl TagHandler for HeadMeta {
    open spec fn exact() -> bool {
        true
    }

    open spec fn tag_end(s: Seq<char>, st: TokState, t: Seq<char>, level: u8) -> Result<TokState, ()> {
        if t == "VERS"@ {
            value_end(s, st)
        } else if t == "FORM"@ {
            match take_value(s, st) {
                Ok((st1, v)) => if uppercase(v) == "LINEAGE-LINKED"@ {
                    Ok(st1)
                } else {
                    Err(())
                },
                Err(_) => Err(()),
            }
        } else {
            Err(())
        }
    }

    open spec fn holds(&self, s: Seq<char>, kids: Seq<(Seq<char>, TokState)>, level: u8) -> bool {
        &&& text_of(self.version) == last_tag_value(s, kids, "VERS"@)
        &&& text_of(self.form) == last_tag_value(s, kids, "FORM"@)
    }

    fn handle_tag(&mut self, tag: &str, tokenizer: &mut Tokenizer, level: u8) -> (r: Result<(), GedcomError>) {
        proof {
            reveal_strlit("VERS");
            assert("VERS"@.len() == 4);
            reveal_strlit("FORM");
            assert("FORM"@.len() == 4);
            assert("VERS"@[0] != "FORM"@[0]);
        }
        if str_eq(tag, "VERS") {
            self.version = Some(tokenizer.take_line_value()?);
        } else if str_eq(tag, "FORM") {
            let form = tokenizer.take_line_value()?;
            let upper = to_uppercase(form.as_str());
            if !str_eq(upper.as_str(), "LINEAGE-LINKED") {
                return Err(GedcomError::ParseError {
                    line: tokenizer.line(),
                    message: String::from_str("Unrecognized GEDCOM form. Expected LINEAGE-LINKED, found ").concat(form.as_str()),
                });
            }
            self.form = Some(form);
        } else {
            return Err(tag_error("Unhandled HeadMeta Tag: ", tag, tokenizer.line()));
        }
        proof {
            let kid = (tag@, old(tokenizer).state());
            assert forall|kids: Seq<(Seq<char>, TokState)>| old(self).holds(old(tokenizer).input(), kids, level)
                implies #[trigger] self.holds(old(tokenizer).input(), kids.push(kid), level) by {
                lemma_tag_values_push(old(tokenizer).input(), kids, kid);
            }
        }
        Ok(())
    }
}

impl HeadMeta {
    /// Reads a `GEDC` structure at `level`.
    pub fn new(tokenizer: &mut Tokenizer, level: u8) -> (r: Result<HeadMeta, GedcomError>)
        requires
            old(tokenizer).wf(),
            old(tokenizer).token() is Tag,
        ensures
            record_read(*old(tokenizer), *final(tokenizer), r is Ok, level),
            r is Ok <==> step_subset_end::<HeadMeta>(old(tokenizer).input(), old(tokenizer).state(), level) is Ok,
            r is Ok ==> step_subset_end::<HeadMeta>(old(tokenizer).input(), old(tokenizer).state(), level) == Ok::<TokState, ()>(final(tokenizer).state()),
            r matches Ok(x) ==> x.holds(old(tokenizer).input(), step_subset_kids::<HeadMeta>(old(tokenizer).input(), old(tokenizer).state(), level), level),
    {
        let mut gedc = HeadMeta { version: None, form: None };
        tokenizer.next_token()?;
        parse_subset(tokenizer, level, &mut gedc)?;
        Ok(gedc)
    }
}

impl Parser for HeadMeta {
    fn parse(&mut self, tokenizer: &mut Tokenizer, level: u8) -> (r: Result<(), GedcomError>) 
        ensures
            r is Ok ==> at_level_end(*final(tokenizer), level),
            r is Ok <==> step_subset_end::<HeadMeta>(old(tokenizer).input(), old(tokenizer).state(), level) is Ok,
            r is Ok && old(self).holds(old(tokenizer).input(), Seq::empty(), level)
                ==> final(self).holds(old(tokenizer).input(), step_subset_kids::<HeadMeta>(old(tokenizer).input(), old(tokenizer).state(), level), level),
    {
        tokenizer.next_token()?;
        parse_subset(tokenizer, level, self)?;
        Ok(())
    }
}

} // verus!
