//! The data of a source citation.
use vstd::prelude::*;
use crate::parser::FlatHandler;
use crate::parser::last_tag_state;
use crate::parser::lemma_kids_push;
use crate::parser::step_subset_kids;
use crate::types::date::date_fields_at;
use crate::types::source::text::text_value_at;
use crate::parser::kept_value;
use crate::error::GedcomError;
use crate::parser::{at_level_end, child_level, parse_subset, record_read, spec_child_level, step_subset_end, tag_error, value_flat_end, Parser, TagHandler};
use crate::text::str_eq;
use crate::tokenizer::{TokState, Tokenizer};
use crate::types::date::Date;
use crate::types::source::text::{Text, TextLines};

verus! {

/// The date of a cited entry and the text found there.
#[derive(Clone, Debug)]
pub struct Data {
    pub date: Option<Date>,
    pub text: Option<Text>,
}

impl TagHandler for Data {
    open spec fn exact() -> bool {
        true
    }

    open spec fn tag_end(s: Seq<char>, st: TokState, t: Seq<char>, level: u8) -> Result<TokState, ()> {
        if t == "DATE"@ {
            value_flat_end::<Date>(s, st, spec_child_level(level))
        } else if t == "TEXT"@ {
            value_flat_end::<TextLines>(s, st, spec_child_level(level))
        } else {
            Err(())
        }
    }

    open spec fn holds(&self, s: Seq<char>, kids: Seq<(Seq<char>, TokState)>, level: u8) -> bool {
        &&& (match last_tag_state(kids, "DATE"@) {
            Some(st) => self.date matches Some(d) && d.fields() == date_fields_at(s, st, spec_child_level(level)),
            None => self.date is None,
        })
        &&& (match last_tag_state(kids, "TEXT"@) {
            Some(st) => self.text matches Some(x) && kept_value(x.value, text_value_at(s, st, spec_child_level(level))),
            None => self.text is None,
        })
    }

    fn handle_tag(&mut self, tag: &str, tokenizer: &mut Tokenizer, level: u8) -> (r: Result<(), GedcomError>) {
        proof {
            reveal_strlit("DATE");
            assert("DATE"@.len() == 4);
            reveal_strlit("TEXT");
            assert("TEXT"@.len() == 4);
            assert("DATE"@[0] != "TEXT"@[0]);
        }
        if str_eq(tag, "DATE") {
            self.date = Some(Date::new(tokenizer, child_level(level))?);
        } else if str_eq(tag, "TEXT") {
            self.text = Some(Text::new(tokenizer, child_level(level))?);
        } else {
            return Err(tag_error("Unhandled SourceCitationData Tag: ", tag, tokenizer.line()));
        }
        proof {
            let kid = (tag@, old(tokenizer).state());
            assert forall|kids: Seq<(Seq<char>, TokState)>| old(self).holds(old(tokenizer).input(), kids, level)
                implies #[trigger] self.holds(old(tokenizer).input(), kids.push(kid), level) by {
                lemma_kids_push(old(tokenizer).input(), kids, kid);
            }
        }
        Ok(())
    }
}

impl Data {
    /// Reads a `DATA` structure of a citation at `level`.
    pub fn new(tokenizer: &mut Tokenizer, level: u8) -> (r: Result<Data, GedcomError>)
        requires
            old(tokenizer).wf(),
            old(tokenizer).token() is Tag,
        ensures
            record_read(*old(tokenizer), *final(tokenizer), r is Ok, level),
            r is Ok <==> step_subset_end::<Data>(old(tokenizer).input(), old(tokenizer).state(), level) is Ok,
            r is Ok ==> step_subset_end::<Data>(old(tokenizer).input(), old(tokenizer).state(), level) == Ok::<TokState, ()>(final(tokenizer).state()),
            r matches Ok(x) ==> x.holds(old(tokenizer).input(), step_subset_kids::<Data>(old(tokenizer).input(), old(tokenizer).state(), level), level),
    {
        let mut data = Data { date: None, text: None };
        tokenizer.next_token()?;
        parse_subset(tokenizer, level, &mut data)?;
        Ok(data)
    }
}

impl Parser for Data {
    fn parse(&mut self, tokenizer: &mut Tokenizer, level: u8) -> (r: Result<(), GedcomError>) 
        ensures
            r is Ok ==> at_level_end(*final(tokenizer), level),
            r is Ok <==> step_subset_end::<Data>(old(tokenizer).input(), old(tokenizer).state(), level) is Ok,
            r is Ok && old(self).holds(old(tokenizer).input(), Seq::empty(), level)
                ==> final(self).holds(old(tokenizer).input(), step_subset_kids::<Data>(old(tokenizer).input(), old(tokenizer).state(), level), level),
    {
        tokenizer.next_token()?;
        parse_subset(tokenizer, level, self)?;
        Ok(())
    }
}

} // verus!
