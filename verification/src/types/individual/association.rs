//! Associations between individuals.
use vstd::prelude::*;
use crate::parser::last_tag_state;
use crate::parser::last_tag_value;
use crate::parser::lemma_kids_push;
use crate::parser::text_of;
use crate::parser::value_subset_kids;
use crate::parser::subset_kids;
use crate::types::shared::{shared_end, Shared};
use vstd::string::StringExecFns;
use crate::error::GedcomError;
use crate::parser::{at_level_end, child_level, line_value, parse_subset, record_read, spec_child_level, subset_end, tag_error, value_end, value_subset_end, Parser, TagHandler};
use crate::text::str_eq;
use crate::tokenizer::{TokState, Tokenizer};
use crate::types::custom::UserDefinedTag;
use crate::types::note::Note;
use crate::types::Xref;

verus! {

/// A link to another individual (`ASSO`) and what relates them.
#[derive(Clone, Debug)]
pub struct Association {
    pub xref: Xref,
    pub relationship: Option<String>,
    pub association_type: Option<String>,
    pub note: Option<Note>,
    pub custom_data: Vec<Box<UserDefinedTag>>,
}

impl Association {
    /// Reads an `ASSO` structure at `level`; its value is the other individual.
    pub fn new(tokenizer: &mut Tokenizer, level: u8) -> (r: Result<Association, GedcomError>)
        requires
            old(tokenizer).wf(),
            old(tokenizer).token() is Tag,
        ensures
            record_read(*old(tokenizer), *final(tokenizer), r is Ok, level),
            r matches Ok(a) ==> a.xref@ == line_value(*old(tokenizer)),
            r is Ok <==> value_subset_end::<Association>(old(tokenizer).input(), old(tokenizer).state(), level) is Ok,
            r is Ok ==> value_subset_end::<Association>(old(tokenizer).input(), old(tokenizer).state(), level) == Ok::<TokState, ()>(final(tokenizer).state()),
            r matches Ok(x) ==> x.holds(old(tokenizer).input(), value_subset_kids::<Association>(old(tokenizer).input(), old(tokenizer).state(), level), level),
    {
        let xref = tokenizer.take_line_value()?;
        let mut association = Association {
            xref: String::new(),
            relationship: None,
            association_type: None,
            note: None,
            custom_data: Vec::new(),
        };
        let custom = parse_subset(tokenizer, level, &mut association)?;
        association.custom_data = custom;
        association.xref = xref;
        Ok(association)
    }
}

impl TagHandler for Association {
    open spec fn exact() -> bool {
        true
    }

    open spec fn tag_end(s: Seq<char>, st: TokState, t: Seq<char>, level: u8) -> Result<TokState, ()> {
        if t == "RELA"@ {
            value_end(s, st)
        } else if t == "TYPE"@ {
            value_end(s, st)
        } else if t == "NOTE"@ {
            shared_end(Shared::Note, s, st, spec_child_level(level))
        } else {
            Err(())
        }
    }

    open spec fn holds(&self, s: Seq<char>, kids: Seq<(Seq<char>, TokState)>, level: u8) -> bool {
        &&& text_of(self.relationship) == last_tag_value(s, kids, "RELA"@)
        &&& text_of(self.association_type) == last_tag_value(s, kids, "TYPE"@)
        &&& (match last_tag_state(kids, "NOTE"@) {
            Some(_) => self.note is Some,
            None => self.note is None,
        })
    }

    fn handle_tag(&mut self, tag: &str, tokenizer: &mut Tokenizer, level: u8) -> (r: Result<(), GedcomError>) {
        proof {
            reveal_strlit("RELA");
            assert("RELA"@.len() == 4);
            reveal_strlit("TYPE");
            assert("TYPE"@.len() == 4);
            reveal_strlit("NOTE");
            assert("NOTE"@.len() == 4);
            assert("RELA"@[0] != "TYPE"@[0]);
            assert("RELA"@[0] != "NOTE"@[0]);
            assert("TYPE"@[0] != "NOTE"@[0]);
        }
        if str_eq(tag, "RELA") {
            self.relationship = Some(tokenizer.take_line_value()?);
        } else if str_eq(tag, "TYPE") {
            self.association_type = Some(tokenizer.take_line_value()?);
        } else if str_eq(tag, "NOTE") {
            self.note = Some(Note::new(tokenizer, child_level(level))?);
        } else {
            return Err(tag_error("Unhandled Association Tag: ", tag, tokenizer.line()));
        }
        proof {
            let kid = (tag@, old(tokenizer).state());
            assert forall|kids: Seq<(Seq<char>, TokState)>| old(self).holds(old(tokenizer).input(), kids, level)
                implies #[trigger] self.holds(old(tokenizer).input(), kids.push(kid), level) by {
                lemma_kids_push(old(tokenizer).input(), kids, kid);
            }
        }
        Ok(())
    }
}

impl Parser for Association {
    fn parse(&mut self, tokenizer: &mut Tokenizer, level: u8) -> (r: Result<(), GedcomError>) 
        ensures
            r is Ok ==> at_level_end(*final(tokenizer), level),
            r is Ok <==> subset_end::<Association>(old(tokenizer).input(), old(tokenizer).state(), level) is Ok,
            r is Ok && old(self).holds(old(tokenizer).input(), Seq::empty(), level)
                ==> final(self).holds(old(tokenizer).input(), subset_kids::<Association>(old(tokenizer).input(), old(tokenizer).state(), level), level),
    {
        let custom = parse_subset(tokenizer, level, self)?;
        self.custom_data = custom;
        Ok(())
    }
}

} // verus!
