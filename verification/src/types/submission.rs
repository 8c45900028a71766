//! Submission records (GEDCOM 5.5.1 `SUBN`).
use vstd::prelude::*;
use crate::error::GedcomError;
use crate::types::shared::{shared_end, Shared};
use crate::parser::{
    at_level_end, child_level, last_tag_state, last_tag_value, lemma_kids_push, parse_subset, record_read,
    spec_child_level, step_subset_end, step_subset_kids, tag_error, text_of, value_at, value_end, Parser, TagHandler,
};
use crate::text::str_eq;
use crate::types::date::change_date::{change_date_holds, change_date_kids};
use crate::types::note::note_read_at;
use crate::tokenizer::{TokState, Tokenizer};
use crate::types::custom::UserDefinedTag;
use crate::types::date::change_date::ChangeDate;
use crate::types::note::Note;
use crate::types::Xref;

verus! {

/// A submission record (`SUBN`): who sends the data and what ordinance
/// processing it asks for.
#[derive(Clone, Debug)]
pub struct Submission {
    pub xref: Option<Xref>,
    pub family_file_name: Option<String>,
    pub temple_code: Option<String>,
    pub submitter_ref: Option<String>,
    pub ancestor_generations: Option<String>,
    pub descendant_generations: Option<String>,
    pub ordinance_process_flag: Option<String>,
    pub automated_record_id: Option<String>,
    pub note: Option<Note>,
    pub change_date: Option<ChangeDate>,
    pub custom: Vec<Box<UserDefinedTag>>,
}

impl Default for Submission {
    fn default() -> (r: Self)
        ensures
            r.xref is None && r.family_file_name is None && r.temple_code is None,
            r.submitter_ref is None && r.ancestor_generations is None,
            r.descendant_generations is None && r.ordinance_process_flag is None,
            r.automated_record_id is None && r.note is None && r.change_date is None,
            r.custom@.len() == 0,
    {
        Submission {
            xref: None,
            family_file_name: None,
            temple_code: None,
            submitter_ref: None,
            ancestor_generations: None,
            descendant_generations: None,
            ordinance_process_flag: None,
            automated_record_id: None,
            note: None,
            change_date: None,
            custom: Vec::new(),
        }
    }
}

impl Submission {
    /// Reads a `SUBN` record at `level` whose cross-reference is `xref`.
    pub fn new(tokenizer: &mut Tokenizer, level: u8, xref: Option<Xref>) -> (r: Result<Submission, GedcomError>)
        requires
            old(tokenizer).wf(),
            old(tokenizer).token() is Tag,
        ensures
            record_read(*old(tokenizer), *final(tokenizer), r is Ok, level),
            r matches Ok(s) ==> s.xref == xref,
            r is Ok <==> step_subset_end::<Submission>(old(tokenizer).input(), old(tokenizer).state(), level) is Ok,
            r is Ok ==> step_subset_end::<Submission>(old(tokenizer).input(), old(tokenizer).state(), level) == Ok::<TokState, ()>(final(tokenizer).state()),
            r matches Ok(x) ==> x.holds(old(tokenizer).input(), step_subset_kids::<Submission>(old(tokenizer).input(), old(tokenizer).state(), level), level),
    {
        let mut subn = Submission::default();
        tokenizer.next_token()?;
        let custom = parse_subset(tokenizer, level, &mut subn)?;
        subn.custom = custom;
        subn.xref = xref;
        Ok(subn)
    }
}

impl TagHandler for Submission {
    open spec fn exact() -> bool {
        true
    }

    open spec fn tag_end(s: Seq<char>, st: TokState, t: Seq<char>, level: u8) -> Result<TokState, ()> {
        if t == "ANCE"@ {
            value_end(s, st)
        } else if t == "CHAN"@ {
            shared_end(Shared::ChangeDate, s, st, spec_child_level(level))
        } else if t == "DESC"@ {
            value_end(s, st)
        } else if t == "FAMF"@ {
            value_end(s, st)
        } else if t == "NOTE"@ {
            shared_end(Shared::Note, s, st, spec_child_level(level))
        } else if t == "ORDI"@ {
            value_end(s, st)
        } else if t == "RIN"@ {
            value_end(s, st)
        } else if t == "SUBM"@ {
            value_end(s, st)
        } else if t == "TEMP"@ {
            value_end(s, st)
        } else {
            Err(())
        }
    }

    /// The last value of each line below the submission, and the note and
    /// change date read from the last `NOTE` and `CHAN` lines.
    open spec fn holds(&self, s: Seq<char>, kids: Seq<(Seq<char>, TokState)>, level: u8) -> bool {
        let sub = spec_child_level(level);
        &&& text_of(self.ancestor_generations) == last_tag_value(s, kids, "ANCE"@)
        &&& (match last_tag_state(kids, "CHAN"@) {
            Some(st) => self.change_date matches Some(c) && change_date_holds(
                c, (ChangeDate { date: None, note: None }), s, change_date_kids(s, st, sub), sub),
            None => self.change_date is None,
        })
        &&& text_of(self.descendant_generations) == last_tag_value(s, kids, "DESC"@)
        &&& text_of(self.family_file_name) == last_tag_value(s, kids, "FAMF"@)
        &&& (match last_tag_state(kids, "NOTE"@) {
            Some(st) => self.note matches Some(n) && note_read_at(n, s, st, sub),
            None => self.note is None,
        })
        &&& text_of(self.ordinance_process_flag) == last_tag_value(s, kids, "ORDI"@)
        &&& text_of(self.automated_record_id) == last_tag_value(s, kids, "RIN"@)
        &&& text_of(self.submitter_ref) == last_tag_value(s, kids, "SUBM"@)
        &&& text_of(self.temple_code) == last_tag_value(s, kids, "TEMP"@)
    }

    #[verifier::rlimit(100)]
    #[verifier::spinoff_prover]
    fn handle_tag(&mut self, tag: &str, tokenizer: &mut Tokenizer, level: u8) -> (r: Result<(), GedcomError>) {
        let ghost s = old(tokenizer).input();
        let ghost at = old(tokenizer).state();
        let ghost prev = *self;
        let sub = child_level(level);
        if str_eq(tag, "ANCE") {
            self.ancestor_generations = Some(tokenizer.take_line_value()?);
            proof {
                lemma_submission_line(prev, *self, s, tag@, at, level);
            }
        } else if str_eq(tag, "CHAN") {
            self.change_date = Some(ChangeDate::new(tokenizer, sub)?);
            proof {
                lemma_submission_line(prev, *self, s, tag@, at, level);
            }
        } else if str_eq(tag, "DESC") {
            self.descendant_generations = Some(tokenizer.take_line_value()?);
            proof {
                lemma_submission_line(prev, *self, s, tag@, at, level);
            }
        } else if str_eq(tag, "FAMF") {
            self.family_file_name = Some(tokenizer.take_line_value()?);
            proof {
                lemma_submission_line(prev, *self, s, tag@, at, level);
            }
        } else if str_eq(tag, "NOTE") {
            self.note = Some(Note::new(tokenizer, sub)?);
            proof {
                lemma_submission_line(prev, *self, s, tag@, at, level);
            }
        } else if str_eq(tag, "ORDI") {
            self.ordinance_process_flag = Some(tokenizer.take_line_value()?);
            proof {
                lemma_submission_line(prev, *self, s, tag@, at, level);
            }
        } else if str_eq(tag, "RIN") {
            self.automated_record_id = Some(tokenizer.take_line_value()?);
            proof {
                lemma_submission_line(prev, *self, s, tag@, at, level);
            }
        } else if str_eq(tag, "SUBM") {
            self.submitter_ref = Some(tokenizer.take_line_value()?);
            proof {
                lemma_submission_line(prev, *self, s, tag@, at, level);
            }
        } else if str_eq(tag, "TEMP") {
            self.temple_code = Some(tokenizer.take_line_value()?);
            proof {
                lemma_submission_line(prev, *self, s, tag@, at, level);
            }
        } else {
            return Err(tag_error("Unhandled SubmissionRecord tag: ", tag, tokenizer.line()));

            proof {
                lemma_submission_line(prev, *self, s, tag@, at, level);
            }
        }
        Ok(())
    }
}

/// What reading the line whose tag `t` is at `at` does to a submission: the
/// field of its tag takes the line's value or what is read from it, and the
/// others stay.
spec fn submission_line_read(prev: Submission, cur: Submission, s: Seq<char>, t: Seq<char>, at: TokState, level: u8) -> bool {
    let v = value_at(s, at);
    let sub = spec_child_level(level);
    let others = |f: Submission| f.ancestor_generations == prev.ancestor_generations && f.change_date == prev.change_date && f.descendant_generations == prev.descendant_generations && f.family_file_name == prev.family_file_name && f.note == prev.note && f.ordinance_process_flag == prev.ordinance_process_flag && f.automated_record_id == prev.automated_record_id && f.submitter_ref == prev.submitter_ref && f.temple_code == prev.temple_code;
    ||| t == "ANCE"@ && others(Submission { ancestor_generations: prev.ancestor_generations, ..cur }) && (cur.ancestor_generations matches Some(x) && x@ == v)
    ||| t == "CHAN"@ && others(Submission { change_date: prev.change_date, ..cur }) && (cur.change_date matches Some(c)
        && change_date_holds(c, (ChangeDate { date: None, note: None }), s, change_date_kids(s, at, sub), sub))
    ||| t == "DESC"@ && others(Submission { descendant_generations: prev.descendant_generations, ..cur }) && (cur.descendant_generations matches Some(x) && x@ == v)
    ||| t == "FAMF"@ && others(Submission { family_file_name: prev.family_file_name, ..cur }) && (cur.family_file_name matches Some(x) && x@ == v)
    ||| t == "NOTE"@ && others(Submission { note: prev.note, ..cur }) && (cur.note matches Some(n) && note_read_at(n, s, at, sub))
    ||| t == "ORDI"@ && others(Submission { ordinance_process_flag: prev.ordinance_process_flag, ..cur }) && (cur.ordinance_process_flag matches Some(x) && x@ == v)
    ||| t == "RIN"@ && others(Submission { automated_record_id: prev.automated_record_id, ..cur }) && (cur.automated_record_id matches Some(x) && x@ == v)
    ||| t == "SUBM"@ && others(Submission { submitter_ref: prev.submitter_ref, ..cur }) && (cur.submitter_ref matches Some(x) && x@ == v)
    ||| t == "TEMP"@ && others(Submission { temple_code: prev.temple_code, ..cur }) && (cur.temple_code matches Some(x) && x@ == v)
    ||| t != "ANCE"@ && t != "CHAN"@ && t != "DESC"@ && t != "FAMF"@ && t != "NOTE"@ && t != "ORDI"@ && t != "RIN"@ && t != "SUBM"@ && t != "TEMP"@ && others(cur)
}

/// Reading one line below a submission keeps what `holds` states: the field
/// that the line's tag fills joins what the lines before gave.
#[verifier::rlimit(100)]
#[verifier::spinoff_prover]
proof fn lemma_submission_line(prev: Submission, cur: Submission, s: Seq<char>, t: Seq<char>, at: TokState, level: u8)
    requires
        submission_line_read(prev, cur, s, t, at, level),
    ensures
        forall|kids: Seq<(Seq<char>, TokState)>| prev.holds(s, kids, level)
            ==> #[trigger] cur.holds(s, kids.push((t, at)), level),
{
    reveal_strlit("ANCE");
    reveal_strlit("CHAN");
    reveal_strlit("DESC");
    reveal_strlit("FAMF");
    reveal_strlit("NOTE");
    reveal_strlit("ORDI");
    reveal_strlit("RIN");
    reveal_strlit("SUBM");
    reveal_strlit("TEMP");
    assert("ANCE"@.len() == 4 && "ANCE"@[0] == 'A' && "ANCE"@[1] == 'N');
    assert("CHAN"@.len() == 4 && "CHAN"@[0] == 'C' && "CHAN"@[1] == 'H');
    assert("DESC"@.len() == 4 && "DESC"@[0] == 'D' && "DESC"@[1] == 'E');
    assert("FAMF"@.len() == 4 && "FAMF"@[0] == 'F' && "FAMF"@[1] == 'A');
    assert("NOTE"@.len() == 4 && "NOTE"@[0] == 'N' && "NOTE"@[1] == 'O');
    assert("ORDI"@.len() == 4 && "ORDI"@[0] == 'O' && "ORDI"@[1] == 'R');
    assert("RIN"@.len() == 3 && "RIN"@[0] == 'R' && "RIN"@[1] == 'I');
    assert("SUBM"@.len() == 4 && "SUBM"@[0] == 'S' && "SUBM"@[1] == 'U');
    assert("TEMP"@.len() == 4 && "TEMP"@[0] == 'T' && "TEMP"@[1] == 'E');
    let kid = (t, at);
    assert forall|kids: Seq<(Seq<char>, TokState)>| prev.holds(s, kids, level) implies #[trigger] cur.holds(
        s,
        kids.push(kid),
        level,
    ) by {
        lemma_kids_push(s, kids, kid);
    }
}


impl Parser for Submission {
    fn parse(&mut self, tokenizer: &mut Tokenizer, level: u8) -> (r: Result<(), GedcomError>) 
        ensures
            r is Ok ==> at_level_end(*final(tokenizer), level),
            r is Ok <==> step_subset_end::<Submission>(old(tokenizer).input(), old(tokenizer).state(), level) is Ok,
            r is Ok && old(self).holds(old(tokenizer).input(), Seq::empty(), level)
                ==> final(self).holds(old(tokenizer).input(), step_subset_kids::<Submission>(old(tokenizer).input(), old(tokenizer).state(), level), level),
    {
        tokenizer.next_token()?;
        let custom = parse_subset(tokenizer, level, self)?;
        self.custom = custom;
        Ok(())
    }
}

} // verus!
