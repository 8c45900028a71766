//! Submitter records: who contributed the data.
use vstd::prelude::*;
use crate::error::GedcomError;
use crate::types::shared::{shared_end, Shared};
use crate::parser::{
    at_level_end, child_level, last_tag_state, last_tag_value, lemma_kids_push, parse_subset, record_read,
    spec_child_level, step_subset_end, step_subset_kids, tag_states, tag_values, text_of, value_at, value_end, Parser,
    TagHandler,
};
use crate::text::{str_eq, string_views};
use crate::types::date::change_date::{change_date_holds, change_date_kids};
use crate::types::note::note_read_at;
use crate::tokenizer::{TokState, Tokenizer};
use crate::types::address::{address_end, Address};
use crate::types::custom::UserDefinedTag;
use crate::types::date::change_date::ChangeDate;
use crate::types::multimedia::link::Link;
use crate::types::note::Note;
use crate::types::Xref;

verus! {

/// A submitter record (`SUBM`): a person or organization that contributed
/// data, and how to reach them.
#[derive(Clone, Debug)]
pub struct Submitter {
    pub xref: Option<Xref>,
    pub name: Option<String>,
    pub address: Option<Address>,
    pub multimedia: Vec<Link>,
    pub language: Option<String>,
    pub registered_refn: Option<String>,
    pub automated_record_id: Option<String>,
    pub change_date: Option<ChangeDate>,
    pub note: Option<Note>,
    pub phone: Vec<String>,
    pub email: Vec<String>,
    pub fax: Vec<String>,
    pub website: Vec<String>,
    pub uid: Option<String>,
    pub user_reference_number: Option<String>,
    pub custom_data: Vec<Box<UserDefinedTag>>,
}

impl Default for Submitter {
    fn default() -> (r: Self)
        ensures
            r.xref is None && r.name is None && r.address is None && r.multimedia@.len() == 0,
            r.language is None && r.registered_refn is None && r.automated_record_id is None,
            r.change_date is None && r.note is None && r.phone@.len() == 0 && r.email@.len() == 0,
            r.fax@.len() == 0 && r.website@.len() == 0 && r.uid is None,
            r.user_reference_number is None && r.custom_data@.len() == 0,
    {
        Submitter {
            xref: None,
            name: None,
            address: None,
            multimedia: Vec::new(),
            language: None,
            registered_refn: None,
            automated_record_id: None,
            change_date: None,
            note: None,
            phone: Vec::new(),
            email: Vec::new(),
            fax: Vec::new(),
            website: Vec::new(),
            uid: None,
            user_reference_number: None,
            custom_data: Vec::new(),
        }
    }
}

impl Submitter {
    /// Reads a `SUBM` record at `level` whose cross-reference is `xref`.
    pub fn new(tokenizer: &mut Tokenizer, level: u8, xref: Option<Xref>) -> (r: Result<Submitter, GedcomError>)
        requires
            old(tokenizer).wf(),
            old(tokenizer).token() is Tag,
        ensures
            record_read(*old(tokenizer), *final(tokenizer), r is Ok, level),
            r matches Ok(s) ==> s.xref == xref,
            r is Ok <==> step_subset_end::<Submitter>(old(tokenizer).input(), old(tokenizer).state(), level) is Ok,
            r is Ok ==> step_subset_end::<Submitter>(old(tokenizer).input(), old(tokenizer).state(), level) == Ok::<TokState, ()>(final(tokenizer).state()),
            r matches Ok(x) ==> x.holds(old(tokenizer).input(), step_subset_kids::<Submitter>(old(tokenizer).input(), old(tokenizer).state(), level), level),
    {
        let mut subm = Submitter::default();
        proof {
            assert(string_views(subm.phone@) =~= Seq::<Seq<char>>::empty());
            assert(string_views(subm.email@) =~= Seq::<Seq<char>>::empty());
            assert(string_views(subm.fax@) =~= Seq::<Seq<char>>::empty());
            assert(string_views(subm.website@) =~= Seq::<Seq<char>>::empty());
        }
        tokenizer.next_token()?;
        let custom = parse_subset(tokenizer, level, &mut subm)?;
        subm.custom_data = custom;
        subm.xref = xref;
        Ok(subm)
    }

    /// Adds a multimedia link.
    pub fn add_multimedia(&mut self, multimedia: Link)
        ensures
            final(self).multimedia@ == old(self).multimedia@.push(multimedia),
            *final(self) == (Submitter { multimedia: final(self).multimedia, ..*old(self) }),
    {
        self.multimedia.push(multimedia);
    }
}

impl TagHandler for Submitter {
    open spec fn exact() -> bool {
        true
    }

    open spec fn tag_end(s: Seq<char>, st: TokState, t: Seq<char>, level: u8) -> Result<TokState, ()> {
        if t == "NAME"@ {
            value_end(s, st)
        } else if t == "ADDR"@ {
            address_end(s, st, spec_child_level(level))
        } else if t == "OBJE"@ {
            step_subset_end::<Link>(s, st, spec_child_level(level))
        } else if t == "LANG"@ {
            value_end(s, st)
        } else if t == "NOTE"@ {
            shared_end(Shared::Note, s, st, spec_child_level(level))
        } else if t == "CHAN"@ {
            shared_end(Shared::ChangeDate, s, st, spec_child_level(level))
        } else if t == "PHON"@ {
            value_end(s, st)
        } else if t == "EMAIL"@ {
            value_end(s, st)
        } else if t == "FAX"@ {
            value_end(s, st)
        } else if t == "WWW"@ {
            value_end(s, st)
        } else if t == "UID"@ {
            value_end(s, st)
        } else if t == "RIN"@ {
            value_end(s, st)
        } else if t == "RFN"@ {
            value_end(s, st)
        } else if t == "REFN"@ {
            value_end(s, st)
        } else {
            value_end(s, st)
        }
    }

    /// The last name, address, language, note, change date, uid, record id and
    /// reference numbers given; every phone number, email address, fax number and
    /// web site, in order; and one multimedia link for each `OBJE` line.
    open spec fn holds(&self, s: Seq<char>, kids: Seq<(Seq<char>, TokState)>, level: u8) -> bool {
        let sub = spec_child_level(level);
        &&& text_of(self.name) == last_tag_value(s, kids, "NAME"@)
        &&& (self.address is Some <==> last_tag_state(kids, "ADDR"@) is Some)
        &&& self.multimedia@.len() == tag_states(kids, "OBJE"@).len()
        &&& text_of(self.language) == last_tag_value(s, kids, "LANG"@)
        &&& (match last_tag_state(kids, "NOTE"@) {
            Some(st) => self.note matches Some(n) && note_read_at(n, s, st, sub),
            None => self.note is None,
        })
        &&& (match last_tag_state(kids, "CHAN"@) {
            Some(st) => self.change_date matches Some(c) && change_date_holds(
                c, (ChangeDate { date: None, note: None }), s, change_date_kids(s, st, sub), sub),
            None => self.change_date is None,
        })
        &&& string_views(self.phone@) == tag_values(s, kids, "PHON"@)
        &&& string_views(self.email@) == tag_values(s, kids, "EMAIL"@)
        &&& string_views(self.fax@) == tag_values(s, kids, "FAX"@)
        &&& string_views(self.website@) == tag_values(s, kids, "WWW"@)
        &&& text_of(self.uid) == last_tag_value(s, kids, "UID"@)
        &&& text_of(self.automated_record_id) == last_tag_value(s, kids, "RIN"@)
        &&& text_of(self.registered_refn) == last_tag_value(s, kids, "RFN"@)
        &&& text_of(self.user_reference_number) == last_tag_value(s, kids, "REFN"@)
    }

    #[verifier::rlimit(100)]
    #[verifier::spinoff_prover]
    fn handle_tag(&mut self, tag: &str, tokenizer: &mut Tokenizer, level: u8) -> (r: Result<(), GedcomError>) {
        let ghost s = old(tokenizer).input();
        let ghost at = old(tokenizer).state();
        let ghost prev = *self;
        let sub = child_level(level);
        if str_eq(tag, "NAME") {
            self.name = Some(tokenizer.take_line_value()?);
            proof {
                lemma_submitter_line(prev, *self, s, tag@, at, level);
            }
        } else if str_eq(tag, "ADDR") {
            self.address = Some(Address::new(tokenizer, sub)?);
            proof {
                lemma_submitter_line(prev, *self, s, tag@, at, level);
            }
        } else if str_eq(tag, "OBJE") {
            let l = Link::new(tokenizer, sub, None)?;
            self.add_multimedia(l);
            proof {
                lemma_submitter_line(prev, *self, s, tag@, at, level);
            }
        } else if str_eq(tag, "LANG") {
            self.language = Some(tokenizer.take_line_value()?);
            proof {
                lemma_submitter_line(prev, *self, s, tag@, at, level);
            }
        } else if str_eq(tag, "NOTE") {
            self.note = Some(Note::new(tokenizer, sub)?);
            proof {
                lemma_submitter_line(prev, *self, s, tag@, at, level);
            }
        } else if str_eq(tag, "CHAN") {
            self.change_date = Some(ChangeDate::new(tokenizer, sub)?);
            proof {
                lemma_submitter_line(prev, *self, s, tag@, at, level);
            }
        } else if str_eq(tag, "PHON") {
            let v = tokenizer.take_line_value()?;
            self.phone.push(v);
            assert(string_views(self.phone@) =~= string_views(prev.phone@).push(v@));
            proof {
                lemma_submitter_line(prev, *self, s, tag@, at, level);
            }
        } else if str_eq(tag, "EMAIL") {
            let v = tokenizer.take_line_value()?;
            self.email.push(v);
            assert(string_views(self.email@) =~= string_views(prev.email@).push(v@));
            proof {
                lemma_submitter_line(prev, *self, s, tag@, at, level);
            }
        } else if str_eq(tag, "FAX") {
            let v = tokenizer.take_line_value()?;
            self.fax.push(v);
            assert(string_views(self.fax@) =~= string_views(prev.fax@).push(v@));
            proof {
                lemma_submitter_line(prev, *self, s, tag@, at, level);
            }
        } else if str_eq(tag, "WWW") {
            let v = tokenizer.take_line_value()?;
            self.website.push(v);
            assert(string_views(self.website@) =~= string_views(prev.website@).push(v@));
            proof {
                lemma_submitter_line(prev, *self, s, tag@, at, level);
            }
        } else if str_eq(tag, "UID") {
            self.uid = Some(tokenizer.take_line_value()?);
            proof {
                lemma_submitter_line(prev, *self, s, tag@, at, level);
            }
        } else if str_eq(tag, "RIN") {
            self.automated_record_id = Some(tokenizer.take_line_value()?);
            proof {
                lemma_submitter_line(prev, *self, s, tag@, at, level);
            }
        } else if str_eq(tag, "RFN") {
            self.registered_refn = Some(tokenizer.take_line_value()?);
            proof {
                lemma_submitter_line(prev, *self, s, tag@, at, level);
            }
        } else if str_eq(tag, "REFN") {
            self.user_reference_number = Some(tokenizer.take_line_value()?);
            proof {
                lemma_submitter_line(prev, *self, s, tag@, at, level);
            }
        } else {
            // other tags are passed over with their values
            tokenizer.take_line_value()?;

            proof {
                lemma_submitter_line(prev, *self, s, tag@, at, level);
            }
        }
        Ok(())
    }
}

/// What reading the line whose tag `t` is at `at` does to a submitter: the
/// field of its tag takes the line's value or what is read from it, and the
/// others stay.
spec fn submitter_line_read(prev: Submitter, cur: Submitter, s: Seq<char>, t: Seq<char>, at: TokState, level: u8) -> bool {
    let v = value_at(s, at);
    let sub = spec_child_level(level);
    let others = |f: Submitter| f.name == prev.name && f.address == prev.address && f.multimedia == prev.multimedia && f.language == prev.language && f.note == prev.note && f.change_date == prev.change_date && f.phone == prev.phone && f.email == prev.email && f.fax == prev.fax && f.website == prev.website && f.uid == prev.uid && f.automated_record_id == prev.automated_record_id && f.registered_refn == prev.registered_refn && f.user_reference_number == prev.user_reference_number;
    ||| t == "NAME"@ && others(Submitter { name: prev.name, ..cur }) && (cur.name matches Some(x) && x@ == v)
    ||| t == "ADDR"@ && others(Submitter { address: prev.address, ..cur }) && cur.address is Some
    ||| t == "OBJE"@ && others(Submitter { multimedia: prev.multimedia, ..cur }) && cur.multimedia@.len() == prev.multimedia@.len() + 1
    ||| t == "LANG"@ && others(Submitter { language: prev.language, ..cur }) && (cur.language matches Some(x) && x@ == v)
    ||| t == "NOTE"@ && others(Submitter { note: prev.note, ..cur }) && (cur.note matches Some(n) && note_read_at(n, s, at, sub))
    ||| t == "CHAN"@ && others(Submitter { change_date: prev.change_date, ..cur }) && (cur.change_date matches Some(c)
        && change_date_holds(c, (ChangeDate { date: None, note: None }), s, change_date_kids(s, at, sub), sub))
    ||| t == "PHON"@ && others(Submitter { phone: prev.phone, ..cur }) && string_views(cur.phone@) == string_views(prev.phone@).push(v)
    ||| t == "EMAIL"@ && others(Submitter { email: prev.email, ..cur }) && string_views(cur.email@) == string_views(prev.email@).push(v)
    ||| t == "FAX"@ && others(Submitter { fax: prev.fax, ..cur }) && string_views(cur.fax@) == string_views(prev.fax@).push(v)
    ||| t == "WWW"@ && others(Submitter { website: prev.website, ..cur }) && string_views(cur.website@) == string_views(prev.website@).push(v)
    ||| t == "UID"@ && others(Submitter { uid: prev.uid, ..cur }) && (cur.uid matches Some(x) && x@ == v)
    ||| t == "RIN"@ && others(Submitter { automated_record_id: prev.automated_record_id, ..cur }) && (cur.automated_record_id matches Some(x) && x@ == v)
    ||| t == "RFN"@ && others(Submitter { registered_refn: prev.registered_refn, ..cur }) && (cur.registered_refn matches Some(x) && x@ == v)
    ||| t == "REFN"@ && others(Submitter { user_reference_number: prev.user_reference_number, ..cur }) && (cur.user_reference_number matches Some(x) && x@ == v)
    ||| t != "NAME"@ && t != "ADDR"@ && t != "OBJE"@ && t != "LANG"@ && t != "NOTE"@ && t != "CHAN"@ && t != "PHON"@ && t != "EMAIL"@ && t != "FAX"@ && t != "WWW"@ && t != "UID"@ && t != "RIN"@ && t != "RFN"@ && t != "REFN"@ && others(cur)
}

/// Reading one line below a submitter keeps what `holds` states: the field
/// that the line's tag fills joins what the lines before gave.
#[verifier::rlimit(100)]
#[verifier::spinoff_prover]
proof fn lemma_submitter_line(prev: Submitter, cur: Submitter, s: Seq<char>, t: Seq<char>, at: TokState, level: u8)
    requires
        submitter_line_read(prev, cur, s, t, at, level),
    ensures
        forall|kids: Seq<(Seq<char>, TokState)>| prev.holds(s, kids, level)
            ==> #[trigger] cur.holds(s, kids.push((t, at)), level),
{
    reveal_strlit("NAME");
    reveal_strlit("ADDR");
    reveal_strlit("OBJE");
    reveal_strlit("LANG");
    reveal_strlit("NOTE");
    reveal_strlit("CHAN");
    reveal_strlit("PHON");
    reveal_strlit("EMAIL");
    reveal_strlit("FAX");
    reveal_strlit("WWW");
    reveal_strlit("UID");
    reveal_strlit("RIN");
    reveal_strlit("RFN");
    reveal_strlit("REFN");
    assert("NAME"@.len() == 4 && "NAME"@[0] == 'N' && "NAME"@[1] == 'A');
    assert("ADDR"@.len() == 4 && "ADDR"@[0] == 'A' && "ADDR"@[1] == 'D');
    assert("OBJE"@.len() == 4 && "OBJE"@[0] == 'O' && "OBJE"@[1] == 'B');
    assert("LANG"@.len() == 4 && "LANG"@[0] == 'L' && "LANG"@[1] == 'A');
    assert("NOTE"@.len() == 4 && "NOTE"@[0] == 'N' && "NOTE"@[1] == 'O');
    assert("CHAN"@.len() == 4 && "CHAN"@[0] == 'C' && "CHAN"@[1] == 'H');
    assert("PHON"@.len() == 4 && "PHON"@[0] == 'P' && "PHON"@[1] == 'H');
    assert("EMAIL"@.len() == 5 && "EMAIL"@[0] == 'E' && "EMAIL"@[1] == 'M');
    assert("FAX"@.len() == 3 && "FAX"@[0] == 'F' && "FAX"@[1] == 'A');
    assert("WWW"@.len() == 3 && "WWW"@[0] == 'W' && "WWW"@[1] == 'W');
    assert("UID"@.len() == 3 && "UID"@[0] == 'U' && "UID"@[1] == 'I');
    assert("RIN"@.len() == 3 && "RIN"@[0] == 'R' && "RIN"@[1] == 'I');
    assert("RFN"@.len() == 3 && "RFN"@[0] == 'R' && "RFN"@[1] == 'F');
    assert("REFN"@.len() == 4 && "REFN"@[0] == 'R' && "REFN"@[1] == 'E');
    let kid = (t, at);
    assert forall|kids: Seq<(Seq<char>, TokState)>| prev.holds(s, kids, level) implies #[trigger] cur.holds(
        s,
        kids.push(kid),
        level,
    ) by {
        lemma_kids_push(s, kids, kid);
    }
}


impl Parser for Submitter {
    fn parse(&mut self, tokenizer: &mut Tokenizer, level: u8) -> (r: Result<(), GedcomError>) 
        ensures
            r is Ok ==> at_level_end(*final(tokenizer), level),
            r is Ok <==> step_subset_end::<Submitter>(old(tokenizer).input(), old(tokenizer).state(), level) is Ok,
            r is Ok && old(self).holds(old(tokenizer).input(), Seq::empty(), level)
                ==> final(self).holds(old(tokenizer).input(), step_subset_kids::<Submitter>(old(tokenizer).input(), old(tokenizer).state(), level), level),
    {
        tokenizer.next_token()?;
        let custom = parse_subset(tokenizer, level, self)?;
        self.custom_data = custom;
        Ok(())
    }
}

} // verus!
