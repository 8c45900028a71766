//! Repositories: archives and libraries that hold sources.
use vstd::prelude::*;
use crate::types::shared::{shared_end, Shared};
use vstd::string::StringExecFns;
use crate::error::GedcomError;
use crate::parser::{
    value_at, at_level_end, child_level, last_tag_state, last_tag_value, lemma_kids_push, parse_subset, record_read,
    spec_child_level, step_subset_end, step_subset_kids, tag_states, tag_values, text_of, value_end, Parser, TagHandler,
};
use crate::text::{is_text, str_eq, string_views};
use crate::types::date::change_date::{change_date_holds, change_date_kids};
use crate::types::note::note_read_at;
use crate::tokenizer::{TokState, Tokenizer};
use crate::types::address::{address_end, Address};
use crate::types::custom::UserDefinedTag;
use crate::types::date::change_date::ChangeDate;
use crate::types::note::Note;
use crate::types::Xref;

pub mod citation;

verus! {

/// A repository record (`REPO`): its name, address and ways to reach it.
#[derive(Clone, Debug)]
pub struct Repository {
    pub xref: Option<Xref>,
    pub name: Option<String>,
    pub address: Option<Address>,
    pub phone: Vec<String>,
    pub email: Vec<String>,
    pub fax: Vec<String>,
    pub website: Vec<String>,
    pub notes: Vec<Note>,
    pub change_date: Option<ChangeDate>,
    pub user_reference_number: Option<String>,
    pub user_reference_type: Option<String>,
    pub automated_record_id: Option<String>,
    pub uid: Option<String>,
    pub external_ids: Vec<String>,
    pub custom_data: Vec<Box<UserDefinedTag>>,
}

impl Default for Repository {
    fn default() -> (r: Self)
        ensures
            r.xref is None && r.name is None && r.address is None,
            r.phone@.len() == 0 && r.email@.len() == 0 && r.fax@.len() == 0 && r.website@.len() == 0,
            r.notes@.len() == 0 && r.change_date is None && r.user_reference_number is None,
            r.user_reference_type is None && r.automated_record_id is None && r.uid is None,
            r.external_ids@.len() == 0 && r.custom_data@.len() == 0,
    {
        Repository {
            xref: None,
            name: None,
            address: None,
            phone: Vec::new(),
            email: Vec::new(),
            fax: Vec::new(),
            website: Vec::new(),
            notes: Vec::new(),
            change_date: None,
            user_reference_number: None,
            user_reference_type: None,
            automated_record_id: None,
            uid: None,
            external_ids: Vec::new(),
            custom_data: Vec::new(),
        }
    }
}

/// Whether a repository gives a way to reach it: an address, or a phone,
/// e-mail, fax or web site.
pub open spec fn has_contact(r: Repository) -> bool {
    r.address is Some || r.phone@.len() > 0 || r.email@.len() > 0 || r.fax@.len() > 0 || r.website@.len() > 0
}

impl Repository {
    /// Reads a `REPO` record at `level` whose cross-reference is `xref`.
    pub fn new(tokenizer: &mut Tokenizer, level: u8, xref: Option<String>) -> (r: Result<Repository, GedcomError>)
        requires
            old(tokenizer).wf(),
            old(tokenizer).token() is Tag,
        ensures
            record_read(*old(tokenizer), *final(tokenizer), r is Ok, level),
            r matches Ok(repo) ==> repo.xref == xref,
            r is Ok <==> step_subset_end::<Repository>(old(tokenizer).input(), old(tokenizer).state(), level) is Ok,
            r is Ok ==> step_subset_end::<Repository>(old(tokenizer).input(), old(tokenizer).state(), level) == Ok::<TokState, ()>(final(tokenizer).state()),
            r matches Ok(x) ==> x.holds(old(tokenizer).input(), step_subset_kids::<Repository>(old(tokenizer).input(), old(tokenizer).state(), level), level),
    {
        let mut repo = Repository::default();
        proof {
            assert(string_views(repo.phone@) =~= Seq::<Seq<char>>::empty());
            assert(string_views(repo.email@) =~= Seq::<Seq<char>>::empty());
            assert(string_views(repo.fax@) =~= Seq::<Seq<char>>::empty());
            assert(string_views(repo.website@) =~= Seq::<Seq<char>>::empty());
            assert(string_views(repo.external_ids@) =~= Seq::<Seq<char>>::empty());
        }
        tokenizer.next_token()?;
        let custom = parse_subset(tokenizer, level, &mut repo)?;
        repo.custom_data = custom;
        repo.xref = xref;
        Ok(repo)
    }

    /// A repository with the given cross-reference and name and nothing more.
    pub fn with_name(xref: &str, name: &str) -> (r: Self)
        ensures
            is_text(r.xref, xref@),
            is_text(r.name, name@),
            !has_contact(r),
    {
        let mut repo = Repository::default();
        repo.xref = Some(String::from_str(xref));
        repo.name = Some(String::from_str(name));
        repo
    }

    /// Adds a phone number.
    pub fn add_phone(&mut self, phone: String)
        ensures
            final(self).phone@ == old(self).phone@.push(phone),
            final(self).address == old(self).address && final(self).email == old(self).email,
            final(self).fax == old(self).fax && final(self).website == old(self).website,
    {
        self.phone.push(phone);
    }

    /// Adds an e-mail address.
    pub fn add_email(&mut self, email: String)
        ensures
            final(self).email@ == old(self).email@.push(email),
            final(self).address == old(self).address && final(self).phone == old(self).phone,
            final(self).fax == old(self).fax && final(self).website == old(self).website,
    {
        self.email.push(email);
    }

    /// Adds a fax number.
    pub fn add_fax(&mut self, fax: String)
        ensures
            final(self).fax@ == old(self).fax@.push(fax),
            final(self).address == old(self).address && final(self).phone == old(self).phone,
            final(self).email == old(self).email && final(self).website == old(self).website,
    {
        self.fax.push(fax);
    }

    /// Adds a web site.
    pub fn add_website(&mut self, url: String)
        ensures
            final(self).website@ == old(self).website@.push(url),
            final(self).address == old(self).address && final(self).phone == old(self).phone,
            final(self).email == old(self).email && final(self).fax == old(self).fax,
    {
        self.website.push(url);
    }

    /// Adds a note.
    pub fn add_note(&mut self, note: Note)
        ensures
            final(self).notes@ == old(self).notes@.push(note),
    {
        self.notes.push(note);
    }

    /// Whether the repository gives a way to reach it.
    pub fn has_contact_info(&self) -> (r: bool)
        ensures
            r == has_contact(*self),
    {
        self.address.is_some() || self.phone.len() > 0 || self.email.len() > 0 || self.fax.len() > 0
            || self.website.len() > 0
    }
}

impl TagHandler for Repository {
    open spec fn exact() -> bool {
        true
    }

    open spec fn tag_end(s: Seq<char>, st: TokState, t: Seq<char>, level: u8) -> Result<TokState, ()> {
        if t == "NAME"@ {
            value_end(s, st)
        } else if t == "ADDR"@ {
            address_end(s, st, spec_child_level(level))
        } else if t == "PHON"@ {
            value_end(s, st)
        } else if t == "EMAIL"@ {
            value_end(s, st)
        } else if t == "FAX"@ {
            value_end(s, st)
        } else if t == "WWW"@ {
            value_end(s, st)
        } else if t == "NOTE"@ {
            shared_end(Shared::Note, s, st, spec_child_level(level))
        } else if t == "CHAN"@ {
            shared_end(Shared::ChangeDate, s, st, spec_child_level(level))
        } else if t == "REFN"@ {
            value_end(s, st)
        } else if t == "RIN"@ {
            value_end(s, st)
        } else if t == "UID"@ {
            value_end(s, st)
        } else if t == "EXID"@ {
            value_end(s, st)
        } else {
            value_end(s, st)
        }
    }

    /// The last name, address, change date, reference number, record id and
    /// uid given; every phone number, email address, fax number, web site and
    /// external id, in order; and one note read from each `NOTE` line.
    open spec fn holds(&self, s: Seq<char>, kids: Seq<(Seq<char>, TokState)>, level: u8) -> bool {
        let sub = spec_child_level(level);
        let notes = tag_states(kids, "NOTE"@);
        &&& text_of(self.name) == last_tag_value(s, kids, "NAME"@)
        &&& (self.address is Some <==> last_tag_state(kids, "ADDR"@) is Some)
        &&& string_views(self.phone@) == tag_values(s, kids, "PHON"@)
        &&& string_views(self.email@) == tag_values(s, kids, "EMAIL"@)
        &&& string_views(self.fax@) == tag_values(s, kids, "FAX"@)
        &&& string_views(self.website@) == tag_values(s, kids, "WWW"@)
        &&& self.notes@.len() == notes.len()
        &&& forall|j: int| 0 <= j < notes.len() ==> note_read_at(#[trigger] self.notes@[j], s, notes[j], sub)
        &&& (match last_tag_state(kids, "CHAN"@) {
            Some(st) => self.change_date matches Some(c) && change_date_holds(
                c, (ChangeDate { date: None, note: None }), s, change_date_kids(s, st, sub), sub),
            None => self.change_date is None,
        })
        &&& text_of(self.user_reference_number) == last_tag_value(s, kids, "REFN"@)
        &&& text_of(self.automated_record_id) == last_tag_value(s, kids, "RIN"@)
        &&& text_of(self.uid) == last_tag_value(s, kids, "UID"@)
        &&& string_views(self.external_ids@) == tag_values(s, kids, "EXID"@)
    }

    #[verifier::rlimit(60)]
    fn handle_tag(&mut self, tag: &str, tokenizer: &mut Tokenizer, level: u8) -> (r: Result<(), GedcomError>) {
        let sub = child_level(level);
        let ghost s = old(tokenizer).input();
        let ghost at = old(tokenizer).state();
        let ghost prev = *self;
        if str_eq(tag, "NAME") {
            self.name = Some(tokenizer.take_line_value()?);
        } else if str_eq(tag, "ADDR") {
            self.address = Some(Address::new(tokenizer, sub)?);
        } else if str_eq(tag, "PHON") {
            let v = tokenizer.take_line_value()?;
            self.phone.push(v);
            assert(string_views(self.phone@) =~= string_views(prev.phone@).push(v@));
        } else if str_eq(tag, "EMAIL") {
            let v = tokenizer.take_line_value()?;
            self.email.push(v);
            assert(string_views(self.email@) =~= string_views(prev.email@).push(v@));
        } else if str_eq(tag, "FAX") {
            let v = tokenizer.take_line_value()?;
            self.fax.push(v);
            assert(string_views(self.fax@) =~= string_views(prev.fax@).push(v@));
        } else if str_eq(tag, "WWW") {
            let v = tokenizer.take_line_value()?;
            self.website.push(v);
            assert(string_views(self.website@) =~= string_views(prev.website@).push(v@));
        } else if str_eq(tag, "NOTE") {
            let n = Note::new(tokenizer, sub)?;
            self.notes.push(n);
            assert(self.notes@.drop_last() =~= prev.notes@);
        } else if str_eq(tag, "CHAN") {
            self.change_date = Some(ChangeDate::new(tokenizer, sub)?);
        } else if str_eq(tag, "REFN") {
            self.user_reference_number = Some(tokenizer.take_line_value()?);
        } else if str_eq(tag, "RIN") {
            self.automated_record_id = Some(tokenizer.take_line_value()?);
        } else if str_eq(tag, "UID") {
            self.uid = Some(tokenizer.take_line_value()?);
        } else if str_eq(tag, "EXID") {
            let v = tokenizer.take_line_value()?;
            self.external_ids.push(v);
            assert(string_views(self.external_ids@) =~= string_views(prev.external_ids@).push(v@));
        } else {
            // other tags are passed over with their values
            tokenizer.take_line_value()?;
        }
        proof {
            assert(repository_line_read(prev, *self, s, tag@, at, level));
            lemma_repository_line(prev, *self, s, tag@, at, level);
        }
        Ok(())
    }
}

/// Reading one line below a repository keeps what `holds` states: each
/// field that the line's tag fills joins what the lines before gave.
#[verifier::rlimit(100)]
#[verifier::spinoff_prover]
proof fn lemma_repository_line(prev: Repository, cur: Repository, s: Seq<char>, t: Seq<char>, at: TokState, level: u8)
    requires
        repository_line_read(prev, cur, s, t, at, level),
    ensures
        forall|kids: Seq<(Seq<char>, TokState)>| prev.holds(s, kids, level)
            ==> #[trigger] cur.holds(s, kids.push((t, at)), level),
{
    reveal_strlit("NAME");
    reveal_strlit("ADDR");
    reveal_strlit("PHON");
    reveal_strlit("EMAIL");
    reveal_strlit("FAX");
    reveal_strlit("WWW");
    reveal_strlit("NOTE");
    reveal_strlit("CHAN");
    reveal_strlit("REFN");
    reveal_strlit("RIN");
    reveal_strlit("UID");
    reveal_strlit("EXID");
    assert("NAME"@.len() == 4 && "ADDR"@.len() == 4 && "PHON"@.len() == 4 && "NOTE"@.len() == 4);
    assert("CHAN"@.len() == 4 && "REFN"@.len() == 4 && "EXID"@.len() == 4 && "EMAIL"@.len() == 5);
    assert("FAX"@.len() == 3 && "WWW"@.len() == 3 && "RIN"@.len() == 3 && "UID"@.len() == 3);
    assert("NAME"@[0] == 'N' && "ADDR"@[0] == 'A' && "PHON"@[0] == 'P' && "NOTE"@[0] == 'N');
    assert("CHAN"@[0] == 'C' && "REFN"@[0] == 'R' && "EXID"@[0] == 'E' && "NAME"@[1] == 'A' && "NOTE"@[1] == 'O');
    assert("FAX"@[0] == 'F' && "WWW"@[0] == 'W' && "RIN"@[0] == 'R' && "UID"@[0] == 'U');
    let kid = (t, at);
    assert forall|kids: Seq<(Seq<char>, TokState)>| prev.holds(s, kids, level) implies #[trigger] cur.holds(
        s,
        kids.push(kid),
        level,
    ) by {
        lemma_kids_push(s, kids, kid);
        let sub = spec_child_level(level);
        let n0 = tag_states(kids, "NOTE"@);
        let n1 = tag_states(kids.push(kid), "NOTE"@);
        if t == "NOTE"@ {
            assert forall|j: int| 0 <= j < n1.len() implies note_read_at(#[trigger] cur.notes@[j], s, n1[j], sub) by {
                if j < n0.len() {
                    assert(cur.notes@[j] == prev.notes@[j]);
                }
            }
        }
    }
}

/// What reading the line whose tag `t` is at `at` does to a repository: the
/// field of its tag takes the line's value or what is read from it, and the
/// others stay.
spec fn repository_line_read(prev: Repository, cur: Repository, s: Seq<char>, t: Seq<char>, at: TokState, level: u8) -> bool {
    let v = value_at(s, at);
    let sub = spec_child_level(level);
    let others = |f: Repository| f.name == prev.name && f.address == prev.address && f.phone == prev.phone
        && f.email == prev.email && f.fax == prev.fax && f.website == prev.website && f.notes == prev.notes
        && f.change_date == prev.change_date && f.user_reference_number == prev.user_reference_number
        && f.automated_record_id == prev.automated_record_id && f.uid == prev.uid && f.external_ids == prev.external_ids;
    ||| t == "NAME"@ && others(Repository { name: prev.name, ..cur }) && (cur.name matches Some(x) && x@ == v)
    ||| t == "ADDR"@ && others(Repository { address: prev.address, ..cur }) && cur.address is Some
    ||| t == "PHON"@ && others(Repository { phone: prev.phone, ..cur }) && string_views(cur.phone@) == string_views(prev.phone@).push(v)
    ||| t == "EMAIL"@ && others(Repository { email: prev.email, ..cur }) && string_views(cur.email@) == string_views(prev.email@).push(v)
    ||| t == "FAX"@ && others(Repository { fax: prev.fax, ..cur }) && string_views(cur.fax@) == string_views(prev.fax@).push(v)
    ||| t == "WWW"@ && others(Repository { website: prev.website, ..cur }) && string_views(cur.website@) == string_views(prev.website@).push(v)
    ||| t == "NOTE"@ && others(Repository { notes: prev.notes, ..cur }) && cur.notes@.len() == prev.notes@.len() + 1
        && cur.notes@.drop_last() == prev.notes@ && note_read_at(cur.notes@.last(), s, at, sub)
    ||| t == "CHAN"@ && others(Repository { change_date: prev.change_date, ..cur }) && (cur.change_date matches Some(c)
        && change_date_holds(c, (ChangeDate { date: None, note: None }), s, change_date_kids(s, at, sub), sub))
    ||| t == "REFN"@ && others(Repository { user_reference_number: prev.user_reference_number, ..cur })
        && (cur.user_reference_number matches Some(x) && x@ == v)
    ||| t == "RIN"@ && others(Repository { automated_record_id: prev.automated_record_id, ..cur })
        && (cur.automated_record_id matches Some(x) && x@ == v)
    ||| t == "UID"@ && others(Repository { uid: prev.uid, ..cur }) && (cur.uid matches Some(x) && x@ == v)
    ||| t == "EXID"@ && others(Repository { external_ids: prev.external_ids, ..cur })
        && string_views(cur.external_ids@) == string_views(prev.external_ids@).push(v)
    ||| t != "NAME"@ && t != "ADDR"@ && t != "PHON"@ && t != "EMAIL"@ && t != "FAX"@ && t != "WWW"@ && t != "NOTE"@
        && t != "CHAN"@ && t != "REFN"@ && t != "RIN"@ && t != "UID"@ && t != "EXID"@ && others(cur)
}

impl Parser for Repository {
    fn parse(&mut self, tokenizer: &mut Tokenizer, level: u8) -> (r: Result<(), GedcomError>) 
        ensures
            r is Ok ==> at_level_end(*final(tokenizer), level),
            r is Ok <==> step_subset_end::<Repository>(old(tokenizer).input(), old(tokenizer).state(), level) is Ok,
            r is Ok && old(self).holds(old(tokenizer).input(), Seq::empty(), level)
                ==> final(self).holds(old(tokenizer).input(), step_subset_kids::<Repository>(old(tokenizer).input(), old(tokenizer).state(), level), level),
    {
        tokenizer.next_token()?;
        let custom = parse_subset(tokenizer, level, self)?;
        self.custom_data = custom;
        Ok(())
    }
}

} // verus!
