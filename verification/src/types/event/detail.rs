//! The details of an event.
use vstd::prelude::*;
use crate::parser::FlatHandler;
use crate::parser::{flat_children, fold_values};
use crate::tokenizer::take_value;
use crate::parser::last_tag_state;
use crate::parser::last_tag_value;
use crate::parser::lemma_kids_push;
use crate::parser::tag_states;
use crate::parser::text_of;
use crate::parser::subset_kids;
use crate::types::date::date_fields_at;
use crate::parser::continued_text_at;
use crate::parser::value_at;
use crate::parser::value_subset_kids;
use crate::types::note::note_read_at;
use crate::types::multimedia::{bare_multimedia, multimedia_holds, multimedia_kids};
use crate::types::address::after_tag_value;
use crate::types::shared::{shared_end, Shared};
use vstd::string::StringExecFns;
use crate::error::GedcomError;
use crate::parser::{advanced, after_value_subset_end, at_level_end, child_level, continued_end, ends_within, kept_value, line_value, parse_subset, same_text, spec_child_level, step_subset_end, subset_end, value_end, value_flat_end, value_subset_end, Parser, TagHandler};
use crate::text::str_eq;
use crate::tokenizer::{level_end, step, Token, Tokenizer, TokState};
use crate::types::date::Date;
use crate::types::event::family::FamilyEventDetail;
use crate::types::event::{event_of_tag, Event};
use crate::types::gedcom7::SortDate;
use crate::types::individual::association::Association;
use crate::types::individual::family_link::FamilyLink;
use crate::types::multimedia::Multimedia;
use crate::types::note::Note;
use crate::types::place::Place;
use crate::types::source::citation::Citation;

verus! {

/// An event: its kind, its value, when and where it happened, and what
/// describes it.
#[derive(Debug)]
pub struct Detail {
    pub event: Event,
    pub value: Option<String>,
    pub date: Option<Date>,
    pub place: Option<Place>,
    pub note: Option<Note>,
    pub family_link: Option<FamilyLink>,
    pub family_event_details: Vec<FamilyEventDetail>,
    pub event_type: Option<String>,
    pub citations: Vec<Citation>,
    pub multimedia: Vec<Multimedia>,
    pub sort_date: Option<SortDate>,
    pub associations: Vec<Association>,
    pub cause: Option<String>,
    pub restriction: Option<String>,
    pub age: Option<String>,
    pub agency: Option<String>,
    pub religion: Option<String>,
}

/// Where [`Detail::new`] begins reading the lines below an event from `st`:
/// past the current token and past a value that follows it.
pub open spec fn detail_start(s: Seq<char>, st: TokState) -> Result<TokState, ()> {
    if st.token is EOF {
        Err(())
    } else {
        match step(s, st) {
            Ok(st1) => if st1.token is LineValue {
                step(s, st1)
            } else {
                Ok(st1)
            },
            Err(_) => Err(()),
        }
    }
}

/// The name of an event's place, where it has a place with a name.
pub open spec fn place_name(place: Option<Place>) -> Option<String> {
    match place {
        Some(p) => p.value,
        None => None,
    }
}

/// `copy` has the value, the date and the place name of `orig`, and a place
/// where `orig` has one.
pub open spec fn keeps_when_where(copy: Detail, orig: Detail) -> bool {
    &&& copy.value == orig.value
    &&& copy.date == orig.date
    &&& (copy.place is Some <==> orig.place is Some)
    &&& place_name(copy.place) == place_name(orig.place)
}

impl Clone for Detail {
    fn clone(&self) -> (r: Self)
        ensures
            keeps_when_where(r, *self),
    {
        Detail {
            event: self.event.clone(),
            value: self.value.clone(),
            date: self.date.clone(),
            place: self.place.clone(),
            note: self.note.clone(),
            family_link: self.family_link.clone(),
            family_event_details: self.family_event_details.clone(),
            event_type: self.event_type.clone(),
            citations: self.citations.clone(),
            multimedia: self.multimedia.clone(),
            sort_date: self.sort_date.clone(),
            associations: self.associations.clone(),
            cause: self.cause.clone(),
            restriction: self.restriction.clone(),
            age: self.age.clone(),
            agency: self.agency.clone(),
            religion: self.religion.clone(),
        }
    }
}

impl Detail {
    /// Reads an event structure at `level` whose tag is `tag`, one of the
    /// tags of events. The current token (the tag) is passed over first.
    pub fn new(tokenizer: &mut Tokenizer, level: u8, tag: &str) -> (r: Result<Detail, GedcomError>)
        requires
            old(tokenizer).wf(),
            event_of_tag(tag@) is Some,
        ensures
            same_text(*old(tokenizer), *final(tokenizer)),
            r is Ok ==> advanced(*old(tokenizer), *final(tokenizer)) && at_level_end(*final(tokenizer), level),
            r is Ok && old(tokenizer).token() is Tag ==> ends_within(*old(tokenizer), *final(tokenizer), level),
            r is Ok ==> (detail_start(old(tokenizer).input(), old(tokenizer).state()) matches Ok(st)
                && final(tokenizer).state() == level_end(old(tokenizer).input(), st, level)),
            r matches Ok(d) ==> Some(d.event) == event_of_tag(tag@),
            r matches Ok(d) ==> kept_value(d.value, line_value(*old(tokenizer))),
            r is Ok <==> detail_end(old(tokenizer).input(), old(tokenizer).state(), level) is Ok,
            r is Ok ==> detail_end(old(tokenizer).input(), old(tokenizer).state(), level) == Ok::<TokState, ()>(final(tokenizer).state()),
            r matches Ok(d) ==> d.holds(old(tokenizer).input(), detail_kids(old(tokenizer).input(), old(tokenizer).state(), level), level),
    {
        let mut detail = Detail {
            event: Self::from_tag(tag),
            value: None,
            date: None,
            place: None,
            note: None,
            family_link: None,
            family_event_details: Vec::new(),
            event_type: None,
            citations: Vec::new(),
            multimedia: Vec::new(),
            sort_date: None,
            associations: Vec::new(),
            cause: None,
            restriction: None,
            age: None,
            agency: None,
            religion: None,
        };
        if let Token::EOF = tokenizer.current_token() {
            return Err(GedcomError::ParseError { line: tokenizer.line(), message: String::from_str("Unhandled Token") });
        }
        tokenizer.next_token()?;
        let mut value = String::new();
        if let Token::LineValue(v) = tokenizer.current_token() {
            value.append(v.as_str());
            tokenizer.next_token()?;
        }
        let ghost start = tokenizer.state();
        proof {
            lemma_detail_contents_empty(detail, tokenizer.input(), level);
        }
        parse_subset(tokenizer, level, &mut detail)?;
        let ghost read = detail;
        proof {
            let s = tokenizer.input();
            assert(level_end(s, start, level) == level_end(s, tokenizer.state(), level));
        }
        detail.event = Self::from_tag(tag);
        if value.as_str().is_empty() {
            detail.value = None;
        } else {
            detail.value = Some(value);
        }
        proof {
            lemma_detail_contents_frame(read, detail);
        }
        Ok(detail)
    }

    /// Makes this the data of a source, whose text is `value`.
    pub fn with_source_data(&mut self, value: String)
        ensures
            final(self).event == Event::SourceData(value),
            final(self).value == old(self).value,
            final(self).date == old(self).date,
    {
        self.event = Event::SourceData(value);
    }

    /// The kind of event that `tag` names, one of the tags of events.
    pub fn from_tag(tag: &str) -> (r: Event)
        requires
            event_of_tag(tag@) is Some,
        ensures
            Some(r) == event_of_tag(tag@),
    {
        if str_eq(tag, "ADOP") {
            Event::Adoption
        } else if str_eq(tag, "ANUL") {
            Event::Annulment
        } else if str_eq(tag, "BAPM") {
            Event::Baptism
        } else if str_eq(tag, "BARM") {
            Event::BarMitzvah
        } else if str_eq(tag, "BASM") {
            Event::BasMitzvah
        } else if str_eq(tag, "BIRT") {
            Event::Birth
        } else if str_eq(tag, "BLES") {
            Event::Blessing
        } else if str_eq(tag, "BURI") {
            Event::Burial
        } else if str_eq(tag, "CENS") {
            Event::Census
        } else if str_eq(tag, "CHR") {
            Event::Christening
        } else if str_eq(tag, "CHRA") {
            Event::AdultChristening
        } else if str_eq(tag, "CONF") {
            Event::Confirmation
        } else if str_eq(tag, "CREM") {
            Event::Cremation
        } else if str_eq(tag, "DEAT") {
            Event::Death
        } else if str_eq(tag, "DIV") {
            Event::Divorce
        } else if str_eq(tag, "DIVF") {
            Event::DivorceFiled
        } else if str_eq(tag, "EMIG") {
            Event::Emigration
        } else if str_eq(tag, "ENGA") {
            Event::Engagement
        } else if str_eq(tag, "EVEN") {
            Event::Event
        } else if str_eq(tag, "FCOM") {
            Event::FirstCommunion
        } else if str_eq(tag, "GRAD") {
            Event::Graduation
        } else if str_eq(tag, "IMMI") {
            Event::Immigration
        } else if str_eq(tag, "MARB") {
            Event::MarriageBann
        } else if str_eq(tag, "MARC") {
            Event::MarriageContract
        } else if str_eq(tag, "MARL") {
            Event::MarriageLicense
        } else if str_eq(tag, "MARR") {
            Event::Marriage
        } else if str_eq(tag, "MARS") {
            Event::MarriageSettlement
        } else if str_eq(tag, "NATU") {
            Event::Naturalization
        } else if str_eq(tag, "ORDN") {
            Event::Ordination
        } else if str_eq(tag, "OTHER") {
            Event::Other
        } else if str_eq(tag, "PROB") {
            Event::Probate
        } else if str_eq(tag, "RESI") {
            Event::Residence
        } else if str_eq(tag, "RETI") {
            Event::Retired
        } else if str_eq(tag, "SEP") {
            Event::Separated
        } else {
            Event::Will
        }
    }

    /// Adds a source of the event.
    pub fn add_citation(&mut self, citation: Citation)
        ensures
            final(self).citations@ == old(self).citations@.push(citation),
            *final(self) == (Detail { citations: final(self).citations, ..*old(self) }),
            final(self).event == old(self).event,
    {
        self.citations.push(citation);
    }

    /// Adds the part of a partner in a family event.
    pub fn add_family_event_detail(&mut self, detail: FamilyEventDetail)
        ensures
            final(self).family_event_details@ == old(self).family_event_details@.push(detail),
            *final(self) == (Detail { family_event_details: final(self).family_event_details, ..*old(self) }),
            final(self).event == old(self).event,
    {
        self.family_event_details.push(detail);
    }

    /// Adds a multimedia link.
    pub fn add_multimedia_record(&mut self, m: Multimedia)
        ensures
            final(self).multimedia@ == old(self).multimedia@.push(m),
            *final(self) == (Detail { multimedia: final(self).multimedia, ..*old(self) }),
            final(self).event == old(self).event,
    {
        self.multimedia.push(m);
    }

    /// A copy of the sources of the event.
    pub fn get_citations(&self) -> (r: Vec<Citation>)
        ensures
            r@.len() == self.citations@.len(),
    {
        self.citations.clone()
    }
}

/// Where [`Detail::new`] stops reading an event at `level` from `st`; `Err`
/// where reading fails.
pub open spec fn detail_end(s: Seq<char>, st: TokState, level: u8) -> Result<TokState, ()> {
    match detail_start(s, st) {
        Ok(st1) => subset_end::<Detail>(s, st1, level),
        Err(_) => Err(()),
    }
}

/// The standard tags below an event that [`Detail::new`] reads at `level`
/// from `st`, each with the state at it, in order.
pub open spec fn detail_kids(s: Seq<char>, st: TokState, level: u8) -> Seq<(Seq<char>, TokState)> {
    match detail_start(s, st) {
        Ok(st1) => subset_kids::<Detail>(s, st1, level),
        Err(_) => Seq::empty(),
    }
}

/// The standard tags below an event that [`Detail`]'s `parse` reads at
/// `level` from `st`, each with the state at it, in order.
pub open spec fn detail_parse_kids(s: Seq<char>, st: TokState, level: u8) -> Seq<(Seq<char>, TokState)> {
    match after_tag_value(s, st) {
        Ok(st1) => subset_kids::<Detail>(s, st1, level),
        Err(_) => Seq::empty(),
    }
}

/// The fields of a sort date read at `level` from its tag at `st`.
pub open spec fn sort_date_fields_at(s: Seq<char>, st: TokState, level: u8) -> (Option<Seq<char>>, Option<Seq<char>>, Option<Seq<char>>) {
    match take_value(s, st) {
        Ok((st1, v)) => match flat_children(s, st1, level) {
            Ok((_, kids)) => fold_values::<SortDate>((Some(v), None, None), kids),
            Err(_) => (None, None, None),
        },
        Err(_) => (None, None, None),
    }
}

/// What the lines `kids` below an event at `level` put in its nested
/// structures: the note, the family link and the sort date read from the
/// last `NOTE`, `FAMC` and `SDATE` lines; a citation of the source that each
/// `SOUR` line names; and an association and a multimedia record read from
/// each `ASSO` and `OBJE` line, in order.
#[verifier::opaque]
pub open spec fn detail_contents(d: Detail, s: Seq<char>, kids: Seq<(Seq<char>, TokState)>, level: u8) -> bool {
    let sub = spec_child_level(level);
    let asso = tag_states(kids, "ASSO"@);
    let media = tag_states(kids, "OBJE"@);
    &&& (last_tag_state(kids, "NOTE"@) matches Some(st) ==> (d.note matches Some(n) && note_read_at(n, s, st, sub)))
    &&& (last_tag_state(kids, "FAMC"@) matches Some(st) ==> (d.family_link matches Some(l)
        && l.holds(s, value_subset_kids::<FamilyLink>(s, st, sub), sub)))
    &&& d.associations@.len() == asso.len()
    &&& forall|j: int| 0 <= j < asso.len()
        ==> (#[trigger] d.associations@[j]).holds(s, value_subset_kids::<Association>(s, asso[j], sub), sub)
    &&& d.multimedia@.len() == media.len()
    &&& forall|j: int| 0 <= j < media.len() ==> multimedia_holds(
        #[trigger] d.multimedia@[j], bare_multimedia(None), s, multimedia_kids(s, media[j], sub), sub)
    &&& (last_tag_state(kids, "SDATE"@) matches Some(st) ==> (d.sort_date matches Some(x)
        && x.fields() == sort_date_fields_at(s, st, sub)))
    &&& d.citations@.len() == tag_states(kids, "SOUR"@).len()
    &&& forall|j: int| 0 <= j < tag_states(kids, "SOUR"@).len()
        ==> (#[trigger] d.citations@[j]).xref@ == value_at(s, tag_states(kids, "SOUR"@)[j])
}

/// What an event holds in its nested structures depends on those alone.
proof fn lemma_detail_contents_frame(a: Detail, b: Detail)
    requires
        a.note == b.note && a.family_link == b.family_link && a.sort_date == b.sort_date,
        a.associations == b.associations && a.multimedia == b.multimedia && a.citations == b.citations,
    ensures
        forall|s: Seq<char>, kids: Seq<(Seq<char>, TokState)>, level: u8|
            #[trigger] detail_contents(a, s, kids, level) == detail_contents(b, s, kids, level),
{
    reveal(detail_contents);
}

/// An event with no nested structures holds what no line gives.
proof fn lemma_detail_contents_empty(d: Detail, s: Seq<char>, level: u8)
    requires
        d.note is None && d.family_link is None && d.associations@.len() == 0 && d.multimedia@.len() == 0,
        d.citations@.len() == 0,
    ensures
        detail_contents(d, s, Seq::empty(), level),
{
    reveal(detail_contents);
}

/// What reading the line `kid` does to the nested structures of an event.
spec fn detail_line_effect(prev: Detail, cur: Detail, s: Seq<char>, kid: (Seq<char>, TokState), level: u8) -> bool {
    let sub = spec_child_level(level);
    let t = kid.0;
    &&& (if t == "NOTE"@ { cur.note matches Some(n) && note_read_at(n, s, kid.1, sub) } else { cur.note == prev.note })
    &&& (if t == "FAMC"@ {
        cur.family_link matches Some(l) && l.holds(s, value_subset_kids::<FamilyLink>(s, kid.1, sub), sub)
    } else {
        cur.family_link == prev.family_link
    })
    &&& (if t == "ASSO"@ {
        cur.associations@.len() == prev.associations@.len() + 1 && cur.associations@.drop_last() == prev.associations@
            && cur.associations@.last().holds(s, value_subset_kids::<Association>(s, kid.1, sub), sub)
    } else {
        cur.associations == prev.associations
    })
    &&& (if t == "OBJE"@ {
        cur.multimedia@.len() == prev.multimedia@.len() + 1 && cur.multimedia@.drop_last() == prev.multimedia@
            && multimedia_holds(cur.multimedia@.last(), bare_multimedia(None), s, multimedia_kids(s, kid.1, sub), sub)
    } else {
        cur.multimedia == prev.multimedia
    })
    &&& (if t == "SDATE"@ {
        cur.sort_date matches Some(x) && x.fields() == sort_date_fields_at(s, kid.1, sub)
    } else {
        cur.sort_date == prev.sort_date
    })
    &&& (if t == "SOUR"@ {
        cur.citations@.len() == prev.citations@.len() + 1 && cur.citations@.drop_last() == prev.citations@
            && cur.citations@.last().xref@ == value_at(s, kid.1)
    } else {
        cur.citations == prev.citations
    })
}

/// One more line below an event: what it puts in its nested structures
/// joins what the lines before put in.
#[verifier::rlimit(100)]
#[verifier::spinoff_prover]
proof fn lemma_detail_contents_push(prev: Detail, cur: Detail, s: Seq<char>, kid: (Seq<char>, TokState), level: u8)
    requires
        detail_line_effect(prev, cur, s, kid, level),
    ensures
        forall|kids: Seq<(Seq<char>, TokState)>| detail_contents(prev, s, kids, level)
            ==> #[trigger] detail_contents(cur, s, kids.push(kid), level),
{
    reveal(detail_contents);
    reveal_strlit("NOTE");
    reveal_strlit("FAMC");
    reveal_strlit("ASSO");
    reveal_strlit("OBJE");
    reveal_strlit("SDATE");
    reveal_strlit("SOUR");
    assert("NOTE"@.len() == 4 && "FAMC"@.len() == 4 && "ASSO"@.len() == 4 && "OBJE"@.len() == 4);
    assert("NOTE"@[0] == 'N' && "FAMC"@[0] == 'F' && "ASSO"@[0] == 'A' && "OBJE"@[0] == 'O');
    assert("SDATE"@.len() == 5 && "SOUR"@.len() == 4 && "SOUR"@[0] == 'S');
    assert forall|kids: Seq<(Seq<char>, TokState)>| detail_contents(prev, s, kids, level) implies #[trigger] detail_contents(
        cur,
        s,
        kids.push(kid),
        level,
    ) by {
        lemma_kids_push(s, kids, kid);
        let sub = spec_child_level(level);
        let a0 = tag_states(kids, "ASSO"@);
        let a1 = tag_states(kids.push(kid), "ASSO"@);
        if kid.0 == "ASSO"@ {
            assert forall|j: int| 0 <= j < a1.len() implies (#[trigger] cur.associations@[j]).holds(
                s, value_subset_kids::<Association>(s, a1[j], sub), sub) by {
                if j < a0.len() {
                    assert(cur.associations@[j] == cur.associations@.drop_last()[j]);
                }
            }
        }
        let c0 = tag_states(kids, "SOUR"@);
        let c1 = tag_states(kids.push(kid), "SOUR"@);
        if kid.0 == "SOUR"@ {
            assert forall|j: int| 0 <= j < c1.len() implies (#[trigger] cur.citations@[j]).xref@ == value_at(s, c1[j]) by {
                if j < c0.len() {
                    assert(cur.citations@[j] == cur.citations@.drop_last()[j]);
                }
            }
        }
        let m0 = tag_states(kids, "OBJE"@);
        let m1 = tag_states(kids.push(kid), "OBJE"@);
        if kid.0 == "OBJE"@ {
            assert forall|j: int| 0 <= j < m1.len() implies multimedia_holds(
                #[trigger] cur.multimedia@[j], bare_multimedia(None), s, multimedia_kids(s, m1[j], sub), sub) by {
                if j < m0.len() {
                    assert(cur.multimedia@[j] == cur.multimedia@.drop_last()[j]);
                }
            }
        }
    }
}

impl TagHandler for Detail {
    open spec fn exact() -> bool {
        true
    }

    open spec fn tag_end(s: Seq<char>, st: TokState, t: Seq<char>, level: u8) -> Result<TokState, ()> {
        if t == "DATE"@ {
            value_flat_end::<Date>(s, st, spec_child_level(level))
        } else if t == "PLAC"@ {
            value_subset_end::<Place>(s, st, spec_child_level(level))
        } else if t == "SOUR"@ {
            shared_end(Shared::Citation, s, st, spec_child_level(level))
        } else if t == "FAMC"@ {
            value_subset_end::<FamilyLink>(s, st, spec_child_level(level))
        } else if t == "HUSB"@ || t == "WIFE"@ {
            step_subset_end::<FamilyEventDetail>(s, st, spec_child_level(level))
        } else if t == "NOTE"@ {
            shared_end(Shared::Note, s, st, spec_child_level(level))
        } else if t == "TYPE"@ {
            value_end(s, st)
        } else if t == "OBJE"@ {
            shared_end(Shared::Multimedia, s, st, spec_child_level(level))
        } else if t == "SDATE"@ {
            value_flat_end::<SortDate>(s, st, spec_child_level(level))
        } else if t == "ASSO"@ {
            value_subset_end::<Association>(s, st, spec_child_level(level))
        } else if t == "CAUS"@ {
            continued_end(s, st, spec_child_level(level))
        } else if t == "RESN"@ {
            value_end(s, st)
        } else if t == "AGE"@ {
            value_end(s, st)
        } else if t == "AGNC"@ {
            value_end(s, st)
        } else if t == "RELI"@ {
            value_end(s, st)
        } else {
            value_end(s, st)
        }
    }

    open spec fn holds(&self, s: Seq<char>, kids: Seq<(Seq<char>, TokState)>, level: u8) -> bool {
        &&& (match last_tag_state(kids, "DATE"@) {
            Some(st) => self.date matches Some(d) && d.fields() == date_fields_at(s, st, spec_child_level(level)),
            None => self.date is None,
        })
        &&& (match last_tag_state(kids, "PLAC"@) {
            Some(st) => self.place matches Some(p) && text_of(p.value) == Some(value_at(s, st)),
            None => self.place is None,
        })
        &&& self.citations@.len() == tag_states(kids, "SOUR"@).len()
        &&& (match last_tag_state(kids, "FAMC"@) {
            Some(_) => self.family_link is Some,
            None => self.family_link is None,
        })
        &&& self.family_event_details@.len() == tag_states(kids, "HUSB"@).len() + tag_states(kids, "WIFE"@).len()
        &&& (match last_tag_state(kids, "NOTE"@) {
            Some(_) => self.note is Some,
            None => self.note is None,
        })
        &&& text_of(self.event_type) == last_tag_value(s, kids, "TYPE"@)
        &&& self.multimedia@.len() == tag_states(kids, "OBJE"@).len()
        &&& (match last_tag_state(kids, "SDATE"@) {
            Some(_) => self.sort_date is Some,
            None => self.sort_date is None,
        })
        &&& self.associations@.len() == tag_states(kids, "ASSO"@).len()
        &&& (match last_tag_state(kids, "CAUS"@) {
            Some(st) => self.cause matches Some(c) && c@ == continued_text_at(s, st, spec_child_level(level)),
            None => self.cause is None,
        })
        &&& text_of(self.restriction) == last_tag_value(s, kids, "RESN"@)
        &&& text_of(self.age) == last_tag_value(s, kids, "AGE"@)
        &&& text_of(self.agency) == last_tag_value(s, kids, "AGNC"@)
        &&& text_of(self.religion) == last_tag_value(s, kids, "RELI"@)
        &&& detail_contents(*self, s, kids, level)
    }

    fn handle_tag(&mut self, tag: &str, tokenizer: &mut Tokenizer, level: u8) -> (r: Result<(), GedcomError>) {
        proof {
            reveal_strlit("DATE");
            assert("DATE"@.len() == 4);
            reveal_strlit("PLAC");
            assert("PLAC"@.len() == 4);
            reveal_strlit("SOUR");
            assert("SOUR"@.len() == 4);
            reveal_strlit("FAMC");
            assert("FAMC"@.len() == 4);
            reveal_strlit("HUSB");
            assert("HUSB"@.len() == 4);
            reveal_strlit("WIFE");
            assert("WIFE"@.len() == 4);
            reveal_strlit("NOTE");
            assert("NOTE"@.len() == 4);
            reveal_strlit("TYPE");
            assert("TYPE"@.len() == 4);
            reveal_strlit("OBJE");
            assert("OBJE"@.len() == 4);
            reveal_strlit("SDATE");
            assert("SDATE"@.len() == 5);
            reveal_strlit("ASSO");
            assert("ASSO"@.len() == 4);
            reveal_strlit("CAUS");
            assert("CAUS"@.len() == 4);
            reveal_strlit("RESN");
            assert("RESN"@.len() == 4);
            reveal_strlit("AGE");
            assert("AGE"@.len() == 3);
            reveal_strlit("AGNC");
            assert("AGNC"@.len() == 4);
            reveal_strlit("RELI");
            assert("RELI"@.len() == 4);
            assert("DATE"@[0] != "PLAC"@[0]);
            assert("DATE"@[0] != "SOUR"@[0]);
            assert("DATE"@[0] != "FAMC"@[0]);
            assert("DATE"@[0] != "HUSB"@[0]);
            assert("DATE"@[0] != "WIFE"@[0]);
            assert("DATE"@[0] != "NOTE"@[0]);
            assert("DATE"@[0] != "TYPE"@[0]);
            assert("DATE"@[0] != "OBJE"@[0]);
            assert("DATE"@[0] != "ASSO"@[0]);
            assert("DATE"@[0] != "CAUS"@[0]);
            assert("DATE"@[0] != "RESN"@[0]);
            assert("DATE"@[0] != "AGNC"@[0]);
            assert("DATE"@[0] != "RELI"@[0]);
            assert("PLAC"@[0] != "SOUR"@[0]);
            assert("PLAC"@[0] != "FAMC"@[0]);
            assert("PLAC"@[0] != "HUSB"@[0]);
            assert("PLAC"@[0] != "WIFE"@[0]);
            assert("PLAC"@[0] != "NOTE"@[0]);
            assert("PLAC"@[0] != "TYPE"@[0]);
            assert("PLAC"@[0] != "OBJE"@[0]);
            assert("PLAC"@[0] != "ASSO"@[0]);
            assert("PLAC"@[0] != "CAUS"@[0]);
            assert("PLAC"@[0] != "RESN"@[0]);
            assert("PLAC"@[0] != "AGNC"@[0]);
            assert("PLAC"@[0] != "RELI"@[0]);
            assert("SOUR"@[0] != "FAMC"@[0]);
            assert("SOUR"@[0] != "HUSB"@[0]);
            assert("SOUR"@[0] != "WIFE"@[0]);
            assert("SOUR"@[0] != "NOTE"@[0]);
            assert("SOUR"@[0] != "TYPE"@[0]);
            assert("SOUR"@[0] != "OBJE"@[0]);
            assert("SOUR"@[0] != "ASSO"@[0]);
            assert("SOUR"@[0] != "CAUS"@[0]);
            assert("SOUR"@[0] != "RESN"@[0]);
            assert("SOUR"@[0] != "AGNC"@[0]);
            assert("SOUR"@[0] != "RELI"@[0]);
            assert("FAMC"@[0] != "HUSB"@[0]);
            assert("FAMC"@[0] != "WIFE"@[0]);
            assert("FAMC"@[0] != "NOTE"@[0]);
            assert("FAMC"@[0] != "TYPE"@[0]);
            assert("FAMC"@[0] != "OBJE"@[0]);
            assert("FAMC"@[0] != "ASSO"@[0]);
            assert("FAMC"@[0] != "CAUS"@[0]);
            assert("FAMC"@[0] != "RESN"@[0]);
            assert("FAMC"@[0] != "AGNC"@[0]);
            assert("FAMC"@[0] != "RELI"@[0]);
            assert("HUSB"@[0] != "WIFE"@[0]);
            assert("HUSB"@[0] != "NOTE"@[0]);
            assert("HUSB"@[0] != "TYPE"@[0]);
            assert("HUSB"@[0] != "OBJE"@[0]);
            assert("HUSB"@[0] != "ASSO"@[0]);
            assert("HUSB"@[0] != "CAUS"@[0]);
            assert("HUSB"@[0] != "RESN"@[0]);
            assert("HUSB"@[0] != "AGNC"@[0]);
            assert("HUSB"@[0] != "RELI"@[0]);
            assert("WIFE"@[0] != "NOTE"@[0]);
            assert("WIFE"@[0] != "TYPE"@[0]);
            assert("WIFE"@[0] != "OBJE"@[0]);
            assert("WIFE"@[0] != "ASSO"@[0]);
            assert("WIFE"@[0] != "CAUS"@[0]);
            assert("WIFE"@[0] != "RESN"@[0]);
            assert("WIFE"@[0] != "AGNC"@[0]);
            assert("WIFE"@[0] != "RELI"@[0]);
            assert("NOTE"@[0] != "TYPE"@[0]);
            assert("NOTE"@[0] != "OBJE"@[0]);
            assert("NOTE"@[0] != "ASSO"@[0]);
            assert("NOTE"@[0] != "CAUS"@[0]);
            assert("NOTE"@[0] != "RESN"@[0]);
            assert("NOTE"@[0] != "AGNC"@[0]);
            assert("NOTE"@[0] != "RELI"@[0]);
            assert("TYPE"@[0] != "OBJE"@[0]);
            assert("TYPE"@[0] != "ASSO"@[0]);
            assert("TYPE"@[0] != "CAUS"@[0]);
            assert("TYPE"@[0] != "RESN"@[0]);
            assert("TYPE"@[0] != "AGNC"@[0]);
            assert("TYPE"@[0] != "RELI"@[0]);
            assert("OBJE"@[0] != "ASSO"@[0]);
            assert("OBJE"@[0] != "CAUS"@[0]);
            assert("OBJE"@[0] != "RESN"@[0]);
            assert("OBJE"@[0] != "AGNC"@[0]);
            assert("OBJE"@[0] != "RELI"@[0]);
            assert("ASSO"@[0] != "CAUS"@[0]);
            assert("ASSO"@[0] != "RESN"@[0]);
            assert("ASSO"@[1] != "AGNC"@[1]);
            assert("ASSO"@[0] != "RELI"@[0]);
            assert("CAUS"@[0] != "RESN"@[0]);
            assert("CAUS"@[0] != "AGNC"@[0]);
            assert("CAUS"@[0] != "RELI"@[0]);
            assert("RESN"@[0] != "AGNC"@[0]);
            assert("RESN"@[2] != "RELI"@[2]);
            assert("AGNC"@[0] != "RELI"@[0]);
        }
        let sub = child_level(level);
        if str_eq(tag, "DATE") {
            self.date = Some(Date::new(tokenizer, sub)?);
        } else if str_eq(tag, "PLAC") {
            self.place = Some(Place::new(tokenizer, sub)?);
        } else if str_eq(tag, "SOUR") {
            let c = Citation::new(tokenizer, sub)?;
            let ghost c0 = self.citations@;
            self.add_citation(c);
            assert(self.citations@.drop_last() =~= c0);
        } else if str_eq(tag, "FAMC") {
            self.family_link = Some(FamilyLink::new(tokenizer, sub, tag)?);
        } else if str_eq(tag, "HUSB") || str_eq(tag, "WIFE") {
            let d = FamilyEventDetail::new(tokenizer, sub, tag)?;
            self.add_family_event_detail(d);
        } else if str_eq(tag, "NOTE") {
            self.note = Some(Note::new(tokenizer, sub)?);
        } else if str_eq(tag, "TYPE") {
            self.event_type = Some(tokenizer.take_line_value()?);
        } else if str_eq(tag, "OBJE") {
            let m = Multimedia::new(tokenizer, sub, None)?;
            let ghost m0 = self.multimedia@;
            self.add_multimedia_record(m);
            assert(self.multimedia@.drop_last() =~= m0);
        } else if str_eq(tag, "SDATE") {
            self.sort_date = Some(SortDate::new(tokenizer, sub)?);
        } else if str_eq(tag, "ASSO") {
            let a = Association::new(tokenizer, sub)?;
            let ghost as0 = self.associations@;
            self.associations.push(a);
            assert(self.associations@.drop_last() =~= as0);
        } else if str_eq(tag, "CAUS") {
            self.cause = Some(tokenizer.take_continued_text(sub)?);
        } else if str_eq(tag, "RESN") {
            self.restriction = Some(tokenizer.take_line_value()?);
        } else if str_eq(tag, "AGE") {
            self.age = Some(tokenizer.take_line_value()?);
        } else if str_eq(tag, "AGNC") {
            self.agency = Some(tokenizer.take_line_value()?);
        } else if str_eq(tag, "RELI") {
            self.religion = Some(tokenizer.take_line_value()?);
        } else {
            // other tags are passed over with their values
            tokenizer.take_line_value()?;
        }
        proof {
            let kid = (tag@, old(tokenizer).state());
            assert(detail_line_effect(*old(self), *self, old(tokenizer).input(), kid, level));
            lemma_detail_contents_push(*old(self), *self, old(tokenizer).input(), kid, level);
            assert forall|kids: Seq<(Seq<char>, TokState)>| old(self).holds(old(tokenizer).input(), kids, level)
                implies #[trigger] self.holds(old(tokenizer).input(), kids.push(kid), level) by {
                lemma_kids_push(old(tokenizer).input(), kids, kid);
            }
        }
        Ok(())
    }
}

impl Parser for Detail {
    #[verifier::rlimit(50)]
    fn parse(&mut self, tokenizer: &mut Tokenizer, level: u8) -> (r: Result<(), GedcomError>) 
        ensures
            r is Ok ==> at_level_end(*final(tokenizer), level),
            r is Ok <==> after_value_subset_end::<Detail>(old(tokenizer).input(), old(tokenizer).state(), level) is Ok,
            r is Ok && old(self).holds(old(tokenizer).input(), Seq::empty(), level)
                ==> final(self).holds(old(tokenizer).input(), detail_parse_kids(old(tokenizer).input(), old(tokenizer).state(), level), level),
            r is Ok ==> (if line_value(*old(tokenizer)).len() > 0 {
                final(self).value matches Some(v) && v@ == line_value(*old(tokenizer))
            } else {
                final(self).value == old(self).value
            }),
    {
        tokenizer.next_token()?;
        let mut value = String::new();
        if let Token::LineValue(v) = tokenizer.current_token() {
            value.append(v.as_str());
            tokenizer.next_token()?;
        }
        let ghost before = *self;
        let kept = self.value.take();
        proof {
            lemma_detail_contents_frame(before, *self);
        }
        parse_subset(tokenizer, level, self)?;
        let ghost read = *self;
        if !value.as_str().is_empty() {
            self.value = Some(value);
        } else {
            self.value = kept;
        }
        proof {
            lemma_detail_contents_frame(read, *self);
        }
        Ok(())
    }
}

} // verus!
