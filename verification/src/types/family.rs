//! Families: partners, children and the events they share.
use vstd::prelude::*;
use crate::types::shared::{shared_end, Shared};
use vstd::string::StringExecFns;
use crate::error::{is_parse_error, GedcomError};
use crate::parser::{at_level_end, child_level, ends_within, last_tag_state, last_tag_value, lemma_kids_push, tag_states, value_subset_kids, lemma_tag_values_append, lemma_tag_values_push, record_read, same_text, spec_child_level, step_subset_end, subset_step, subset_walk, tag_error, tag_values, text_of, value_at, value_end, value_subset_end, Parser, SubsetItem, TagHandler};
use crate::text::{str_eq, string_views};
use crate::tokenizer::{state_measure, step, SpecToken, Tokenizer, TokState};
use crate::types::custom::UserDefinedTag;
use crate::types::date::change_date::ChangeDate;
use crate::types::event::detail::{detail_end, Detail};
use crate::types::event::util::HasEvents;
use crate::types::event::same_event;
use crate::types::gedcom7::NonEvent;
use crate::types::lds::LdsOrdinance;
use crate::types::multimedia::Multimedia;
use crate::types::note::Note;
use crate::types::source::citation::Citation;
use crate::types::Xref;
use crate::types::date::change_date::{change_date_holds, change_date_kids};
use crate::types::event::detail::detail_kids;
use crate::types::note::note_read_at;

verus! {

/// A family (`FAM`): two partners, their children, and the events of the family.
#[derive(Clone, Debug)]
pub struct Family {
    pub xref: Option<Xref>,
    pub individual1: Option<Xref>,
    pub individual2: Option<Xref>,
    pub family_event: Vec<Detail>,
    pub children: Vec<Xref>,
    pub num_children: Option<String>,
    pub change_date: Option<ChangeDate>,
    pub events: Vec<Detail>,
    pub sources: Vec<Citation>,
    pub multimedia: Vec<Multimedia>,
    pub notes: Vec<Note>,
    pub custom_data: Vec<Box<UserDefinedTag>>,
    pub non_events: Vec<NonEvent>,
    pub lds_ordinances: Vec<LdsOrdinance>,
    pub uid: Option<String>,
    pub restriction: Option<String>,
    pub user_reference_number: Option<String>,
    pub user_reference_type: Option<String>,
    pub automated_record_id: Option<String>,
    pub external_ids: Vec<String>,
}

impl Default for Family {
    fn default() -> (r: Self)
        ensures
            r.xref is None && r.individual1 is None && r.individual2 is None,
            r.family_event@.len() == 0 && r.children@.len() == 0 && r.num_children is None,
            r.change_date is None && r.events@.len() == 0 && r.sources@.len() == 0,
            r.multimedia@.len() == 0 && r.notes@.len() == 0 && r.custom_data@.len() == 0,
            r.non_events@.len() == 0 && r.lds_ordinances@.len() == 0 && r.uid is None,
            r.restriction is None && r.user_reference_number is None && r.user_reference_type is None,
            r.automated_record_id is None && r.external_ids@.len() == 0,
    {
        Family {
            xref: None,
            individual1: None,
            individual2: None,
            family_event: Vec::new(),
            children: Vec::new(),
            num_children: None,
            change_date: None,
            events: Vec::new(),
            sources: Vec::new(),
            multimedia: Vec::new(),
            notes: Vec::new(),
            custom_data: Vec::new(),
            non_events: Vec::new(),
            lds_ordinances: Vec::new(),
            uid: None,
            restriction: None,
            user_reference_number: None,
            user_reference_type: None,
            automated_record_id: None,
            external_ids: Vec::new(),
        }
    }
}

/// The tags of the events of a family.
pub open spec fn is_family_event_tag(tag: Seq<char>) -> bool {
    tag == "MARR"@ || tag == "ANUL"@ || tag == "CENS"@ || tag == "DIV"@ || tag == "DIVF"@
        || tag == "ENGA"@ || tag == "MARB"@ || tag == "MARC"@ || tag == "MARL"@ || tag == "MARS"@
        || tag == "RESI"@ || tag == "EVEN"@ || tag == "SEP"@
}

/// Where reading a family at `level` goes on after handling the standard
/// tag `t` at `st`, as the family's handler reads each tag. `Err` where it fails.
pub open spec fn family_tag_end(s: Seq<char>, st: TokState, t: Seq<char>, level: u8) -> Result<TokState, ()> {
    if t == "HUSB"@ || t == "WIFE"@ || t == "CHIL"@ || t == "NCHI"@ {
        value_end(s, st)
    } else if is_family_event_tag(t) {
        detail_end(s, st, spec_child_level(level))
    } else if t == "CHAN"@ {
        shared_end(Shared::ChangeDate, s, st, spec_child_level(level))
    } else if t == "SOUR"@ {
        shared_end(Shared::Citation, s, st, spec_child_level(level))
    } else if t == "NOTE"@ {
        shared_end(Shared::Note, s, st, spec_child_level(level))
    } else if t == "OBJE"@ {
        shared_end(Shared::Multimedia, s, st, spec_child_level(level))
    } else if t == "NO"@ {
        value_subset_end::<NonEvent>(s, st, spec_child_level(level))
    } else if t == "SLGS"@ {
        step_subset_end::<LdsOrdinance>(s, st, spec_child_level(level))
    } else if t == "UID"@ || t == "RESN"@ || t == "REFN"@ || t == "RIN"@ || t == "EXID"@ {
        value_end(s, st)
    } else {
        Err(())
    }
}

/// The lines below a family at `level`, from `st` on: where reading ends,
/// and each standard tag that the family's handler met, with the state at
/// it, in order. `Err` where reading fails.
pub open spec fn family_walk(s: Seq<char>, st: TokState, level: u8) -> Result<(TokState, Seq<(Seq<char>, TokState)>), ()>
    decreases state_measure(s, st),
{
    match subset_walk(s, st, level) {
        Ok(st1) => match st1.token {
            SpecToken::Tag(t) => match family_tag_end(s, st1, t, level) {
                Ok(st2) => if state_measure(s, st2) < state_measure(s, st) {
                    match family_walk(s, st2, level) {
                        Ok((e, rest)) => Ok((e, seq![(t, st1)] + rest)),
                        Err(_) => Err(()),
                    }
                } else {
                    Err(())
                },
                Err(_) => Err(()),
            },
            _ => Ok((st1, Seq::empty())),
        },
        Err(_) => Err(()),
    }
}

/// Whether reading the lines below a family at `level` succeeds, from `st`
/// on: each line is read, and a family has at most one `HUSB` and at most one
/// `WIFE` line.
pub open spec fn family_accepted(s: Seq<char>, st: TokState, level: u8) -> bool {
    family_walk(s, st, level) matches Ok((_, kids))
        && tag_values(s, kids, "HUSB"@).len() <= 1 && tag_values(s, kids, "WIFE"@).len() <= 1
}

/// Where reading a family at `level` stops, from its tag at `st`; `Err` where
/// reading fails.
pub open spec fn family_end(s: Seq<char>, st: TokState, level: u8) -> Result<TokState, ()> {
    match step(s, st) {
        Ok(st1) => if family_accepted(s, st1, level) {
            match family_walk(s, st1, level) {
                Ok((e, _)) => Ok(e),
                Err(_) => Err(()),
            }
        } else {
            Err(())
        },
        Err(_) => Err(()),
    }
}

/// `b` is `a` after the line of the tag `t` at `st`: a `HUSB` line gives the
/// first partner, a `WIFE` line the second, a `CHIL` line one more child.
pub open spec fn members_after(a: Family, b: Family, s: Seq<char>, st: TokState, t: Seq<char>) -> bool {
    &&& text_of(b.individual1) == if t == "HUSB"@ {
        Some(value_at(s, st))
    } else {
        text_of(a.individual1)
    }
    &&& text_of(b.individual2) == if t == "WIFE"@ {
        Some(value_at(s, st))
    } else {
        text_of(a.individual2)
    }
    &&& string_views(b.children@) == if t == "CHIL"@ {
        string_views(a.children@).push(value_at(s, st))
    } else {
        string_views(a.children@)
    }
}

/// `seen` and then the lines of `rest`, where there are any.
pub open spec fn after_lines(
    seen: Seq<(Seq<char>, TokState)>,
    rest: Result<(TokState, Seq<(Seq<char>, TokState)>), ()>,
) -> Result<(TokState, Seq<(Seq<char>, TokState)>), ()> {
    match rest {
        Ok((e, r)) => Ok((e, seen + r)),
        Err(_) => Err(()),
    }
}

/// The members of a family are those of its `HUSB`, `WIFE` and `CHIL` lines.
pub open spec fn members_from(f: Family, s: Seq<char>, kids: Seq<(Seq<char>, TokState)>) -> bool {
    &&& text_of(f.individual1) == last_tag_value(s, kids, "HUSB"@)
    &&& text_of(f.individual2) == last_tag_value(s, kids, "WIFE"@)
    &&& string_views(f.children@) == tag_values(s, kids, "CHIL"@)
}

/// The members of `f` after reading the lines `kids` into `f0`: the last
/// `HUSB` and `WIFE` lines give the partners, where there are any, and each
/// `CHIL` line one more child.
pub open spec fn members_over(f0: Family, f: Family, s: Seq<char>, kids: Seq<(Seq<char>, TokState)>) -> bool {
    &&& text_of(f.individual1) == match last_tag_value(s, kids, "HUSB"@) {
        Some(v) => Some(v),
        None => text_of(f0.individual1),
    }
    &&& text_of(f.individual2) == match last_tag_value(s, kids, "WIFE"@) {
        Some(v) => Some(v),
        None => text_of(f0.individual2),
    }
    &&& string_views(f.children@) == string_views(f0.children@) + tag_values(s, kids, "CHIL"@)
}

/// Whether reading the lines below a family at `level` into `f0` succeeds,
/// from `st` on: each line is read, and the family ends with at most one
/// first and one second partner, counting those that `f0` has.
pub open spec fn family_accepted_into(f0: Family, s: Seq<char>, st: TokState, level: u8) -> bool {
    family_walk(s, st, level) matches Ok((_, kids))
        && tag_values(s, kids, "HUSB"@).len() + (if f0.individual1 is Some { 1int } else { 0int }) <= 1
        && tag_values(s, kids, "WIFE"@).len() + (if f0.individual2 is Some { 1int } else { 0int }) <= 1
}

fn is_event_tag(tag: &str) -> (r: bool)
    ensures
        r == is_family_event_tag(tag@),
        r ==> crate::types::event::event_of_tag(tag@) is Some,
{
    str_eq(tag, "MARR") || str_eq(tag, "ANUL") || str_eq(tag, "CENS") || str_eq(tag, "DIV")
        || str_eq(tag, "DIVF") || str_eq(tag, "ENGA") || str_eq(tag, "MARB") || str_eq(tag, "MARC")
        || str_eq(tag, "MARL") || str_eq(tag, "MARS") || str_eq(tag, "RESI") || str_eq(tag, "EVEN")
        || str_eq(tag, "SEP")
}

impl Family {
    /// Reads a `FAM` record at `level` whose cross-reference is `xref`.
    pub fn new(tokenizer: &mut Tokenizer, level: u8, xref: Option<Xref>) -> (r: Result<Family, GedcomError>)
        requires
            old(tokenizer).wf(),
            old(tokenizer).token() is Tag,
        ensures
            record_read(*old(tokenizer), *final(tokenizer), r is Ok, level),
            r matches Ok(f) ==> f.xref == xref,
            r matches Ok(f) ==> (step(old(tokenizer).input(), old(tokenizer).state()) matches Ok(st1)
                && family_walk(old(tokenizer).input(), st1, level) matches Ok((_, kids))
                && members_from(f, old(tokenizer).input(), kids) && family_details(f, old(tokenizer).input(), kids, level)),
            r is Ok <==> (step(old(tokenizer).input(), old(tokenizer).state()) matches Ok(st1)
                && family_accepted(old(tokenizer).input(), st1, level)),
            r is Ok ==> family_end(old(tokenizer).input(), old(tokenizer).state(), level) == Ok::<TokState, ()>(final(tokenizer).state()),
    {
        let mut fam = Family::default();
        let ghost f0 = fam;
        proof {
            assert(string_views(fam.external_ids@) =~= Seq::<Seq<char>>::empty());
        }
        tokenizer.next_token()?;
        let custom = fam.read_lines(tokenizer, level)?;
        proof {
            let kids = family_walk(tokenizer.input(), step(old(tokenizer).input(), old(tokenizer).state())->Ok_0, level)->Ok_0.1;
            assert(string_views(f0.children@) + tag_values(tokenizer.input(), kids, "CHIL"@)
                =~= tag_values(tokenizer.input(), kids, "CHIL"@));
        }
        fam.custom_data = custom;
        fam.xref = xref;
        Ok(fam)
    }

    /// Reads the lines below the family, up to a line at `level` or less.
    #[verifier::rlimit(100)]
    #[verifier::spinoff_prover]
    fn read_lines(&mut self, tokenizer: &mut Tokenizer, level: u8) -> (r: Result<Vec<Box<UserDefinedTag>>, GedcomError>)
        requires
            old(tokenizer).wf(),
        ensures
            same_text(*old(tokenizer), *final(tokenizer)),
            r is Ok ==> final(tokenizer).measure() <= old(tokenizer).measure(),
            r is Ok ==> at_level_end(*final(tokenizer), level),
            r is Ok ==> ends_within(*old(tokenizer), *final(tokenizer), level),
            r is Ok ==> (family_walk(old(tokenizer).input(), old(tokenizer).state(), level) matches Ok((e, kids))
                && e == final(tokenizer).state() && members_over(*old(self), *final(self), old(tokenizer).input(), kids)),
            r is Ok <==> family_accepted_into(*old(self), old(tokenizer).input(), old(tokenizer).state(), level),
            r is Ok && family_details(*old(self), old(tokenizer).input(), Seq::empty(), level)
                ==> (family_walk(old(tokenizer).input(), old(tokenizer).state(), level) matches Ok((_, kids))
                && family_details(*final(self), old(tokenizer).input(), kids, level)),
    {
        let ghost s = old(tokenizer).input();
        let ghost start = old(tokenizer).state();
        let ghost mut seen: Seq<(Seq<char>, TokState)> = Seq::empty();
        let mut custom: Vec<Box<UserDefinedTag>> = Vec::new();
        let ghost base = *self;
        proof {
            assert(seen + Seq::<(Seq<char>, TokState)>::empty() =~= seen);
            assert(string_views(base.children@) + tag_values(s, seen, "CHIL"@) =~= string_views(base.children@));
        }
        loop
            invariant_except_break
                family_walk(s, start, level) == after_lines(seen, family_walk(s, tokenizer.state(), level)),
            invariant
                same_text(*old(tokenizer), *tokenizer),
                tokenizer.measure() <= old(tokenizer).measure(),
                ends_within(*old(tokenizer), *tokenizer, level),
                s == tokenizer.input(),
                start == old(tokenizer).state(),
                base == *old(self),
                members_over(base, *self, s, seen),
                family_details(base, s, Seq::empty(), level) ==> family_details(*self, s, seen, level),
                tag_values(s, seen, "HUSB"@).len() + (if base.individual1 is Some { 1int } else { 0int }) <= 1,
                tag_values(s, seen, "WIFE"@).len() + (if base.individual2 is Some { 1int } else { 0int }) <= 1,
            ensures
                at_level_end(*tokenizer, level),
                family_walk(s, start, level) == Ok::<(TokState, Seq<(Seq<char>, TokState)>), ()>((tokenizer.state(), seen)),
            decreases tokenizer.measure(),
        {
            let ghost before = tokenizer.state();
            match subset_step(tokenizer, level, &mut custom)? {
                SubsetItem::Done => {
                    proof {
                        tokenizer.lemma_cursor();
                        assert(seen + Seq::<(Seq<char>, TokState)>::empty() =~= seen);
                    }
                    break;
                },
                SubsetItem::Tag(tag) => {
                    let ghost at_tag = tokenizer.state();
                    let ghost f0 = *self;
                    let handled = self.handle_tag(tag.as_str(), tokenizer, level);
                    if let Err(e) = handled {
                        proof {
                            let kid = (tag@, at_tag);
                            lemma_tag_values_push(s, seen, kid);
                            if let Ok(st2) = family_tag_end(s, at_tag, tag@, level) {
                                if let Ok((e2, r2)) = family_walk(s, st2, level) {
                                    assert(seen + (seq![kid] + r2) =~= seen.push(kid) + r2);
                                    lemma_tag_values_append(s, seen.push(kid), r2, "HUSB"@);
                                    lemma_tag_values_append(s, seen.push(kid), r2, "WIFE"@);
                                }
                            }
                        }
                        return Err(e);
                    }
                    proof {
                        let kid = (tag@, at_tag);
                        lemma_family_line(f0, *self, s, tag@, at_tag, level);
                        let rest = family_walk(s, tokenizer.state(), level);
                        assert(family_walk(s, before, level) == after_lines(seq![kid], rest));
                        if let Ok((e, r)) = rest {
                            assert(seen + (seq![kid] + r) =~= seen.push(kid) + r);
                        }
                        lemma_tag_values_push(s, seen, kid);
                        assert(string_views(base.children@) + tag_values(s, seen, "CHIL"@).push(value_at(s, at_tag))
                            =~= (string_views(base.children@) + tag_values(s, seen, "CHIL"@)).push(value_at(s, at_tag)));
                        seen = seen.push(kid);
                    }
                },
            }
        }
        Ok(custom)
    }

    /// Sets the first partner; an error at `line` if there is one already.
    pub fn set_individual1(&mut self, xref: Xref, line: u32) -> (r: Result<(), GedcomError>)
        ensures
            old(self).individual1 is Some ==> *final(self) == *old(self) && r is Err
                && is_parse_error(r->Err_0, line, "First individual of family already exists."@),
            old(self).individual1 is None ==> r is Ok && final(self).individual1 == Some(xref)
                && final(self).individual2 == old(self).individual2 && final(self).xref == old(self).xref
                && final(self).children == old(self).children
                && *final(self) == (Family { individual1: final(self).individual1, ..*old(self) }),
    {
        if self.individual1.is_some() {
            return Err(GedcomError::ParseError {
                line,
                message: String::from_str("First individual of family already exists."),
            });
        }
        self.individual1 = Some(xref);
        Ok(())
    }

    /// Sets the second partner; an error at `line` if there is one already.
    pub fn set_individual2(&mut self, xref: Xref, line: u32) -> (r: Result<(), GedcomError>)
        ensures
            old(self).individual2 is Some ==> *final(self) == *old(self) && r is Err
                && is_parse_error(r->Err_0, line, "Second individual of family already exists."@),
            old(self).individual2 is None ==> r is Ok && final(self).individual2 == Some(xref)
                && final(self).individual1 == old(self).individual1 && final(self).xref == old(self).xref
                && final(self).children == old(self).children
                && *final(self) == (Family { individual2: final(self).individual2, ..*old(self) }),
    {
        if self.individual2.is_some() {
            return Err(GedcomError::ParseError {
                line,
                message: String::from_str("Second individual of family already exists."),
            });
        }
        self.individual2 = Some(xref);
        Ok(())
    }

    /// Adds a child.
    pub fn add_child(&mut self, xref: Xref)
        ensures
            final(self).children@ == old(self).children@.push(xref),
            final(self).xref == old(self).xref,
            final(self).individual1 == old(self).individual1 && final(self).individual2 == old(self).individual2,
            *final(self) == (Family { children: final(self).children, ..*old(self) }),
    {
        self.children.push(xref);
    }

    /// Adds an event after the others.
    pub fn add_event(&mut self, family_event: Detail)
        ensures
            final(self).events@ == old(self).events@.push(family_event),
            final(self).xref == old(self).xref,
            final(self).individual1 == old(self).individual1 && final(self).individual2 == old(self).individual2,
            final(self).children == old(self).children,
            *final(self) == (Family { events: final(self).events, ..*old(self) }),
    {
        self.events.push(family_event);
    }

    /// Adds a source of the family.
    pub fn add_source(&mut self, sour: Citation)
        ensures
            final(self).sources@ == old(self).sources@.push(sour),
            final(self).individual1 == old(self).individual1 && final(self).individual2 == old(self).individual2,
            final(self).children == old(self).children,
            *final(self) == (Family { sources: final(self).sources, ..*old(self) }),
    {
        self.sources.push(sour);
    }

    /// Adds a multimedia link.
    pub fn add_multimedia(&mut self, media: Multimedia)
        ensures
            final(self).multimedia@ == old(self).multimedia@.push(media),
            final(self).individual1 == old(self).individual1 && final(self).individual2 == old(self).individual2,
            final(self).children == old(self).children,
            *final(self) == (Family { multimedia: final(self).multimedia, ..*old(self) }),
    {
        self.multimedia.push(media);
    }

    /// Adds a note.
    pub fn add_note(&mut self, note: Note)
        ensures
            final(self).notes@ == old(self).notes@.push(note),
            final(self).individual1 == old(self).individual1 && final(self).individual2 == old(self).individual2,
            final(self).children == old(self).children,
            *final(self) == (Family { notes: final(self).notes, ..*old(self) }),
    {
        self.notes.push(note);
    }

    /// The events of the family.
    pub fn events(&self) -> (r: &[Detail])
        ensures
            r@ == self.events@,
    {
        self.events.as_slice()
    }
}

impl HasEvents for Family {
    open spec fn event_list(&self) -> Seq<Detail> {
        self.events@
    }

    /// A family takes an event only where every event it has is of the same kind.
    open spec fn accepts_event(&self, event: Detail) -> bool {
        forall|i: int| 0 <= i < self.events@.len() ==> same_event(#[trigger] self.events@[i].event, event.event)
    }

    fn add_event(&mut self, event: Detail) {
        self.events.push(event);
    }

    fn events(&self) -> (r: Vec<Detail>) {
        let r = self.events.clone();
        assert(self.event_list() == self.events@);
        r
    }
}

/// The lines among `kids` whose tag names an event of a family, in order.
pub open spec fn family_event_lines(kids: Seq<(Seq<char>, TokState)>) -> Seq<(Seq<char>, TokState)>
    decreases kids.len(),
{
    if kids.len() == 0 {
        Seq::empty()
    } else if is_family_event_tag(kids.last().0) {
        family_event_lines(kids.drop_last()).push(kids.last())
    } else {
        family_event_lines(kids.drop_last())
    }
}

/// What the lines `kids` below a family at `level` put in it besides its
/// members: an event read from each event line, a note read from each `NOTE`
/// line and a non-event read from each `NO` line, in order; a citation of
/// the source that each `SOUR` line names; a multimedia link and an ordinance
/// for each `OBJE` and `SLGS` line;
/// the value of each `EXID` line; the last `NCHI`, `UID`, `RESN`, `REFN` and
/// `RIN` values; and the change date read from the last `CHAN` line.
pub open spec fn family_details(f: Family, s: Seq<char>, kids: Seq<(Seq<char>, TokState)>, level: u8) -> bool {
    let sub = spec_child_level(level);
    let evs = family_event_lines(kids);
    let notes = tag_states(kids, "NOTE"@);
    let nos = tag_states(kids, "NO"@);
    &&& f.events@.len() == evs.len()
    &&& forall|j: int| 0 <= j < evs.len() ==> (#[trigger] f.events@[j]).holds(s, detail_kids(s, evs[j].1, sub), sub)
    &&& f.notes@.len() == notes.len()
    &&& forall|j: int| 0 <= j < notes.len() ==> note_read_at(#[trigger] f.notes@[j], s, notes[j], sub)
    &&& f.non_events@.len() == nos.len()
    &&& forall|j: int| 0 <= j < nos.len()
        ==> (#[trigger] f.non_events@[j]).holds(s, value_subset_kids::<NonEvent>(s, nos[j], sub), sub)
    &&& f.sources@.len() == tag_states(kids, "SOUR"@).len()
    &&& forall|j: int| 0 <= j < tag_states(kids, "SOUR"@).len()
        ==> (#[trigger] f.sources@[j]).xref@ == value_at(s, tag_states(kids, "SOUR"@)[j])
    &&& f.multimedia@.len() == tag_states(kids, "OBJE"@).len()
    &&& f.lds_ordinances@.len() == tag_states(kids, "SLGS"@).len()
    &&& string_views(f.external_ids@) == tag_values(s, kids, "EXID"@)
    &&& text_of(f.num_children) == last_tag_value(s, kids, "NCHI"@)
    &&& text_of(f.uid) == last_tag_value(s, kids, "UID"@)
    &&& text_of(f.restriction) == last_tag_value(s, kids, "RESN"@)
    &&& text_of(f.user_reference_number) == last_tag_value(s, kids, "REFN"@)
    &&& text_of(f.automated_record_id) == last_tag_value(s, kids, "RIN"@)
    &&& match last_tag_state(kids, "CHAN"@) {
        Some(st) => f.change_date matches Some(c) && change_date_holds(
            c, (ChangeDate { date: None, note: None }), s, change_date_kids(s, st, sub), sub),
        None => f.change_date is None,
    }
}

/// What reading the line whose tag `t` is at `at` does to the details of a
/// family: the field of its tag takes what the line gives, and the others stay.
pub open spec fn family_line_read(prev: Family, cur: Family, s: Seq<char>, t: Seq<char>, at: TokState, level: u8) -> bool {
    let v = value_at(s, at);
    let sub = spec_child_level(level);
    let same = |f: Family| f.events == prev.events && f.notes == prev.notes && f.sources == prev.sources
        && f.multimedia == prev.multimedia && f.non_events == prev.non_events && f.lds_ordinances == prev.lds_ordinances
        && f.external_ids == prev.external_ids && f.uid == prev.uid && f.restriction == prev.restriction
        && f.user_reference_number == prev.user_reference_number && f.automated_record_id == prev.automated_record_id
        && f.num_children == prev.num_children && f.change_date == prev.change_date;
    ||| (t == "HUSB"@ || t == "WIFE"@ || t == "CHIL"@) && same(cur)
    ||| t == "NCHI"@ && same(Family { num_children: prev.num_children, ..cur }) && (cur.num_children matches Some(x) && x@ == v)
    ||| is_family_event_tag(t) && same(Family { events: prev.events, ..cur }) && cur.events@.len() == prev.events@.len() + 1
        && cur.events@.drop_last() == prev.events@ && cur.events@.last().holds(s, detail_kids(s, at, sub), sub)
    ||| t == "CHAN"@ && same(Family { change_date: prev.change_date, ..cur }) && (cur.change_date matches Some(c)
        && change_date_holds(c, (ChangeDate { date: None, note: None }), s, change_date_kids(s, at, sub), sub))
    ||| t == "SOUR"@ && same(Family { sources: prev.sources, ..cur }) && cur.sources@.len() == prev.sources@.len() + 1
        && cur.sources@.drop_last() == prev.sources@ && cur.sources@.last().xref@ == v
    ||| t == "NOTE"@ && same(Family { notes: prev.notes, ..cur }) && cur.notes@.len() == prev.notes@.len() + 1
        && cur.notes@.drop_last() == prev.notes@ && note_read_at(cur.notes@.last(), s, at, sub)
    ||| t == "OBJE"@ && same(Family { multimedia: prev.multimedia, ..cur })
        && cur.multimedia@.len() == prev.multimedia@.len() + 1
    ||| t == "NO"@ && same(Family { non_events: prev.non_events, ..cur })
        && cur.non_events@.len() == prev.non_events@.len() + 1 && cur.non_events@.drop_last() == prev.non_events@
        && cur.non_events@.last().holds(s, value_subset_kids::<NonEvent>(s, at, sub), sub)
    ||| t == "SLGS"@ && same(Family { lds_ordinances: prev.lds_ordinances, ..cur })
        && cur.lds_ordinances@.len() == prev.lds_ordinances@.len() + 1
    ||| t == "UID"@ && same(Family { uid: prev.uid, ..cur }) && (cur.uid matches Some(x) && x@ == v)
    ||| t == "RESN"@ && same(Family { restriction: prev.restriction, ..cur }) && (cur.restriction matches Some(x) && x@ == v)
    ||| t == "REFN"@ && same(Family { user_reference_number: prev.user_reference_number, ..cur })
        && (cur.user_reference_number matches Some(x) && x@ == v)
    ||| t == "RIN"@ && same(Family { automated_record_id: prev.automated_record_id, ..cur })
        && (cur.automated_record_id matches Some(x) && x@ == v)
    ||| t == "EXID"@ && same(Family { external_ids: prev.external_ids, ..cur })
        && string_views(cur.external_ids@) == string_views(prev.external_ids@).push(v)
}

/// Reading one line below a family keeps what `family_details` states.
#[verifier::rlimit(100)]
#[verifier::spinoff_prover]
proof fn lemma_family_line(prev: Family, cur: Family, s: Seq<char>, t: Seq<char>, at: TokState, level: u8)
    requires
        family_line_read(prev, cur, s, t, at, level),
    ensures
        forall|kids: Seq<(Seq<char>, TokState)>| family_details(prev, s, kids, level)
            ==> #[trigger] family_details(cur, s, kids.push((t, at)), level),
{
    reveal_strlit("HUSB");
    reveal_strlit("WIFE");
    reveal_strlit("CHIL");
    reveal_strlit("NCHI");
    reveal_strlit("CHAN");
    reveal_strlit("SOUR");
    reveal_strlit("NOTE");
    reveal_strlit("OBJE");
    reveal_strlit("NO");
    reveal_strlit("SLGS");
    reveal_strlit("UID");
    reveal_strlit("RESN");
    reveal_strlit("REFN");
    reveal_strlit("RIN");
    reveal_strlit("EXID");
    reveal_strlit("MARR");
    reveal_strlit("ANUL");
    reveal_strlit("CENS");
    reveal_strlit("DIV");
    reveal_strlit("DIVF");
    reveal_strlit("ENGA");
    reveal_strlit("MARB");
    reveal_strlit("MARC");
    reveal_strlit("MARL");
    reveal_strlit("MARS");
    reveal_strlit("RESI");
    reveal_strlit("EVEN");
    reveal_strlit("SEP");
    assert("HUSB"@.len() == 4 && "HUSB"@[0] == 'H' && "HUSB"@[1] == 'U' && "HUSB"@[2] == 'S' && "HUSB"@[3] == 'B');
    assert("WIFE"@.len() == 4 && "WIFE"@[0] == 'W' && "WIFE"@[1] == 'I' && "WIFE"@[2] == 'F' && "WIFE"@[3] == 'E');
    assert("CHIL"@.len() == 4 && "CHIL"@[0] == 'C' && "CHIL"@[1] == 'H' && "CHIL"@[2] == 'I' && "CHIL"@[3] == 'L');
    assert("NCHI"@.len() == 4 && "NCHI"@[0] == 'N' && "NCHI"@[1] == 'C' && "NCHI"@[2] == 'H' && "NCHI"@[3] == 'I');
    assert("CHAN"@.len() == 4 && "CHAN"@[0] == 'C' && "CHAN"@[1] == 'H' && "CHAN"@[2] == 'A' && "CHAN"@[3] == 'N');
    assert("SOUR"@.len() == 4 && "SOUR"@[0] == 'S' && "SOUR"@[1] == 'O' && "SOUR"@[2] == 'U' && "SOUR"@[3] == 'R');
    assert("NOTE"@.len() == 4 && "NOTE"@[0] == 'N' && "NOTE"@[1] == 'O' && "NOTE"@[2] == 'T' && "NOTE"@[3] == 'E');
    assert("OBJE"@.len() == 4 && "OBJE"@[0] == 'O' && "OBJE"@[1] == 'B' && "OBJE"@[2] == 'J' && "OBJE"@[3] == 'E');
    assert("NO"@.len() == 2 && "NO"@[0] == 'N' && "NO"@[1] == 'O');
    assert("SLGS"@.len() == 4 && "SLGS"@[0] == 'S' && "SLGS"@[1] == 'L' && "SLGS"@[2] == 'G' && "SLGS"@[3] == 'S');
    assert("UID"@.len() == 3 && "UID"@[0] == 'U' && "UID"@[1] == 'I' && "UID"@[2] == 'D');
    assert("RESN"@.len() == 4 && "RESN"@[0] == 'R' && "RESN"@[1] == 'E' && "RESN"@[2] == 'S' && "RESN"@[3] == 'N');
    assert("REFN"@.len() == 4 && "REFN"@[0] == 'R' && "REFN"@[1] == 'E' && "REFN"@[2] == 'F' && "REFN"@[3] == 'N');
    assert("RIN"@.len() == 3 && "RIN"@[0] == 'R' && "RIN"@[1] == 'I' && "RIN"@[2] == 'N');
    assert("EXID"@.len() == 4 && "EXID"@[0] == 'E' && "EXID"@[1] == 'X' && "EXID"@[2] == 'I' && "EXID"@[3] == 'D');
    assert("MARR"@.len() == 4 && "MARR"@[0] == 'M' && "MARR"@[1] == 'A' && "MARR"@[2] == 'R' && "MARR"@[3] == 'R');
    assert("ANUL"@.len() == 4 && "ANUL"@[0] == 'A' && "ANUL"@[1] == 'N' && "ANUL"@[2] == 'U' && "ANUL"@[3] == 'L');
    assert("CENS"@.len() == 4 && "CENS"@[0] == 'C' && "CENS"@[1] == 'E' && "CENS"@[2] == 'N' && "CENS"@[3] == 'S');
    assert("DIV"@.len() == 3 && "DIV"@[0] == 'D' && "DIV"@[1] == 'I' && "DIV"@[2] == 'V');
    assert("DIVF"@.len() == 4 && "DIVF"@[0] == 'D' && "DIVF"@[1] == 'I' && "DIVF"@[2] == 'V' && "DIVF"@[3] == 'F');
    assert("ENGA"@.len() == 4 && "ENGA"@[0] == 'E' && "ENGA"@[1] == 'N' && "ENGA"@[2] == 'G' && "ENGA"@[3] == 'A');
    assert("MARB"@.len() == 4 && "MARB"@[0] == 'M' && "MARB"@[1] == 'A' && "MARB"@[2] == 'R' && "MARB"@[3] == 'B');
    assert("MARC"@.len() == 4 && "MARC"@[0] == 'M' && "MARC"@[1] == 'A' && "MARC"@[2] == 'R' && "MARC"@[3] == 'C');
    assert("MARL"@.len() == 4 && "MARL"@[0] == 'M' && "MARL"@[1] == 'A' && "MARL"@[2] == 'R' && "MARL"@[3] == 'L');
    assert("MARS"@.len() == 4 && "MARS"@[0] == 'M' && "MARS"@[1] == 'A' && "MARS"@[2] == 'R' && "MARS"@[3] == 'S');
    assert("RESI"@.len() == 4 && "RESI"@[0] == 'R' && "RESI"@[1] == 'E' && "RESI"@[2] == 'S' && "RESI"@[3] == 'I');
    assert("EVEN"@.len() == 4 && "EVEN"@[0] == 'E' && "EVEN"@[1] == 'V' && "EVEN"@[2] == 'E' && "EVEN"@[3] == 'N');
    assert("SEP"@.len() == 3 && "SEP"@[0] == 'S' && "SEP"@[1] == 'E' && "SEP"@[2] == 'P');
    let kid = (t, at);
    assert forall|kids: Seq<(Seq<char>, TokState)>| family_details(prev, s, kids, level) implies #[trigger] family_details(
        cur,
        s,
        kids.push(kid),
        level,
    ) by {
        lemma_kids_push(s, kids, kid);
        assert(kids.push(kid).drop_last() =~= kids);
        let sub = spec_child_level(level);
        let e0 = family_event_lines(kids);
        let e1 = family_event_lines(kids.push(kid));
        if is_family_event_tag(t) {
            assert(e1 == e0.push(kid));
            assert forall|j: int| 0 <= j < e1.len() implies (#[trigger] cur.events@[j]).holds(s, detail_kids(s, e1[j].1, sub), sub) by {
                if j < e0.len() {
                    assert(cur.events@[j] == cur.events@.drop_last()[j]);
                }
            }
        } else {
            assert(e1 == e0);
        }
        let n0 = tag_states(kids, "NOTE"@);
        let n1 = tag_states(kids.push(kid), "NOTE"@);
        if t == "NOTE"@ {
            assert forall|j: int| 0 <= j < n1.len() implies note_read_at(#[trigger] cur.notes@[j], s, n1[j], sub) by {
                if j < n0.len() {
                    assert(cur.notes@[j] == cur.notes@.drop_last()[j]);
                }
            }
        }
        let c0 = tag_states(kids, "SOUR"@);
        let c1 = tag_states(kids.push(kid), "SOUR"@);
        if t == "SOUR"@ {
            assert forall|j: int| 0 <= j < c1.len() implies (#[trigger] cur.sources@[j]).xref@ == value_at(s, c1[j]) by {
                if j < c0.len() {
                    assert(cur.sources@[j] == cur.sources@.drop_last()[j]);
                }
            }
        }
        let o0 = tag_states(kids, "NO"@);
        let o1 = tag_states(kids.push(kid), "NO"@);
        if t == "NO"@ {
            assert forall|j: int| 0 <= j < o1.len() implies (#[trigger] cur.non_events@[j]).holds(
                s, value_subset_kids::<NonEvent>(s, o1[j], sub), sub) by {
                if j < o0.len() {
                    assert(cur.non_events@[j] == cur.non_events@.drop_last()[j]);
                }
            }
        }
    }
}

impl TagHandler for Family {
    fn handle_tag(&mut self, tag: &str, tokenizer: &mut Tokenizer, level: u8) -> (r: Result<(), GedcomError>)
        ensures
            r is Ok ==> family_tag_end(old(tokenizer).input(), old(tokenizer).state(), tag@, level)
                == Ok::<TokState, ()>(final(tokenizer).state()),
            r is Ok ==> members_after(*old(self), *final(self), old(tokenizer).input(), old(tokenizer).state(), tag@),
            r is Ok ==> family_line_read(*old(self), *final(self), old(tokenizer).input(), tag@, old(tokenizer).state(), level),
            r is Ok <==> (family_tag_end(old(tokenizer).input(), old(tokenizer).state(), tag@, level) is Ok
                && !(tag@ == "HUSB"@ && old(self).individual1 is Some) && !(tag@ == "WIFE"@ && old(self).individual2 is Some)),
    {
        proof {
            reveal_strlit("HUSB");
            reveal_strlit("WIFE");
            reveal_strlit("CHIL");
            assert("HUSB"@[0] != "WIFE"@[0] && "HUSB"@[0] != "CHIL"@[0] && "WIFE"@[0] != "CHIL"@[0]);
            assert("HUSB"@ != "WIFE"@ && "HUSB"@ != "CHIL"@ && "WIFE"@ != "CHIL"@);
        }
        let ghost prev = *self;
        let ghost s = old(tokenizer).input();
        let ghost at = old(tokenizer).state();
        let sub = child_level(level);
        if str_eq(tag, "HUSB") {
            let x = tokenizer.take_line_value()?;
            self.set_individual1(x, tokenizer.line())?;
            proof {
                assert(family_line_read(prev, *self, s, tag@, at, level));
            }
        } else if str_eq(tag, "WIFE") {
            let x = tokenizer.take_line_value()?;
            self.set_individual2(x, tokenizer.line())?;
            proof {
                assert(family_line_read(prev, *self, s, tag@, at, level));
            }
        } else if str_eq(tag, "CHIL") {
            let x = tokenizer.take_line_value()?;
            let ghost before = self.children@;
            self.add_child(x);
            assert(string_views(self.children@) =~= string_views(before).push(x@));
            proof {
                assert(family_line_read(prev, *self, s, tag@, at, level));
            }
        } else if str_eq(tag, "NCHI") {
            self.num_children = Some(tokenizer.take_line_value()?);
            proof {
                assert(family_line_read(prev, *self, s, tag@, at, level));
            }
        } else if is_event_tag(tag) {
            let d = Detail::new(tokenizer, sub, tag)?;
            self.add_event(d);
            assert(self.events@.drop_last() =~= prev.events@);
            proof {
                assert(family_line_read(prev, *self, s, tag@, at, level));
            }
        } else if str_eq(tag, "CHAN") {
            self.change_date = Some(ChangeDate::new(tokenizer, sub)?);
            proof {
                assert(family_line_read(prev, *self, s, tag@, at, level));
            }
        } else if str_eq(tag, "SOUR") {
            let c = Citation::new(tokenizer, sub)?;
            self.add_source(c);
            assert(self.sources@.drop_last() =~= prev.sources@);
            proof {
                assert(family_line_read(prev, *self, s, tag@, at, level));
            }
        } else if str_eq(tag, "NOTE") {
            let n = Note::new(tokenizer, sub)?;
            self.add_note(n);
            assert(self.notes@.drop_last() =~= prev.notes@);
            proof {
                assert(family_line_read(prev, *self, s, tag@, at, level));
            }
        } else if str_eq(tag, "OBJE") {
            let m = Multimedia::new(tokenizer, sub, None)?;
            self.add_multimedia(m);
            proof {
                assert(family_line_read(prev, *self, s, tag@, at, level));
            }
        } else if str_eq(tag, "NO") {
            let n = NonEvent::new(tokenizer, sub)?;
            self.non_events.push(n);
            assert(self.non_events@.drop_last() =~= prev.non_events@);
            proof {
                assert(family_line_read(prev, *self, s, tag@, at, level));
            }
        } else if str_eq(tag, "SLGS") {
            let o = LdsOrdinance::new(tokenizer, sub, tag)?;
            self.lds_ordinances.push(o);
            proof {
                assert(family_line_read(prev, *self, s, tag@, at, level));
            }
        } else if str_eq(tag, "UID") {
            self.uid = Some(tokenizer.take_line_value()?);
            proof {
                assert(family_line_read(prev, *self, s, tag@, at, level));
            }
        } else if str_eq(tag, "RESN") {
            self.restriction = Some(tokenizer.take_line_value()?);
            proof {
                assert(family_line_read(prev, *self, s, tag@, at, level));
            }
        } else if str_eq(tag, "REFN") {
            self.user_reference_number = Some(tokenizer.take_line_value()?);
            proof {
                assert(family_line_read(prev, *self, s, tag@, at, level));
            }
        } else if str_eq(tag, "RIN") {
            self.automated_record_id = Some(tokenizer.take_line_value()?);
            proof {
                assert(family_line_read(prev, *self, s, tag@, at, level));
            }
        } else if str_eq(tag, "EXID") {
            let id = tokenizer.take_line_value()?;
            self.external_ids.push(id);
            assert(string_views(self.external_ids@) =~= string_views(prev.external_ids@).push(id@));
            proof {
                assert(family_line_read(prev, *self, s, tag@, at, level));
            }
        } else {
            return Err(tag_error("Unhandled Family Tag: ", tag, tokenizer.line()));
        }
        Ok(())
    }
}

impl Parser for Family {
    fn parse(&mut self, tokenizer: &mut Tokenizer, level: u8) -> (r: Result<(), GedcomError>) 
        ensures
            r is Ok ==> at_level_end(*final(tokenizer), level),
            r is Ok <==> (step(old(tokenizer).input(), old(tokenizer).state()) matches Ok(st1)
                && family_accepted_into(*old(self), old(tokenizer).input(), st1, level)),
            r is Ok ==> (step(old(tokenizer).input(), old(tokenizer).state()) matches Ok(st1)
                && family_walk(old(tokenizer).input(), st1, level) matches Ok((_, kids))
                && members_over(*old(self), *final(self), old(tokenizer).input(), kids)),
    {
        tokenizer.next_token()?;
        let custom = self.read_lines(tokenizer, level)?;
        self.custom_data = custom;
        Ok(())
    }
}

} // verus!
