//! Individuals and what is recorded of them.
use vstd::prelude::*;
use crate::parser::last_tag_state;
use crate::parser::lemma_kids_push;
use crate::parser::tag_states;
use crate::parser::step_subset_kids;
use crate::parser::value_subset_kids;
use crate::types::event::detail::detail_kids;
use crate::types::date::change_date::{change_date_holds, change_date_kids};
use crate::types::note::note_read_at;
use crate::types::event::event_of_tag;
use crate::types::event::Event;
use crate::types::individual::attribute::attribute_of_tag;
use crate::types::individual::attribute::IndividualAttribute;
use crate::types::individual::gender::gender_of_code;
use crate::types::individual::gender::GenderType;
use crate::error::GedcomError;
use crate::types::shared::{shared_end, Shared};
use crate::parser::{after_value_subset_end, at_level_end, child_level, ends_within, parse_subset, record_read, same_text, spec_child_level, step_subset_end, subset_step, subset_walk, tag_error, value_at, value_subset_end, Parser, SubsetItem, TagHandler};
use crate::types::family::after_lines;
use crate::text::{is_text, str_eq};
use crate::tokenizer::{state_measure, step, SpecToken, Tokenizer, TokState};
use crate::types::custom::UserDefinedTag;
use crate::types::date::change_date::ChangeDate;
use crate::types::event::detail::{detail_end, Detail};
use crate::types::event::util::HasEvents;
use crate::types::individual::association::Association;
use crate::types::individual::attribute::detail::AttributeDetail;
use crate::types::individual::family_link::FamilyLink;
use crate::types::individual::gender::{gender_end, Gender};
use crate::types::individual::name::{full_name_of, Name};
use crate::types::multimedia::Multimedia;
use crate::types::note::Note;
use crate::types::source::citation::Citation;
use crate::types::Xref;

pub mod association;
pub mod attribute;
pub mod family_link;
pub mod gender;
pub mod name;

verus! {

/// An individual (`INDI`): names, sex, events, attributes, and links to the
/// families it belongs to.
#[derive(Clone, Debug)]
pub struct Individual {
    pub xref: Option<Xref>,
    pub name: Option<Name>,
    pub sex: Option<Gender>,
    pub families: Vec<FamilyLink>,
    pub attributes: Vec<AttributeDetail>,
    pub source: Vec<Citation>,
    pub events: Vec<Detail>,
    pub multimedia: Vec<Multimedia>,
    pub last_updated: Option<String>,
    pub note: Option<Note>,
    pub change_date: Option<ChangeDate>,
    pub associations: Vec<Association>,
    pub custom_data: Vec<Box<UserDefinedTag>>,
}

impl Default for Individual {
    fn default() -> (r: Self)
        ensures
            r.xref is None && r.name is None && r.sex is None,
            r.families@.len() == 0 && r.attributes@.len() == 0 && r.source@.len() == 0,
            r.events@.len() == 0 && r.multimedia@.len() == 0 && r.last_updated is None,
            r.note is None && r.change_date is None && r.custom_data@.len() == 0,
            r.associations@.len() == 0,
    {
        Individual {
            xref: None,
            name: None,
            sex: None,
            families: Vec::new(),
            attributes: Vec::new(),
            source: Vec::new(),
            events: Vec::new(),
            multimedia: Vec::new(),
            last_updated: None,
            note: None,
            change_date: None,
            associations: Vec::new(),
            custom_data: Vec::new(),
        }
    }
}

/// Whether one of `links` is to the family `xref`.
pub open spec fn links_to(links: Seq<FamilyLink>, xref: Seq<char>) -> bool {
    exists|i: int| 0 <= i < links.len() && #[trigger] links[i].xref@ == xref
}

/// The tags of the events of an individual.
pub open spec fn is_individual_event_tag(tag: Seq<char>) -> bool {
    tag == "ADOP"@ || tag == "BIRT"@ || tag == "BAPM"@ || tag == "BARM"@ || tag == "BASM"@
        || tag == "BLES"@ || tag == "BURI"@ || tag == "CENS"@ || tag == "CHR"@ || tag == "CHRA"@
        || tag == "CONF"@ || tag == "CREM"@ || tag == "DEAT"@ || tag == "EMIG"@ || tag == "FCOM"@
        || tag == "GRAD"@ || tag == "IMMI"@ || tag == "NATU"@ || tag == "ORDN"@ || tag == "RETI"@
        || tag == "RESI"@ || tag == "PROB"@ || tag == "WILL"@ || tag == "EVEN"@ || tag == "MARR"@
}

fn is_event_tag(tag: &str) -> (r: bool)
    ensures
        r == is_individual_event_tag(tag@),
        r ==> crate::types::event::event_of_tag(tag@) is Some,
{
    str_eq(tag, "ADOP") || str_eq(tag, "BIRT") || str_eq(tag, "BAPM") || str_eq(tag, "BARM")
        || str_eq(tag, "BASM") || str_eq(tag, "BLES") || str_eq(tag, "BURI") || str_eq(tag, "CENS")
        || str_eq(tag, "CHR") || str_eq(tag, "CHRA") || str_eq(tag, "CONF") || str_eq(tag, "CREM")
        || str_eq(tag, "DEAT") || str_eq(tag, "EMIG") || str_eq(tag, "FCOM") || str_eq(tag, "GRAD")
        || str_eq(tag, "IMMI") || str_eq(tag, "NATU") || str_eq(tag, "ORDN") || str_eq(tag, "RETI")
        || str_eq(tag, "RESI") || str_eq(tag, "PROB") || str_eq(tag, "WILL") || str_eq(tag, "EVEN")
        || str_eq(tag, "MARR")
}

/// The tags of the attributes of an individual.
pub open spec fn is_individual_attribute_tag(tag: Seq<char>) -> bool {
    tag == "CAST"@ || tag == "DSCR"@ || tag == "EDUC"@ || tag == "IDNO"@ || tag == "NATI"@
        || tag == "NCHI"@ || tag == "NMR"@ || tag == "OCCU"@ || tag == "PROP"@ || tag == "RELI"@
        || tag == "SSN"@ || tag == "TITL"@ || tag == "FACT"@
}

/// Where reading an individual at `level` goes on after handling the
/// standard tag `t` at `st`; `Err` where handling it fails, and for a tag
/// that it does not read.
pub open spec fn individual_tag_end(s: Seq<char>, st: TokState, t: Seq<char>, level: u8) -> Result<TokState, ()> {
    if t == "FAMC"@ || t == "FAMS"@ {
        value_subset_end::<FamilyLink>(s, st, spec_child_level(level))
    } else if t == "NAME"@ {
        value_subset_end::<Name>(s, st, spec_child_level(level))
    } else if t == "SEX"@ {
        gender_end(s, st, spec_child_level(level))
    } else if is_individual_event_tag(t) {
        detail_end(s, st, spec_child_level(level))
    } else if is_individual_attribute_tag(t) {
        after_value_subset_end::<AttributeDetail>(s, st, spec_child_level(level))
    } else if t == "CHAN"@ {
        shared_end(Shared::ChangeDate, s, st, spec_child_level(level))
    } else if t == "SOUR"@ {
        shared_end(Shared::Citation, s, st, spec_child_level(level))
    } else if t == "OBJE"@ {
        shared_end(Shared::Multimedia, s, st, spec_child_level(level))
    } else if t == "NOTE"@ {
        shared_end(Shared::Note, s, st, spec_child_level(level))
    } else if t == "ASSO"@ {
        value_subset_end::<Association>(s, st, spec_child_level(level))
    } else {
        Err(())
    }
}

/// The lines below an individual at `level`, from `st` on: where reading
/// ends, and each standard tag met, with the state at it, in order.
pub open spec fn individual_walk(s: Seq<char>, st: TokState, level: u8) -> Result<(TokState, Seq<(Seq<char>, TokState)>), ()>
    decreases state_measure(s, st),
{
    match subset_walk(s, st, level) {
        Ok(st1) => match st1.token {
            SpecToken::Tag(t) => match individual_tag_end(s, st1, t, level) {
                Ok(st2) => if state_measure(s, st2) < state_measure(s, st) {
                    match individual_walk(s, st2, level) {
                        Ok((e, rest)) => Ok((e, seq![(t, st1)] + rest)),
                        Err(_) => Err(()),
                    }
                } else {
                    Err(())
                },
                Err(_) => Err(()),
            },
            _ => Ok((st1, Seq::empty())),
        },
        Err(_) => Err(()),
    }
}

/// Where reading an individual at `level` stops, from its tag at `st`; `Err`
/// where reading fails.
pub open spec fn individual_end(s: Seq<char>, st: TokState, level: u8) -> Result<TokState, ()> {
    match step(s, st) {
        Ok(st1) => match individual_walk(s, st1, level) {
            Ok((e, _)) => Ok(e),
            Err(_) => Err(()),
        },
        Err(_) => Err(()),
    }
}

/// How an individual's handler reads a standard tag, in the order in which
/// it tests them.
pub enum IndividualLine {
    FamilyLink,
    Name,
    Sex,
    Event,
    Attribute,
    ChangeDate,
    Citation,
    Multimedia,
    Note,
    Association,
    Other,
}

/// How an individual's handler reads the tag `t`.
pub open spec fn individual_line(t: Seq<char>) -> IndividualLine {
    if t == "FAMC"@ || t == "FAMS"@ {
        IndividualLine::FamilyLink
    } else if t == "NAME"@ {
        IndividualLine::Name
    } else if t == "SEX"@ {
        IndividualLine::Sex
    } else if is_individual_event_tag(t) {
        IndividualLine::Event
    } else if is_individual_attribute_tag(t) {
        IndividualLine::Attribute
    } else if t == "CHAN"@ {
        IndividualLine::ChangeDate
    } else if t == "SOUR"@ {
        IndividualLine::Citation
    } else if t == "OBJE"@ {
        IndividualLine::Multimedia
    } else if t == "NOTE"@ {
        IndividualLine::Note
    } else if t == "ASSO"@ {
        IndividualLine::Association
    } else {
        IndividualLine::Other
    }
}

/// The lines among `kids` that the handler reads as `k`, in order.
pub open spec fn individual_lines(kids: Seq<(Seq<char>, TokState)>, k: IndividualLine) -> Seq<(Seq<char>, TokState)>
    decreases kids.len(),
{
    if kids.len() == 0 {
        Seq::empty()
    } else if individual_line(kids.last().0) == k {
        individual_lines(kids.drop_last(), k).push(kids.last())
    } else {
        individual_lines(kids.drop_last(), k)
    }
}

/// One more line joins those of its kind, and no other.
proof fn lemma_individual_lines_push(kids: Seq<(Seq<char>, TokState)>, kid: (Seq<char>, TokState))
    ensures
        forall|k: IndividualLine| #[trigger] individual_lines(kids.push(kid), k) == if individual_line(kid.0) == k {
            individual_lines(kids, k).push(kid)
        } else {
            individual_lines(kids, k)
        },
{
    assert(kids.push(kid).drop_last() =~= kids);
}

/// The xrefs of family links, in order.
pub open spec fn link_xrefs(links: Seq<FamilyLink>) -> Seq<Seq<char>> {
    links.map_values(|l: FamilyLink| l.xref@)
}

/// The families that the `FAMC` and `FAMS` lines among `kids` name, each
/// once, in the order of its first line.
pub open spec fn linked_families(s: Seq<char>, kids: Seq<(Seq<char>, TokState)>) -> Seq<Seq<char>>
    decreases kids.len(),
{
    if kids.len() == 0 {
        Seq::empty()
    } else {
        let before = linked_families(s, kids.drop_last());
        let (t, st) = kids.last();
        if (t == "FAMC"@ || t == "FAMS"@) && !before.contains(value_at(s, st)) {
            before.push(value_at(s, st))
        } else {
            before
        }
    }
}

/// Whether a link names `xref` is whether the xrefs of the links hold it.
proof fn lemma_links_to(links: Seq<FamilyLink>, x: Seq<char>)
    ensures
        links_to(links, x) == link_xrefs(links).contains(x),
{
    if links_to(links, x) {
        let i = choose|i: int| 0 <= i < links.len() && #[trigger] links[i].xref@ == x;
        assert(link_xrefs(links)[i] == x);
    }
    if link_xrefs(links).contains(x) {
        let i = choose|i: int| 0 <= i < link_xrefs(links).len() && link_xrefs(links)[i] == x;
        assert(links[i].xref@ == x);
    }
}

fn is_attribute_tag(tag: &str) -> (r: bool)
    ensures
        r == is_individual_attribute_tag(tag@),
        r ==> crate::types::individual::attribute::attribute_of_tag(tag@) is Some,
{
    str_eq(tag, "CAST") || str_eq(tag, "DSCR") || str_eq(tag, "EDUC") || str_eq(tag, "IDNO")
        || str_eq(tag, "NATI") || str_eq(tag, "NCHI") || str_eq(tag, "NMR") || str_eq(tag, "OCCU")
        || str_eq(tag, "PROP") || str_eq(tag, "RELI") || str_eq(tag, "SSN") || str_eq(tag, "TITL")
        || str_eq(tag, "FACT")
}

/// What an individual holds does not depend on its cross-reference or its
/// user-defined structures.
proof fn lemma_holds_beside_record(a: Individual, b: Individual)
    requires
        b == (Individual { xref: b.xref, custom_data: b.custom_data, ..a }),
    ensures
        forall|s: Seq<char>, kids: Seq<(Seq<char>, TokState)>, level: u8|
            #[trigger] b.holds(s, kids, level) == a.holds(s, kids, level),
{
    reveal(individual_contents);
}

impl Individual {
    /// Reads an `INDI` record at `level` whose cross-reference is `xref`.
    #[verifier::rlimit(40)]
    pub fn new(tokenizer: &mut Tokenizer, level: u8, xref: Option<Xref>) -> (r: Result<Individual, GedcomError>)
        requires
            old(tokenizer).wf(),
            old(tokenizer).token() is Tag,
        ensures
            record_read(*old(tokenizer), *final(tokenizer), r is Ok, level),
            r matches Ok(i) ==> i.xref == xref,
            r matches Ok(i) ==> (step(old(tokenizer).input(), old(tokenizer).state()) matches Ok(st1)
                && individual_walk(old(tokenizer).input(), st1, level) matches Ok((_, kids))
                && link_xrefs(i.families@) == linked_families(old(tokenizer).input(), kids)),
            r is Ok <==> (step(old(tokenizer).input(), old(tokenizer).state()) matches Ok(st1)
                && individual_walk(old(tokenizer).input(), st1, level) is Ok),
            r is Ok ==> individual_end(old(tokenizer).input(), old(tokenizer).state(), level) == Ok::<TokState, ()>(final(tokenizer).state()),
            r matches Ok(i) ==> (step(old(tokenizer).input(), old(tokenizer).state()) matches Ok(st1)
                && individual_walk(old(tokenizer).input(), st1, level) matches Ok((_, kids))
                && i.holds(old(tokenizer).input(), kids, level)),
    {
        let mut indi = Individual::default();
        proof {
            assert(indi.events@.map_values(|d: Detail| d.event) =~= Seq::<Event>::empty());
            assert(indi.attributes@.map_values(|a: AttributeDetail| a.attribute) =~= Seq::<IndividualAttribute>::empty());
            let none = Seq::<(Seq<char>, TokState)>::empty();
            assert(individual_lines(none, IndividualLine::Event).map_values(|k: (Seq<char>, TokState)| event_of_tag(k.0)->0)
                =~= Seq::<Event>::empty());
            assert(individual_lines(none, IndividualLine::Attribute).map_values(|k: (Seq<char>, TokState)| attribute_of_tag(k.0)->0)
                =~= Seq::<IndividualAttribute>::empty());
            assert(individual_contents(indi, tokenizer.input(), none, level)) by {
                reveal(individual_contents);
            }
            assert(indi.holds(tokenizer.input(), none, level));
        }
        tokenizer.next_token()?;
        let custom = indi.read_lines(tokenizer, level)?;
        let ghost read = indi;
        indi.custom_data = custom;
        indi.xref = xref;
        proof {
            lemma_holds_beside_record(read, indi);
        }
        Ok(indi)
    }

    /// Reads the lines below the individual, up to a line at `level` or less.
    #[verifier::rlimit(100)]
    #[verifier::spinoff_prover]
    fn read_lines(&mut self, tokenizer: &mut Tokenizer, level: u8) -> (r: Result<Vec<Box<UserDefinedTag>>, GedcomError>)
        requires
            old(tokenizer).wf(),
            old(self).families@.len() == 0,
        ensures
            same_text(*old(tokenizer), *final(tokenizer)),
            r is Ok ==> final(tokenizer).measure() <= old(tokenizer).measure(),
            r is Ok ==> at_level_end(*final(tokenizer), level),
            r is Ok ==> ends_within(*old(tokenizer), *final(tokenizer), level),
            r is Ok ==> (individual_walk(old(tokenizer).input(), old(tokenizer).state(), level) matches Ok((e, kids))
                && e == final(tokenizer).state() && link_xrefs(final(self).families@) == linked_families(old(tokenizer).input(), kids)),
            r is Ok <==> individual_walk(old(tokenizer).input(), old(tokenizer).state(), level) is Ok,
            r is Ok && old(self).holds(old(tokenizer).input(), Seq::empty(), level) ==> (individual_walk(old(tokenizer).input(), old(tokenizer).state(), level) matches Ok((_, kids))
                && final(self).holds(old(tokenizer).input(), kids, level)),
    {
        let ghost s = old(tokenizer).input();
        let ghost start = old(tokenizer).state();
        let ghost mut seen: Seq<(Seq<char>, TokState)> = Seq::empty();
        let mut custom: Vec<Box<UserDefinedTag>> = Vec::new();
        proof {
            assert(seen + Seq::<(Seq<char>, TokState)>::empty() =~= seen);
            assert(link_xrefs(self.families@) =~= Seq::empty());
        }
        loop
            invariant_except_break
                individual_walk(s, start, level) == after_lines(seen, individual_walk(s, tokenizer.state(), level)),
            invariant
                same_text(*old(tokenizer), *tokenizer),
                tokenizer.measure() <= old(tokenizer).measure(),
                ends_within(*old(tokenizer), *tokenizer, level),
                s == tokenizer.input(),
                start == old(tokenizer).state(),
                link_xrefs(self.families@) == linked_families(s, seen),
                old(self).holds(s, Seq::empty(), level) ==> self.holds(s, seen, level),
            ensures
                at_level_end(*tokenizer, level),
                individual_walk(s, start, level) == Ok::<(TokState, Seq<(Seq<char>, TokState)>), ()>((tokenizer.state(), seen)),
            decreases tokenizer.measure(),
        {
            let ghost before = tokenizer.state();
            match subset_step(tokenizer, level, &mut custom)? {
                SubsetItem::Done => {
                    proof {
                        tokenizer.lemma_cursor();
                        assert(seen + Seq::<(Seq<char>, TokState)>::empty() =~= seen);
                    }
                    break;
                },
                SubsetItem::Tag(tag) => {
                    let ghost at_tag = tokenizer.state();
                    self.handle_tag(tag.as_str(), tokenizer, level)?;
                    proof {
                        let kid = (tag@, at_tag);
                        let rest = individual_walk(s, tokenizer.state(), level);
                        assert(individual_walk(s, before, level) == after_lines(seq![kid], rest));
                        if let Ok((e, r)) = rest {
                            assert(seen + (seq![kid] + r) =~= seen.push(kid) + r);
                        }
                        assert(seen.push(kid).drop_last() =~= seen);
                        seen = seen.push(kid);
                    }
                },
            }
        }
        Ok(custom)
    }

    /// Adds a link to a family, unless a link to the same family is there already.
    pub fn add_family(&mut self, link: FamilyLink)
        ensures
            links_to(old(self).families@, link.xref@) ==> final(self).families@ == old(self).families@,
            !links_to(old(self).families@, link.xref@) ==> final(self).families@ == old(self).families@.push(link),
            final(self).xref == old(self).xref,
            final(self).events@ == old(self).events@,
            *final(self) == (Individual { families: final(self).families, ..*old(self) }),
    {
        let mut do_add = true;
        let mut i: usize = 0;
        while i < self.families.len()
            invariant
                i <= self.families@.len(),
                do_add == !(exists|j: int| 0 <= j < i && #[trigger] self.families@[j].xref@ == link.xref@),
            decreases self.families@.len() - i,
        {
            if str_eq(self.families[i].xref.as_str(), link.xref.as_str()) {
                do_add = false;
            }
            i = i + 1;
        }
        if do_add {
            self.families.push(link);
        }
    }

    /// Adds a source of the individual.
    pub fn add_source_citation(&mut self, sour: Citation)
        ensures
            final(self).source@ == old(self).source@.push(sour),
            final(self).xref == old(self).xref,
            final(self).families == old(self).families,
            *final(self) == (Individual { source: final(self).source, ..*old(self) }),
    {
        self.source.push(sour);
    }

    /// Adds a multimedia link.
    pub fn add_multimedia(&mut self, multimedia: Multimedia)
        ensures
            final(self).multimedia@ == old(self).multimedia@.push(multimedia),
            final(self).xref == old(self).xref,
            final(self).families == old(self).families,
            *final(self) == (Individual { multimedia: final(self).multimedia, ..*old(self) }),
    {
        self.multimedia.push(multimedia);
    }

    /// Adds an attribute.
    pub fn add_attribute(&mut self, attribute: AttributeDetail)
        ensures
            final(self).attributes@ == old(self).attributes@.push(attribute),
            final(self).xref == old(self).xref,
            final(self).families == old(self).families,
            *final(self) == (Individual { attributes: final(self).attributes, ..*old(self) }),
    {
        self.attributes.push(attribute);
    }

    /// Adds an association with another individual.
    pub fn add_association(&mut self, association: Association)
        ensures
            final(self).associations@ == old(self).associations@.push(association),
            final(self).xref == old(self).xref,
            final(self).families == old(self).families,
            *final(self) == (Individual { associations: final(self).associations, ..*old(self) }),
    {
        self.associations.push(association);
    }

    /// The full name of the individual: that of its name, without slashes
    /// and without white space at its ends.
    pub fn full_name(&self) -> (r: Option<String>)
        ensures
            match self.name {
                Some(n) => match n.value {
                    Some(v) => is_text(r, full_name_of(v@)),
                    None => r is None,
                },
                None => r is None,
            },
    {
        match &self.name {
            Some(n) => n.full_name(),
            None => None,
        }
    }

    /// The links to the families of the individual.
    pub fn families(&self) -> (r: &[FamilyLink])
        ensures
            r@ == self.families@,
    {
        self.families.as_slice()
    }
}

impl HasEvents for Individual {
    open spec fn event_list(&self) -> Seq<Detail> {
        self.events@
    }

    open spec fn accepts_event(&self, event: Detail) -> bool {
        true
    }

    fn add_event(&mut self, event: Detail)
        ensures
            final(self).families == old(self).families,
            *final(self) == (Individual { events: final(self).events, ..*old(self) }),
    {
        self.events.push(event);
    }

    fn events(&self) -> (r: Vec<Detail>) {
        let r = self.events.clone();
        assert(r@.len() == self.events@.len());
        assert(self.event_list() == self.events@);
        r
    }
}

/// What the lines `kids` below an individual at `level` put in it: each
/// event as its `Detail` reads it, each association as read, a citation of
/// the source that each `SOUR` line names, and the note and change date read
/// from the last `NOTE` and `CHAN` lines.
#[verifier::opaque]
pub open spec fn individual_contents(i: Individual, s: Seq<char>, kids: Seq<(Seq<char>, TokState)>, level: u8) -> bool {
    let sub = spec_child_level(level);
    let evs = individual_lines(kids, IndividualLine::Event);
    let asso = individual_lines(kids, IndividualLine::Association);
    let notes = individual_lines(kids, IndividualLine::Note);
    let chans = individual_lines(kids, IndividualLine::ChangeDate);
    let cits = individual_lines(kids, IndividualLine::Citation);
    &&& i.events@.len() == evs.len()
    &&& forall|j: int| 0 <= j < evs.len() ==> (#[trigger] i.events@[j]).holds(s, detail_kids(s, evs[j].1, sub), sub)
    &&& i.associations@.len() == asso.len()
    &&& forall|j: int| 0 <= j < asso.len()
        ==> (#[trigger] i.associations@[j]).holds(s, value_subset_kids::<Association>(s, asso[j].1, sub), sub)
    &&& i.source@.len() == cits.len()
    &&& forall|j: int| 0 <= j < cits.len() ==> (#[trigger] i.source@[j]).xref@ == value_at(s, cits[j].1)
    &&& (notes.len() > 0 ==> (i.note matches Some(n) && note_read_at(n, s, notes.last().1, sub)))
    &&& (chans.len() > 0 ==> (i.change_date matches Some(c) && change_date_holds(
        c, (ChangeDate { date: None, note: None }), s, change_date_kids(s, chans.last().1, sub), sub)))
}

/// What reading the line `kid` does to the contents of an individual.
spec fn individual_line_effect(prev: Individual, cur: Individual, s: Seq<char>, kid: (Seq<char>, TokState), level: u8, k: IndividualLine) -> bool {
    let sub = spec_child_level(level);
    &&& (if k == IndividualLine::Event {
        cur.events@.len() == prev.events@.len() + 1 && cur.events@.drop_last() == prev.events@
            && cur.events@.last().holds(s, detail_kids(s, kid.1, sub), sub)
    } else {
        cur.events == prev.events
    })
    &&& (if k == IndividualLine::Association {
        cur.associations@.len() == prev.associations@.len() + 1 && cur.associations@.drop_last() == prev.associations@
            && cur.associations@.last().holds(s, value_subset_kids::<Association>(s, kid.1, sub), sub)
    } else {
        cur.associations == prev.associations
    })
    &&& (if k == IndividualLine::Citation {
        cur.source@.len() == prev.source@.len() + 1 && cur.source@.drop_last() == prev.source@
            && cur.source@.last().xref@ == value_at(s, kid.1)
    } else {
        cur.source == prev.source
    })
    &&& (if k == IndividualLine::Note {
        cur.note matches Some(n) && note_read_at(n, s, kid.1, sub)
    } else {
        cur.note == prev.note
    })
    &&& (if k == IndividualLine::ChangeDate {
        cur.change_date matches Some(c) && change_date_holds(
            c, (ChangeDate { date: None, note: None }), s, change_date_kids(s, kid.1, sub), sub)
    } else {
        cur.change_date == prev.change_date
    })
}

/// What reading the line `kid`, of the kind `k`, does to an individual: the
/// field of its kind takes what the line gives, and the others stay.
#[verifier::opaque]
spec fn individual_line_read(prev: Individual, cur: Individual, s: Seq<char>, kid: (Seq<char>, TokState), level: u8, k: IndividualLine) -> bool {
    let v = value_at(s, kid.1);
    &&& individual_line_effect(prev, cur, s, kid, level, k)
    &&& (if k == IndividualLine::Name {
        cur.name matches Some(n) && is_text(n.value, v)
    } else {
        cur.name == prev.name
    })
    &&& (if k == IndividualLine::Sex {
        cur.sex matches Some(g) && ((v.len() == 0 && g.value == GenderType::Unknown) || gender_of_code(v) == Some(g.value))
    } else {
        cur.sex == prev.sex
    })
    &&& (k == IndividualLine::Event ==> cur.events@.last().event == event_of_tag(kid.0)->0)
    &&& (if k == IndividualLine::Attribute {
        cur.attributes@.len() == prev.attributes@.len() + 1 && cur.attributes@.drop_last() == prev.attributes@
            && cur.attributes@.last().attribute == attribute_of_tag(kid.0)->0
    } else {
        cur.attributes == prev.attributes
    })
    &&& (if k == IndividualLine::Citation { cur.source@.len() == prev.source@.len() + 1 } else { cur.source == prev.source })
    &&& (if k == IndividualLine::Multimedia {
        cur.multimedia@.len() == prev.multimedia@.len() + 1
    } else {
        cur.multimedia == prev.multimedia
    })
}

/// Reading one line below an individual keeps what `holds` states.
#[verifier::rlimit(100)]
#[verifier::spinoff_prover]
proof fn lemma_individual_line(prev: Individual, cur: Individual, s: Seq<char>, kid: (Seq<char>, TokState), level: u8, k: IndividualLine)
    requires
        individual_line(kid.0) == k,
        individual_line_read(prev, cur, s, kid, level, k),
    ensures
        forall|kids: Seq<(Seq<char>, TokState)>| prev.holds(s, kids, level) ==> #[trigger] cur.holds(s, kids.push(kid), level),
{
    reveal(individual_line_read);
    lemma_individual_contents_push(prev, cur, s, kid, level, k);
    assert forall|kids: Seq<(Seq<char>, TokState)>| prev.holds(s, kids, level) implies #[trigger] cur.holds(s, kids.push(kid), level) by {
        lemma_individual_lines_push(kids, kid);
        assert(individual_contents(cur, s, kids.push(kid), level));
        let ev = individual_lines(kids, IndividualLine::Event);
        let at = individual_lines(kids, IndividualLine::Attribute);
        assert(ev.push(kid).map_values(|x: (Seq<char>, TokState)| event_of_tag(x.0)->0)
            =~= ev.map_values(|x: (Seq<char>, TokState)| event_of_tag(x.0)->0).push(event_of_tag(kid.0)->0));
        assert(at.push(kid).map_values(|x: (Seq<char>, TokState)| attribute_of_tag(x.0)->0)
            =~= at.map_values(|x: (Seq<char>, TokState)| attribute_of_tag(x.0)->0).push(attribute_of_tag(kid.0)->0));
        if k == IndividualLine::Event {
            assert(cur.events@.map_values(|d: Detail| d.event) =~= prev.events@.map_values(|d: Detail| d.event).push(
                event_of_tag(kid.0)->0,
            )) by {
                assert(cur.events@ == prev.events@.push(cur.events@.last()));
            }
        }
        if k == IndividualLine::Attribute {
            assert(cur.attributes@.map_values(|a: AttributeDetail| a.attribute) =~= prev.attributes@.map_values(
                |a: AttributeDetail| a.attribute,
            ).push(attribute_of_tag(kid.0)->0)) by {
                assert(cur.attributes@ == prev.attributes@.push(cur.attributes@.last()));
            }
        }
    }
}

/// One more line below an individual: its events stay aligned with its event lines.
#[verifier::spinoff_prover]
proof fn lemma_events_push(prev: Individual, cur: Individual, s: Seq<char>, kids: Seq<(Seq<char>, TokState)>, kid: (Seq<char>, TokState), level: u8, k: IndividualLine)
    requires
        individual_line(kid.0) == k,
        individual_line_effect(prev, cur, s, kid, level, k),
        prev.events@.len() == individual_lines(kids, IndividualLine::Event).len(),
        forall|j: int| 0 <= j < individual_lines(kids, IndividualLine::Event).len() ==> (#[trigger] prev.events@[j]).holds(
            s, detail_kids(s, individual_lines(kids, IndividualLine::Event)[j].1, spec_child_level(level)), spec_child_level(level)),
    ensures
        cur.events@.len() == individual_lines(kids.push(kid), IndividualLine::Event).len(),
        forall|j: int| 0 <= j < individual_lines(kids.push(kid), IndividualLine::Event).len() ==> (#[trigger] cur.events@[j]).holds(
            s, detail_kids(s, individual_lines(kids.push(kid), IndividualLine::Event)[j].1, spec_child_level(level)), spec_child_level(level)),
{
    lemma_individual_lines_push(kids, kid);
    let ev0 = individual_lines(kids, IndividualLine::Event);
    let ev1 = individual_lines(kids.push(kid), IndividualLine::Event);
    assert forall|j: int| 0 <= j < ev1.len() implies (#[trigger] cur.events@[j]).holds(
        s, detail_kids(s, ev1[j].1, spec_child_level(level)), spec_child_level(level)) by {
        if k == IndividualLine::Event && j < ev0.len() {
            assert(cur.events@[j] == cur.events@.drop_last()[j]);
        }
    }
}

/// One more line below an individual: its associations stay aligned with its association lines.
#[verifier::spinoff_prover]
proof fn lemma_associations_push(prev: Individual, cur: Individual, s: Seq<char>, kids: Seq<(Seq<char>, TokState)>, kid: (Seq<char>, TokState), level: u8, k: IndividualLine)
    requires
        individual_line(kid.0) == k,
        individual_line_effect(prev, cur, s, kid, level, k),
        prev.associations@.len() == individual_lines(kids, IndividualLine::Association).len(),
        forall|j: int| 0 <= j < individual_lines(kids, IndividualLine::Association).len() ==> (#[trigger] prev.associations@[j]).holds(
            s, value_subset_kids::<Association>(s, individual_lines(kids, IndividualLine::Association)[j].1, spec_child_level(level)), spec_child_level(level)),
    ensures
        cur.associations@.len() == individual_lines(kids.push(kid), IndividualLine::Association).len(),
        forall|j: int| 0 <= j < individual_lines(kids.push(kid), IndividualLine::Association).len() ==> (#[trigger] cur.associations@[j]).holds(
            s, value_subset_kids::<Association>(s, individual_lines(kids.push(kid), IndividualLine::Association)[j].1, spec_child_level(level)), spec_child_level(level)),
{
    lemma_individual_lines_push(kids, kid);
    let a0 = individual_lines(kids, IndividualLine::Association);
    let a1 = individual_lines(kids.push(kid), IndividualLine::Association);
    assert forall|j: int| 0 <= j < a1.len() implies (#[trigger] cur.associations@[j]).holds(
        s, value_subset_kids::<Association>(s, a1[j].1, spec_child_level(level)), spec_child_level(level)) by {
        if k == IndividualLine::Association && j < a0.len() {
            assert(cur.associations@[j] == cur.associations@.drop_last()[j]);
        }
    }
}

/// One more line below an individual: its citations stay aligned with its `SOUR` lines.
#[verifier::spinoff_prover]
proof fn lemma_citations_push(prev: Individual, cur: Individual, s: Seq<char>, kids: Seq<(Seq<char>, TokState)>, kid: (Seq<char>, TokState), level: u8, k: IndividualLine)
    requires
        individual_line(kid.0) == k,
        individual_line_effect(prev, cur, s, kid, level, k),
        prev.source@.len() == individual_lines(kids, IndividualLine::Citation).len(),
        forall|j: int| 0 <= j < individual_lines(kids, IndividualLine::Citation).len()
            ==> (#[trigger] prev.source@[j]).xref@ == value_at(s, individual_lines(kids, IndividualLine::Citation)[j].1),
    ensures
        cur.source@.len() == individual_lines(kids.push(kid), IndividualLine::Citation).len(),
        forall|j: int| 0 <= j < individual_lines(kids.push(kid), IndividualLine::Citation).len()
            ==> (#[trigger] cur.source@[j]).xref@ == value_at(s, individual_lines(kids.push(kid), IndividualLine::Citation)[j].1),
{
    lemma_individual_lines_push(kids, kid);
    let c0 = individual_lines(kids, IndividualLine::Citation);
    let c1 = individual_lines(kids.push(kid), IndividualLine::Citation);
    assert forall|j: int| 0 <= j < c1.len() implies (#[trigger] cur.source@[j]).xref@ == value_at(s, c1[j].1) by {
        if k == IndividualLine::Citation && j < c0.len() {
            assert(cur.source@[j] == cur.source@.drop_last()[j]);
        }
    }
}

/// One more line below an individual: what it puts in joins what the lines
/// before put in.
#[verifier::rlimit(100)]
#[verifier::spinoff_prover]
proof fn lemma_individual_contents_push(prev: Individual, cur: Individual, s: Seq<char>, kid: (Seq<char>, TokState), level: u8, k: IndividualLine)
    requires
        individual_line_effect(prev, cur, s, kid, level, k),
    ensures
        forall|kids: Seq<(Seq<char>, TokState)>| individual_line(kid.0) == k && individual_contents(prev, s, kids, level)
            ==> #[trigger] individual_contents(cur, s, kids.push(kid), level),
{
    reveal(individual_contents);
    assert forall|kids: Seq<(Seq<char>, TokState)>| individual_line(kid.0) == k && individual_contents(prev, s, kids, level)
        implies #[trigger] individual_contents(cur, s, kids.push(kid), level) by {
        lemma_individual_lines_push(kids, kid);
        lemma_events_push(prev, cur, s, kids, kid, level, k);
        lemma_associations_push(prev, cur, s, kids, kid, level, k);
        lemma_citations_push(prev, cur, s, kids, kid, level, k);
    }
}

impl TagHandler for Individual {
    open spec fn exact() -> bool {
        true
    }

    open spec fn tag_end(s: Seq<char>, st: TokState, t: Seq<char>, level: u8) -> Result<TokState, ()> {
        individual_tag_end(s, st, t, level)
    }

    open spec fn holds(&self, s: Seq<char>, kids: Seq<(Seq<char>, TokState)>, level: u8) -> bool {
        let names = individual_lines(kids, IndividualLine::Name);
        let sexes = individual_lines(kids, IndividualLine::Sex);
        &&& (if names.len() > 0 {
            self.name matches Some(n) && is_text(n.value, value_at(s, names.last().1))
        } else {
            self.name is None
        })
        &&& (if sexes.len() > 0 {
            self.sex matches Some(g) && ((value_at(s, sexes.last().1).len() == 0 && g.value == GenderType::Unknown)
                || gender_of_code(value_at(s, sexes.last().1)) == Some(g.value))
        } else {
            self.sex is None
        })
        &&& self.events@.map_values(|d: Detail| d.event)
            == individual_lines(kids, IndividualLine::Event).map_values(|k: (Seq<char>, TokState)| event_of_tag(k.0)->0)
        &&& self.attributes@.map_values(|a: AttributeDetail| a.attribute)
            == individual_lines(kids, IndividualLine::Attribute).map_values(|k: (Seq<char>, TokState)| attribute_of_tag(k.0)->0)
        &&& (self.change_date is Some <==> individual_lines(kids, IndividualLine::ChangeDate).len() > 0)
        &&& self.source@.len() == individual_lines(kids, IndividualLine::Citation).len()
        &&& self.multimedia@.len() == individual_lines(kids, IndividualLine::Multimedia).len()
        &&& (self.note is Some <==> individual_lines(kids, IndividualLine::Note).len() > 0)
        &&& self.associations@.len() == individual_lines(kids, IndividualLine::Association).len()
        &&& individual_contents(*self, s, kids, level)
    }

    #[verifier::rlimit(100)]
    #[verifier::spinoff_prover]
    fn handle_tag(&mut self, tag: &str, tokenizer: &mut Tokenizer, level: u8) -> (r: Result<(), GedcomError>)
        ensures
            r is Ok ==> individual_tag_end(old(tokenizer).input(), old(tokenizer).state(), tag@, level)
                == Ok::<TokState, ()>(final(tokenizer).state()),
            r is Ok ==> link_xrefs(final(self).families@) == if tag@ == "FAMC"@ || tag@ == "FAMS"@ {
                if link_xrefs(old(self).families@).contains(value_at(old(tokenizer).input(), old(tokenizer).state())) {
                    link_xrefs(old(self).families@)
                } else {
                    link_xrefs(old(self).families@).push(value_at(old(tokenizer).input(), old(tokenizer).state()))
                }
            } else {
                link_xrefs(old(self).families@)
            },
    {
        let ghost prev = *self;
        let ghost kid = (tag@, old(tokenizer).state());
        let ghost mut k = IndividualLine::Other;
        let sub = child_level(level);
        if str_eq(tag, "FAMC") || str_eq(tag, "FAMS") {
            let f = FamilyLink::new(tokenizer, sub, tag)?;
            let ghost before = self.families@;
            proof {
                lemma_links_to(before, f.xref@);
            }
            self.add_family(f);
            proof {
                assert(link_xrefs(before.push(f)) =~= link_xrefs(before).push(f.xref@));
            }
            proof {
                k = IndividualLine::FamilyLink;
                assert(individual_line(tag@) == k);
                assert(individual_line_read(prev, *self, old(tokenizer).input(), kid, level, k)) by {
                    reveal(individual_line_read);
                }
                lemma_individual_line(prev, *self, old(tokenizer).input(), kid, level, k);
            }
        } else if str_eq(tag, "NAME") {
            self.name = Some(Name::new(tokenizer, sub)?);
            proof {
                k = IndividualLine::Name;
                assert(individual_line(tag@) == k);
                assert(individual_line_read(prev, *self, old(tokenizer).input(), kid, level, k)) by {
                    reveal(individual_line_read);
                }
                lemma_individual_line(prev, *self, old(tokenizer).input(), kid, level, k);
            }
        } else if str_eq(tag, "SEX") {
            self.sex = Some(Gender::new(tokenizer, sub)?);
            proof {
                k = IndividualLine::Sex;
                assert(individual_line(tag@) == k);
                assert(individual_line_read(prev, *self, old(tokenizer).input(), kid, level, k)) by {
                    reveal(individual_line_read);
                }
                lemma_individual_line(prev, *self, old(tokenizer).input(), kid, level, k);
            }
        } else if is_event_tag(tag) {
            let d = Detail::new(tokenizer, sub, tag)?;
            let ghost ev0 = self.events@;
            self.add_event(d);
            proof {
                assert(self.events@.map_values(|x: Detail| x.event) =~= ev0.map_values(|x: Detail| x.event).push(d.event));
            }
            proof {
                k = IndividualLine::Event;
                assert(self.events@.drop_last() =~= prev.events@);
                assert(individual_line(tag@) == k);
                assert(individual_line_read(prev, *self, old(tokenizer).input(), kid, level, k)) by {
                    reveal(individual_line_read);
                }
                lemma_individual_line(prev, *self, old(tokenizer).input(), kid, level, k);
            }
        } else if is_attribute_tag(tag) {
            let a = AttributeDetail::new(tokenizer, sub, tag)?;
            let ghost at0 = self.attributes@;
            self.add_attribute(a);
            proof {
                assert(self.attributes@.map_values(|x: AttributeDetail| x.attribute)
                    =~= at0.map_values(|x: AttributeDetail| x.attribute).push(a.attribute));
            }
            proof {
                k = IndividualLine::Attribute;
                assert(self.attributes@.drop_last() =~= prev.attributes@);
                assert(individual_line(tag@) == k);
                assert(individual_line_read(prev, *self, old(tokenizer).input(), kid, level, k)) by {
                    reveal(individual_line_read);
                }
                lemma_individual_line(prev, *self, old(tokenizer).input(), kid, level, k);
            }
        } else if str_eq(tag, "CHAN") {
            self.change_date = Some(ChangeDate::new(tokenizer, sub)?);
            proof {
                k = IndividualLine::ChangeDate;
                assert(individual_line(tag@) == k);
                assert(individual_line_read(prev, *self, old(tokenizer).input(), kid, level, k)) by {
                    reveal(individual_line_read);
                }
                lemma_individual_line(prev, *self, old(tokenizer).input(), kid, level, k);
            }
        } else if str_eq(tag, "SOUR") {
            let c = Citation::new(tokenizer, sub)?;
            let ghost c0 = self.source@;
            self.add_source_citation(c);
            assert(self.source@.drop_last() =~= c0);
            proof {
                k = IndividualLine::Citation;
                assert(individual_line(tag@) == k);
                assert(individual_line_read(prev, *self, old(tokenizer).input(), kid, level, k)) by {
                    reveal(individual_line_read);
                }
                lemma_individual_line(prev, *self, old(tokenizer).input(), kid, level, k);
            }
        } else if str_eq(tag, "OBJE") {
            let m = Multimedia::new(tokenizer, sub, None)?;
            self.add_multimedia(m);
            proof {
                k = IndividualLine::Multimedia;
                assert(individual_line(tag@) == k);
                assert(individual_line_read(prev, *self, old(tokenizer).input(), kid, level, k)) by {
                    reveal(individual_line_read);
                }
                lemma_individual_line(prev, *self, old(tokenizer).input(), kid, level, k);
            }
        } else if str_eq(tag, "NOTE") {
            self.note = Some(Note::new(tokenizer, sub)?);
            proof {
                k = IndividualLine::Note;
                assert(individual_line(tag@) == k);
                assert(individual_line_read(prev, *self, old(tokenizer).input(), kid, level, k)) by {
                    reveal(individual_line_read);
                }
                lemma_individual_line(prev, *self, old(tokenizer).input(), kid, level, k);
            }
        } else if str_eq(tag, "ASSO") {
            let a = Association::new(tokenizer, sub)?;
            self.add_association(a);
            proof {
                k = IndividualLine::Association;
                assert(self.associations@.drop_last() =~= prev.associations@);
                assert(individual_line(tag@) == k);
                assert(individual_line_read(prev, *self, old(tokenizer).input(), kid, level, k)) by {
                    reveal(individual_line_read);
                }
                lemma_individual_line(prev, *self, old(tokenizer).input(), kid, level, k);
            }
        } else {
            return Err(tag_error("Unhandled Individual Tag: ", tag, tokenizer.line()));
        }
        Ok(())
    }
}

impl Parser for Individual {
    #[verifier::rlimit(40)]
    #[verifier::spinoff_prover]
    fn parse(&mut self, tokenizer: &mut Tokenizer, level: u8) -> (r: Result<(), GedcomError>) 
        ensures
            r is Ok ==> at_level_end(*final(tokenizer), level),
            r is Ok <==> step_subset_end::<Individual>(old(tokenizer).input(), old(tokenizer).state(), level) is Ok,
            r is Ok && old(self).holds(old(tokenizer).input(), Seq::empty(), level)
                ==> final(self).holds(old(tokenizer).input(), step_subset_kids::<Individual>(old(tokenizer).input(), old(tokenizer).state(), level), level),
    {
        tokenizer.next_token()?;
        let custom = parse_subset(tokenizer, level, self)?;
        let ghost read = *self;
        self.custom_data = custom;
        proof {
            lemma_holds_beside_record(read, *self);
        }
        Ok(())
    }
}

} // verus!
