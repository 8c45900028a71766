//! Source records and citations of sources.
use vstd::prelude::*;
use crate::types::shared::{shared_end, Shared};
use vstd::string::StringExecFns;
use crate::error::GedcomError;
use crate::parser::{
    advanced, at_level_end, child_level, continued_end, continued_text_at, last_tag_state, last_tag_value,
    lemma_kids_push, parse_subset, same_text, spec_child_level, step_subset_end, step_subset_kids, subset_step,
    subset_walk, tag_error, tag_states, text_of, value_at, value_end, value_subset_end, Parser, SubsetItem, TagHandler,
};
use crate::text::str_eq;
use crate::types::date::change_date::{change_date_holds, change_date_kids};
use crate::types::note::note_read_at;
use crate::tokenizer::{state_measure, step, take_value, SpecToken, Tokenizer, TokState};
use crate::types::event::detail::detail_end;
use crate::types::custom::UserDefinedTag;
use crate::types::date::change_date::ChangeDate;
use crate::types::event::detail::Detail;
use crate::types::multimedia::Multimedia;
use crate::types::note::Note;
use crate::types::repository::citation::Citation;
use crate::types::source::data::Data;

pub mod citation;
pub mod data;
pub mod quay;
pub mod text;

verus! {

/// Where reading a source record at `level` goes on after handling the
/// standard tag `t` at `st`, as [`Source`]'s handler reads each tag. `Err`
/// where it fails. The event of an `EVEN` line is read from the next line on.
pub open spec fn source_tag_end(s: Seq<char>, st: TokState, t: Seq<char>, level: u8) -> Result<TokState, ()> {
    if t == "DATA"@ {
        step(s, st)
    } else if t == "EVEN"@ {
        match take_value(s, st) {
            Ok((st2, _)) => detail_end(s, st2, spec_child_level(spec_child_level(level))),
            Err(_) => Err(()),
        }
    } else if t == "AGNC"@ {
        value_end(s, st)
    } else if t == "ABBR"@ {
        continued_end(s, st, spec_child_level(level))
    } else if t == "CHAN"@ {
        shared_end(Shared::ChangeDate, s, st, spec_child_level(level))
    } else if t == "TITL"@ || t == "AUTH"@ || t == "PUBL"@ || t == "TEXT"@ {
        continued_end(s, st, spec_child_level(level))
    } else if t == "OBJE"@ {
        shared_end(Shared::Multimedia, s, st, spec_child_level(level))
    } else if t == "NOTE"@ {
        shared_end(Shared::Note, s, st, spec_child_level(level))
    } else if t == "REPO"@ {
        value_subset_end::<Citation>(s, st, spec_child_level(level))
    } else if t == "RFN"@ {
        value_end(s, st)
    } else {
        Err(())
    }
}

/// Where reading the lines below a source record at `level` ends, from `st`
/// on: each turn passes over deeper level numbers and user-defined
/// structures, then handles a standard tag. `Err` where reading fails.
pub open spec fn source_walk(s: Seq<char>, st: TokState, level: u8) -> Result<TokState, ()>
    decreases state_measure(s, st),
{
    match subset_walk(s, st, level) {
        Ok(st1) => match st1.token {
            SpecToken::Tag(t) => match source_tag_end(s, st1, t, level) {
                Ok(st2) => if state_measure(s, st2) < state_measure(s, st) {
                    source_walk(s, st2, level)
                } else {
                    Err(())
                },
                Err(_) => Err(()),
            },
            _ => Ok(st1),
        },
        Err(_) => Err(()),
    }
}

/// The standard tags met while reading the lines below a source record at
/// `level`, from `st` on, each with the state at it, in order.
pub open spec fn source_kids(s: Seq<char>, st: TokState, level: u8) -> Seq<(Seq<char>, TokState)>
    decreases state_measure(s, st),
{
    match subset_walk(s, st, level) {
        Ok(st1) => match st1.token {
            SpecToken::Tag(t) => match source_tag_end(s, st1, t, level) {
                Ok(st2) => if state_measure(s, st2) < state_measure(s, st) {
                    seq![(t, st1)] + source_kids(s, st2, level)
                } else {
                    Seq::empty()
                },
                Err(_) => Seq::empty(),
            },
            _ => Seq::empty(),
        },
        Err(_) => Seq::empty(),
    }
}

/// The lines below a source record whose tag is at `st`.
pub open spec fn source_record_kids(s: Seq<char>, st: TokState, level: u8) -> Seq<(Seq<char>, TokState)> {
    match step(s, st) {
        Ok(st1) => source_kids(s, st1, level),
        Err(_) => Seq::empty(),
    }
}

/// `o` is the text read from the last line among `kids` whose tag is `t`,
/// continued over `CONT` and `CONC` lines below `level`, or `None` where
/// there is no such line.
pub open spec fn continued_last(o: Option<String>, s: Seq<char>, kids: Seq<(Seq<char>, TokState)>, t: Seq<char>, level: u8) -> bool {
    match last_tag_state(kids, t) {
        Some(st) => o matches Some(x) && x@ == continued_text_at(s, st, level),
        None => o is None,
    }
}

/// A source record (`SOUR`): a book, a document, a census and the like.
#[derive(Clone, Debug)]
pub struct Source {
    pub xref: Option<String>,
    pub data: Data,
    pub abbreviation: Option<String>,
    pub title: Option<String>,
    pub author: Option<String>,
    pub publication_facts: Option<String>,
    pub citation_from_source: Option<String>,
    pub change_date: Option<Box<ChangeDate>>,
    pub multimedia: Vec<Multimedia>,
    pub notes: Vec<Note>,
    pub repo_citations: Vec<Citation>,
    pub submitter_registered_rfn: Option<String>,
    pub custom_data: Vec<Box<UserDefinedTag>>,
}

impl Default for Source {
    fn default() -> (r: Self)
        ensures
            r.xref is None && r.data.event_list().len() == 0 && r.data.agency_value() is None,
            r.abbreviation is None && r.title is None && r.author is None,
            r.publication_facts is None && r.citation_from_source is None && r.change_date is None,
            r.multimedia@.len() == 0 && r.notes@.len() == 0 && r.repo_citations@.len() == 0,
            r.submitter_registered_rfn is None && r.custom_data@.len() == 0,
    {
        Source {
            xref: None,
            data: Data::default(),
            abbreviation: None,
            title: None,
            author: None,
            publication_facts: None,
            citation_from_source: None,
            change_date: None,
            multimedia: Vec::new(),
            notes: Vec::new(),
            repo_citations: Vec::new(),
            submitter_registered_rfn: None,
            custom_data: Vec::new(),
        }
    }
}

impl Source {
    /// Reads a `SOUR` record at `level` whose cross-reference is `xref`.
    ///
    /// Reading stops at a line at `level` or less. The event of an `EVEN` line
    /// is read from the line after it, so where that line lies outside the
    /// record, reading goes on past the record's own lines.
    pub fn new(tokenizer: &mut Tokenizer, level: u8, xref: Option<String>) -> (r: Result<Source, GedcomError>)
        requires
            old(tokenizer).wf(),
            old(tokenizer).token() is Tag,
        ensures
            same_text(*old(tokenizer), *final(tokenizer)),
            r is Ok ==> advanced(*old(tokenizer), *final(tokenizer)) && at_level_end(*final(tokenizer), level),
            r is Ok ==> (step(old(tokenizer).input(), old(tokenizer).state()) matches Ok(st1)
                && source_walk(old(tokenizer).input(), st1, level) == Ok::<TokState, ()>(final(tokenizer).state())),
            r matches Ok(s) ==> s.xref == xref,
            r is Ok <==> (step(old(tokenizer).input(), old(tokenizer).state()) matches Ok(st1)
                && source_walk(old(tokenizer).input(), st1, level) is Ok),
            r matches Ok(x) ==> x.holds(old(tokenizer).input(), source_record_kids(old(tokenizer).input(), old(tokenizer).state(), level), level),
    {
        let mut sour = Source::default();
        tokenizer.next_token()?;
        let custom = sour.read_lines(tokenizer, level)?;
        sour.custom_data = custom;
        sour.xref = xref;
        Ok(sour)
    }

    /// Reads the lines below the record, up to a line at `level` or less.
    fn read_lines(&mut self, tokenizer: &mut Tokenizer, level: u8) -> (r: Result<Vec<Box<UserDefinedTag>>, GedcomError>)
        requires
            old(tokenizer).wf(),
        ensures
            same_text(*old(tokenizer), *final(tokenizer)),
            r is Ok ==> final(tokenizer).measure() <= old(tokenizer).measure(),
            r is Ok ==> at_level_end(*final(tokenizer), level),
            r is Ok ==> source_walk(old(tokenizer).input(), old(tokenizer).state(), level) == Ok::<TokState, ()>(final(tokenizer).state()),
            r is Ok <==> source_walk(old(tokenizer).input(), old(tokenizer).state(), level) is Ok,
            r is Ok && old(self).holds(old(tokenizer).input(), Seq::empty(), level)
                ==> final(self).holds(old(tokenizer).input(), source_kids(old(tokenizer).input(), old(tokenizer).state(), level), level),
    {
        let ghost s = old(tokenizer).input();
        let ghost start = old(tokenizer).state();
        let ghost mut seen: Seq<(Seq<char>, TokState)> = Seq::empty();
        proof {
            assert(seen + source_kids(s, start, level) =~= source_kids(s, start, level));
        }
        let mut custom: Vec<Box<UserDefinedTag>> = Vec::new();
        loop
            invariant
                same_text(*old(tokenizer), *tokenizer),
                tokenizer.measure() <= old(tokenizer).measure(),
                s == tokenizer.input(),
                start == old(tokenizer).state(),
                source_walk(s, tokenizer.state(), level) == source_walk(s, start, level),
                seen + source_kids(s, tokenizer.state(), level) == source_kids(s, start, level),
                old(self).holds(s, Seq::empty(), level) ==> self.holds(s, seen, level),
            ensures
                same_text(*old(tokenizer), *tokenizer),
                tokenizer.measure() <= old(tokenizer).measure(),
                at_level_end(*tokenizer, level),
                source_walk(s, start, level) == Ok::<TokState, ()>(tokenizer.state()),
                seen == source_kids(s, start, level),
                old(self).holds(s, Seq::empty(), level) ==> self.holds(s, seen, level),
            decreases tokenizer.measure(),
        {
            let ghost before = tokenizer.state();
            match subset_step(tokenizer, level, &mut custom)? {
                SubsetItem::Done => {
                    proof {
                        tokenizer.lemma_cursor();
                        assert(source_kids(s, before, level) == Seq::<(Seq<char>, TokState)>::empty());
                        assert(seen + Seq::<(Seq<char>, TokState)>::empty() =~= seen);
                    }
                    break;
                },
                SubsetItem::Tag(tag) => {
                    let ghost at_tag = tokenizer.state();
                    self.handle_tag(tag.as_str(), tokenizer, level)?;
                    proof {
                        assert(state_measure(s, tokenizer.state()) < state_measure(s, before));
                        assert(source_tag_end(s, at_tag, tag@, level) == Ok::<TokState, ()>(tokenizer.state()));
                        let kid = (tag@, at_tag);
                        assert(source_kids(s, before, level) == seq![kid] + source_kids(s, tokenizer.state(), level));
                        assert(seen.push(kid) + source_kids(s, tokenizer.state(), level)
                            =~= seen + (seq![kid] + source_kids(s, tokenizer.state(), level)));
                        seen = seen.push(kid);
                    }
                },
            }
        }
        Ok(custom)
    }

    /// Adds a multimedia link.
    pub fn add_multimedia(&mut self, media: Multimedia)
        ensures
            final(self).multimedia@ == old(self).multimedia@.push(media),
            *final(self) == (Source { multimedia: final(self).multimedia, ..*old(self) }),
    {
        self.multimedia.push(media);
    }

    /// Adds a note.
    pub fn add_note(&mut self, note: Note)
        ensures
            final(self).notes@ == old(self).notes@.push(note),
            *final(self) == (Source { notes: final(self).notes, ..*old(self) }),
    {
        self.notes.push(note);
    }

    /// Adds a citation of a repository that holds the source.
    pub fn add_repo_citation(&mut self, citation: Citation)
        ensures
            final(self).repo_citations@ == old(self).repo_citations@.push(citation),
            *final(self) == (Source { repo_citations: final(self).repo_citations, ..*old(self) }),
    {
        self.repo_citations.push(citation);
    }
}

impl TagHandler for Source {
    /// An `EVEN` line is followed by an event read from the next line on,
    /// which may lie outside the source record.
    open spec fn stays_below() -> bool {
        false
    }

    open spec fn exact() -> bool {
        true
    }

    open spec fn tag_end(s: Seq<char>, st: TokState, t: Seq<char>, level: u8) -> Result<TokState, ()> {
        source_tag_end(s, st, t, level)
    }

    /// An event for each `EVEN` line, a multimedia record for each `OBJE`
    /// line, a citation for each `REPO` line and a note read from each `NOTE`
    /// line, in order; the agency and registered number of the last `AGNC` and
    /// `RFN` lines; the texts of the last `ABBR`, `TITL`, `AUTH`, `PUBL` and
    /// `TEXT` lines; and the change date read from the last `CHAN` line.
    open spec fn holds(&self, s: Seq<char>, kids: Seq<(Seq<char>, TokState)>, level: u8) -> bool {
        let sub = spec_child_level(level);
        let notes = tag_states(kids, "NOTE"@);
        &&& self.data.event_list().len() == tag_states(kids, "EVEN"@).len()
        &&& text_of(self.data.agency_value()) == last_tag_value(s, kids, "AGNC"@)
        &&& continued_last(self.abbreviation, s, kids, "ABBR"@, sub)
        &&& continued_last(self.title, s, kids, "TITL"@, sub)
        &&& continued_last(self.author, s, kids, "AUTH"@, sub)
        &&& continued_last(self.publication_facts, s, kids, "PUBL"@, sub)
        &&& continued_last(self.citation_from_source, s, kids, "TEXT"@, sub)
        &&& (match last_tag_state(kids, "CHAN"@) {
            Some(st) => self.change_date matches Some(c) && change_date_holds(
                *c, (ChangeDate { date: None, note: None }), s, change_date_kids(s, st, sub), sub),
            None => self.change_date is None,
        })
        &&& self.multimedia@.len() == tag_states(kids, "OBJE"@).len()
        &&& self.notes@.len() == notes.len()
        &&& forall|j: int| 0 <= j < notes.len() ==> note_read_at(#[trigger] self.notes@[j], s, notes[j], sub)
        &&& self.repo_citations@.len() == tag_states(kids, "REPO"@).len()
        &&& text_of(self.submitter_registered_rfn) == last_tag_value(s, kids, "RFN"@)
    }

    #[verifier::rlimit(100)]
    #[verifier::spinoff_prover]
    fn handle_tag(&mut self, tag: &str, tokenizer: &mut Tokenizer, level: u8) -> (r: Result<(), GedcomError>)
        ensures
            r is Ok ==> source_tag_end(old(tokenizer).input(), old(tokenizer).state(), tag@, level)
                == Ok::<TokState, ()>(final(tokenizer).state()),
    {
        let ghost s = old(tokenizer).input();
        let ghost at = old(tokenizer).state();
        let ghost prev = *self;
        let sub = child_level(level);
        if str_eq(tag, "DATA") {
            tokenizer.next_token()?;
            proof {
                prev.data.lemma_fields();
                self.data.lemma_fields();
                lemma_source_line(prev, *self, s, tag@, at, level);
            }
        } else if str_eq(tag, "EVEN") {
            let events_recorded = tokenizer.take_line_value()?;
            let mut event = Detail::new(tokenizer, child_level(sub), "OTHER")?;
            event.with_source_data(events_recorded);
            self.data.add_event(event);
            proof {
                prev.data.lemma_fields();
                self.data.lemma_fields();
                lemma_source_line(prev, *self, s, tag@, at, level);
            }
        } else if str_eq(tag, "AGNC") {
            self.data.agency = Some(tokenizer.take_line_value()?);
            proof {
                prev.data.lemma_fields();
                self.data.lemma_fields();
                lemma_source_line(prev, *self, s, tag@, at, level);
            }
        } else if str_eq(tag, "ABBR") {
            self.abbreviation = Some(tokenizer.take_continued_text(sub)?);
            proof {
                prev.data.lemma_fields();
                self.data.lemma_fields();
                lemma_source_line(prev, *self, s, tag@, at, level);
            }
        } else if str_eq(tag, "CHAN") {
            self.change_date = Some(Box::new(ChangeDate::new(tokenizer, sub)?));
            proof {
                prev.data.lemma_fields();
                self.data.lemma_fields();
                lemma_source_line(prev, *self, s, tag@, at, level);
            }
        } else if str_eq(tag, "TITL") {
            self.title = Some(tokenizer.take_continued_text(sub)?);
            proof {
                prev.data.lemma_fields();
                self.data.lemma_fields();
                lemma_source_line(prev, *self, s, tag@, at, level);
            }
        } else if str_eq(tag, "AUTH") {
            self.author = Some(tokenizer.take_continued_text(sub)?);
            proof {
                prev.data.lemma_fields();
                self.data.lemma_fields();
                lemma_source_line(prev, *self, s, tag@, at, level);
            }
        } else if str_eq(tag, "PUBL") {
            self.publication_facts = Some(tokenizer.take_continued_text(sub)?);
            proof {
                prev.data.lemma_fields();
                self.data.lemma_fields();
                lemma_source_line(prev, *self, s, tag@, at, level);
            }
        } else if str_eq(tag, "TEXT") {
            self.citation_from_source = Some(tokenizer.take_continued_text(sub)?);
            proof {
                prev.data.lemma_fields();
                self.data.lemma_fields();
                lemma_source_line(prev, *self, s, tag@, at, level);
            }
        } else if str_eq(tag, "OBJE") {
            let m = Multimedia::new(tokenizer, sub, None)?;
            self.add_multimedia(m);
            proof {
                prev.data.lemma_fields();
                self.data.lemma_fields();
                lemma_source_line(prev, *self, s, tag@, at, level);
            }
        } else if str_eq(tag, "NOTE") {
            let n = Note::new(tokenizer, sub)?;
            self.add_note(n);
            assert(self.notes@.drop_last() =~= prev.notes@);
            proof {
                prev.data.lemma_fields();
                self.data.lemma_fields();
                lemma_source_line(prev, *self, s, tag@, at, level);
            }
        } else if str_eq(tag, "REPO") {
            let c = Citation::new(tokenizer, sub)?;
            self.add_repo_citation(c);
            proof {
                prev.data.lemma_fields();
                self.data.lemma_fields();
                lemma_source_line(prev, *self, s, tag@, at, level);
            }
        } else if str_eq(tag, "RFN") {
            self.submitter_registered_rfn = Some(tokenizer.take_line_value()?);
            proof {
                prev.data.lemma_fields();
                self.data.lemma_fields();
                lemma_source_line(prev, *self, s, tag@, at, level);
            }
        } else {
            return Err(tag_error("Unhandled Source Tag: ", tag, tokenizer.line()));
        }
        Ok(())
    }
}

/// What reading the line whose tag `t` is at `at` does to a source record:
/// the field of its tag takes what the line gives, and the others stay.
spec fn source_line_read(prev: Source, cur: Source, s: Seq<char>, t: Seq<char>, at: TokState, level: u8) -> bool {
    let v = value_at(s, at);
    let sub = spec_child_level(level);
    let others = |f: Source| f.abbreviation == prev.abbreviation && f.title == prev.title && f.author == prev.author
        && f.publication_facts == prev.publication_facts && f.citation_from_source == prev.citation_from_source
        && f.change_date == prev.change_date && f.multimedia == prev.multimedia && f.notes == prev.notes
        && f.repo_citations == prev.repo_citations && f.submitter_registered_rfn == prev.submitter_registered_rfn;
    let same_data = cur.data.event_list() == prev.data.event_list() && cur.data.agency_value() == prev.data.agency_value();
    let cont = continued_text_at(s, at, sub);
    ||| t == "DATA"@ && others(cur) && same_data
    ||| t == "EVEN"@ && others(cur) && cur.data.event_list().len() == prev.data.event_list().len() + 1
        && cur.data.agency_value() == prev.data.agency_value()
    ||| t == "AGNC"@ && others(cur) && cur.data.event_list() == prev.data.event_list()
        && (cur.data.agency_value() matches Some(x) && x@ == v)
    ||| t == "ABBR"@ && others(Source { abbreviation: prev.abbreviation, ..cur }) && same_data
        && (cur.abbreviation matches Some(x) && x@ == cont)
    ||| t == "TITL"@ && others(Source { title: prev.title, ..cur }) && same_data && (cur.title matches Some(x) && x@ == cont)
    ||| t == "AUTH"@ && others(Source { author: prev.author, ..cur }) && same_data && (cur.author matches Some(x) && x@ == cont)
    ||| t == "PUBL"@ && others(Source { publication_facts: prev.publication_facts, ..cur }) && same_data
        && (cur.publication_facts matches Some(x) && x@ == cont)
    ||| t == "TEXT"@ && others(Source { citation_from_source: prev.citation_from_source, ..cur }) && same_data
        && (cur.citation_from_source matches Some(x) && x@ == cont)
    ||| t == "CHAN"@ && others(Source { change_date: prev.change_date, ..cur }) && same_data && (cur.change_date matches Some(c)
        && change_date_holds(*c, (ChangeDate { date: None, note: None }), s, change_date_kids(s, at, sub), sub))
    ||| t == "OBJE"@ && others(Source { multimedia: prev.multimedia, ..cur }) && same_data
        && cur.multimedia@.len() == prev.multimedia@.len() + 1
    ||| t == "NOTE"@ && others(Source { notes: prev.notes, ..cur }) && same_data && cur.notes@.len() == prev.notes@.len() + 1
        && cur.notes@.drop_last() == prev.notes@ && note_read_at(cur.notes@.last(), s, at, sub)
    ||| t == "REPO"@ && others(Source { repo_citations: prev.repo_citations, ..cur }) && same_data
        && cur.repo_citations@.len() == prev.repo_citations@.len() + 1
    ||| t == "RFN"@ && others(Source { submitter_registered_rfn: prev.submitter_registered_rfn, ..cur }) && same_data
        && (cur.submitter_registered_rfn matches Some(x) && x@ == v)
}

/// Reading one line below a source record keeps what `holds` states: the
/// field that the line's tag fills joins what the lines before gave.
#[verifier::rlimit(100)]
#[verifier::spinoff_prover]
proof fn lemma_source_line(prev: Source, cur: Source, s: Seq<char>, t: Seq<char>, at: TokState, level: u8)
    requires
        source_line_read(prev, cur, s, t, at, level),
    ensures
        forall|kids: Seq<(Seq<char>, TokState)>| prev.holds(s, kids, level)
            ==> #[trigger] cur.holds(s, kids.push((t, at)), level),
{
    reveal_strlit("DATA");
    reveal_strlit("EVEN");
    reveal_strlit("AGNC");
    reveal_strlit("ABBR");
    reveal_strlit("CHAN");
    reveal_strlit("TITL");
    reveal_strlit("AUTH");
    reveal_strlit("PUBL");
    reveal_strlit("TEXT");
    reveal_strlit("OBJE");
    reveal_strlit("NOTE");
    reveal_strlit("REPO");
    reveal_strlit("RFN");
    assert("DATA"@.len() == 4 && "EVEN"@.len() == 4 && "AGNC"@.len() == 4 && "ABBR"@.len() == 4 && "CHAN"@.len() == 4);
    assert("TITL"@.len() == 4 && "AUTH"@.len() == 4 && "PUBL"@.len() == 4 && "TEXT"@.len() == 4 && "OBJE"@.len() == 4);
    assert("NOTE"@.len() == 4 && "REPO"@.len() == 4 && "RFN"@.len() == 3);
    assert("DATA"@[0] == 'D' && "EVEN"@[0] == 'E' && "AGNC"@[0] == 'A' && "ABBR"@[0] == 'A' && "CHAN"@[0] == 'C');
    assert("TITL"@[0] == 'T' && "AUTH"@[0] == 'A' && "PUBL"@[0] == 'P' && "TEXT"@[0] == 'T' && "OBJE"@[0] == 'O');
    assert("NOTE"@[0] == 'N' && "REPO"@[0] == 'R' && "RFN"@[0] == 'R');
    assert("AGNC"@[1] == 'G' && "ABBR"@[1] == 'B' && "AUTH"@[1] == 'U' && "TITL"@[1] == 'I' && "TEXT"@[1] == 'E');
    let kid = (t, at);
    assert forall|kids: Seq<(Seq<char>, TokState)>| prev.holds(s, kids, level) implies #[trigger] cur.holds(
        s,
        kids.push(kid),
        level,
    ) by {
        lemma_kids_push(s, kids, kid);
        let n0 = tag_states(kids, "NOTE"@);
        let n1 = tag_states(kids.push(kid), "NOTE"@);
        if t == "NOTE"@ {
            assert forall|j: int| 0 <= j < n1.len() implies note_read_at(#[trigger] cur.notes@[j], s, n1[j], spec_child_level(level)) by {
                if j < n0.len() {
                    assert(cur.notes@[j] == prev.notes@[j]);
                }
            }
        }
    }
}

impl Parser for Source {
    fn parse(&mut self, tokenizer: &mut Tokenizer, level: u8) -> (r: Result<(), GedcomError>) 
        ensures
            r is Ok ==> at_level_end(*final(tokenizer), level),
            r is Ok <==> step_subset_end::<Source>(old(tokenizer).input(), old(tokenizer).state(), level) is Ok,
            r is Ok && old(self).holds(old(tokenizer).input(), Seq::empty(), level)
                ==> final(self).holds(old(tokenizer).input(), step_subset_kids::<Source>(old(tokenizer).input(), old(tokenizer).state(), level), level),
    {
        tokenizer.next_token()?;
        let custom = parse_subset(tokenizer, level, self)?;
        self.custom_data = custom;
        Ok(())
    }
}

} // verus!
