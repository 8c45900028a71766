//! Data structures representing the parsed contents of a GEDCOM file.
use vstd::prelude::*;
use vstd::string::StringExecFns;
use crate::error::GedcomError;
use crate::parser::{same_text, spec_child_level, text_of, Parser};
use crate::text::{append_decimal, contains_text, has_substring, is_text, lowercase, starts_with, str_eq, to_lowercase};
use crate::stream::record_head;
use crate::tokenizer::{level_end, state_measure, token_message, SpecToken, Token, Tokenizer, TokState};
use crate::types::custom::UserDefinedTag;
use crate::types::event::{same_event, Event};
use crate::types::family::Family;
use crate::types::header::{declares_gedcom_7, Header};
use crate::types::individual::Individual;
use crate::types::records::{
    adds_contents, adds_record, adds_record_contents, adds_records, after_seen, custom_tag_texts, holds_contents,
    holds_records, kind_of_tag, lemma_adds_contents_step, lemma_adds_no_contents, lemma_adds_nothing, lemma_contents_from_empty,
    lemma_adds_step, lemma_holds_from_empty, lemma_walk_custom, lemma_walk_record, lemma_xref_texts_push,
    custom_record_end, record_end, record_read_end, records_accepted, records_walk, skip_to_level, RecordKind, RecordSeen,
};
use crate::types::multimedia::Multimedia;
use crate::types::repository::Repository;
use crate::types::shared_note::SharedNote;
use crate::types::source::Source;
use crate::types::submission::Submission;
use crate::types::submitter::Submitter;

pub mod address;
pub mod corporation;
pub mod custom;
pub mod date;
pub mod event;
pub mod family;
pub mod gedcom7;
pub mod header;
pub mod individual;
pub mod lds;
pub mod multimedia;
pub mod note;
pub mod place;
pub mod records;
pub mod repository;
pub mod shared;
pub mod shared_note;
pub mod source;
pub mod submission;
pub mod submitter;
pub mod translation;

verus! {

/// A cross-reference identifier, such as `@I1@`.
pub type Xref = String;

/// A parsed GEDCOM file: its header and its records, by kind, in the order
/// of the file.
#[derive(Clone, Debug)]
pub struct GedcomData {
    pub header: Option<Header>,
    pub submitters: Vec<Submitter>,
    pub submissions: Vec<Submission>,
    pub individuals: Vec<Individual>,
    pub families: Vec<Family>,
    pub repositories: Vec<Repository>,
    pub sources: Vec<Source>,
    pub multimedia: Vec<Multimedia>,
    pub shared_notes: Vec<SharedNote>,
    pub custom_data: Vec<Box<UserDefinedTag>>,
}

/// The first index from `i` on at which `xrefs` holds `x`.
pub open spec fn first_from(xrefs: Seq<Option<String>>, x: Seq<char>, i: int) -> Option<int>
    decreases xrefs.len() - i,
{
    if i < 0 || i >= xrefs.len() {
        None
    } else if is_text(xrefs[i], x) {
        Some(i)
    } else {
        first_from(xrefs, x, i + 1)
    }
}

/// The first index at which `xrefs` holds `x`.
pub open spec fn first_xref(xrefs: Seq<Option<String>>, x: Seq<char>) -> Option<int> {
    first_from(xrefs, x, 0)
}

/// The elements of `s` that `keep` keeps, in order.
pub open spec fn kept<T>(s: Seq<T>, keep: spec_fn(T) -> bool) -> Seq<T>
    decreases s.len(),
{
    if s.len() == 0 {
        Seq::empty()
    } else {
        let before = kept(s.drop_last(), keep);
        if keep(s.last()) { before.push(s.last()) } else { before }
    }
}

/// What a filter keeps: every item that passes it, and only such items.
pub proof fn lemma_kept<T>(s: Seq<T>, keep: spec_fn(T) -> bool)
    ensures
        forall|i: int| 0 <= i < s.len() && keep(s[i]) ==> #[trigger] kept(s, keep).contains(s[i]),
        forall|k: int| 0 <= k < kept(s, keep).len() ==> keep(#[trigger] kept(s, keep)[k]),
    decreases s.len(),
{
    if s.len() > 0 {
        let p = s.drop_last();
        lemma_kept(p, keep);
        let b = kept(p, keep);
        assert forall|i: int| 0 <= i < s.len() && keep(s[i]) implies #[trigger] kept(s, keep).contains(s[i]) by {
            if i < s.len() - 1 {
                assert(s[i] == p[i]);
                assert(b.contains(p[i]));
                let w = choose|w: int| 0 <= w < b.len() && b[w] == p[i];
                if keep(s.last()) {
                    assert(kept(s, keep)[w] == b[w]);
                } else {
                    assert(kept(s, keep)[w] == b[w]);
                }
            } else {
                assert(kept(s, keep)[kept(s, keep).len() - 1] == s.last());
            }
        }
        assert forall|k: int| 0 <= k < kept(s, keep).len() implies keep(#[trigger] kept(s, keep)[k]) by {
            if k < b.len() {
                assert(kept(s, keep)[k] == b[k]);
            }
        }
    }
}

/// A list holds `x` exactly when some item of it is `x`.
proof fn lemma_contains_kept<T>(s: Seq<T>, keep: spec_fn(T) -> bool, x: T)
    requires
        kept(s, keep).contains(x),
    ensures
        keep(x),
{
    lemma_kept(s, keep);
    let w = choose|w: int| 0 <= w < kept(s, keep).len() && kept(s, keep)[w] == x;
    assert(keep(kept(s, keep)[w]));
}

/// The families where `x` is a spouse are exactly those whose first or
/// second partner is `x`: every such family of `fams` is among them, and
/// each of them has `x` as a partner.
pub proof fn lemma_spouse_families(fams: Seq<Family>, x: Seq<char>)
    ensures
        forall|i: int| 0 <= i < fams.len() ==> (kept(fams, |f: Family| is_partner(f, x)).contains(#[trigger] fams[i])
            <==> (is_text(fams[i].individual1, x) || is_text(fams[i].individual2, x))),
{
    let keep = |f: Family| is_partner(f, x);
    lemma_kept(fams, keep);
    assert forall|i: int| 0 <= i < fams.len() implies (kept(fams, keep).contains(#[trigger] fams[i])
        <==> (is_text(fams[i].individual1, x) || is_text(fams[i].individual2, x))) by {
        if kept(fams, keep).contains(fams[i]) {
            lemma_contains_kept(fams, keep, fams[i]);
        }
        if is_text(fams[i].individual1, x) || is_text(fams[i].individual2, x) {
            assert(keep(fams[i]));
        }
    }
}

/// The families where `x` is a child are exactly those whose list of
/// children names `x`.
pub proof fn lemma_child_families(fams: Seq<Family>, x: Seq<char>)
    ensures
        forall|i: int| 0 <= i < fams.len() ==> (kept(fams, |f: Family| is_child(f, x)).contains(#[trigger] fams[i])
            <==> fams[i].children@.map_values(|c: String| c@).contains(x)),
{
    let keep = |f: Family| is_child(f, x);
    lemma_kept(fams, keep);
    assert forall|i: int| 0 <= i < fams.len() implies (kept(fams, keep).contains(#[trigger] fams[i])
        <==> fams[i].children@.map_values(|c: String| c@).contains(x)) by {
        let names = fams[i].children@.map_values(|c: String| c@);
        if kept(fams, keep).contains(fams[i]) {
            lemma_contains_kept(fams, keep, fams[i]);
            let j = choose|j: int| 0 <= j < fams[i].children@.len() && #[trigger] fams[i].children@[j]@ == x;
            assert(names[j] == x);
        }
        if names.contains(x) {
            let j = choose|j: int| 0 <= j < names.len() && names[j] == x;
            assert(fams[i].children@[j]@ == x);
            assert(keep(fams[i]));
        }
    }
}

/// A text holds itself.
pub proof fn lemma_substring_self(s: Seq<char>)
    ensures
        has_substring(s, s),
{
    let k: int = 0;
    assert(s.subrange(k, k + s.len()) =~= s);
}

/// The individuals found by a name are exactly those whose name, in
/// lowercase, holds the query in lowercase; in particular one whose name is
/// the query itself is always found.
pub proof fn lemma_name_search(inds: Seq<Individual>, q: Seq<char>)
    ensures
        forall|i: int| 0 <= i < inds.len() ==> (kept(inds, |p: Individual| name_matches(p, lowercase(q))).contains(#[trigger] inds[i])
            <==> (inds[i].name matches Some(n) && (n.value matches Some(v) && has_substring(lowercase(v@), lowercase(q))))),
        forall|i: int| 0 <= i < inds.len() && (inds[i].name matches Some(n) && (n.value matches Some(v) && v@ == q))
            ==> kept(inds, |p: Individual| name_matches(p, lowercase(q))).contains(#[trigger] inds[i]),
{
    let keep = |p: Individual| name_matches(p, lowercase(q));
    lemma_kept(inds, keep);
    lemma_substring_self(lowercase(q));
    assert forall|i: int| 0 <= i < inds.len() implies (kept(inds, keep).contains(#[trigger] inds[i])
        <==> (inds[i].name matches Some(n) && (n.value matches Some(v) && has_substring(lowercase(v@), lowercase(q))))) by {
        if kept(inds, keep).contains(inds[i]) {
            lemma_contains_kept(inds, keep, inds[i]);
        }
        if inds[i].name matches Some(n) && (n.value matches Some(v) && has_substring(lowercase(v@), lowercase(q))) {
            assert(keep(inds[i]));
        }
    }
}

/// The values behind a list of references.
pub open spec fn derefs<T>(s: Seq<&T>) -> Seq<T> {
    s.map_values(|r: &T| *r)
}

/// The cross-references of a list of records.
pub open spec fn individual_xrefs(s: Seq<Individual>) -> Seq<Option<String>> {
    s.map_values(|r: Individual| r.xref)
}

/// The cross-references of a list of records.
pub open spec fn family_xrefs(s: Seq<Family>) -> Seq<Option<String>> {
    s.map_values(|r: Family| r.xref)
}

/// The cross-references of a list of records.
pub open spec fn source_xrefs(s: Seq<Source>) -> Seq<Option<String>> {
    s.map_values(|r: Source| r.xref)
}

/// The cross-references of a list of records.
pub open spec fn repository_xrefs(s: Seq<Repository>) -> Seq<Option<String>> {
    s.map_values(|r: Repository| r.xref)
}

/// The cross-references of a list of records.
pub open spec fn multimedia_xrefs(s: Seq<Multimedia>) -> Seq<Option<String>> {
    s.map_values(|r: Multimedia| r.xref)
}

/// The cross-references of a list of records.
pub open spec fn submitter_xrefs(s: Seq<Submitter>) -> Seq<Option<String>> {
    s.map_values(|r: Submitter| r.xref)
}

/// The cross-references of a list of records.
pub open spec fn shared_note_xrefs(s: Seq<SharedNote>) -> Seq<Option<String>> {
    s.map_values(|r: SharedNote| r.xref)
}

/// The individual whose cross-reference is `x`, looked up in `inds`, as a
/// list of zero or one individual.
pub open spec fn found_individual(inds: Seq<Individual>, x: Option<String>) -> Seq<Individual> {
    match x {
        Some(v) => match first_xref(individual_xrefs(inds), v@) {
            Some(k) => seq![inds[k]],
            None => Seq::empty(),
        },
        None => Seq::empty(),
    }
}

/// The individuals that a list of cross-references names, in order, each
/// found as [`first_xref`] says; references to no individual are left out.
pub open spec fn found_individuals(inds: Seq<Individual>, xs: Seq<String>) -> Seq<Individual>
    decreases xs.len(),
{
    if xs.len() == 0 {
        Seq::empty()
    } else {
        found_individuals(inds, xs.drop_last()) + found_individual(inds, Some(xs.last()))
    }
}

/// Whether `x` is a partner in `f`.
pub open spec fn is_partner(f: Family, x: Seq<char>) -> bool {
    is_text(f.individual1, x) || is_text(f.individual2, x)
}

/// Whether `x` is a child in `f`.
pub open spec fn is_child(f: Family, x: Seq<char>) -> bool {
    exists|j: int| 0 <= j < f.children@.len() && #[trigger] f.children@[j]@ == x
}

/// Whether the name of `i`, in lowercase, holds `q`.
pub open spec fn name_matches(i: Individual, q: Seq<char>) -> bool {
    i.name matches Some(n) && (n.value matches Some(v) && has_substring(lowercase(v@), q))
}

/// Whether `i` has an event of the kind `e`.
pub open spec fn has_event(i: Individual, e: Event) -> bool {
    exists|j: int| 0 <= j < i.events@.len() && same_event(#[trigger] i.events@[j].event, e)
}

/// The number of records of a file.
pub open spec fn record_count(d: GedcomData) -> nat {
    d.individuals@.len() + d.families@.len() + d.sources@.len() + d.repositories@.len()
        + d.multimedia@.len() + d.submitters@.len() + d.submissions@.len() + d.shared_notes@.len()
}

/// The GEDCOM version that the header of a file declares.
pub open spec fn declared_version(d: GedcomData) -> Option<Seq<char>> {
    match d.header {
        Some(h) => match h.gedcom {
            Some(g) => match g.version {
                Some(v) => Some(v@),
                None => None,
            },
            None => None,
        },
        None => None,
    }
}

/// Whether a file is GEDCOM 7: its header says so, or it has shared notes.
pub open spec fn is_version_7(d: GedcomData) -> bool {
    (d.header matches Some(h) && declares_gedcom_7(h)) || d.shared_notes@.len() > 0
}

impl Default for GedcomData {
    fn default() -> (r: Self)
        ensures
            r.header is None && record_count(r) == 0 && r.custom_data@.len() == 0,
    {
        GedcomData {
            header: None,
            submitters: Vec::new(),
            submissions: Vec::new(),
            individuals: Vec::new(),
            families: Vec::new(),
            repositories: Vec::new(),
            sources: Vec::new(),
            multimedia: Vec::new(),
            shared_notes: Vec::new(),
            custom_data: Vec::new(),
        }
    }
}

impl GedcomData {
    /// Reads the records of a file, from the level number of the first
    /// record to the `TRLR` line; the records are at `level`.
    pub fn new(tokenizer: &mut Tokenizer, level: u8) -> (r: Result<GedcomData, GedcomError>)
        requires
            old(tokenizer).wf(),
        ensures
            same_text(*old(tokenizer), *final(tokenizer)),
            r is Ok ==> (records_walk(old(tokenizer).input(), old(tokenizer).state(), level) matches Ok(recs)
                && holds_records(r->Ok_0, recs) && holds_contents(r->Ok_0, old(tokenizer).input(), recs, level)),
            r is Ok <==> records_accepted(old(tokenizer).input(), old(tokenizer).state(), level),
    {
        let mut data = GedcomData::default();
        let ghost d0 = data;
        data.read_records(tokenizer, level)?;
        proof {
            let recs = records_walk(old(tokenizer).input(), old(tokenizer).state(), level)->Ok_0;
            lemma_holds_from_empty(d0, data, recs);
            lemma_contents_from_empty(d0, data, old(tokenizer).input(), recs, level);
        }
        Ok(data)
    }

    /// Reads the record whose standard tag `t` is the current token, where
    /// its first line is at `cl`, records are at `level` and `pointer` is its
    /// xref, and adds it. `true` for the trailer, which is read no further.
    fn read_record(&mut self, tokenizer: &mut Tokenizer, level: u8, cl: u8, pointer: Option<String>, t: &str)
        -> (r: Result<bool, GedcomError>)
        requires
            old(tokenizer).wf(),
            old(tokenizer).token() == SpecToken::Tag(t@),
        ensures
            same_text(*old(tokenizer), *final(tokenizer)),
            r matches Ok(true) ==> kind_of_tag(t@) == Some(RecordKind::Trailer) && *final(self) == *old(self),
            r matches Ok(false) ==> (kind_of_tag(t@) matches Some(k) && k != RecordKind::Trailer
                && record_end(old(tokenizer).input(), old(tokenizer).state(), k, cl, level)
                    == Ok::<TokState, ()>(final(tokenizer).state())
                && state_measure(old(tokenizer).input(), final(tokenizer).state())
                    < state_measure(old(tokenizer).input(), old(tokenizer).state())
                && adds_record(*old(self), *final(self), RecordSeen {
                    kind: k, tag: t@, xref: text_of(pointer), at: old(tokenizer).state(), line_level: cl,
                })
                && adds_record_contents(*old(self), *final(self), old(tokenizer).input(), RecordSeen {
                    kind: k, tag: t@, xref: text_of(pointer), at: old(tokenizer).state(), line_level: cl,
                }, level)),
            r is Ok <==> (kind_of_tag(t@) matches Some(k)
                && (k == RecordKind::Trailer || record_read_end(old(tokenizer).input(), old(tokenizer).state(), k, cl, level) is Ok)),
            r matches Ok(false) ==> (kind_of_tag(t@) matches Some(k)
                && record_read_end(old(tokenizer).input(), old(tokenizer).state(), k, cl, level) == Ok::<TokState, ()>(final(tokenizer).state())),
    {
        let ghost s = tokenizer.input();
        let ghost st_t = tokenizer.state();
        if str_eq(t, "HEAD") {
            let h = Header::new(tokenizer, level)?;
            self.header = Some(h);
            proof {
                reveal(crate::types::records::header_read_at);
                assert(level_end(s, st_t, level) == level_end(s, tokenizer.state(), level));
            }
            Ok(false)
        } else if str_eq(t, "FAM") {
            let f = Family::new(tokenizer, level, pointer)?;
            let ghost v0 = self.families@;
            self.add_family(f);
            proof {
                reveal(crate::types::records::family_read_at);
                assert(self.families@.drop_last() =~= v0);
                assert(level_end(s, st_t, level) == level_end(s, tokenizer.state(), level));
                lemma_xref_texts_push(v0, f);
            }
            Ok(false)
        } else if str_eq(t, "INDI") {
            let i = Individual::new(tokenizer, cl, pointer)?;
            let ghost v0 = self.individuals@;
            self.add_individual(i);
            proof {
                reveal(crate::types::records::individual_read_at);
                assert(self.individuals@.drop_last() =~= v0);
                assert(level_end(s, st_t, cl) == level_end(s, tokenizer.state(), cl));
                lemma_xref_texts_push(v0, i);
            }
            Ok(false)
        } else if str_eq(t, "REPO") {
            let rp = Repository::new(tokenizer, cl, pointer)?;
            let ghost v0 = self.repositories@;
            self.add_repository(rp);
            proof {
                reveal(crate::types::records::repository_read_at);
                assert(self.repositories@.drop_last() =~= v0);
                assert(level_end(s, st_t, cl) == level_end(s, tokenizer.state(), cl));
                lemma_xref_texts_push(v0, rp);
            }
            Ok(false)
        } else if str_eq(t, "SOUR") {
            let src = Source::new(tokenizer, cl, pointer)?;
            let ghost v0 = self.sources@;
            self.add_source(src);
            proof {
                reveal(crate::types::records::source_read_at);
                assert(self.sources@.drop_last() =~= v0);
                lemma_xref_texts_push(v0, src);
            }
            Ok(false)
        } else if str_eq(t, "SUBN") {
            let sn = Submission::new(tokenizer, level, pointer)?;
            let ghost v0 = self.submissions@;
            self.add_submission(sn);
            proof {
                reveal(crate::types::records::submission_read_at);
                assert(self.submissions@.drop_last() =~= v0);
                assert(level_end(s, st_t, level) == level_end(s, tokenizer.state(), level));
                lemma_xref_texts_push(v0, sn);
            }
            Ok(false)
        } else if str_eq(t, "SUBM") {
            let sm = Submitter::new(tokenizer, level, pointer)?;
            let ghost v0 = self.submitters@;
            self.add_submitter(sm);
            proof {
                reveal(crate::types::records::submitter_read_at);
                assert(self.submitters@.drop_last() =~= v0);
                assert(level_end(s, st_t, level) == level_end(s, tokenizer.state(), level));
                lemma_xref_texts_push(v0, sm);
            }
            Ok(false)
        } else if str_eq(t, "OBJE") {
            let m = Multimedia::new(tokenizer, level, pointer)?;
            let ghost v0 = self.multimedia@;
            self.add_multimedia(m);
            proof {
                reveal(crate::types::records::multimedia_read_at);
                assert(self.multimedia@.drop_last() =~= v0);
                assert(level_end(s, st_t, level) == level_end(s, tokenizer.state(), level));
                lemma_xref_texts_push(v0, m);
            }
            Ok(false)
        } else if str_eq(t, "SNOTE") {
            let n = SharedNote::new(tokenizer, level, pointer)?;
            let ghost v0 = self.shared_notes@;
            self.add_shared_note(n);
            proof {
                reveal(crate::types::records::shared_note_read_at);
                assert(self.shared_notes@.drop_last() =~= v0);
                assert(level_end(s, st_t, level) == level_end(s, tokenizer.state(), level));
                lemma_xref_texts_push(v0, n);
            }
            Ok(false)
        } else if str_eq(t, "TRLR") {
            Ok(true)
        } else {
            Err(crate::parser::tag_error("Unhandled tag ", t, tokenizer.line()))
        }
    }

    /// Reads the user-defined record whose tag `t` is the current token, where
    /// records are at `level`, adds it, and passes over the lines after it up
    /// to the next line at `level`.
    fn read_custom_record(
        &mut self,
        tokenizer: &mut Tokenizer,
        level: u8,
        t: &str,
        Ghost(ptr): Ghost<Option<Seq<char>>>,
        Ghost(cl): Ghost<u8>,
    )
        -> (r: Result<(), GedcomError>)
        requires
            old(tokenizer).wf(),
            old(tokenizer).token() == SpecToken::CustomTag(t@),
        ensures
            same_text(*old(tokenizer), *final(tokenizer)),
            r is Ok ==> skip_to_level(
                old(tokenizer).input(),
                level_end(old(tokenizer).input(), old(tokenizer).state(), spec_child_level(level)),
                level,
            ) == Ok::<TokState, ()>(final(tokenizer).state()),
            r is Ok ==> final(tokenizer).measure() < old(tokenizer).measure(),
            r is Ok ==> adds_record(*old(self), *final(self), RecordSeen {
                kind: RecordKind::Custom, tag: t@, xref: ptr, at: old(tokenizer).state(), line_level: cl,
            }),
            r is Ok ==> final(self).individuals == old(self).individuals && final(self).header == old(self).header
                && final(self).families == old(self).families && final(self).repositories == old(self).repositories
                && final(self).submitters == old(self).submitters && final(self).submissions == old(self).submissions
                && final(self).shared_notes == old(self).shared_notes && final(self).multimedia == old(self).multimedia
                && final(self).sources == old(self).sources,
            r is Ok <==> custom_record_end(old(tokenizer).input(), old(tokenizer).state(), level) is Ok,
            r is Ok ==> custom_record_end(old(tokenizer).input(), old(tokenizer).state(), level) == Ok::<TokState, ()>(final(tokenizer).state()),
    {
        let ghost s = tokenizer.input();
        let ghost st_t = tokenizer.state();
        let udt = UserDefinedTag::new(tokenizer, crate::parser::child_level(level), t)?;
        let ghost d0 = *self;
        let ghost after_udt = tokenizer.state();
        proof {
            let c = spec_child_level(level);
            assert(level_end(s, st_t, c) == level_end(s, after_udt, c));
            assert(level_end(s, after_udt, c) == after_udt);
        }
        self.add_custom_data(udt);
        proof {
            assert(custom_tag_texts(self.custom_data@) =~= custom_tag_texts(d0.custom_data@).push(t@));
        }
        loop
            invariant
                s == tokenizer.input(),
                same_text(*old(tokenizer), *tokenizer),
                tokenizer.measure() < old(tokenizer).measure(),
                skip_to_level(s, tokenizer.state(), level) == skip_to_level(s, after_udt, level),
                custom_record_end(s, old(tokenizer).state(), level) == skip_to_level(s, after_udt, level),
            ensures
                skip_to_level(s, after_udt, level) == Ok::<TokState, ()>(tokenizer.state()),
            decreases tokenizer.measure(),
        {
            proof {
                tokenizer.lemma_cursor();
            }
            match tokenizer.current_token() {
                Token::Level(l) => {
                    if *l == level {
                        break;
                    }
                },
                Token::EOF => {
                    return Err(GedcomError::ParseError {
                        line: tokenizer.line(),
                        message: String::from_str("Unexpected end of file after a user-defined structure"),
                    });
                },
                _ => {},
            }
            tokenizer.next_token()?;
        }
        Ok(())
    }

    /// Reads records and adds them, up to the `TRLR` line.
    #[verifier::rlimit(60)]
    fn read_records(&mut self, tokenizer: &mut Tokenizer, level: u8) -> (r: Result<(), GedcomError>)
        requires
            old(tokenizer).wf(),
        ensures
            same_text(*old(tokenizer), *final(tokenizer)),
            r is Ok ==> (records_walk(old(tokenizer).input(), old(tokenizer).state(), level) matches Ok(recs)
                && adds_records(*old(self), *final(self), recs)
                && adds_contents(*old(self), *final(self), old(tokenizer).input(), recs, level)),
            r is Ok <==> records_accepted(old(tokenizer).input(), old(tokenizer).state(), level),
    {
        let ghost start = *old(tokenizer);
        let ghost s = start.input();
        let ghost base = *old(self);
        let ghost mut seen: Seq<RecordSeen> = Seq::empty();
        proof {
            assert(seen + Seq::<RecordSeen>::empty() =~= seen);
            lemma_adds_nothing(base);
            lemma_adds_no_contents(base, s, level);
        }
        loop
            invariant_except_break
                records_walk(s, start.state(), level) == after_seen(seen, records_walk(s, tokenizer.state(), level)),
                records_accepted(s, tokenizer.state(), level) == records_accepted(s, start.state(), level),
            invariant
                start == *old(tokenizer),
                s == start.input(),
                same_text(start, *tokenizer),
                adds_records(base, *self, seen),
                adds_contents(base, *self, s, seen, level),
            ensures
                records_walk(s, start.state(), level) == Ok::<Seq<RecordSeen>, ()>(seen),
                records_accepted(s, start.state(), level),
            decreases tokenizer.measure(),
        {
            let ghost top = tokenizer.state();
            let current_level = match tokenizer.current_token() {
                Token::Level(l) => *l,
                _ => {
                    return Err(GedcomError::ParseError {
                        line: tokenizer.line(),
                        message: token_message("Expected Level, found ", tokenizer.current_token()),
                    });
                },
            };
            let ghost m0 = tokenizer.measure();
            tokenizer.next_token()?;
            let mut pointer: Option<String> = None;
            if let Token::Pointer(xref) = tokenizer.current_token() {
                pointer = Some(xref.clone());
                tokenizer.next_token()?;
            }
            let ghost st_t = tokenizer.state();
            let ghost ptr = text_of(pointer);
            assert(record_head(s, top) == Ok::<(Option<Seq<char>>, TokState), ()>((ptr, st_t)));
            if let Token::Tag(tag) = tokenizer.current_token() {
                let tag = tag.clone();
                let ghost d0 = *self;
                let trailer = self.read_record(tokenizer, level, current_level, pointer, tag.as_str())?;
                if trailer {
                    proof {
                        assert(seen + Seq::<RecordSeen>::empty() =~= seen);
                    }
                    break;
                }
                proof {
                    let k = kind_of_tag(tag@)->0;
                    let r = RecordSeen { kind: k, tag: tag@, xref: ptr, at: st_t, line_level: current_level };
                    lemma_walk_record(s, top, st_t, ptr, tag@, k, tokenizer.state(), level, seen);
                    lemma_adds_step(base, d0, *self, seen, r);
                    lemma_adds_contents_step(base, d0, *self, s, seen, r, level);
                    seen = seen.push(r);
                }
            } else if let Token::CustomTag(tag) = tokenizer.current_token() {
                let tag = tag.clone();
                let ghost d0 = *self;
                self.read_custom_record(tokenizer, level, tag.as_str(), Ghost(ptr), Ghost(current_level))?;
                proof {
                    let r = RecordSeen { kind: RecordKind::Custom, tag: tag@, xref: ptr, at: st_t, line_level: current_level };
                    lemma_walk_custom(s, top, st_t, ptr, tag@, tokenizer.state(), level, seen);
                    lemma_adds_step(base, d0, *self, seen, r);
                    lemma_adds_contents_step(base, d0, *self, s, seen, r, level);
                    seen = seen.push(r);
                }
            } else {
                return Err(GedcomError::ParseError {
                    line: tokenizer.line(),
                    message: token_message("Unhandled token ", tokenizer.current_token()),
                });
            }
        }
        Ok(())
    }

    /// Adds a record after the others of its kind.
    pub fn add_family(&mut self, family: Family)
        ensures
            final(self).families@ == old(self).families@.push(family),
            final(self).header == old(self).header,
            final(self).submitters == old(self).submitters,
            final(self).submissions == old(self).submissions,
            final(self).individuals == old(self).individuals,
            final(self).repositories == old(self).repositories,
            final(self).sources == old(self).sources,
            final(self).multimedia == old(self).multimedia,
            final(self).shared_notes == old(self).shared_notes,
            final(self).custom_data == old(self).custom_data,
    {
        self.families.push(family);
    }

    /// Adds a record after the others of its kind.
    pub fn add_individual(&mut self, individual: Individual)
        ensures
            final(self).individuals@ == old(self).individuals@.push(individual),
            final(self).header == old(self).header,
            final(self).submitters == old(self).submitters,
            final(self).submissions == old(self).submissions,
            final(self).families == old(self).families,
            final(self).repositories == old(self).repositories,
            final(self).sources == old(self).sources,
            final(self).multimedia == old(self).multimedia,
            final(self).shared_notes == old(self).shared_notes,
            final(self).custom_data == old(self).custom_data,
    {
        self.individuals.push(individual);
    }

    /// Adds a record after the others of its kind.
    pub fn add_repository(&mut self, repo: Repository)
        ensures
            final(self).repositories@ == old(self).repositories@.push(repo),
            final(self).header == old(self).header,
            final(self).submitters == old(self).submitters,
            final(self).submissions == old(self).submissions,
            final(self).individuals == old(self).individuals,
            final(self).families == old(self).families,
            final(self).sources == old(self).sources,
            final(self).multimedia == old(self).multimedia,
            final(self).shared_notes == old(self).shared_notes,
            final(self).custom_data == old(self).custom_data,
    {
        self.repositories.push(repo);
    }

    /// Adds a record after the others of its kind.
    pub fn add_source(&mut self, source: Source)
        ensures
            final(self).sources@ == old(self).sources@.push(source),
            final(self).header == old(self).header,
            final(self).submitters == old(self).submitters,
            final(self).submissions == old(self).submissions,
            final(self).individuals == old(self).individuals,
            final(self).families == old(self).families,
            final(self).repositories == old(self).repositories,
            final(self).multimedia == old(self).multimedia,
            final(self).shared_notes == old(self).shared_notes,
            final(self).custom_data == old(self).custom_data,
    {
        self.sources.push(source);
    }

    /// Adds a record after the others of its kind.
    pub fn add_submission(&mut self, submission: Submission)
        ensures
            final(self).submissions@ == old(self).submissions@.push(submission),
            final(self).header == old(self).header,
            final(self).submitters == old(self).submitters,
            final(self).individuals == old(self).individuals,
            final(self).families == old(self).families,
            final(self).repositories == old(self).repositories,
            final(self).sources == old(self).sources,
            final(self).multimedia == old(self).multimedia,
            final(self).shared_notes == old(self).shared_notes,
            final(self).custom_data == old(self).custom_data,
    {
        self.submissions.push(submission);
    }

    /// Adds a record after the others of its kind.
    pub fn add_submitter(&mut self, submitter: Submitter)
        ensures
            final(self).submitters@ == old(self).submitters@.push(submitter),
            final(self).header == old(self).header,
            final(self).submissions == old(self).submissions,
            final(self).individuals == old(self).individuals,
            final(self).families == old(self).families,
            final(self).repositories == old(self).repositories,
            final(self).sources == old(self).sources,
            final(self).multimedia == old(self).multimedia,
            final(self).shared_notes == old(self).shared_notes,
            final(self).custom_data == old(self).custom_data,
    {
        self.submitters.push(submitter);
    }

    /// Adds a record after the others of its kind.
    pub fn add_multimedia(&mut self, multimedia: Multimedia)
        ensures
            final(self).multimedia@ == old(self).multimedia@.push(multimedia),
            final(self).header == old(self).header,
            final(self).submitters == old(self).submitters,
            final(self).submissions == old(self).submissions,
            final(self).individuals == old(self).individuals,
            final(self).families == old(self).families,
            final(self).repositories == old(self).repositories,
            final(self).sources == old(self).sources,
            final(self).shared_notes == old(self).shared_notes,
            final(self).custom_data == old(self).custom_data,
    {
        self.multimedia.push(multimedia);
    }

    /// Adds a record after the others of its kind.
    pub fn add_shared_note(&mut self, shared_note: SharedNote)
        ensures
            final(self).shared_notes@ == old(self).shared_notes@.push(shared_note),
            final(self).header == old(self).header,
            final(self).submitters == old(self).submitters,
            final(self).submissions == old(self).submissions,
            final(self).individuals == old(self).individuals,
            final(self).families == old(self).families,
            final(self).repositories == old(self).repositories,
            final(self).sources == old(self).sources,
            final(self).multimedia == old(self).multimedia,
            final(self).custom_data == old(self).custom_data,
    {
        self.shared_notes.push(shared_note);
    }

    /// Adds a user-defined structure at the top level.
    pub fn add_custom_data(&mut self, non_standard_data: UserDefinedTag)
        ensures
            final(self).custom_data@ == old(self).custom_data@.push(Box::new(non_standard_data)),
            final(self).header == old(self).header,
            final(self).submitters == old(self).submitters,
            final(self).submissions == old(self).submissions,
            final(self).individuals == old(self).individuals,
            final(self).families == old(self).families,
            final(self).repositories == old(self).repositories,
            final(self).sources == old(self).sources,
            final(self).multimedia == old(self).multimedia,
            final(self).shared_notes == old(self).shared_notes,
    {
        self.custom_data.push(Box::new(non_standard_data));
    }

    /// The first individual whose cross-reference is `xref`.
    pub fn find_individual(&self, xref: &str) -> (r: Option<&Individual>)
        ensures
            match first_xref(individual_xrefs(self.individuals@), xref@) {
                Some(k) => r == Some(&self.individuals@[k]),
                None => r is None,
            },
    {
        let mut i: usize = 0;
        while i < self.individuals.len()
            invariant
                i <= self.individuals@.len(),
                first_xref(individual_xrefs(self.individuals@), xref@) == first_from(individual_xrefs(self.individuals@), xref@, i as int),
            decreases self.individuals@.len() - i,
        {
            if let Some(x) = &self.individuals[i].xref {
                if str_eq(x.as_str(), xref) {
                    return Some(&self.individuals[i]);
                }
            }
            i = i + 1;
        }
        None
    }

    /// The first family whose cross-reference is `xref`.
    pub fn find_family(&self, xref: &str) -> (r: Option<&Family>)
        ensures
            match first_xref(family_xrefs(self.families@), xref@) {
                Some(k) => r == Some(&self.families@[k]),
                None => r is None,
            },
    {
        let mut i: usize = 0;
        while i < self.families.len()
            invariant
                i <= self.families@.len(),
                first_xref(family_xrefs(self.families@), xref@) == first_from(family_xrefs(self.families@), xref@, i as int),
            decreases self.families@.len() - i,
        {
            if let Some(x) = &self.families[i].xref {
                if str_eq(x.as_str(), xref) {
                    return Some(&self.families[i]);
                }
            }
            i = i + 1;
        }
        None
    }

    /// The first source whose cross-reference is `xref`.
    pub fn find_source(&self, xref: &str) -> (r: Option<&Source>)
        ensures
            match first_xref(source_xrefs(self.sources@), xref@) {
                Some(k) => r == Some(&self.sources@[k]),
                None => r is None,
            },
    {
        let mut i: usize = 0;
        while i < self.sources.len()
            invariant
                i <= self.sources@.len(),
                first_xref(source_xrefs(self.sources@), xref@) == first_from(source_xrefs(self.sources@), xref@, i as int),
            decreases self.sources@.len() - i,
        {
            if let Some(x) = &self.sources[i].xref {
                if str_eq(x.as_str(), xref) {
                    return Some(&self.sources[i]);
                }
            }
            i = i + 1;
        }
        None
    }

    /// The first repository whose cross-reference is `xref`.
    pub fn find_repository(&self, xref: &str) -> (r: Option<&Repository>)
        ensures
            match first_xref(repository_xrefs(self.repositories@), xref@) {
                Some(k) => r == Some(&self.repositories@[k]),
                None => r is None,
            },
    {
        let mut i: usize = 0;
        while i < self.repositories.len()
            invariant
                i <= self.repositories@.len(),
                first_xref(repository_xrefs(self.repositories@), xref@) == first_from(repository_xrefs(self.repositories@), xref@, i as int),
            decreases self.repositories@.len() - i,
        {
            if let Some(x) = &self.repositories[i].xref {
                if str_eq(x.as_str(), xref) {
                    return Some(&self.repositories[i]);
                }
            }
            i = i + 1;
        }
        None
    }

    /// The first multimedia whose cross-reference is `xref`.
    pub fn find_multimedia(&self, xref: &str) -> (r: Option<&Multimedia>)
        ensures
            match first_xref(multimedia_xrefs(self.multimedia@), xref@) {
                Some(k) => r == Some(&self.multimedia@[k]),
                None => r is None,
            },
    {
        let mut i: usize = 0;
        while i < self.multimedia.len()
            invariant
                i <= self.multimedia@.len(),
                first_xref(multimedia_xrefs(self.multimedia@), xref@) == first_from(multimedia_xrefs(self.multimedia@), xref@, i as int),
            decreases self.multimedia@.len() - i,
        {
            if let Some(x) = &self.multimedia[i].xref {
                if str_eq(x.as_str(), xref) {
                    return Some(&self.multimedia[i]);
                }
            }
            i = i + 1;
        }
        None
    }

    /// The first submitter whose cross-reference is `xref`.
    pub fn find_submitter(&self, xref: &str) -> (r: Option<&Submitter>)
        ensures
            match first_xref(submitter_xrefs(self.submitters@), xref@) {
                Some(k) => r == Some(&self.submitters@[k]),
                None => r is None,
            },
    {
        let mut i: usize = 0;
        while i < self.submitters.len()
            invariant
                i <= self.submitters@.len(),
                first_xref(submitter_xrefs(self.submitters@), xref@) == first_from(submitter_xrefs(self.submitters@), xref@, i as int),
            decreases self.submitters@.len() - i,
        {
            if let Some(x) = &self.submitters[i].xref {
                if str_eq(x.as_str(), xref) {
                    return Some(&self.submitters[i]);
                }
            }
            i = i + 1;
        }
        None
    }

    /// The first shared note whose cross-reference is `xref`.
    pub fn find_shared_note(&self, xref: &str) -> (r: Option<&SharedNote>)
        ensures
            match first_xref(shared_note_xrefs(self.shared_notes@), xref@) {
                Some(k) => r == Some(&self.shared_notes@[k]),
                None => r is None,
            },
    {
        let mut i: usize = 0;
        while i < self.shared_notes.len()
            invariant
                i <= self.shared_notes@.len(),
                first_xref(shared_note_xrefs(self.shared_notes@), xref@) == first_from(shared_note_xrefs(self.shared_notes@), xref@, i as int),
            decreases self.shared_notes@.len() - i,
        {
            if let Some(x) = &self.shared_notes[i].xref {
                if str_eq(x.as_str(), xref) {
                    return Some(&self.shared_notes[i]);
                }
            }
            i = i + 1;
        }
        None
    }

    /// The families in which `individual_xref` is a partner, in order.
    pub fn get_families_as_spouse(&self, individual_xref: &str) -> (r: Vec<&Family>)
        ensures
            derefs(r@) == kept(self.families@, |f: Family| is_partner(f, individual_xref@)),
            forall|i: int| 0 <= i < self.families@.len() ==> (#[trigger] derefs(r@).contains(self.families@[i])
                <==> (is_text(self.families@[i].individual1, individual_xref@)
                    || is_text(self.families@[i].individual2, individual_xref@))),
    {
        proof {
            lemma_spouse_families(self.families@, individual_xref@);
        }
        let mut out: Vec<&Family> = Vec::new();
        let mut i: usize = 0;
        while i < self.families.len()
            invariant
                i <= self.families@.len(),
                derefs(out@) == kept(self.families@.subrange(0, i as int), |f: Family| is_partner(f, individual_xref@)),
            decreases self.families@.len() - i,
        {
            let f = &self.families[i];
            let ghost before = out@;
            proof {
                assert(self.families@.subrange(0, i + 1).drop_last() =~= self.families@.subrange(0, i as int));
            }
            let p1 = match &f.individual1 {
                Some(x) => str_eq(x.as_str(), individual_xref),
                None => false,
            };
            let p2 = match &f.individual2 {
                Some(x) => str_eq(x.as_str(), individual_xref),
                None => false,
            };
            if p1 || p2 {
                out.push(f);
                proof {
                    assert(derefs(out@) =~= derefs(before).push(*f));
                }
            }
            i = i + 1;
        }
        proof {
            assert(self.families@.subrange(0, self.families@.len() as int) =~= self.families@);
        }
        out
    }

    /// The families in which `individual_xref` is a child, in order.
    pub fn get_families_as_child(&self, individual_xref: &str) -> (r: Vec<&Family>)
        ensures
            derefs(r@) == kept(self.families@, |f: Family| is_child(f, individual_xref@)),
            forall|i: int| 0 <= i < self.families@.len() ==> (#[trigger] derefs(r@).contains(self.families@[i])
                <==> self.families@[i].children@.map_values(|c: String| c@).contains(individual_xref@)),
    {
        proof {
            lemma_child_families(self.families@, individual_xref@);
        }
        let mut out: Vec<&Family> = Vec::new();
        let mut i: usize = 0;
        while i < self.families.len()
            invariant
                i <= self.families@.len(),
                derefs(out@) == kept(self.families@.subrange(0, i as int), |f: Family| is_child(f, individual_xref@)),
            decreases self.families@.len() - i,
        {
            let f = &self.families[i];
            let ghost before = out@;
            proof {
                assert(self.families@.subrange(0, i + 1).drop_last() =~= self.families@.subrange(0, i as int));
            }
            let mut found = false;
            let mut j: usize = 0;
            while j < f.children.len()
                invariant
                    j <= f.children@.len(),
                    found == exists|k: int| 0 <= k < j && #[trigger] f.children@[k]@ == individual_xref@,
                decreases f.children@.len() - j,
            {
                if str_eq(f.children[j].as_str(), individual_xref) {
                    found = true;
                }
                j = j + 1;
            }
            if found {
                out.push(f);
                proof {
                    assert(derefs(out@) =~= derefs(before).push(*f));
                }
            }
            i = i + 1;
        }
        proof {
            assert(self.families@.subrange(0, self.families@.len() as int) =~= self.families@);
        }
        out
    }

    /// The children of `family` that are individuals of this file, in order.
    pub fn get_children(&self, family: &Family) -> (r: Vec<&Individual>)
        ensures
            derefs(r@) == found_individuals(self.individuals@, family.children@),
    {
        let mut out: Vec<&Individual> = Vec::new();
        let mut i: usize = 0;
        while i < family.children.len()
            invariant
                i <= family.children@.len(),
                derefs(out@) == found_individuals(self.individuals@, family.children@.subrange(0, i as int)),
            decreases family.children@.len() - i,
        {
            let ghost before = out@;
            proof {
                assert(family.children@.subrange(0, i + 1).drop_last() =~= family.children@.subrange(0, i as int));
            }
            match self.find_individual(family.children[i].as_str()) {
                Some(ind) => {
                    out.push(ind);
                    proof {
                        assert(derefs(out@) =~= derefs(before) + seq![*ind]);
                    }
                },
                None => {
                    proof {
                        assert(derefs(out@) =~= derefs(before) + Seq::<Individual>::empty());
                    }
                },
            }
            i = i + 1;
        }
        proof {
            assert(family.children@.subrange(0, family.children@.len() as int) =~= family.children@);
        }
        out
    }

    /// The partners of `family` that are individuals of this file.
    pub fn get_parents(&self, family: &Family) -> (r: Vec<&Individual>)
        ensures
            derefs(r@) == found_individual(self.individuals@, family.individual1)
                + found_individual(self.individuals@, family.individual2),
    {
        let mut parents: Vec<&Individual> = Vec::new();
        if let Some(x) = &family.individual1 {
            if let Some(ind) = self.find_individual(x.as_str()) {
                parents.push(ind);
            }
        }
        let ghost first = derefs(parents@);
        if let Some(x) = &family.individual2 {
            if let Some(ind) = self.find_individual(x.as_str()) {
                parents.push(ind);
                proof {
                    assert(derefs(parents@) =~= first + seq![*ind]);
                }
            }
        }
        proof {
            assert(derefs(parents@) =~= found_individual(self.individuals@, family.individual1)
                + found_individual(self.individuals@, family.individual2));
        }
        parents
    }

    /// The other partner of `family`, when `individual_xref` is one of its
    /// partners and the other is an individual of this file.
    pub fn get_spouse(&self, individual_xref: &str, family: &Family) -> (r: Option<&Individual>)
        ensures
            is_text(family.individual1, individual_xref@) ==>
                found_individual(self.individuals@, family.individual2) == (match r { Some(i) => seq![*i], None => Seq::empty() }),
            !is_text(family.individual1, individual_xref@) && is_text(family.individual2, individual_xref@) ==>
                found_individual(self.individuals@, family.individual1) == (match r { Some(i) => seq![*i], None => Seq::empty() }),
            !is_text(family.individual1, individual_xref@) && !is_text(family.individual2, individual_xref@) ==> r is None,
    {
        let is1 = match &family.individual1 {
            Some(x) => str_eq(x.as_str(), individual_xref),
            None => false,
        };
        if is1 {
            return match &family.individual2 {
                Some(x) => self.find_individual(x.as_str()),
                None => None,
            };
        }
        let is2 = match &family.individual2 {
            Some(x) => str_eq(x.as_str(), individual_xref),
            None => false,
        };
        if is2 {
            return match &family.individual1 {
                Some(x) => self.find_individual(x.as_str()),
                None => None,
            };
        }
        None
    }

    /// The individuals whose name, in lowercase, holds `query` in lowercase.
    pub fn search_individuals_by_name(&self, query: &str) -> (r: Vec<&Individual>)
        ensures
            derefs(r@) == kept(self.individuals@, |i: Individual| name_matches(i, lowercase(query@))),
            forall|j: int| 0 <= j < self.individuals@.len() ==> (#[trigger] derefs(r@).contains(self.individuals@[j])
                <==> (self.individuals@[j].name matches Some(n)
                    && (n.value matches Some(v) && has_substring(lowercase(v@), lowercase(query@))))),
            forall|j: int| 0 <= j < self.individuals@.len()
                && (self.individuals@[j].name matches Some(n) && (n.value matches Some(v) && v@ == query@))
                ==> #[trigger] derefs(r@).contains(self.individuals@[j]),
    {
        proof {
            lemma_name_search(self.individuals@, query@);
        }
        let query_lower = to_lowercase(query);
        let mut out: Vec<&Individual> = Vec::new();
        let mut i: usize = 0;
        while i < self.individuals.len()
            invariant
                i <= self.individuals@.len(),
                query_lower@ == lowercase(query@),
                derefs(out@) == kept(self.individuals@.subrange(0, i as int), |i: Individual| name_matches(i, lowercase(query@))),
            decreases self.individuals@.len() - i,
        {
            let ind = &self.individuals[i];
            let ghost before = out@;
            proof {
                assert(self.individuals@.subrange(0, i + 1).drop_last() =~= self.individuals@.subrange(0, i as int));
            }
            let matches = match &ind.name {
                Some(n) => match &n.value {
                    Some(v) => {
                        let lower = to_lowercase(v.as_str());
                        contains_text(lower.as_str(), query_lower.as_str())
                    },
                    None => false,
                },
                None => false,
            };
            if matches {
                out.push(ind);
                proof {
                    assert(derefs(out@) =~= derefs(before).push(*ind));
                }
            }
            i = i + 1;
        }
        proof {
            assert(self.individuals@.subrange(0, self.individuals@.len() as int) =~= self.individuals@);
        }
        out
    }

    /// The individuals that have an event of the kind `event_type`.
    pub fn get_individuals_with_event(&self, event_type: &Event) -> (r: Vec<&Individual>)
        ensures
            derefs(r@) == kept(self.individuals@, |i: Individual| has_event(i, *event_type)),
    {
        let mut out: Vec<&Individual> = Vec::new();
        let mut i: usize = 0;
        while i < self.individuals.len()
            invariant
                i <= self.individuals@.len(),
                derefs(out@) == kept(self.individuals@.subrange(0, i as int), |i: Individual| has_event(i, *event_type)),
            decreases self.individuals@.len() - i,
        {
            let ind = &self.individuals[i];
            let ghost before = out@;
            proof {
                assert(self.individuals@.subrange(0, i + 1).drop_last() =~= self.individuals@.subrange(0, i as int));
            }
            let mut found = false;
            let mut j: usize = 0;
            while j < ind.events.len()
                invariant
                    j <= ind.events@.len(),
                    found == exists|k: int| 0 <= k < j && same_event(#[trigger] ind.events@[k].event, *event_type),
                decreases ind.events@.len() - j,
            {
                if ind.events[j].event.is_same(event_type) {
                    found = true;
                }
                j = j + 1;
            }
            if found {
                out.push(ind);
                proof {
                    assert(derefs(out@) =~= derefs(before).push(*ind));
                }
            }
            i = i + 1;
        }
        proof {
            assert(self.individuals@.subrange(0, self.individuals@.len() as int) =~= self.individuals@);
        }
        out
    }

    /// The number of records.
    pub fn total_records(&self) -> (r: usize)
        requires
            record_count(*self) <= usize::MAX,
        ensures
            r == record_count(*self),
    {
        self.individuals.len() + self.families.len() + self.sources.len() + self.repositories.len()
            + self.multimedia.len() + self.submitters.len() + self.submissions.len() + self.shared_notes.len()
    }

    /// Whether there are no records.
    pub fn is_empty(&self) -> (r: bool)
        ensures
            r == (record_count(*self) == 0),
    {
        self.individuals.len() == 0 && self.families.len() == 0 && self.sources.len() == 0
            && self.repositories.len() == 0 && self.multimedia.len() == 0 && self.submitters.len() == 0
            && self.submissions.len() == 0 && self.shared_notes.len() == 0
    }

    /// The GEDCOM version that the header declares.
    pub fn gedcom_version(&self) -> (r: Option<&str>)
        ensures
            match declared_version(*self) {
                Some(v) => r is Some && r->0@ == v,
                None => r is None,
            },
    {
        match &self.header {
            Some(h) => match &h.gedcom {
                Some(g) => match &g.version {
                    Some(v) => Some(v.as_str()),
                    None => None,
                },
                None => None,
            },
            None => None,
        }
    }

    /// Whether the file is GEDCOM 7: its header says so, or it has shared notes.
    pub fn is_gedcom_7(&self) -> (r: bool)
        ensures
            r == is_version_7(*self),
    {
        if let Some(header) = &self.header {
            if header.is_gedcom_7() {
                return true;
            }
        }
        self.shared_notes.len() > 0
    }

    /// Whether the file is GEDCOM 5: its declared version begins with `5.`,
    /// or, where no version is declared, it is not GEDCOM 7.
    pub fn is_gedcom_5(&self) -> (r: bool)
        ensures
            match declared_version(*self) {
                Some(v) => r == (v.len() >= 2 && v.subrange(0, 2) == "5."@),
                None => r == !is_version_7(*self),
            },
    {
        if let Some(version) = self.gedcom_version() {
            proof {
                reveal_strlit("5.");
            }
            return starts_with(version, "5.");
        }
        !self.is_gedcom_7()
    }

    /// The record counts, one per line, as `stats` prints them.
    pub fn stats_text(&self) -> (r: String)
        ensures
            r@ == stats_lines(*self),
    {
        let mut s = String::from_str("----------------------\n| GEDCOM Data Stats: |\n----------------------\n");
        s.append("  submissions: ");
        append_decimal(&mut s, self.submissions.len() as u64);
        s.append("\n  submitters: ");
        append_decimal(&mut s, self.submitters.len() as u64);
        s.append("\n  individuals: ");
        append_decimal(&mut s, self.individuals.len() as u64);
        s.append("\n  families: ");
        append_decimal(&mut s, self.families.len() as u64);
        s.append("\n  repositories: ");
        append_decimal(&mut s, self.repositories.len() as u64);
        s.append("\n  sources: ");
        append_decimal(&mut s, self.sources.len() as u64);
        s.append("\n  multimedia: ");
        append_decimal(&mut s, self.multimedia.len() as u64);
        s.append("\n  shared_notes: ");
        append_decimal(&mut s, self.shared_notes.len() as u64);
        s.append("\n----------------------\n");
        s
    }
}

/// The record counts as `stats` prints them.
pub open spec fn stats_lines(d: GedcomData) -> Seq<char> {
    "----------------------\n| GEDCOM Data Stats: |\n----------------------\n"@
        + "  submissions: "@ + crate::text::decimal(d.submissions@.len())
        + "\n  submitters: "@ + crate::text::decimal(d.submitters@.len())
        + "\n  individuals: "@ + crate::text::decimal(d.individuals@.len())
        + "\n  families: "@ + crate::text::decimal(d.families@.len())
        + "\n  repositories: "@ + crate::text::decimal(d.repositories@.len())
        + "\n  sources: "@ + crate::text::decimal(d.sources@.len())
        + "\n  multimedia: "@ + crate::text::decimal(d.multimedia@.len())
        + "\n  shared_notes: "@ + crate::text::decimal(d.shared_notes@.len())
        + "\n----------------------\n"@
}

impl Parser for GedcomData {
    /// Reads records and adds them to those held, up to the `TRLR` line.
    fn parse(&mut self, tokenizer: &mut Tokenizer, level: u8) -> (r: Result<(), GedcomError>)
        ensures
            r is Ok <==> records_accepted(old(tokenizer).input(), old(tokenizer).state(), level),
            r is Ok ==> (records_walk(old(tokenizer).input(), old(tokenizer).state(), level) matches Ok(recs)
                && adds_records(*old(self), *final(self), recs)
                && adds_contents(*old(self), *final(self), old(tokenizer).input(), recs, level)),
    {
        self.read_records(tokenizer, level)
    }
}

} // verus!
