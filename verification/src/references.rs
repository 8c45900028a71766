//! What the check of references finds, stated over the text: the records
//! that references may name, the partners and children of each family, and
//! the families that each individual links to.
use vstd::prelude::*;
use crate::builder::{
    child_problem, families_problem, family_problem, individuals_problem, is_record_xref, link_problem,
    reference_problem,
};
use crate::indexed::CrossReferenced;
use crate::parser::{last_tag_value, tag_values, text_of};
use crate::text::{is_text, string_views};
use crate::stream::initial_state;
use crate::tokenizer::{step, TokState};
use crate::types::family::{family_walk, Family};
use crate::types::individual::family_link::FamilyLink;
use crate::types::individual::{individual_walk, link_xrefs, linked_families, Individual};
use crate::types::records::{
    family_read_at, holds_contents, holds_records, individual_read_at, records_of_kind, xref_texts, xrefs_of_kind,
    records_accepted, records_walk, RecordKind, RecordSeen,
};
use crate::types::GedcomData;

verus! {

/// The references of a file as plain values: the xrefs of the records that
/// references may name; for each family, its first partner, its second and
/// its children; for each individual, the families it links to.
pub struct RefView {
    pub targets: Seq<Option<Seq<char>>>,
    pub families: Seq<(Option<Seq<char>>, Option<Seq<char>>, Seq<Seq<char>>)>,
    pub links: Seq<Seq<Seq<char>>>,
}

/// The first child from `j` on that names no target, as an error message.
pub open spec fn view_child_problem(targets: Seq<Option<Seq<char>>>, cs: Seq<Seq<char>>, j: int) -> Option<Seq<char>>
    decreases cs.len() - j,
{
    if j < 0 || j >= cs.len() {
        None
    } else if !targets.contains(Some(cs[j])) {
        Some("Family references non-existent child: "@ + cs[j])
    } else {
        view_child_problem(targets, cs, j + 1)
    }
}

/// The first reference of a family that names no target: the first
/// partner, the second, then the children in order.
pub open spec fn view_family_problem(
    targets: Seq<Option<Seq<char>>>,
    f: (Option<Seq<char>>, Option<Seq<char>>, Seq<Seq<char>>),
) -> Option<Seq<char>> {
    if f.0 matches Some(h) && !targets.contains(Some(h)) {
        Some("Family references non-existent individual: "@ + f.0->0)
    } else if f.1 matches Some(w) && !targets.contains(Some(w)) {
        Some("Family references non-existent individual: "@ + f.1->0)
    } else {
        view_child_problem(targets, f.2, 0)
    }
}

/// The first problem among the families from `i` on.
pub open spec fn view_families_problem(
    targets: Seq<Option<Seq<char>>>,
    fs: Seq<(Option<Seq<char>>, Option<Seq<char>>, Seq<Seq<char>>)>,
    i: int,
) -> Option<Seq<char>>
    decreases fs.len() - i,
{
    if i < 0 || i >= fs.len() {
        None
    } else {
        match view_family_problem(targets, fs[i]) {
            Some(m) => Some(m),
            None => view_families_problem(targets, fs, i + 1),
        }
    }
}

/// The first link from `j` on to a family that names no target.
pub open spec fn view_link_problem(targets: Seq<Option<Seq<char>>>, ls: Seq<Seq<char>>, j: int) -> Option<Seq<char>>
    decreases ls.len() - j,
{
    if j < 0 || j >= ls.len() {
        None
    } else if !targets.contains(Some(ls[j])) {
        Some("Individual references non-existent family: "@ + ls[j])
    } else {
        view_link_problem(targets, ls, j + 1)
    }
}

/// The first problem among the links of the individuals from `i` on.
pub open spec fn view_individuals_problem(targets: Seq<Option<Seq<char>>>, is: Seq<Seq<Seq<char>>>, i: int) -> Option<Seq<char>>
    decreases is.len() - i,
{
    if i < 0 || i >= is.len() {
        None
    } else {
        match view_link_problem(targets, is[i], 0) {
            Some(m) => Some(m),
            None => view_individuals_problem(targets, is, i + 1),
        }
    }
}

/// The first reference that names no target: those of the families, then
/// those of the individuals.
pub open spec fn view_problem(v: RefView) -> Option<Seq<char>> {
    match view_families_problem(v.targets, v.families, 0) {
        Some(m) => Some(m),
        None => view_individuals_problem(v.targets, v.links, 0),
    }
}

/// The partners and children of a family, as texts.
pub open spec fn family_members(f: Family) -> (Option<Seq<char>>, Option<Seq<char>>, Seq<Seq<char>>) {
    (text_of(f.individual1), text_of(f.individual2), string_views(f.children@))
}

/// The xrefs of the records of `d` that references may name: individuals,
/// families, sources, repositories, submitters and multimedia.
pub open spec fn data_targets(d: GedcomData) -> Seq<Option<Seq<char>>> {
    xref_texts(d.individuals@) + xref_texts(d.families@) + xref_texts(d.sources@) + xref_texts(d.repositories@)
        + xref_texts(d.submitters@) + xref_texts(d.multimedia@)
}

/// The references that `d` holds.
pub open spec fn data_view(d: GedcomData) -> RefView {
    RefView {
        targets: data_targets(d),
        families: d.families@.map_values(|f: Family| family_members(f)),
        links: d.individuals@.map_values(|i: Individual| link_xrefs(i.families@)),
    }
}

/// The partners and children that the `HUSB`, `WIFE` and `CHIL` lines of the
/// family whose tag is at `st`, read at `level`, give.
pub open spec fn family_members_at(s: Seq<char>, st: TokState, level: u8) -> (
    Option<Seq<char>>,
    Option<Seq<char>>,
    Seq<Seq<char>>,
) {
    match step(s, st) {
        Ok(st1) => match family_walk(s, st1, level) {
            Ok((_, kids)) => (last_tag_value(s, kids, "HUSB"@), last_tag_value(s, kids, "WIFE"@), tag_values(s, kids, "CHIL"@)),
            Err(_) => (None, None, Seq::empty()),
        },
        Err(_) => (None, None, Seq::empty()),
    }
}

/// The families that the `FAMC` and `FAMS` lines of the individual whose tag
/// is at `st` and whose line is at `cl` name, each once.
pub open spec fn individual_links_at(s: Seq<char>, st: TokState, cl: u8) -> Seq<Seq<char>> {
    match step(s, st) {
        Ok(st1) => match individual_walk(s, st1, cl) {
            Ok((_, kids)) => linked_families(s, kids),
            Err(_) => Seq::empty(),
        },
        Err(_) => Seq::empty(),
    }
}

/// The references of the text `s` whose records, read at `level`, are `recs`.
pub open spec fn text_view(s: Seq<char>, recs: Seq<RecordSeen>, level: u8) -> RefView {
    RefView {
        targets: xrefs_of_kind(recs, RecordKind::Individual) + xrefs_of_kind(recs, RecordKind::Family)
            + xrefs_of_kind(recs, RecordKind::Source) + xrefs_of_kind(recs, RecordKind::Repository)
            + xrefs_of_kind(recs, RecordKind::Submitter) + xrefs_of_kind(recs, RecordKind::Multimedia),
        families: records_of_kind(recs, RecordKind::Family).map_values(|r: RecordSeen| family_members_at(s, r.at, level)),
        links: records_of_kind(recs, RecordKind::Individual).map_values(
            |r: RecordSeen| individual_links_at(s, r.at, r.line_level),
        ),
    }
}

/// The first reference of the text `s`, whose records read at `level` are
/// `recs`, that names no record, as the check of references reports it.
pub open spec fn text_reference_problem(s: Seq<char>, recs: Seq<RecordSeen>, level: u8) -> Option<Seq<char>> {
    view_problem(text_view(s, recs, level))
}

/// The first reference that names no record in the text `s`, read as a file
/// whose records are at level 0 from its first token; `None` where there is
/// none, or where the text is not read.
pub open spec fn file_reference_problem(s: Seq<char>) -> Option<Seq<char>> {
    match step(s, initial_state()) {
        Ok(st1) => if records_accepted(s, st1, 0) {
            match records_walk(s, st1, 0) {
                Ok(recs) => text_reference_problem(s, recs, 0),
                Err(_) => None,
            }
        } else {
            None
        },
        Err(_) => None,
    }
}

/// A record's xref is among the texts of the xrefs of `v` exactly when some
/// record of `v` has it.
proof fn lemma_xref_texts_contain<T: CrossReferenced>(v: Seq<T>, x: Seq<char>)
    ensures
        xref_texts(v).contains(Some(x)) <==> exists|i: int| 0 <= i < v.len() && is_text(#[trigger] v[i].xref_of(), x),
{
    if xref_texts(v).contains(Some(x)) {
        let k = choose|k: int| 0 <= k < xref_texts(v).len() && xref_texts(v)[k] == Some(x);
        assert(is_text(v[k].xref_of(), x));
    }
    if exists|i: int| 0 <= i < v.len() && is_text(#[trigger] v[i].xref_of(), x) {
        let i = choose|i: int| 0 <= i < v.len() && is_text(#[trigger] v[i].xref_of(), x);
        assert(xref_texts(v)[i] == Some(x));
    }
}

/// An xref is among several lists joined exactly when it is in one of them.
proof fn lemma_contains_join(a: Seq<Option<Seq<char>>>, b: Seq<Option<Seq<char>>>, y: Option<Seq<char>>)
    ensures
        (a + b).contains(y) <==> a.contains(y) || b.contains(y),
{
    if (a + b).contains(y) {
        let k = choose|k: int| 0 <= k < (a + b).len() && (a + b)[k] == y;
        if k < a.len() {
            assert(a[k] == y);
        } else {
            assert(b[k - a.len()] == y);
        }
    }
    if a.contains(y) {
        let k = choose|k: int| 0 <= k < a.len() && a[k] == y;
        assert((a + b)[k] == y);
    }
    if b.contains(y) {
        let k = choose|k: int| 0 <= k < b.len() && b[k] == y;
        assert((a + b)[a.len() + k] == y);
    }
}

/// Some record of `d` has the xref `x` exactly when `x` is among its targets.
#[verifier::rlimit(100)]
#[verifier::spinoff_prover]
proof fn lemma_targets(d: GedcomData)
    ensures
        forall|x: Seq<char>| #[trigger] is_record_xref(d, x) <==> data_targets(d).contains(Some(x)),
{
    assert forall|x: Seq<char>| #[trigger] is_record_xref(d, x) <==> data_targets(d).contains(Some(x)) by {
        let y = Some(x);
        let a = xref_texts(d.individuals@);
        let b = xref_texts(d.families@);
        let c = xref_texts(d.sources@);
        let e = xref_texts(d.repositories@);
        let f = xref_texts(d.submitters@);
        let g = xref_texts(d.multimedia@);
        lemma_contains_join(a, b, y);
        lemma_contains_join(a + b, c, y);
        lemma_contains_join(a + b + c, e, y);
        lemma_contains_join(a + b + c + e, f, y);
        lemma_contains_join(a + b + c + e + f, g, y);
        lemma_xref_texts_contain(d.individuals@, x);
        lemma_xref_texts_contain(d.families@, x);
        lemma_xref_texts_contain(d.sources@, x);
        lemma_xref_texts_contain(d.repositories@, x);
        lemma_xref_texts_contain(d.submitters@, x);
        lemma_xref_texts_contain(d.multimedia@, x);
        assert((exists|i: int| 0 <= i < d.individuals@.len() && is_text(#[trigger] d.individuals@[i].xref, x))
            <==> (exists|i: int| 0 <= i < d.individuals@.len() && is_text(#[trigger] d.individuals@[i].xref_of(), x))) by {
            if exists|i: int| 0 <= i < d.individuals@.len() && is_text(#[trigger] d.individuals@[i].xref, x) {
                let i = choose|i: int| 0 <= i < d.individuals@.len() && is_text(#[trigger] d.individuals@[i].xref, x);
                assert(is_text(d.individuals@[i].xref_of(), x));
            }
            if exists|i: int| 0 <= i < d.individuals@.len() && is_text(#[trigger] d.individuals@[i].xref_of(), x) {
                let i = choose|i: int| 0 <= i < d.individuals@.len() && is_text(#[trigger] d.individuals@[i].xref_of(), x);
                assert(is_text(d.individuals@[i].xref, x));
            }
        }
        assert((exists|i: int| 0 <= i < d.families@.len() && is_text(#[trigger] d.families@[i].xref, x))
            <==> (exists|i: int| 0 <= i < d.families@.len() && is_text(#[trigger] d.families@[i].xref_of(), x))) by {
            if exists|i: int| 0 <= i < d.families@.len() && is_text(#[trigger] d.families@[i].xref, x) {
                let i = choose|i: int| 0 <= i < d.families@.len() && is_text(#[trigger] d.families@[i].xref, x);
                assert(is_text(d.families@[i].xref_of(), x));
            }
            if exists|i: int| 0 <= i < d.families@.len() && is_text(#[trigger] d.families@[i].xref_of(), x) {
                let i = choose|i: int| 0 <= i < d.families@.len() && is_text(#[trigger] d.families@[i].xref_of(), x);
                assert(is_text(d.families@[i].xref, x));
            }
        }
        assert((exists|i: int| 0 <= i < d.sources@.len() && is_text(#[trigger] d.sources@[i].xref, x))
            <==> (exists|i: int| 0 <= i < d.sources@.len() && is_text(#[trigger] d.sources@[i].xref_of(), x))) by {
            if exists|i: int| 0 <= i < d.sources@.len() && is_text(#[trigger] d.sources@[i].xref, x) {
                let i = choose|i: int| 0 <= i < d.sources@.len() && is_text(#[trigger] d.sources@[i].xref, x);
                assert(is_text(d.sources@[i].xref_of(), x));
            }
            if exists|i: int| 0 <= i < d.sources@.len() && is_text(#[trigger] d.sources@[i].xref_of(), x) {
                let i = choose|i: int| 0 <= i < d.sources@.len() && is_text(#[trigger] d.sources@[i].xref_of(), x);
                assert(is_text(d.sources@[i].xref, x));
            }
        }
        assert((exists|i: int| 0 <= i < d.repositories@.len() && is_text(#[trigger] d.repositories@[i].xref, x))
            <==> (exists|i: int| 0 <= i < d.repositories@.len() && is_text(#[trigger] d.repositories@[i].xref_of(), x))) by {
            if exists|i: int| 0 <= i < d.repositories@.len() && is_text(#[trigger] d.repositories@[i].xref, x) {
                let i = choose|i: int| 0 <= i < d.repositories@.len() && is_text(#[trigger] d.repositories@[i].xref, x);
                assert(is_text(d.repositories@[i].xref_of(), x));
            }
            if exists|i: int| 0 <= i < d.repositories@.len() && is_text(#[trigger] d.repositories@[i].xref_of(), x) {
                let i = choose|i: int| 0 <= i < d.repositories@.len() && is_text(#[trigger] d.repositories@[i].xref_of(), x);
                assert(is_text(d.repositories@[i].xref, x));
            }
        }
        assert((exists|i: int| 0 <= i < d.submitters@.len() && is_text(#[trigger] d.submitters@[i].xref, x))
            <==> (exists|i: int| 0 <= i < d.submitters@.len() && is_text(#[trigger] d.submitters@[i].xref_of(), x))) by {
            if exists|i: int| 0 <= i < d.submitters@.len() && is_text(#[trigger] d.submitters@[i].xref, x) {
                let i = choose|i: int| 0 <= i < d.submitters@.len() && is_text(#[trigger] d.submitters@[i].xref, x);
                assert(is_text(d.submitters@[i].xref_of(), x));
            }
            if exists|i: int| 0 <= i < d.submitters@.len() && is_text(#[trigger] d.submitters@[i].xref_of(), x) {
                let i = choose|i: int| 0 <= i < d.submitters@.len() && is_text(#[trigger] d.submitters@[i].xref_of(), x);
                assert(is_text(d.submitters@[i].xref, x));
            }
        }
        assert((exists|i: int| 0 <= i < d.multimedia@.len() && is_text(#[trigger] d.multimedia@[i].xref, x))
            <==> (exists|i: int| 0 <= i < d.multimedia@.len() && is_text(#[trigger] d.multimedia@[i].xref_of(), x))) by {
            if exists|i: int| 0 <= i < d.multimedia@.len() && is_text(#[trigger] d.multimedia@[i].xref, x) {
                let i = choose|i: int| 0 <= i < d.multimedia@.len() && is_text(#[trigger] d.multimedia@[i].xref, x);
                assert(is_text(d.multimedia@[i].xref_of(), x));
            }
            if exists|i: int| 0 <= i < d.multimedia@.len() && is_text(#[trigger] d.multimedia@[i].xref_of(), x) {
                let i = choose|i: int| 0 <= i < d.multimedia@.len() && is_text(#[trigger] d.multimedia@[i].xref_of(), x);
                assert(is_text(d.multimedia@[i].xref, x));
            }
        }
    }
}

proof fn lemma_child(cs: Seq<String>, d: GedcomData, t: Seq<Option<Seq<char>>>, j: int)
    requires
        forall|x: Seq<char>| #[trigger] is_record_xref(d, x) <==> t.contains(Some(x)),
    ensures
        child_problem(cs, d, j) == view_child_problem(t, string_views(cs), j),
    decreases cs.len() - j,
{
    if 0 <= j < cs.len() {
        assert(string_views(cs)[j] == cs[j]@);
        lemma_child(cs, d, t, j + 1);
    }
}

proof fn lemma_families(fs: Seq<Family>, d: GedcomData, t: Seq<Option<Seq<char>>>, i: int)
    requires
        forall|x: Seq<char>| #[trigger] is_record_xref(d, x) <==> t.contains(Some(x)),
    ensures
        families_problem(fs, d, i) == view_families_problem(t, fs.map_values(|f: Family| family_members(f)), i),
    decreases fs.len() - i,
{
    if 0 <= i < fs.len() {
        lemma_child(fs[i].children@, d, t, 0);
        assert(family_problem(fs[i], d) == view_family_problem(t, family_members(fs[i])));
        lemma_families(fs, d, t, i + 1);
    }
}

proof fn lemma_links(ls: Seq<FamilyLink>, d: GedcomData, t: Seq<Option<Seq<char>>>, j: int)
    requires
        forall|x: Seq<char>| #[trigger] is_record_xref(d, x) <==> t.contains(Some(x)),
    ensures
        link_problem(ls, d, j) == view_link_problem(t, link_xrefs(ls), j),
    decreases ls.len() - j,
{
    if 0 <= j < ls.len() {
        assert(link_xrefs(ls)[j] == ls[j].xref@);
        lemma_links(ls, d, t, j + 1);
    }
}

proof fn lemma_individuals(is: Seq<Individual>, d: GedcomData, t: Seq<Option<Seq<char>>>, i: int)
    requires
        forall|x: Seq<char>| #[trigger] is_record_xref(d, x) <==> t.contains(Some(x)),
    ensures
        individuals_problem(is, d, i) == view_individuals_problem(
            t,
            is.map_values(|p: Individual| link_xrefs(p.families@)),
            i,
        ),
    decreases is.len() - i,
{
    if 0 <= i < is.len() {
        lemma_links(is[i].families@, d, t, 0);
        lemma_individuals(is, d, t, i + 1);
    }
}

/// The check of references reports for `d` what it reports for the
/// references that `d` holds.
pub proof fn lemma_problem_of_view(d: GedcomData)
    ensures
        reference_problem(d) == view_problem(data_view(d)),
{
    lemma_targets(d);
    lemma_families(d.families@, d, data_targets(d), 0);
    lemma_individuals(d.individuals@, d, data_targets(d), 0);
}

/// Data that holds the records read from a text, with their contents, holds
/// the references of that text.
#[verifier::rlimit(100)]
#[verifier::spinoff_prover]
pub proof fn lemma_view_of_text(d: GedcomData, s: Seq<char>, recs: Seq<RecordSeen>, level: u8)
    requires
        holds_records(d, recs),
        holds_contents(d, s, recs, level),
    ensures
        data_view(d) == text_view(s, recs, level),
{
    reveal(family_read_at);
    reveal(individual_read_at);
    let fams = records_of_kind(recs, RecordKind::Family);
    let inds = records_of_kind(recs, RecordKind::Individual);
    assert forall|j: int| 0 <= j < fams.len() implies family_members(#[trigger] d.families@[j]) == family_members_at(
        s,
        fams[j].at,
        level,
    ) by {
        assert(family_read_at(d.families@[j], s, fams[j].at, level));
    }
    assert(d.families@.map_values(|f: Family| family_members(f)) =~= fams.map_values(
        |r: RecordSeen| family_members_at(s, r.at, level),
    ));
    assert forall|j: int| 0 <= j < inds.len() implies link_xrefs(#[trigger] d.individuals@[j].families@)
        == individual_links_at(s, inds[j].at, inds[j].line_level) by {
        assert(individual_read_at(d.individuals@[j], s, inds[j].at, inds[j].line_level));
    }
    assert(d.individuals@.map_values(|i: Individual| link_xrefs(i.families@)) =~= inds.map_values(
        |r: RecordSeen| individual_links_at(s, r.at, r.line_level),
    ));
}

/// The check of references reports for data read from a text what
/// [`text_reference_problem`] states of that text.
pub proof fn lemma_problem_of_text(d: GedcomData, s: Seq<char>, recs: Seq<RecordSeen>, level: u8)
    requires
        holds_records(d, recs),
        holds_contents(d, s, recs, level),
    ensures
        reference_problem(d) == text_reference_problem(s, recs, level),
{
    lemma_problem_of_view(d);
    lemma_view_of_text(d, s, recs, level);
}

} // verus!
