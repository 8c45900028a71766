//! The data of a file with an index of cross-references for each kind of
//! record, built once, so that records are found by xref without searching
//! the records themselves.
use vstd::prelude::*;
use crate::text::{has_substring, is_text, lowercase, str_eq};
use crate::types::{
    derefs, first_from, first_xref, individual_xrefs, family_xrefs, kept, is_child, is_partner, name_matches,
    multimedia_xrefs, record_count, repository_xrefs, source_xrefs, submitter_xrefs, GedcomData,
};
use crate::types::family::Family;
use crate::types::individual::Individual;
use crate::types::multimedia::Multimedia;
use crate::types::repository::Repository;
use crate::types::source::Source;
use crate::types::shared_note::SharedNote;
use crate::types::submission::Submission;
use crate::types::submitter::Submitter;

verus! {

/// The position of the last record whose cross-reference is `x`.
pub open spec fn last_xref(xrefs: Seq<Option<String>>, x: Seq<char>) -> Option<int>
    decreases xrefs.len(),
{
    if xrefs.len() == 0 {
        None
    } else if xrefs.last() is Some && xrefs.last()->0@ == x {
        Some(xrefs.len() - 1)
    } else {
        last_xref(xrefs.drop_last(), x)
    }
}

/// The distinct cross-references that records carry.
pub open spec fn xref_set(xrefs: Seq<Option<String>>) -> Set<Seq<char>> {
    Set::new(|x: Seq<char>| last_xref(xrefs, x) is Some)
}

/// The record whose cross-reference is `x`, found as [`last_xref`] says,
/// as a list of zero or one record.
pub open spec fn last_found<T>(records: Seq<T>, xrefs: Seq<Option<String>>, x: Option<String>) -> Seq<T> {
    match x {
        Some(v) => match last_xref(xrefs, v@) {
            Some(k) => seq![records[k]],
            None => Seq::empty(),
        },
        None => Seq::empty(),
    }
}

/// The individuals that a list of cross-references names, in order, each
/// found as [`last_xref`] says; references to no individual are left out.
pub open spec fn last_found_individuals(inds: Seq<Individual>, xs: Seq<String>) -> Seq<Individual>
    decreases xs.len(),
{
    if xs.len() == 0 {
        Seq::empty()
    } else {
        last_found_individuals(inds, xs.drop_last()) + last_found(
            inds,
            individual_xrefs(inds),
            Some(xs.last()),
        )
    }
}

proof fn lemma_last_xref_found(xrefs: Seq<Option<String>>, x: Seq<char>)
    ensures
        match last_xref(xrefs, x) {
            Some(k) => 0 <= k < xrefs.len() && xrefs[k] is Some && xrefs[k]->0@ == x,
            None => true,
        },
    decreases xrefs.len(),
{
    if xrefs.len() > 0 {
        lemma_last_xref_found(xrefs.drop_last(), x);
    }
}

proof fn lemma_last_xref_step(xrefs: Seq<Option<String>>, i: int)
    requires
        0 <= i < xrefs.len(),
    ensures
        forall|y: Seq<char>| #[trigger] last_xref(xrefs.take(i + 1), y) == (if xrefs[i] is Some
            && xrefs[i]->0@ == y {
            Some(i)
        } else {
            last_xref(xrefs.take(i), y)
        }),
{
    assert(xrefs.take(i + 1).drop_last() =~= xrefs.take(i));
}

proof fn lemma_last_xref_exact(xrefs: Seq<Option<String>>, x: Seq<char>)
    ensures
        match last_xref(xrefs, x) {
            Some(k) => 0 <= k < xrefs.len() && is_text(xrefs[k], x) && forall|j: int|
                k < j < xrefs.len() ==> !is_text(#[trigger] xrefs[j], x),
            None => forall|j: int| 0 <= j < xrefs.len() ==> !is_text(#[trigger] xrefs[j], x),
        },
    decreases xrefs.len(),
{
    if xrefs.len() > 0 {
        lemma_last_xref_exact(xrefs.drop_last(), x);
        assert forall|j: int| 0 <= j < xrefs.len() - 1 implies #[trigger] xrefs[j] == xrefs.drop_last()[j] by {}
    }
}

proof fn lemma_first_from_exact(xrefs: Seq<Option<String>>, x: Seq<char>, i: int)
    requires
        0 <= i <= xrefs.len(),
    ensures
        match first_from(xrefs, x, i) {
            Some(k) => i <= k < xrefs.len() && is_text(xrefs[k], x),
            None => forall|j: int| i <= j < xrefs.len() ==> !is_text(#[trigger] xrefs[j], x),
        },
    decreases xrefs.len() - i,
{
    if i < xrefs.len() {
        lemma_first_from_exact(xrefs, x, i + 1);
    }
}

/// Whether no two records carry the same cross-reference.
pub open spec fn unique_xrefs(xrefs: Seq<Option<String>>) -> bool {
    forall|a: int, b: int|
        0 <= a < b < xrefs.len() && #[trigger] xrefs[a] is Some && #[trigger] xrefs[b] is Some
            ==> xrefs[a]->0@ != xrefs[b]->0@
}

/// Where no two records share a cross-reference, the index finds the same
/// record as a search of the records from the first one: the indexed
/// lookups of [`IndexedGedcomData`] agree with those of [`GedcomData`].
pub proof fn lemma_index_agrees(xrefs: Seq<Option<String>>, x: Seq<char>)
    requires
        unique_xrefs(xrefs),
    ensures
        last_xref(xrefs, x) == first_xref(xrefs, x),
{
    lemma_last_xref_exact(xrefs, x);
    lemma_first_from_exact(xrefs, x, 0);
    match (last_xref(xrefs, x), first_xref(xrefs, x)) {
        (Some(k), Some(f)) => {
            if f < k {
                assert(xrefs[f] is Some && xrefs[k] is Some);
            } else if k < f {
                assert(!is_text(xrefs[f], x));
            }
        },
        (Some(k), None) => {
            assert(!is_text(xrefs[k], x));
        },
        (None, Some(f)) => {
            assert(!is_text(xrefs[f], x));
        },
        (None, None) => {},
    }
}

/// A record that may carry a cross-reference.
pub trait CrossReferenced {
    /// Its cross-reference.
    spec fn xref_of(&self) -> Option<String>;

    /// Reads its cross-reference.
    fn xref_ref(&self) -> (r: &Option<String>)
        ensures
            *r == self.xref_of(),
    ;
}

impl CrossReferenced for Individual {
    open spec fn xref_of(&self) -> Option<String> {
        self.xref
    }

    fn xref_ref(&self) -> (r: &Option<String>) {
        &self.xref
    }
}

impl CrossReferenced for Family {
    open spec fn xref_of(&self) -> Option<String> {
        self.xref
    }

    fn xref_ref(&self) -> (r: &Option<String>) {
        &self.xref
    }
}

impl CrossReferenced for Source {
    open spec fn xref_of(&self) -> Option<String> {
        self.xref
    }

    fn xref_ref(&self) -> (r: &Option<String>) {
        &self.xref
    }
}

impl CrossReferenced for Repository {
    open spec fn xref_of(&self) -> Option<String> {
        self.xref
    }

    fn xref_ref(&self) -> (r: &Option<String>) {
        &self.xref
    }
}

impl CrossReferenced for Multimedia {
    open spec fn xref_of(&self) -> Option<String> {
        self.xref
    }

    fn xref_ref(&self) -> (r: &Option<String>) {
        &self.xref
    }
}

impl CrossReferenced for Submitter {
    open spec fn xref_of(&self) -> Option<String> {
        self.xref
    }

    fn xref_ref(&self) -> (r: &Option<String>) {
        &self.xref
    }
}

impl CrossReferenced for Submission {
    open spec fn xref_of(&self) -> Option<String> {
        self.xref
    }

    fn xref_ref(&self) -> (r: &Option<String>) {
        &self.xref
    }
}

impl CrossReferenced for SharedNote {
    open spec fn xref_of(&self) -> Option<String> {
        self.xref
    }

    fn xref_ref(&self) -> (r: &Option<String>) {
        &self.xref
    }
}

/// The cross-references of a list of records, in order.
pub open spec fn xrefs_of<T: CrossReferenced>(records: Seq<T>) -> Seq<Option<String>> {
    records.map_values(|r: T| r.xref_of())
}

/// An index of cross-references: each one that occurs, once, beside the
/// position of the last record that carries it. A lookup compares the key
/// with each cross-reference of the index in turn; keys are texts, for which
/// vstd gives a hash map no model.
pub struct XrefIndex {
    keys: Vec<String>,
    positions: Vec<usize>,
}

impl XrefIndex {
    /// Whether the index is that of records with these cross-references.
    pub closed spec fn describes(&self, xrefs: Seq<Option<String>>) -> bool {
        &&& self.keys@.len() == self.positions@.len()
        &&& forall|a: int, b: int|
            0 <= a < b < self.keys@.len() ==> #[trigger] self.keys@[a]@ != #[trigger] self.keys@[b]@
        &&& forall|j: int|
            0 <= j < self.keys@.len() ==> last_xref(xrefs, #[trigger] self.keys@[j]@) == Some(
                self.positions@[j] as int,
            )
        &&& forall|x: Seq<char>|
            #[trigger] last_xref(xrefs, x) is Some ==> exists|j: int|
                0 <= j < self.keys@.len() && self.keys@[j]@ == x
    }

    /// The number of cross-references in the index.
    pub closed spec fn size(&self) -> nat {
        self.keys@.len()
    }

    fn key_position(&self, x: &str) -> (r: Option<usize>)
        ensures
            match r {
                Some(j) => j < self.keys@.len() && self.keys@[j as int]@ == x@,
                None => forall|j: int| 0 <= j < self.keys@.len() ==> self.keys@[j]@ != x@,
            },
    {
        let mut j: usize = 0;
        while j < self.keys.len()
            invariant
                j <= self.keys@.len(),
                forall|k: int| 0 <= k < j ==> self.keys@[k]@ != x@,
            decreases self.keys@.len() - j,
        {
            if str_eq(self.keys[j].as_str(), x) {
                return Some(j);
            }
            j = j + 1;
        }
        None
    }

    /// Indexes records by their cross-references; a later record with the
    /// same cross-reference takes the place of an earlier one.
    fn build<T: CrossReferenced>(records: &Vec<T>) -> (r: XrefIndex)
        ensures
            r.describes(xrefs_of(records@)),
    {
        let ghost xrefs = xrefs_of(records@);
        let mut index = XrefIndex { keys: Vec::new(), positions: Vec::new() };
        let mut i: usize = 0;
        while i < records.len()
            invariant
                i <= records@.len(),
                xrefs == xrefs_of(records@),
                index.describes(xrefs.take(i as int)),
            decreases records@.len() - i,
        {
            proof {
                lemma_last_xref_step(xrefs, i as int);
            }
            let ghost old_keys = index.keys@;
            if let Some(x) = records[i].xref_ref() {
                match index.key_position(x.as_str()) {
                    Some(j) => {
                        index.positions.set(j, i);
                        proof {
                            assert forall|y: Seq<char>| #[trigger]
                                last_xref(xrefs.take(i + 1), y) is Some implies exists|k: int|
                                0 <= k < index.keys@.len() && index.keys@[k]@ == y by {
                                if y != x@ {
                                    assert(last_xref(xrefs.take(i as int), y) is Some);
                                    let k = choose|k: int| 0 <= k < old_keys.len() && old_keys[k]@ == y;
                                    assert(index.keys@[k]@ == y);
                                } else {
                                    assert(index.keys@[j as int]@ == y);
                                }
                            }
                        }
                    },
                    None => {
                        index.keys.push(x.clone());
                        index.positions.push(i);
                        proof {
                            let n = index.keys@.len() - 1;
                            assert(index.keys@[n]@ == x@);
                            assert forall|y: Seq<char>| #[trigger]
                                last_xref(xrefs.take(i + 1), y) is Some implies exists|k: int|
                                0 <= k < index.keys@.len() && index.keys@[k]@ == y by {
                                if y != x@ {
                                    assert(last_xref(xrefs.take(i as int), y) is Some);
                                    let k = choose|k: int| 0 <= k < old_keys.len() && old_keys[k]@ == y;
                                    assert(index.keys@[k]@ == y);
                                } else {
                                    assert(index.keys@[n]@ == y);
                                }
                            }
                        }
                    },
                }
            } else {
                proof {
                    assert forall|y: Seq<char>| #[trigger]
                        last_xref(xrefs.take(i + 1), y) is Some implies exists|k: int|
                        0 <= k < index.keys@.len() && index.keys@[k]@ == y by {
                        assert(last_xref(xrefs.take(i as int), y) is Some);
                    }
                }
            }
            i = i + 1;
        }
        proof {
            assert(xrefs.take(records@.len() as int) =~= xrefs);
        }
        index
    }

    /// The position of the last record whose cross-reference is `x`.
    fn lookup(&self, Ghost(xrefs): Ghost<Seq<Option<String>>>, x: &str) -> (r: Option<usize>)
        requires
            self.describes(xrefs),
        ensures
            match last_xref(xrefs, x@) {
                Some(k) => r == Some(k as usize),
                None => r is None,
            },
    {
        match self.key_position(x) {
            Some(j) => Some(self.positions[j]),
            None => {
                proof {
                    if last_xref(xrefs, x@) is Some {
                        let k = choose|k: int| 0 <= k < self.keys@.len() && self.keys@[k]@ == x@;
                        assert(self.keys@[k]@ == x@);
                    }
                }
                None
            },
        }
    }

    /// The number of keys is the number of distinct cross-references.
    proof fn lemma_size(&self, xrefs: Seq<Option<String>>)
        requires
            self.describes(xrefs),
        ensures
            self.size() == xref_set(xrefs).len(),
            xref_set(xrefs).finite(),
    {
        let ks = self.keys@.map_values(|k: String| k@);
        assert(ks.no_duplicates()) by {
            assert forall|a: int, b: int| 0 <= a < ks.len() && 0 <= b < ks.len() && a != b implies ks[a]
                != ks[b] by {
                if a < b {
                    assert(self.keys@[a]@ != self.keys@[b]@);
                } else {
                    assert(self.keys@[b]@ != self.keys@[a]@);
                }
            }
        }
        assert(ks.to_set() =~= xref_set(xrefs)) by {
            assert forall|x: Seq<char>| ks.to_set().contains(x) <==> xref_set(xrefs).contains(x) by {
                if ks.to_set().contains(x) {
                    let j = choose|j: int| 0 <= j < ks.len() && ks[j] == x;
                    assert(last_xref(xrefs, self.keys@[j]@) == Some(self.positions@[j] as int));
                }
                if xref_set(xrefs).contains(x) {
                    assert(last_xref(xrefs, x) is Some);
                    let j = choose|j: int| 0 <= j < self.keys@.len() && self.keys@[j]@ == x;
                    assert(ks[j] == x);
                }
            }
        }
        ks.unique_seq_to_set();
    }
}

/// The data of a file with an index of cross-references for individuals,
/// families, sources, repositories, multimedia records and submitters.
pub struct IndexedGedcomData {
    data: GedcomData,
    individual_index: XrefIndex,
    family_index: XrefIndex,
    source_index: XrefIndex,
    repository_index: XrefIndex,
    multimedia_index: XrefIndex,
    submitter_index: XrefIndex,
}

/// Sizes of the indexes: the number of distinct cross-references of each
/// kind of record.
#[derive(Clone, Copy, Debug, PartialEq, Eq, Structural)]
pub struct IndexStats {
    pub individual_index_size: usize,
    pub family_index_size: usize,
    pub source_index_size: usize,
    pub repository_index_size: usize,
    pub multimedia_index_size: usize,
    pub submitter_index_size: usize,
}

impl IndexStats {
    /// The sum of the sizes.
    pub open spec fn sum(&self) -> int {
        self.individual_index_size + self.family_index_size + self.source_index_size
            + self.repository_index_size + self.multimedia_index_size + self.submitter_index_size
    }

    /// The number of entries in all indexes together.
    pub fn total(&self) -> (r: usize)
        requires
            self.sum() <= usize::MAX,
        ensures
            r == self.sum(),
    {
        self.individual_index_size + self.family_index_size + self.source_index_size
            + self.repository_index_size + self.multimedia_index_size + self.submitter_index_size
    }
}

impl IndexedGedcomData {
    #[verifier::type_invariant]
    spec fn indexes_describe_data(&self) -> bool {
        &&& self.individual_index.describes(individual_xrefs(self.data.individuals@))
        &&& self.family_index.describes(family_xrefs(self.data.families@))
        &&& self.source_index.describes(source_xrefs(self.data.sources@))
        &&& self.repository_index.describes(repository_xrefs(self.data.repositories@))
        &&& self.multimedia_index.describes(multimedia_xrefs(self.data.multimedia@))
        &&& self.submitter_index.describes(submitter_xrefs(self.data.submitters@))
    }

    /// The data that is indexed.
    pub closed spec fn inner(&self) -> GedcomData {
        self.data
    }

    /// Indexes the data.
    pub fn new(data: GedcomData) -> (r: Self)
        ensures
            r.inner() == data,
    {
        let individual_index = XrefIndex::build(&data.individuals);
        let family_index = XrefIndex::build(&data.families);
        let source_index = XrefIndex::build(&data.sources);
        let repository_index = XrefIndex::build(&data.repositories);
        let multimedia_index = XrefIndex::build(&data.multimedia);
        let submitter_index = XrefIndex::build(&data.submitters);
        assert(xrefs_of(data.individuals@) =~= individual_xrefs(data.individuals@));
        assert(xrefs_of(data.families@) =~= family_xrefs(data.families@));
        assert(xrefs_of(data.sources@) =~= source_xrefs(data.sources@));
        assert(xrefs_of(data.repositories@) =~= repository_xrefs(data.repositories@));
        assert(xrefs_of(data.multimedia@) =~= multimedia_xrefs(data.multimedia@));
        assert(xrefs_of(data.submitters@) =~= submitter_xrefs(data.submitters@));
        IndexedGedcomData {
            data,
            individual_index,
            family_index,
            source_index,
            repository_index,
            multimedia_index,
            submitter_index,
        }
    }

    /// Indexes the data (the same as [`IndexedGedcomData::new`]).
    pub fn from(data: GedcomData) -> (r: Self)
        ensures
            r.inner() == data,
    {
        Self::new(data)
    }

    /// The data that is indexed.
    pub fn data(&self) -> (r: &GedcomData)
        ensures
            *r == self.inner(),
    {
        &self.data
    }

    /// Gives back the data that is indexed.
    pub fn into_inner(self) -> (r: GedcomData)
        ensures
            r == self.inner(),
    {
        self.data
    }

    /// The last individual whose cross-reference is `xref`.
    pub fn find_individual(&self, xref: &str) -> (r: Option<&Individual>)
        ensures
            match last_xref(individual_xrefs(self.inner().individuals@), xref@) {
                Some(k) => r == Some(&self.inner().individuals@[k]),
                None => r is None,
            },
    {
        proof {
            use_type_invariant(self);
            lemma_last_xref_found(individual_xrefs(self.data.individuals@), xref@);
        }
        match self.individual_index.lookup(Ghost(individual_xrefs(self.data.individuals@)), xref) {
            Some(k) => Some(&self.data.individuals[k]),
            None => None,
        }
    }

    /// The last family whose cross-reference is `xref`.
    pub fn find_family(&self, xref: &str) -> (r: Option<&Family>)
        ensures
            match last_xref(family_xrefs(self.inner().families@), xref@) {
                Some(k) => r == Some(&self.inner().families@[k]),
                None => r is None,
            },
    {
        proof {
            use_type_invariant(self);
            lemma_last_xref_found(family_xrefs(self.data.families@), xref@);
        }
        match self.family_index.lookup(Ghost(family_xrefs(self.data.families@)), xref) {
            Some(k) => Some(&self.data.families[k]),
            None => None,
        }
    }

    /// The last source whose cross-reference is `xref`.
    pub fn find_source(&self, xref: &str) -> (r: Option<&Source>)
        ensures
            match last_xref(source_xrefs(self.inner().sources@), xref@) {
                Some(k) => r == Some(&self.inner().sources@[k]),
                None => r is None,
            },
    {
        proof {
            use_type_invariant(self);
            lemma_last_xref_found(source_xrefs(self.data.sources@), xref@);
        }
        match self.source_index.lookup(Ghost(source_xrefs(self.data.sources@)), xref) {
            Some(k) => Some(&self.data.sources[k]),
            None => None,
        }
    }

    /// The last repository whose cross-reference is `xref`.
    pub fn find_repository(&self, xref: &str) -> (r: Option<&Repository>)
        ensures
            match last_xref(repository_xrefs(self.inner().repositories@), xref@) {
                Some(k) => r == Some(&self.inner().repositories@[k]),
                None => r is None,
            },
    {
        proof {
            use_type_invariant(self);
            lemma_last_xref_found(repository_xrefs(self.data.repositories@), xref@);
        }
        match self.repository_index.lookup(Ghost(repository_xrefs(self.data.repositories@)), xref) {
            Some(k) => Some(&self.data.repositories[k]),
            None => None,
        }
    }

    /// The last multimedia record whose cross-reference is `xref`.
    pub fn find_multimedia(&self, xref: &str) -> (r: Option<&Multimedia>)
        ensures
            match last_xref(multimedia_xrefs(self.inner().multimedia@), xref@) {
                Some(k) => r == Some(&self.inner().multimedia@[k]),
                None => r is None,
            },
    {
        proof {
            use_type_invariant(self);
            lemma_last_xref_found(multimedia_xrefs(self.data.multimedia@), xref@);
        }
        match self.multimedia_index.lookup(Ghost(multimedia_xrefs(self.data.multimedia@)), xref) {
            Some(k) => Some(&self.data.multimedia[k]),
            None => None,
        }
    }

    /// The last submitter whose cross-reference is `xref`.
    pub fn find_submitter(&self, xref: &str) -> (r: Option<&Submitter>)
        ensures
            match last_xref(submitter_xrefs(self.inner().submitters@), xref@) {
                Some(k) => r == Some(&self.inner().submitters@[k]),
                None => r is None,
            },
    {
        proof {
            use_type_invariant(self);
            lemma_last_xref_found(submitter_xrefs(self.data.submitters@), xref@);
        }
        match self.submitter_index.lookup(Ghost(submitter_xrefs(self.data.submitters@)), xref) {
            Some(k) => Some(&self.data.submitters[k]),
            None => None,
        }
    }

    /// The families in which `individual_xref` is a partner, in order.
    pub fn get_families_as_spouse(&self, individual_xref: &str) -> (r: Vec<&Family>)
        ensures
            derefs(r@) == kept(self.inner().families@, |f: Family| is_partner(f, individual_xref@)),
            forall|i: int| 0 <= i < self.inner().families@.len() ==> (#[trigger] derefs(r@).contains(self.inner().families@[i])
                <==> (is_text(self.inner().families@[i].individual1, individual_xref@)
                    || is_text(self.inner().families@[i].individual2, individual_xref@))),
    {
        self.data.get_families_as_spouse(individual_xref)
    }

    /// The families in which `individual_xref` is a child, in order.
    pub fn get_families_as_child(&self, individual_xref: &str) -> (r: Vec<&Family>)
        ensures
            derefs(r@) == kept(self.inner().families@, |f: Family| is_child(f, individual_xref@)),
            forall|i: int| 0 <= i < self.inner().families@.len() ==> (#[trigger] derefs(r@).contains(self.inner().families@[i])
                <==> self.inner().families@[i].children@.map_values(|c: String| c@).contains(individual_xref@)),
    {
        self.data.get_families_as_child(individual_xref)
    }

    /// The children of a family that are found in the index, in order.
    pub fn get_children(&self, family: &Family) -> (r: Vec<&Individual>)
        ensures
            derefs(r@) == last_found_individuals(self.inner().individuals@, family.children@),
    {
        let ghost inds = self.data.individuals@;
        let mut out: Vec<&Individual> = Vec::new();
        let mut i: usize = 0;
        while i < family.children.len()
            invariant
                i <= family.children@.len(),
                inds == self.inner().individuals@,
                derefs(out@) == last_found_individuals(inds, family.children@.take(i as int)),
            decreases family.children@.len() - i,
        {
            proof {
                assert(family.children@.take(i + 1).drop_last() =~= family.children@.take(i as int));
            }
            let ghost before = out@;
            if let Some(ind) = self.find_individual(family.children[i].as_str()) {
                out.push(ind);
            }
            assert(derefs(out@) =~= derefs(before) + last_found(
                inds,
                individual_xrefs(inds),
                Some(family.children@[i as int]),
            ));
            i = i + 1;
        }
        proof {
            assert(family.children@.take(family.children@.len() as int) =~= family.children@);
        }
        out
    }

    /// The partners of a family that are found in the index.
    pub fn get_parents(&self, family: &Family) -> (r: Vec<&Individual>)
        ensures
            derefs(r@) == last_found(
                self.inner().individuals@,
                individual_xrefs(self.inner().individuals@),
                family.individual1,
            ) + last_found(
                self.inner().individuals@,
                individual_xrefs(self.inner().individuals@),
                family.individual2,
            ),
    {
        let ghost inds = self.data.individuals@;
        let mut parents: Vec<&Individual> = Vec::new();
        if let Some(x) = &family.individual1 {
            if let Some(ind) = self.find_individual(x.as_str()) {
                parents.push(ind);
            }
        }
        let ghost first = derefs(parents@);
        assert(first =~= last_found(inds, individual_xrefs(inds), family.individual1));
        if let Some(x) = &family.individual2 {
            if let Some(ind) = self.find_individual(x.as_str()) {
                parents.push(ind);
            }
        }
        assert(derefs(parents@) =~= first + last_found(inds, individual_xrefs(inds), family.individual2));
        parents
    }

    /// The other partner of a family in which `individual_xref` is a
    /// partner, if the index has that partner.
    pub fn get_spouse(&self, individual_xref: &str, family: &Family) -> (r: Option<&Individual>)
        ensures
            ({
                let inds = self.inner().individuals@;
                let found = match r {
                    Some(i) => seq![*i],
                    None => Seq::empty(),
                };
                if is_text(family.individual1, individual_xref@) {
                    found == last_found(inds, individual_xrefs(inds), family.individual2)
                } else if is_text(family.individual2, individual_xref@) {
                    found == last_found(inds, individual_xrefs(inds), family.individual1)
                } else {
                    r is None
                }
            }),
    {
        let is1 = match &family.individual1 {
            Some(x) => str_eq(x.as_str(), individual_xref),
            None => false,
        };
        if is1 {
            return match &family.individual2 {
                Some(x) => self.find_individual(x.as_str()),
                None => None,
            };
        }
        let is2 = match &family.individual2 {
            Some(x) => str_eq(x.as_str(), individual_xref),
            None => false,
        };
        if is2 {
            return match &family.individual1 {
                Some(x) => self.find_individual(x.as_str()),
                None => None,
            };
        }
        None
    }

    /// The individuals whose name contains `query`, ignoring case, in order.
    pub fn search_individuals_by_name(&self, query: &str) -> (r: Vec<&Individual>)
        ensures
            derefs(r@) == kept(self.inner().individuals@, |i: Individual| name_matches(i, lowercase(query@))),
            forall|j: int| 0 <= j < self.inner().individuals@.len() ==> (#[trigger] derefs(r@).contains(self.inner().individuals@[j])
                <==> (self.inner().individuals@[j].name matches Some(n)
                    && (n.value matches Some(v) && has_substring(lowercase(v@), lowercase(query@))))),
            forall|j: int| 0 <= j < self.inner().individuals@.len()
                && (self.inner().individuals@[j].name matches Some(n) && (n.value matches Some(v) && v@ == query@))
                ==> #[trigger] derefs(r@).contains(self.inner().individuals@[j]),
    {
        self.data.search_individuals_by_name(query)
    }

    /// The number of records of all kinds.
    pub fn total_records(&self) -> (r: usize)
        requires
            record_count(self.inner()) <= usize::MAX,
        ensures
            r == record_count(self.inner()),
    {
        self.data.total_records()
    }

    /// Whether there are no records.
    pub fn is_empty(&self) -> (r: bool)
        ensures
            r == (record_count(self.inner()) == 0),
    {
        self.data.is_empty()
    }

    /// The number of individuals.
    pub fn individual_count(&self) -> (r: usize)
        ensures
            r == self.inner().individuals@.len(),
    {
        self.data.individuals.len()
    }

    /// The number of families.
    pub fn family_count(&self) -> (r: usize)
        ensures
            r == self.inner().families@.len(),
    {
        self.data.families.len()
    }

    /// The sizes of the indexes: for each kind of record, the number of
    /// distinct cross-references that its records carry.
    pub fn index_stats(&self) -> (r: IndexStats)
        ensures
            r.individual_index_size == xref_set(individual_xrefs(self.inner().individuals@)).len(),
            r.family_index_size == xref_set(family_xrefs(self.inner().families@)).len(),
            r.source_index_size == xref_set(source_xrefs(self.inner().sources@)).len(),
            r.repository_index_size == xref_set(repository_xrefs(self.inner().repositories@)).len(),
            r.multimedia_index_size == xref_set(multimedia_xrefs(self.inner().multimedia@)).len(),
            r.submitter_index_size == xref_set(submitter_xrefs(self.inner().submitters@)).len(),
    {
        proof {
            use_type_invariant(self);
            self.individual_index.lemma_size(individual_xrefs(self.data.individuals@));
            self.family_index.lemma_size(family_xrefs(self.data.families@));
            self.source_index.lemma_size(source_xrefs(self.data.sources@));
            self.repository_index.lemma_size(repository_xrefs(self.data.repositories@));
            self.multimedia_index.lemma_size(multimedia_xrefs(self.data.multimedia@));
            self.submitter_index.lemma_size(submitter_xrefs(self.data.submitters@));
        }
        IndexStats {
            individual_index_size: self.individual_index.keys.len(),
            family_index_size: self.family_index.keys.len(),
            source_index_size: self.source_index.keys.len(),
            repository_index_size: self.repository_index.keys.len(),
            multimedia_index_size: self.multimedia_index.keys.len(),
            submitter_index_size: self.submitter_index.keys.len(),
        }
    }
}

} // verus!
