//! A configurable way to parse GEDCOM text, with checks after parsing.
use vstd::prelude::*;
use vstd::std_specs::iter::IteratorSpec;
use vstd::string::StringExecFns;
use crate::error::GedcomError;
use crate::text::{is_text, str_eq};
use crate::stream::initial_state;
use crate::tokenizer::{step, Tokenizer};
use crate::types::family::Family;
use crate::types::individual::family_link::FamilyLink;
use crate::types::individual::Individual;
use crate::types::records::{holds_contents, holds_records, records_accepted, records_walk};
use crate::types::GedcomData;
use crate::references::{file_reference_problem, lemma_problem_of_text};

verus! {

/// The options of parsing.
#[derive(Clone, Copy, Debug, PartialEq, Eq, Structural)]
pub struct ParserConfig {
    pub strict_mode: bool,
    pub validate_references: bool,
    pub ignore_unknown_tags: bool,
    pub encoding_detection: bool,
    pub date_validation: bool,
    pub max_file_size: Option<usize>,
    pub preserve_formatting: bool,
}

impl Default for ParserConfig {
    fn default() -> (r: Self)
        ensures
            !r.strict_mode && !r.validate_references && !r.ignore_unknown_tags,
            !r.encoding_detection && !r.date_validation && r.max_file_size is None,
            r.preserve_formatting,
    {
        ParserConfig {
            strict_mode: false,
            validate_references: false,
            ignore_unknown_tags: false,
            encoding_detection: false,
            date_validation: false,
            max_file_size: None,
            preserve_formatting: true,
        }
    }
}

/// Builds a parse with the options set by its methods.
#[derive(Clone, Copy, Debug)]
pub struct GedcomBuilder {
    config: ParserConfig,
}

impl Default for GedcomBuilder {
    fn default() -> (r: Self)
        ensures
            r.options() == ParserConfig::spec_default(),
    {
        GedcomBuilder::new()
    }
}

impl ParserConfig {
    /// The default options: nothing checked, no size limit, formatting kept.
    pub open spec fn spec_default() -> ParserConfig {
        ParserConfig {
            strict_mode: false,
            validate_references: false,
            ignore_unknown_tags: false,
            encoding_detection: false,
            date_validation: false,
            max_file_size: None,
            preserve_formatting: true,
        }
    }
}

/// Whether a record of the kinds that references point to (individuals,
/// families, sources, repositories, submitters, multimedia) has the
/// cross-reference `x`.
pub open spec fn is_record_xref(d: GedcomData, x: Seq<char>) -> bool {
    ||| exists|i: int| 0 <= i < d.individuals@.len() && is_text(#[trigger] d.individuals@[i].xref, x)
    ||| exists|i: int| 0 <= i < d.families@.len() && is_text(#[trigger] d.families@[i].xref, x)
    ||| exists|i: int| 0 <= i < d.sources@.len() && is_text(#[trigger] d.sources@[i].xref, x)
    ||| exists|i: int| 0 <= i < d.repositories@.len() && is_text(#[trigger] d.repositories@[i].xref, x)
    ||| exists|i: int| 0 <= i < d.submitters@.len() && is_text(#[trigger] d.submitters@[i].xref, x)
    ||| exists|i: int| 0 <= i < d.multimedia@.len() && is_text(#[trigger] d.multimedia@[i].xref, x)
}

/// The first child from `j` on that is no record, as an error message.
pub open spec fn child_problem(cs: Seq<String>, d: GedcomData, j: int) -> Option<Seq<char>>
    decreases cs.len() - j,
{
    if j < 0 || j >= cs.len() {
        None
    } else if !is_record_xref(d, cs[j]@) {
        Some("Family references non-existent child: "@ + cs[j]@)
    } else {
        child_problem(cs, d, j + 1)
    }
}

/// The first reference of a family to no record, as an error message: the
/// first partner, the second, then the children in order.
pub open spec fn family_problem(f: Family, d: GedcomData) -> Option<Seq<char>> {
    if f.individual1 matches Some(h) && !is_record_xref(d, h@) {
        Some("Family references non-existent individual: "@ + f.individual1->0@)
    } else if f.individual2 matches Some(w) && !is_record_xref(d, w@) {
        Some("Family references non-existent individual: "@ + f.individual2->0@)
    } else {
        child_problem(f.children@, d, 0)
    }
}

/// The first problem among the families from `i` on.
pub open spec fn families_problem(fs: Seq<Family>, d: GedcomData, i: int) -> Option<Seq<char>>
    decreases fs.len() - i,
{
    if i < 0 || i >= fs.len() {
        None
    } else {
        match family_problem(fs[i], d) {
            Some(m) => Some(m),
            None => families_problem(fs, d, i + 1),
        }
    }
}

/// The first link from `j` on to a family that is no record, as an error message.
pub open spec fn link_problem(ls: Seq<FamilyLink>, d: GedcomData, j: int) -> Option<Seq<char>>
    decreases ls.len() - j,
{
    if j < 0 || j >= ls.len() {
        None
    } else if !is_record_xref(d, ls[j].xref@) {
        Some("Individual references non-existent family: "@ + ls[j].xref@)
    } else {
        link_problem(ls, d, j + 1)
    }
}

/// The first problem among the individuals from `i` on.
pub open spec fn individuals_problem(is: Seq<Individual>, d: GedcomData, i: int) -> Option<Seq<char>>
    decreases is.len() - i,
{
    if i < 0 || i >= is.len() {
        None
    } else {
        match link_problem(is[i].families@, d, 0) {
            Some(m) => Some(m),
            None => individuals_problem(is, d, i + 1),
        }
    }
}

/// The first reference to no record: those of the families, then those of
/// the individuals.
pub open spec fn reference_problem(d: GedcomData) -> Option<Seq<char>> {
    match families_problem(d.families@, d, 0) {
        Some(m) => Some(m),
        None => individuals_problem(d.individuals@, d, 0),
    }
}

/// Whether every reference from a family to its partners and children, and
/// from an individual to its families, names a record.
pub open spec fn references_resolve(d: GedcomData) -> bool {
    &&& forall|i: int| 0 <= i < d.families@.len() ==> {
        let f = #[trigger] d.families@[i];
        &&& (f.individual1 matches Some(h) ==> is_record_xref(d, h@))
        &&& (f.individual2 matches Some(w) ==> is_record_xref(d, w@))
        &&& forall|j: int| 0 <= j < f.children@.len() ==> is_record_xref(d, #[trigger] f.children@[j]@)
    }
    &&& forall|i: int, j: int| 0 <= i < d.individuals@.len() && 0 <= j < d.individuals@[i].families@.len()
        ==> is_record_xref(d, #[trigger] d.individuals@[i].families@[j].xref@)
}

/// Whether some record has the cross-reference `x`, by comparing it with the
/// cross-reference of each record in turn.
fn has_record_xref(d: &GedcomData, x: &str) -> (r: bool)
    ensures
        r == is_record_xref(*d, x@),
{
    let mut i: usize = 0;
    while i < d.individuals.len()
        invariant
            i <= d.individuals@.len(),
            forall|k: int| 0 <= k < i ==> !is_text(#[trigger] d.individuals@[k].xref, x@),
        decreases d.individuals@.len() - i,
    {
        if let Some(v) = &d.individuals[i].xref {
            if str_eq(v.as_str(), x) {
                return true;
            }
        }
        i = i + 1;
    }
    let mut i: usize = 0;
    while i < d.families.len()
        invariant
            i <= d.families@.len(),
            forall|k: int| 0 <= k < i ==> !is_text(#[trigger] d.families@[k].xref, x@),
        decreases d.families@.len() - i,
    {
        if let Some(v) = &d.families[i].xref {
            if str_eq(v.as_str(), x) {
                return true;
            }
        }
        i = i + 1;
    }
    let mut i: usize = 0;
    while i < d.sources.len()
        invariant
            i <= d.sources@.len(),
            forall|k: int| 0 <= k < i ==> !is_text(#[trigger] d.sources@[k].xref, x@),
        decreases d.sources@.len() - i,
    {
        if let Some(v) = &d.sources[i].xref {
            if str_eq(v.as_str(), x) {
                return true;
            }
        }
        i = i + 1;
    }
    let mut i: usize = 0;
    while i < d.repositories.len()
        invariant
            i <= d.repositories@.len(),
            forall|k: int| 0 <= k < i ==> !is_text(#[trigger] d.repositories@[k].xref, x@),
        decreases d.repositories@.len() - i,
    {
        if let Some(v) = &d.repositories[i].xref {
            if str_eq(v.as_str(), x) {
                return true;
            }
        }
        i = i + 1;
    }
    let mut i: usize = 0;
    while i < d.submitters.len()
        invariant
            i <= d.submitters@.len(),
            forall|k: int| 0 <= k < i ==> !is_text(#[trigger] d.submitters@[k].xref, x@),
        decreases d.submitters@.len() - i,
    {
        if let Some(v) = &d.submitters[i].xref {
            if str_eq(v.as_str(), x) {
                return true;
            }
        }
        i = i + 1;
    }
    let mut i: usize = 0;
    while i < d.multimedia.len()
        invariant
            i <= d.multimedia@.len(),
            forall|k: int| 0 <= k < i ==> !is_text(#[trigger] d.multimedia@[k].xref, x@),
        decreases d.multimedia@.len() - i,
    {
        if let Some(v) = &d.multimedia[i].xref {
            if str_eq(v.as_str(), x) {
                return true;
            }
        }
        i = i + 1;
    }
    false
}

/// A message made of a prefix and a cross-reference.
fn message_with(prefix: &str, x: &str) -> (r: String)
    ensures
        r@ == prefix@ + x@,
{
    let mut m = String::from_str(prefix);
    m.append(x);
    m
}

impl GedcomBuilder {
    /// The options of this builder.
    pub closed spec fn options(&self) -> ParserConfig {
        self.config
    }

    /// A builder with the default options.
    pub fn new() -> (r: Self)
        ensures
            r.options() == ParserConfig::spec_default(),
    {
        GedcomBuilder { config: ParserConfig::default() }
    }

    /// The same builder with strict mode on or off.
    pub fn strict_mode(self, enabled: bool) -> (r: Self)
        ensures
            r.options() == (ParserConfig { strict_mode: enabled, ..self.options() }),
    {
        let mut b = self;
        b.config.strict_mode = enabled;
        b
    }

    /// The same builder with the check of references on or off.
    pub fn validate_references(self, enabled: bool) -> (r: Self)
        ensures
            r.options() == (ParserConfig { validate_references: enabled, ..self.options() }),
    {
        let mut b = self;
        b.config.validate_references = enabled;
        b
    }

    /// The same builder, ignoring unknown tags or not.
    pub fn ignore_unknown_tags(self, enabled: bool) -> (r: Self)
        ensures
            r.options() == (ParserConfig { ignore_unknown_tags: enabled, ..self.options() }),
    {
        let mut b = self;
        b.config.ignore_unknown_tags = enabled;
        b
    }

    /// The same builder with encoding detection on or off.
    pub fn encoding_detection(self, enabled: bool) -> (r: Self)
        ensures
            r.options() == (ParserConfig { encoding_detection: enabled, ..self.options() }),
    {
        let mut b = self;
        b.config.encoding_detection = enabled;
        b
    }

    /// The same builder with the check of dates on or off.
    pub fn date_validation(self, enabled: bool) -> (r: Self)
        ensures
            r.options() == (ParserConfig { date_validation: enabled, ..self.options() }),
    {
        let mut b = self;
        b.config.date_validation = enabled;
        b
    }

    /// The same builder with a limit on the size of a text, in bytes.
    pub fn max_file_size(self, size: usize) -> (r: Self)
        ensures
            r.options() == (ParserConfig { max_file_size: Some(size), ..self.options() }),
    {
        let mut b = self;
        b.config.max_file_size = Some(size);
        b
    }

    /// The same builder, keeping the formatting of values or not.
    pub fn preserve_formatting(self, enabled: bool) -> (r: Self)
        ensures
            r.options() == (ParserConfig { preserve_formatting: enabled, ..self.options() }),
    {
        let mut b = self;
        b.config.preserve_formatting = enabled;
        b
    }

    /// The options of this builder.
    pub fn config(&self) -> (r: &ParserConfig)
        ensures
            *r == self.options(),
    {
        &self.config
    }

    /// Parses the text of `tokenizer`, which stands before its first token,
    /// then checks its references when the options ask for it.
    fn build_from_tokenizer(self, tokenizer: Tokenizer) -> (r: Result<GedcomData, GedcomError>)
        requires
            tokenizer.wf(),
            tokenizer.state() == initial_state(),
        ensures
            self.options().validate_references ==> (r matches Ok(d) ==> references_resolve(d)),
            r matches Ok(d) ==> (step(tokenizer.input(), initial_state()) matches Ok(st1)
                && records_walk(tokenizer.input(), st1, 0) matches Ok(recs) && holds_records(d, recs)
                && holds_contents(d, tokenizer.input(), recs, 0)),
            r is Ok ==> (step(tokenizer.input(), initial_state()) matches Ok(st1) && records_accepted(tokenizer.input(), st1, 0)),
            !self.options().validate_references ==> (r is Ok <==> (step(tokenizer.input(), initial_state()) matches Ok(st1)
                && records_accepted(tokenizer.input(), st1, 0))),
            self.options().validate_references ==> (r is Ok <==> (step(tokenizer.input(), initial_state()) matches Ok(st1)
                && records_accepted(tokenizer.input(), st1, 0) && file_reference_problem(tokenizer.input()) is None)),
            self.options().validate_references ==> (file_reference_problem(tokenizer.input()) matches Some(m)
                ==> (r matches Err(GedcomError::InvalidFormat(e)) && e@ == m)),
    {
        let mut tokenizer = tokenizer;
        tokenizer.next_token()?;
        let ghost s = tokenizer.input();
        let ghost st1 = tokenizer.state();
        let data = GedcomData::new(&mut tokenizer, 0)?;
        proof {
            let recs = records_walk(s, st1, 0)->Ok_0;
            lemma_problem_of_text(data, s, recs, 0);
        }
        if self.config.validate_references {
            self.validate_references_internal(&data)?;
            proof {
                lemma_reference_problem(data);
            }
        }
        Ok(data)
    }

    /// Parses the text that `chars` yields, then checks its references when
    /// the options ask for it.
    pub fn build(self, chars: std::str::Chars<'_>) -> (r: Result<GedcomData, GedcomError>)
        ensures
            self.options().validate_references ==> (r matches Ok(d) ==> references_resolve(d)),
            r matches Ok(d) ==> (step(chars.remaining(), initial_state()) matches Ok(st1)
                && records_walk(chars.remaining(), st1, 0) matches Ok(recs) && holds_records(d, recs)
                && holds_contents(d, chars.remaining(), recs, 0)),
            r is Ok ==> (step(chars.remaining(), initial_state()) matches Ok(st1) && records_accepted(chars.remaining(), st1, 0)),
            !self.options().validate_references ==> (r is Ok <==> (step(chars.remaining(), initial_state()) matches Ok(st1)
                && records_accepted(chars.remaining(), st1, 0))),
            self.options().validate_references ==> (r is Ok <==> (step(chars.remaining(), initial_state()) matches Ok(st1)
                && records_accepted(chars.remaining(), st1, 0) && file_reference_problem(chars.remaining()) is None)),
            self.options().validate_references ==> (file_reference_problem(chars.remaining()) matches Some(m)
                ==> (r matches Err(GedcomError::InvalidFormat(e)) && e@ == m)),
    {
        self.build_from_tokenizer(Tokenizer::new(chars))
    }

    /// Parses a text, after checking its size against the limit, if any.
    ///
    /// The records are those on the lines at level 0, by kind, in the order
    /// of the text, each with the xref of its line.
    pub fn build_from_str(self, content: &str) -> (r: Result<GedcomData, GedcomError>)
        ensures
            match self.options().max_file_size {
                Some(m) => content.len() > m ==>
                    r == Err::<GedcomData, GedcomError>(GedcomError::FileSizeLimitExceeded {
                        size: content.len(),
                        max_size: m,
                    }),
                None => true,
            },
            self.options().validate_references ==> (r matches Ok(d) ==> references_resolve(d)),
            r matches Ok(d) ==> (step(content@, initial_state()) matches Ok(st1)
                && records_walk(content@, st1, 0) matches Ok(recs) && holds_records(d, recs)
                && holds_contents(d, content@, recs, 0)),
            r is Ok ==> (step(content@, initial_state()) matches Ok(st1) && records_accepted(content@, st1, 0)),
            !self.options().validate_references && !(self.options().max_file_size matches Some(m) && content.len() > m)
                ==> (r is Ok <==> (step(content@, initial_state()) matches Ok(st1) && records_accepted(content@, st1, 0))),
            self.options().validate_references && !(self.options().max_file_size matches Some(mx) && content.len() > mx) ==> (r is Ok <==> (step(content@, initial_state()) matches Ok(st1)
                && records_accepted(content@, st1, 0) && file_reference_problem(content@) is None)),
            self.options().validate_references && !(self.options().max_file_size matches Some(mx) && content.len() > mx) ==> (file_reference_problem(content@) matches Some(m)
                ==> (r matches Err(GedcomError::InvalidFormat(e)) && e@ == m)),
    {
        if let Some(max_size) = self.config.max_file_size {
            let size = content.len();
            if size > max_size {
                return Err(GedcomError::FileSizeLimitExceeded { size, max_size });
            }
        }
        self.build_from_tokenizer(Tokenizer::from_str(content))
    }

    /// Checks that every reference from a family to its partners and
    /// children, and from an individual to its families, names a record; the
    /// first that does not is the error.
    pub fn validate_references_internal(&self, data: &GedcomData) -> (r: Result<(), GedcomError>)
        ensures
            match reference_problem(*data) {
                None => r is Ok,
                Some(m) => r matches Err(GedcomError::InvalidFormat(s)) && s@ == m,
            },
    {
        let mut i: usize = 0;
        while i < data.families.len()
            invariant
                i <= data.families@.len(),
                families_problem(data.families@, *data, 0) == families_problem(data.families@, *data, i as int),
            decreases data.families@.len() - i,
        {
            let family = &data.families[i];
            if let Some(husb) = &family.individual1 {
                if !has_record_xref(data, husb.as_str()) {
                    return Err(GedcomError::InvalidFormat(message_with("Family references non-existent individual: ", husb.as_str())));
                }
            }
            if let Some(wife) = &family.individual2 {
                if !has_record_xref(data, wife.as_str()) {
                    return Err(GedcomError::InvalidFormat(message_with("Family references non-existent individual: ", wife.as_str())));
                }
            }
            let mut j: usize = 0;
            while j < family.children.len()
                invariant
                    j <= family.children@.len(),
                    i < data.families@.len(),
                    *family == data.families@[i as int],
                    family.individual1 matches Some(h) ==> is_record_xref(*data, h@),
                    family.individual2 matches Some(w) ==> is_record_xref(*data, w@),
                    families_problem(data.families@, *data, 0) == families_problem(data.families@, *data, i as int),
                    child_problem(family.children@, *data, 0) == child_problem(family.children@, *data, j as int),
                decreases family.children@.len() - j,
            {
                if !has_record_xref(data, family.children[j].as_str()) {
                    proof {
                        assert(family_problem(data.families@[i as int], *data) == child_problem(family.children@, *data, 0));
                        assert(families_problem(data.families@, *data, i as int) == family_problem(data.families@[i as int], *data));
                    }
                    return Err(GedcomError::InvalidFormat(message_with("Family references non-existent child: ", family.children[j].as_str())));
                }
                j = j + 1;
            }
            proof {
                assert(family_problem(data.families@[i as int], *data) is None);
            }
            i = i + 1;
        }
        let mut i: usize = 0;
        while i < data.individuals.len()
            invariant
                i <= data.individuals@.len(),
                families_problem(data.families@, *data, 0) is None,
                individuals_problem(data.individuals@, *data, 0) == individuals_problem(data.individuals@, *data, i as int),
            decreases data.individuals@.len() - i,
        {
            let individual = &data.individuals[i];
            let mut j: usize = 0;
            while j < individual.families.len()
                invariant
                    j <= individual.families@.len(),
                    i < data.individuals@.len(),
                    *individual == data.individuals@[i as int],
                    families_problem(data.families@, *data, 0) is None,
                    individuals_problem(data.individuals@, *data, 0) == individuals_problem(data.individuals@, *data, i as int),
                    link_problem(individual.families@, *data, 0) == link_problem(individual.families@, *data, j as int),
                decreases individual.families@.len() - j,
            {
                if !has_record_xref(data, individual.families[j].xref.as_str()) {
                    proof {
                        assert(individuals_problem(data.individuals@, *data, i as int) == link_problem(individual.families@, *data, 0));
                    }
                    return Err(GedcomError::InvalidFormat(message_with(
                        "Individual references non-existent family: ",
                        individual.families[j].xref.as_str(),
                    )));
                }
                j = j + 1;
            }
            proof {
                assert(link_problem(individual.families@, *data, 0) is None);
            }
            i = i + 1;
        }
        Ok(())
    }
}

proof fn lemma_child_problem(cs: Seq<String>, d: GedcomData, j: int)
    requires
        0 <= j <= cs.len(),
    ensures
        child_problem(cs, d, j) is None <==> forall|k: int| j <= k < cs.len() ==> is_record_xref(d, #[trigger] cs[k]@),
    decreases cs.len() - j,
{
    if j < cs.len() {
        lemma_child_problem(cs, d, j + 1);
    }
}

proof fn lemma_link_problem(ls: Seq<FamilyLink>, d: GedcomData, j: int)
    requires
        0 <= j <= ls.len(),
    ensures
        link_problem(ls, d, j) is None <==> forall|k: int| j <= k < ls.len() ==> is_record_xref(d, #[trigger] ls[k].xref@),
    decreases ls.len() - j,
{
    if j < ls.len() {
        lemma_link_problem(ls, d, j + 1);
    }
}

proof fn lemma_families_problem(fs: Seq<Family>, d: GedcomData, i: int)
    requires
        0 <= i <= fs.len(),
    ensures
        families_problem(fs, d, i) is None <==> forall|k: int| i <= k < fs.len() ==> family_problem(#[trigger] fs[k], d) is None,
    decreases fs.len() - i,
{
    if i < fs.len() {
        lemma_families_problem(fs, d, i + 1);
    }
}

proof fn lemma_individuals_problem(is: Seq<Individual>, d: GedcomData, i: int)
    requires
        0 <= i <= is.len(),
    ensures
        individuals_problem(is, d, i) is None <==> forall|k: int| i <= k < is.len() ==> link_problem(#[trigger] is[k].families@, d, 0) is None,
    decreases is.len() - i,
{
    if i < is.len() {
        lemma_individuals_problem(is, d, i + 1);
    }
}

/// The check of references finds no problem exactly when every reference
/// from a family to its partners and children, and from an individual to
/// its families, names a record.
pub proof fn lemma_reference_problem(d: GedcomData)
    ensures
        reference_problem(d) is None <==> references_resolve(d),
{
    lemma_families_problem(d.families@, d, 0);
    lemma_individuals_problem(d.individuals@, d, 0);
    assert forall|i: int| 0 <= i < d.families@.len() implies (family_problem(#[trigger] d.families@[i], d) is None <==> {
        let f = d.families@[i];
        &&& (f.individual1 matches Some(h) ==> is_record_xref(d, h@))
        &&& (f.individual2 matches Some(w) ==> is_record_xref(d, w@))
        &&& forall|j: int| 0 <= j < f.children@.len() ==> is_record_xref(d, #[trigger] f.children@[j]@)
    }) by {
        lemma_child_problem(d.families@[i].children@, d, 0);
    }
    assert forall|i: int| 0 <= i < d.individuals@.len() implies (link_problem(#[trigger] d.individuals@[i].families@, d, 0) is None <==>
        forall|j: int| 0 <= j < d.individuals@[i].families@.len() ==> is_record_xref(d, #[trigger] d.individuals@[i].families@[j].xref@)) by {
        lemma_link_problem(d.individuals@[i].families@, d, 0);
    }
}

} // verus!
