//! Short debugging listings of records: empty fields are left out, lists
//! are shown by their length, and long notes are cut.
use vstd::prelude::*;
use vstd::string::StringExecFns;
use crate::text::{append_decimal, decimal, join_strings, joined, shorten, shortened, cuttable, string_views};
use crate::types::GedcomData;
use crate::types::family::Family;
use crate::types::header::Header;
use crate::types::individual::Individual;
use crate::types::individual::gender::gender_name;
use crate::types::individual::name::Name;
use crate::types::multimedia::Multimedia;
use crate::types::note::Note;
use crate::types::repository::Repository;
use crate::types::source::Source;
use crate::types::submission::Submission;
use crate::types::submitter::Submitter;

verus! {

/// How `{:?}` writes a text: within double quotes, with special characters
/// escaped.
pub uninterp spec fn debug_quote(s: Seq<char>) -> Seq<char>;

/// Writes a text as `{:?}` does (`<str as Debug>::fmt`). What is claimed:
/// the result depends on the text alone.
#[verifier::external_body]
pub(crate) fn debug_quoted(s: &str) -> (r: String)
    ensures
        r@ == debug_quote(s@),
{
    format!("{:?}", s)
}

/// A field of a listing: its name, a colon, and its value as `{:?}` writes
/// a text.
pub open spec fn field_text(name: Seq<char>, value: Seq<char>) -> Seq<char> {
    name + ": "@ + debug_quote(value)
}

/// A listing: the name of the structure, then its fields within braces,
/// with `..` last when fields are left out.
pub open spec fn struct_text(name: Seq<char>, fields: Seq<Seq<char>>, more: bool) -> Seq<char> {
    if fields.len() == 0 {
        if more {
            name + " { .. }"@
        } else {
            name
        }
    } else {
        name + " { "@ + joined(fields, ", "@) + (if more {
            ", .. }"@
        } else {
            " }"@
        })
    }
}

/// A field for a text that may be absent.
pub open spec fn opt_field(name: Seq<char>, value: Option<String>) -> Seq<Seq<char>> {
    match value {
        Some(v) => seq![field_text(name, v@)],
        None => Seq::empty(),
    }
}

/// A field giving the length of a list, as `[n unit]`, when it is not
/// empty.
pub open spec fn count_field(name: Seq<char>, n: nat, unit: Seq<char>) -> Seq<Seq<char>> {
    if n > 0 {
        seq![field_text(name, "["@ + decimal(n) + " "@ + unit + "]"@)]
    } else {
        Seq::empty()
    }
}

/// A field whose value is only said to be present.
pub open spec fn some_field(name: Seq<char>, present: bool) -> Seq<Seq<char>> {
    if present {
        seq![field_text(name, "Some(...)"@)]
    } else {
        Seq::empty()
    }
}

fn push_field(fields: &mut Vec<String>, name: &str, value: &str)
    ensures
        string_views(final(fields)@) == string_views(old(fields)@).push(field_text(name@, value@)),
{
    let mut f = String::from_str(name);
    f.append(": ");
    let q = debug_quoted(value);
    f.append(q.as_str());
    fields.push(f);
    assert(string_views(fields@) =~= string_views(old(fields)@).push(field_text(name@, value@)));
}

fn push_opt_field(fields: &mut Vec<String>, name: &str, value: &Option<String>)
    ensures
        string_views(final(fields)@) == string_views(old(fields)@) + opt_field(name@, *value),
{
    match value {
        Some(v) => push_field(fields, name, v.as_str()),
        None => {},
    }
    assert(string_views(fields@) =~= string_views(old(fields)@) + opt_field(name@, *value));
}

fn push_count_field(fields: &mut Vec<String>, name: &str, n: usize, unit: &str)
    ensures
        string_views(final(fields)@) == string_views(old(fields)@) + count_field(name@, n as nat, unit@),
{
    if n > 0 {
        let mut v = String::from_str("[");
        append_decimal(&mut v, n as u64);
        v.append(" ");
        v.append(unit);
        v.append("]");
        push_field(fields, name, v.as_str());
    }
    assert(string_views(fields@) =~= string_views(old(fields)@) + count_field(name@, n as nat, unit@));
}

fn push_some_field(fields: &mut Vec<String>, name: &str, present: bool)
    ensures
        string_views(final(fields)@) == string_views(old(fields)@) + some_field(name@, present),
{
    if present {
        push_field(fields, name, "Some(...)");
    }
    assert(string_views(fields@) =~= string_views(old(fields)@) + some_field(name@, present));
}

fn listing(name: &str, fields: &Vec<String>, more: bool) -> (r: String)
    ensures
        r@ == struct_text(name@, string_views(fields@), more),
{
    let mut out = String::from_str(name);
    if fields.len() == 0 {
        if more {
            out.append(" { .. }");
        }
    } else {
        out.append(" { ");
        let inner = join_strings(fields, ", ");
        out.append(inner.as_str());
        if more {
            out.append(", .. }");
        } else {
            out.append(" }");
        }
    }
    out
}

/// A record with a short debugging listing.
pub trait ImprovedDebug {
    /// Whether the listing can be written.
    spec fn debug_ok(&self) -> bool;

    /// The listing.
    spec fn debug_text(&self) -> Seq<char>;

    /// Writes the listing.
    fn debug(&self) -> (r: String)
        requires
            self.debug_ok(),
        ensures
            r@ == self.debug_text(),
    ;
}

/// The fields listed for the data of a file: whether there is a header,
/// and how many records of each kind.
pub open spec fn data_fields(d: GedcomData) -> Seq<Seq<char>> {
    some_field("header"@, d.header is Some) + count_field(
        "individuals"@,
        d.individuals@.len(),
        "records"@,
    ) + count_field("families"@, d.families@.len(), "records"@) + count_field(
        "sources"@,
        d.sources@.len(),
        "records"@,
    ) + count_field("repositories"@, d.repositories@.len(), "records"@) + count_field(
        "multimedia"@,
        d.multimedia@.len(),
        "records"@,
    ) + count_field("submitters"@, d.submitters@.len(), "records"@) + count_field(
        "submissions"@,
        d.submissions@.len(),
        "records"@,
    ) + count_field("custom_data"@, d.custom_data@.len(), "records"@)
}

impl ImprovedDebug for GedcomData {
    open spec fn debug_ok(&self) -> bool {
        true
    }

    open spec fn debug_text(&self) -> Seq<char> {
        struct_text("GedcomData"@, data_fields(*self), false)
    }

    fn debug(&self) -> (r: String) {
        let mut fields: Vec<String> = Vec::new();
        push_some_field(&mut fields, "header", self.header.is_some());
        push_count_field(&mut fields, "individuals", self.individuals.len(), "records");
        push_count_field(&mut fields, "families", self.families.len(), "records");
        push_count_field(&mut fields, "sources", self.sources.len(), "records");
        push_count_field(&mut fields, "repositories", self.repositories.len(), "records");
        push_count_field(&mut fields, "multimedia", self.multimedia.len(), "records");
        push_count_field(&mut fields, "submitters", self.submitters.len(), "records");
        push_count_field(&mut fields, "submissions", self.submissions.len(), "records");
        push_count_field(&mut fields, "custom_data", self.custom_data.len(), "records");
        assert(string_views(fields@) =~= data_fields(*self));
        listing("GedcomData", &fields, false)
    }
}

/// The written name of an optional name.
pub open spec fn name_value(n: Option<Name>) -> Option<String> {
    match n {
        Some(n) => n.value,
        None => None,
    }
}

/// The fields listed for an individual.
pub open spec fn individual_fields(i: Individual) -> Seq<Seq<char>> {
    opt_field("xref"@, i.xref) + opt_field("name"@, name_value(i.name)) + (match i.sex {
        Some(s) => seq![field_text("sex"@, gender_name(s.value))],
        None => Seq::empty(),
    }) + count_field("events"@, i.events@.len(), "events"@) + count_field(
        "families"@,
        i.families@.len(),
        "links"@,
    ) + count_field("attributes"@, i.attributes@.len(), "attrs"@)
}

impl ImprovedDebug for Individual {
    open spec fn debug_ok(&self) -> bool {
        true
    }

    open spec fn debug_text(&self) -> Seq<char> {
        struct_text("Individual"@, individual_fields(*self), true)
    }

    fn debug(&self) -> (r: String) {
        let mut fields: Vec<String> = Vec::new();
        push_opt_field(&mut fields, "xref", &self.xref);
        match &self.name {
            Some(n) => push_opt_field(&mut fields, "name", &n.value),
            None => {},
        }
        assert(string_views(fields@) =~= opt_field("xref"@, self.xref) + opt_field("name"@, name_value(self.name)));
        let ghost before = string_views(fields@);
        if let Some(s) = &self.sex {
            let g = s.value.to_display_string();
            push_field(&mut fields, "sex", g.as_str());
        }
        assert(string_views(fields@) =~= before + (match self.sex {
            Some(s) => seq![field_text("sex"@, gender_name(s.value))],
            None => Seq::<Seq<char>>::empty(),
        }));
        push_count_field(&mut fields, "events", self.events.len(), "events");
        push_count_field(&mut fields, "families", self.families.len(), "links");
        push_count_field(&mut fields, "attributes", self.attributes.len(), "attrs");
        assert(string_views(fields@) =~= individual_fields(*self));
        listing("Individual", &fields, true)
    }
}

/// The fields listed for a family.
pub open spec fn family_fields(f: Family) -> Seq<Seq<char>> {
    opt_field("xref"@, f.xref) + opt_field("individual1"@, f.individual1) + opt_field(
        "individual2"@,
        f.individual2,
    ) + count_field("children"@, f.children@.len(), "children"@) + count_field(
        "events"@,
        f.events@.len(),
        "events"@,
    )
}

impl ImprovedDebug for Family {
    open spec fn debug_ok(&self) -> bool {
        true
    }

    open spec fn debug_text(&self) -> Seq<char> {
        struct_text("Family"@, family_fields(*self), true)
    }

    fn debug(&self) -> (r: String) {
        let mut fields: Vec<String> = Vec::new();
        push_opt_field(&mut fields, "xref", &self.xref);
        push_opt_field(&mut fields, "individual1", &self.individual1);
        push_opt_field(&mut fields, "individual2", &self.individual2);
        push_count_field(&mut fields, "children", self.children.len(), "children");
        push_count_field(&mut fields, "events", self.events.len(), "events");
        assert(string_views(fields@) =~= family_fields(*self));
        listing("Family", &fields, true)
    }
}

/// The fields listed for a source.
pub open spec fn source_fields(s: Source) -> Seq<Seq<char>> {
    opt_field("xref"@, s.xref) + opt_field("title"@, s.title) + opt_field("author"@, s.author)
        + opt_field("abbreviation"@, s.abbreviation)
}

impl ImprovedDebug for Source {
    open spec fn debug_ok(&self) -> bool {
        true
    }

    open spec fn debug_text(&self) -> Seq<char> {
        struct_text("Source"@, source_fields(*self), true)
    }

    fn debug(&self) -> (r: String) {
        let mut fields: Vec<String> = Vec::new();
        push_opt_field(&mut fields, "xref", &self.xref);
        push_opt_field(&mut fields, "title", &self.title);
        push_opt_field(&mut fields, "author", &self.author);
        push_opt_field(&mut fields, "abbreviation", &self.abbreviation);
        assert(string_views(fields@) =~= source_fields(*self));
        listing("Source", &fields, true)
    }
}

/// The fields listed for a repository.
pub open spec fn repository_fields(r: Repository) -> Seq<Seq<char>> {
    opt_field("xref"@, r.xref) + opt_field("name"@, r.name) + some_field("address"@, r.address is Some)
}

impl ImprovedDebug for Repository {
    open spec fn debug_ok(&self) -> bool {
        true
    }

    open spec fn debug_text(&self) -> Seq<char> {
        struct_text("Repository"@, repository_fields(*self), true)
    }

    fn debug(&self) -> (r: String) {
        let mut fields: Vec<String> = Vec::new();
        push_opt_field(&mut fields, "xref", &self.xref);
        push_opt_field(&mut fields, "name", &self.name);
        push_some_field(&mut fields, "address", self.address.is_some());
        assert(string_views(fields@) =~= repository_fields(*self));
        listing("Repository", &fields, true)
    }
}

/// The fields listed for a multimedia record.
pub open spec fn multimedia_fields(m: Multimedia) -> Seq<Seq<char>> {
    opt_field("xref"@, m.xref) + opt_field("title"@, m.title) + opt_field(
        "file"@,
        match m.file {
            Some(f) => f.value,
            None => None,
        },
    ) + opt_field(
        "format"@,
        match m.form {
            Some(f) => f.value,
            None => None,
        },
    )
}

impl ImprovedDebug for Multimedia {
    open spec fn debug_ok(&self) -> bool {
        true
    }

    open spec fn debug_text(&self) -> Seq<char> {
        struct_text("Multimedia"@, multimedia_fields(*self), true)
    }

    fn debug(&self) -> (r: String) {
        let mut fields: Vec<String> = Vec::new();
        push_opt_field(&mut fields, "xref", &self.xref);
        push_opt_field(&mut fields, "title", &self.title);
        let ghost before = string_views(fields@);
        match &self.file {
            Some(f) => push_opt_field(&mut fields, "file", &f.value),
            None => {},
        }
        assert(string_views(fields@) =~= before + opt_field(
            "file"@,
            match self.file {
                Some(f) => f.value,
                None => None,
            },
        ));
        let ghost before2 = string_views(fields@);
        match &self.form {
            Some(f) => push_opt_field(&mut fields, "format", &f.value),
            None => {},
        }
        assert(string_views(fields@) =~= before2 + opt_field(
            "format"@,
            match self.form {
                Some(f) => f.value,
                None => None,
            },
        ));
        assert(string_views(fields@) =~= multimedia_fields(*self));
        listing("Multimedia", &fields, true)
    }
}

/// The fields listed for a header.
pub open spec fn header_fields(h: Header) -> Seq<Seq<char>> {
    opt_field(
        "gedcom_version"@,
        match h.gedcom {
            Some(g) => g.version,
            None => None,
        },
    ) + opt_field(
        "source"@,
        match h.source {
            Some(s) => s.name,
            None => None,
        },
    ) + opt_field(
        "encoding"@,
        match h.encoding {
            Some(e) => e.value,
            None => None,
        },
    ) + opt_field(
        "date"@,
        match h.date {
            Some(d) => d.value,
            None => None,
        },
    )
}

impl ImprovedDebug for Header {
    open spec fn debug_ok(&self) -> bool {
        true
    }

    open spec fn debug_text(&self) -> Seq<char> {
        struct_text("Header"@, header_fields(*self), true)
    }

    fn debug(&self) -> (r: String) {
        let mut fields: Vec<String> = Vec::new();
        let version = match &self.gedcom {
            Some(g) => g.version.clone(),
            None => None,
        };
        let source = match &self.source {
            Some(s) => s.name.clone(),
            None => None,
        };
        let encoding = match &self.encoding {
            Some(e) => e.value.clone(),
            None => None,
        };
        let date = match &self.date {
            Some(d) => d.value.clone(),
            None => None,
        };
        push_opt_field(&mut fields, "gedcom_version", &version);
        push_opt_field(&mut fields, "source", &source);
        push_opt_field(&mut fields, "encoding", &encoding);
        push_opt_field(&mut fields, "date", &date);
        assert(string_views(fields@) =~= header_fields(*self));
        listing("Header", &fields, true)
    }
}

/// The fields listed for a submitter.
pub open spec fn submitter_fields(s: Submitter) -> Seq<Seq<char>> {
    opt_field("xref"@, s.xref) + opt_field("name"@, s.name)
}

impl ImprovedDebug for Submitter {
    open spec fn debug_ok(&self) -> bool {
        true
    }

    open spec fn debug_text(&self) -> Seq<char> {
        struct_text("Submitter"@, submitter_fields(*self), true)
    }

    fn debug(&self) -> (r: String) {
        let mut fields: Vec<String> = Vec::new();
        push_opt_field(&mut fields, "xref", &self.xref);
        push_opt_field(&mut fields, "name", &self.name);
        assert(string_views(fields@) =~= submitter_fields(*self));
        listing("Submitter", &fields, true)
    }
}

/// The fields listed for a submission.
pub open spec fn submission_fields(s: Submission) -> Seq<Seq<char>> {
    opt_field("xref"@, s.xref) + opt_field("family_file"@, s.family_file_name) + opt_field(
        "submitter_ref"@,
        s.submitter_ref,
    )
}

impl ImprovedDebug for Submission {
    open spec fn debug_ok(&self) -> bool {
        true
    }

    open spec fn debug_text(&self) -> Seq<char> {
        struct_text("Submission"@, submission_fields(*self), true)
    }

    fn debug(&self) -> (r: String) {
        let mut fields: Vec<String> = Vec::new();
        push_opt_field(&mut fields, "xref", &self.xref);
        push_opt_field(&mut fields, "family_file", &self.family_file_name);
        push_opt_field(&mut fields, "submitter_ref", &self.submitter_ref);
        assert(string_views(fields@) =~= submission_fields(*self));
        listing("Submission", &fields, true)
    }
}

/// The fields listed for a name.
pub open spec fn name_fields(n: Name) -> Seq<Seq<char>> {
    opt_field("value"@, n.value) + opt_field("given"@, n.given) + opt_field("surname"@, n.surname)
        + opt_field("prefix"@, n.prefix) + opt_field("suffix"@, n.suffix)
}

impl ImprovedDebug for Name {
    open spec fn debug_ok(&self) -> bool {
        true
    }

    open spec fn debug_text(&self) -> Seq<char> {
        struct_text("Name"@, name_fields(*self), true)
    }

    fn debug(&self) -> (r: String) {
        let mut fields: Vec<String> = Vec::new();
        push_opt_field(&mut fields, "value", &self.value);
        push_opt_field(&mut fields, "given", &self.given);
        push_opt_field(&mut fields, "surname", &self.surname);
        push_opt_field(&mut fields, "prefix", &self.prefix);
        push_opt_field(&mut fields, "suffix", &self.suffix);
        assert(string_views(fields@) =~= name_fields(*self));
        listing("Name", &fields, true)
    }
}

/// The fields listed for a note: its text, cut to fifty bytes and followed
/// by `...` when longer, its media type and its language.
pub open spec fn note_fields(n: Note) -> Seq<Seq<char>> {
    (match n.value {
        Some(v) => seq![field_text("value"@, shortened(v@, 50))],
        None => Seq::empty(),
    }) + opt_field("mime"@, n.mime) + opt_field("language"@, n.language)
}

impl ImprovedDebug for Note {
    /// A text longer than fifty bytes has a character boundary at its
    /// fiftieth byte.
    open spec fn debug_ok(&self) -> bool {
        match self.value {
            Some(v) => cuttable(v@, 50),
            None => true,
        }
    }

    open spec fn debug_text(&self) -> Seq<char> {
        struct_text("Note"@, note_fields(*self), true)
    }

    fn debug(&self) -> (r: String) {
        let mut fields: Vec<String> = Vec::new();
        if let Some(v) = &self.value {
            let short = shorten(v.as_str(), 50);
            push_field(&mut fields, "value", short.as_str());
        }
        push_opt_field(&mut fields, "mime", &self.mime);
        push_opt_field(&mut fields, "language", &self.language);
        assert(string_views(fields@) =~= note_fields(*self));
        listing("Note", &fields, true)
    }
}

} // verus!
