//! Human-readable summaries of records: one line for a record, several
//! lines for a whole file.
use vstd::prelude::*;
use vstd::string::StringExecFns;
use crate::text::{
    append_decimal, decimal, join_strings, joined, push_char, remove_char, shorten, shortened,
    cuttable, string_views, trim,
};
use crate::types::GedcomData;
use crate::types::event::Event;
use crate::types::event::detail::Detail;
use crate::types::family::Family;
use crate::types::header::Header;
use crate::types::individual::Individual;
use crate::types::individual::gender::gender_name;
use crate::types::individual::name::{full_name_of, Name};
use crate::types::multimedia::Multimedia;
use crate::types::note::Note;
use crate::types::repository::Repository;
use crate::types::source::Source;
use crate::types::submission::Submission;
use crate::types::submitter::Submitter;

verus! {

/// A record that can be summed up for a reader.
pub trait DisplayText {
    /// The summary.
    spec fn display_text(&self) -> Seq<char>;

    /// Writes the summary.
    fn to_display_string(&self) -> (r: String)
        ensures
            r@ == self.display_text(),
    ;
}

/// The xref of a record followed by a space, or nothing.
pub open spec fn xref_lead(x: Option<String>) -> Seq<char> {
    match x {
        Some(s) => s@.push(' '),
        None => Seq::empty(),
    }
}

fn append_xref_lead(out: &mut String, x: &Option<String>)
    ensures
        final(out)@ == old(out)@ + xref_lead(*x),
{
    if let Some(s) = x {
        out.append(s.as_str());
        push_char(out, ' ');
    }
}

/// The written value of the date of an event, if any.
pub open spec fn date_value(e: Detail) -> Option<Seq<char>> {
    match e.date {
        Some(d) => match d.value {
            Some(v) => Some(v@),
            None => None,
        },
        None => None,
    }
}

fn event_date(e: &Detail) -> (r: Option<&String>)
    ensures
        match r {
            Some(v) => date_value(*e) == Some(v@),
            None => date_value(*e) is None,
        },
{
    match &e.date {
        Some(d) => match &d.value {
            Some(v) => Some(v),
            None => None,
        },
        None => None,
    }
}

/// The part of a summary that an event of a life adds: `, b. ` and the
/// date of a birth, `, d. ` and the date of a death.
pub open spec fn life_date(e: Detail) -> Seq<char> {
    match date_value(e) {
        Some(v) => if e.event is Birth {
            ", b. "@ + v
        } else if e.event is Death {
            ", d. "@ + v
        } else {
            Seq::empty()
        },
        None => Seq::empty(),
    }
}

/// The dates of birth and death among events, in order.
pub open spec fn life_dates(events: Seq<Detail>) -> Seq<char>
    decreases events.len(),
{
    if events.len() == 0 {
        Seq::empty()
    } else {
        life_dates(events.drop_last()) + life_date(events.last())
    }
}

/// The part of a summary that a marriage with a date adds.
pub open spec fn marriage_date(e: Detail) -> Seq<char> {
    match date_value(e) {
        Some(v) => if e.event is Marriage {
            ", m. "@ + v
        } else {
            Seq::empty()
        },
        None => Seq::empty(),
    }
}

/// The dates of marriage among events, in order.
pub open spec fn marriage_dates(events: Seq<Detail>) -> Seq<char>
    decreases events.len(),
{
    if events.len() == 0 {
        Seq::empty()
    } else {
        marriage_dates(events.drop_last()) + marriage_date(events.last())
    }
}

/// Appends, for each event in order, what `part` says it adds.
fn append_event_dates(out: &mut String, events: &Vec<Detail>, marriages: bool)
    ensures
        final(out)@ == old(out)@ + (if marriages {
            marriage_dates(events@)
        } else {
            life_dates(events@)
        }),
{
    let ghost base = out@;
    let mut i: usize = 0;
    while i < events.len()
        invariant
            i <= events@.len(),
            out@ == base + (if marriages {
                marriage_dates(events@.take(i as int))
            } else {
                life_dates(events@.take(i as int))
            }),
        decreases events@.len() - i,
    {
        let e = &events[i];
        proof {
            assert(events@.take(i + 1).drop_last() =~= events@.take(i as int));
        }
        if let Some(v) = event_date(e) {
            if marriages {
                if let Event::Marriage = e.event {
                    out.append(", m. ");
                    out.append(v.as_str());
                }
            } else {
                match e.event {
                    Event::Birth => {
                        out.append(", b. ");
                        out.append(v.as_str());
                    },
                    Event::Death => {
                        out.append(", d. ");
                        out.append(v.as_str());
                    },
                    _ => {},
                }
            }
        }
        i = i + 1;
    }
    proof {
        assert(events@.take(events@.len() as int) =~= events@);
    }
}

/// The summary of a header: its GEDCOM version, the name of the program
/// that wrote it and its character set, where given.
pub open spec fn header_text(h: Header) -> Seq<char> {
    "Header"@ + (match h.gedcom {
        Some(g) => match g.version {
            Some(v) => " (GEDCOM "@ + v@ + ")"@,
            None => Seq::empty(),
        },
        None => Seq::empty(),
    }) + (match h.source {
        Some(s) => match s.name {
            Some(n) => " - Source: "@ + n@,
            None => Seq::empty(),
        },
        None => Seq::empty(),
    }) + (match h.encoding {
        Some(e) => match e.value {
            Some(v) => " ["@ + v@ + "]"@,
            None => Seq::empty(),
        },
        None => Seq::empty(),
    })
}

impl DisplayText for Header {
    open spec fn display_text(&self) -> Seq<char> {
        header_text(*self)
    }

    fn to_display_string(&self) -> (r: String) {
        let mut out = String::from_str("Header");
        if let Some(g) = &self.gedcom {
            if let Some(v) = &g.version {
                out.append(" (GEDCOM ");
                out.append(v.as_str());
                out.append(")");
            }
        }
        if let Some(s) = &self.source {
            if let Some(n) = &s.name {
                out.append(" - Source: ");
                out.append(n.as_str());
            }
        }
        if let Some(e) = &self.encoding {
            if let Some(v) = &e.value {
                out.append(" [");
                out.append(v.as_str());
                out.append("]");
            }
        }
        out
    }
}

/// The given parts of a name, in the order prefix, given name, surname
/// prefix, surname, suffix.
pub open spec fn name_parts(n: Name) -> Seq<Seq<char>> {
    opt_part(n.prefix) + opt_part(n.given) + opt_part(n.surname_prefix) + opt_part(n.surname)
        + opt_part(n.suffix)
}

/// A text as a list of one piece, or no piece.
pub open spec fn opt_part(o: Option<String>) -> Seq<Seq<char>> {
    match o {
        Some(s) => seq![s@],
        None => Seq::empty(),
    }
}

fn push_part(parts: &mut Vec<String>, o: &Option<String>)
    ensures
        string_views(final(parts)@) == string_views(old(parts)@) + opt_part(*o),
{
    if let Some(s) = o {
        parts.push(s.clone());
    }
    assert(string_views(parts@) =~= string_views(old(parts)@) + opt_part(*o));
}

/// The summary of a name: the written name without slashes, or else its
/// parts with spaces between; `(Unknown)` where that is empty.
pub open spec fn name_text(n: Name) -> Seq<char> {
    match n.value {
        Some(v) => if full_name_of(v@).len() == 0 {
            "(Unknown)"@
        } else {
            full_name_of(v@)
        },
        None => if name_parts(n).len() == 0 {
            "(Unknown)"@
        } else {
            joined(name_parts(n), " "@)
        },
    }
}

impl DisplayText for Name {
    open spec fn display_text(&self) -> Seq<char> {
        name_text(*self)
    }

    fn to_display_string(&self) -> (r: String) {
        match &self.value {
            Some(v) => {
                let without = remove_char(v.as_str(), '/');
                let shown = trim(without.as_str());
                if shown.unicode_len() == 0 {
                    String::from_str("(Unknown)")
                } else {
                    shown
                }
            },
            None => {
                let mut parts: Vec<String> = Vec::new();
                push_part(&mut parts, &self.prefix);
                push_part(&mut parts, &self.given);
                push_part(&mut parts, &self.surname_prefix);
                push_part(&mut parts, &self.surname);
                push_part(&mut parts, &self.suffix);
                proof {
                    assert(string_views(parts@) =~= name_parts(*self));
                }
                if parts.len() == 0 {
                    String::from_str("(Unknown)")
                } else {
                    join_strings(&parts, " ")
                }
            },
        }
    }
}

/// The summary of an individual: xref, name, sex, and the dates of birth
/// and death.
pub open spec fn individual_text(i: Individual) -> Seq<char> {
    xref_lead(i.xref) + (match i.name {
        Some(n) => name_text(n),
        None => "(Unknown Name)"@,
    }) + (match i.sex {
        Some(s) => " ("@ + gender_name(s.value) + ")"@,
        None => Seq::empty(),
    }) + life_dates(i.events@)
}

impl DisplayText for Individual {
    open spec fn display_text(&self) -> Seq<char> {
        individual_text(*self)
    }

    fn to_display_string(&self) -> (r: String) {
        let mut out = String::new();
        append_xref_lead(&mut out, &self.xref);
        match &self.name {
            Some(n) => {
                let s = n.to_display_string();
                out.append(s.as_str());
            },
            None => out.append("(Unknown Name)"),
        }
        if let Some(s) = &self.sex {
            out.append(" (");
            let g = s.value.to_display_string();
            out.append(g.as_str());
            out.append(")");
        }
        append_event_dates(&mut out, &self.events, false);
        out
    }
}

/// The partners of a family as shown: `Partner 1: ` and `Partner 2: `
/// followed by their xrefs.
pub open spec fn partners(f: Family) -> Seq<Seq<char>> {
    (match f.individual1 {
        Some(x) => seq!["Partner 1: "@ + x@],
        None => Seq::empty(),
    }) + (match f.individual2 {
        Some(x) => seq!["Partner 2: "@ + x@],
        None => Seq::empty(),
    })
}

/// The summary of a family: xref, partners, number of children and
/// dates of marriage.
pub open spec fn family_text(f: Family) -> Seq<char> {
    xref_lead(f.xref) + (if partners(f).len() == 0 {
        "(No partners)"@
    } else {
        joined(partners(f), ", "@)
    }) + (if f.children@.len() > 0 {
        " ["@ + decimal(f.children@.len() as nat) + " child(ren)]"@
    } else {
        Seq::empty()
    }) + marriage_dates(f.events@)
}

impl DisplayText for Family {
    open spec fn display_text(&self) -> Seq<char> {
        family_text(*self)
    }

    fn to_display_string(&self) -> (r: String) {
        let mut out = String::new();
        append_xref_lead(&mut out, &self.xref);
        let mut members: Vec<String> = Vec::new();
        if let Some(x) = &self.individual1 {
            let mut m = String::from_str("Partner 1: ");
            m.append(x.as_str());
            members.push(m);
        }
        if let Some(x) = &self.individual2 {
            let mut m = String::from_str("Partner 2: ");
            m.append(x.as_str());
            members.push(m);
        }
        proof {
            assert(string_views(members@) =~= partners(*self));
        }
        if members.len() == 0 {
            out.append("(No partners)");
        } else {
            let joined_members = join_strings(&members, ", ");
            out.append(joined_members.as_str());
        }
        if self.children.len() > 0 {
            out.append(" [");
            append_decimal(&mut out, self.children.len() as u64);
            out.append(" child(ren)]");
        }
        append_event_dates(&mut out, &self.events, true);
        out
    }
}

/// The summary of a source: xref, quoted title (or abbreviation), author.
pub open spec fn source_text(s: Source) -> Seq<char> {
    xref_lead(s.xref) + (match s.title {
        Some(t) => "\""@ + t@ + "\""@,
        None => match s.abbreviation {
            Some(a) => a@,
            None => "(Untitled Source)"@,
        },
    }) + (match s.author {
        Some(a) => " by "@ + a@,
        None => Seq::empty(),
    })
}

impl DisplayText for Source {
    open spec fn display_text(&self) -> Seq<char> {
        source_text(*self)
    }

    fn to_display_string(&self) -> (r: String) {
        let mut out = String::new();
        append_xref_lead(&mut out, &self.xref);
        match &self.title {
            Some(t) => {
                out.append("\"");
                out.append(t.as_str());
                out.append("\"");
            },
            None => match &self.abbreviation {
                Some(a) => out.append(a.as_str()),
                None => out.append("(Untitled Source)"),
            },
        }
        if let Some(a) = &self.author {
            out.append(" by ");
            out.append(a.as_str());
        }
        out
    }
}

/// The summary of a repository: xref, name and city.
pub open spec fn repository_text(r: Repository) -> Seq<char> {
    xref_lead(r.xref) + (match r.name {
        Some(n) => n@,
        None => "(Unnamed Repository)"@,
    }) + (match r.address {
        Some(a) => match a.city {
            Some(c) => ", "@ + c@,
            None => Seq::empty(),
        },
        None => Seq::empty(),
    })
}

impl DisplayText for Repository {
    open spec fn display_text(&self) -> Seq<char> {
        repository_text(*self)
    }

    fn to_display_string(&self) -> (r: String) {
        let mut out = String::new();
        append_xref_lead(&mut out, &self.xref);
        match &self.name {
            Some(n) => out.append(n.as_str()),
            None => out.append("(Unnamed Repository)"),
        }
        if let Some(a) = &self.address {
            if let Some(c) = &a.city {
                out.append(", ");
                out.append(c.as_str());
            }
        }
        out
    }
}

/// The summary of a multimedia record: xref, quoted title (or the file
/// reference), and format.
pub open spec fn multimedia_text(m: Multimedia) -> Seq<char> {
    xref_lead(m.xref) + (match m.title {
        Some(t) => "\""@ + t@ + "\""@,
        None => match m.file {
            Some(f) => match f.value {
                Some(v) => v@,
                None => "(File reference)"@,
            },
            None => "(Unnamed Media)"@,
        },
    }) + (match m.form {
        Some(f) => match f.value {
            Some(v) => " ["@ + v@ + "]"@,
            None => Seq::empty(),
        },
        None => Seq::empty(),
    })
}

impl DisplayText for Multimedia {
    open spec fn display_text(&self) -> Seq<char> {
        multimedia_text(*self)
    }

    fn to_display_string(&self) -> (r: String) {
        let mut out = String::new();
        append_xref_lead(&mut out, &self.xref);
        match &self.title {
            Some(t) => {
                out.append("\"");
                out.append(t.as_str());
                out.append("\"");
            },
            None => match &self.file {
                Some(f) => match &f.value {
                    Some(v) => out.append(v.as_str()),
                    None => out.append("(File reference)"),
                },
                None => out.append("(Unnamed Media)"),
            },
        }
        if let Some(f) = &self.form {
            if let Some(v) = &f.value {
                out.append(" [");
                out.append(v.as_str());
                out.append("]");
            }
        }
        out
    }
}

/// The summary of a submitter: xref and name.
pub open spec fn submitter_text(s: Submitter) -> Seq<char> {
    xref_lead(s.xref) + match s.name {
        Some(n) => n@,
        None => "(Unknown Submitter)"@,
    }
}

impl DisplayText for Submitter {
    open spec fn display_text(&self) -> Seq<char> {
        submitter_text(*self)
    }

    fn to_display_string(&self) -> (r: String) {
        let mut out = String::new();
        append_xref_lead(&mut out, &self.xref);
        match &self.name {
            Some(n) => out.append(n.as_str()),
            None => out.append("(Unknown Submitter)"),
        }
        out
    }
}

/// The summary of a submission: xref and family file name.
pub open spec fn submission_text(s: Submission) -> Seq<char> {
    xref_lead(s.xref) + match s.family_file_name {
        Some(f) => "Family File: "@ + f@,
        None => "(Submission Record)"@,
    }
}

impl DisplayText for Submission {
    open spec fn display_text(&self) -> Seq<char> {
        submission_text(*self)
    }

    fn to_display_string(&self) -> (r: String) {
        let mut out = String::new();
        append_xref_lead(&mut out, &self.xref);
        match &self.family_file_name {
            Some(f) => {
                out.append("Family File: ");
                out.append(f.as_str());
            },
            None => out.append("(Submission Record)"),
        }
        out
    }
}

/// The summaries of records, in order.
pub open spec fn shown<T: DisplayText>(items: Seq<T>) -> Seq<Seq<char>> {
    items.map_values(|x: T| x.display_text())
}

/// Lines indented by two spaces, each ended by a newline.
pub open spec fn listed(lines: Seq<Seq<char>>) -> Seq<char>
    decreases lines.len(),
{
    if lines.len() == 0 {
        Seq::empty()
    } else {
        listed(lines.drop_last()) + "  "@ + lines.last() + "\n"@
    }
}

/// A titled list of summaries, after an empty line; nothing when there are
/// none.
pub open spec fn section_text(title: Seq<char>, lines: Seq<Seq<char>>) -> Seq<char> {
    if lines.len() == 0 {
        Seq::empty()
    } else {
        "\n"@ + title + " ("@ + decimal(lines.len()) + "):\n"@ + listed(lines)
    }
}

fn append_section<T: DisplayText>(out: &mut String, title: &str, items: &Vec<T>)
    ensures
        final(out)@ == old(out)@ + section_text(title@, shown(items@)),
{
    if items.len() == 0 {
        return;
    }
    out.append("\n");
    out.append(title);
    out.append(" (");
    append_decimal(out, items.len() as u64);
    out.append("):\n");
    let ghost base = out@;
    let mut i: usize = 0;
    while i < items.len()
        invariant
            i <= items@.len(),
            out@ == base + listed(shown(items@).take(i as int)),
        decreases items@.len() - i,
    {
        proof {
            assert(shown(items@).take(i + 1).drop_last() =~= shown(items@).take(i as int));
        }
        let s = items[i].to_display_string();
        out.append("  ");
        out.append(s.as_str());
        out.append("\n");
        i = i + 1;
    }
    proof {
        assert(shown(items@).take(items@.len() as int) =~= shown(items@));
    }
}

/// The summary of the data of a file: a title, the header, and a titled
/// list for each kind of record that occurs.
pub open spec fn data_text(d: GedcomData) -> Seq<char> {
    "GEDCOM Data\n============\n"@ + (match d.header {
        Some(h) => header_text(h) + "\n"@,
        None => Seq::empty(),
    }) + section_text("Individuals"@, shown(d.individuals@)) + section_text(
        "Families"@,
        shown(d.families@),
    ) + section_text("Sources"@, shown(d.sources@)) + section_text(
        "Repositories"@,
        shown(d.repositories@),
    ) + section_text("Multimedia"@, shown(d.multimedia@)) + section_text(
        "Submitters"@,
        shown(d.submitters@),
    ) + section_text("Submissions"@, shown(d.submissions@))
}

impl DisplayText for GedcomData {
    open spec fn display_text(&self) -> Seq<char> {
        data_text(*self)
    }

    fn to_display_string(&self) -> (r: String) {
        let mut out = String::from_str("GEDCOM Data\n============\n");
        if let Some(h) = &self.header {
            let s = h.to_display_string();
            out.append(s.as_str());
            out.append("\n");
        }
        append_section(&mut out, "Individuals", &self.individuals);
        append_section(&mut out, "Families", &self.families);
        append_section(&mut out, "Sources", &self.sources);
        append_section(&mut out, "Repositories", &self.repositories);
        append_section(&mut out, "Multimedia", &self.multimedia);
        append_section(&mut out, "Submitters", &self.submitters);
        append_section(&mut out, "Submissions", &self.submissions);
        out
    }
}

/// The summary of a note: its text, cut to its first hundred bytes and
/// followed by `...` when longer, or `(Empty Note)`.
pub open spec fn note_text(n: Note) -> Seq<char> {
    match n.value {
        Some(v) => shortened(v@, 100),
        None => "(Empty Note)"@,
    }
}

/// Whether a note can be summed up: a text longer than a hundred bytes has
/// a character boundary at its hundredth byte.
pub open spec fn note_displayable(n: Note) -> bool {
    match n.value {
        Some(v) => cuttable(v@, 100),
        None => true,
    }
}

impl Note {
    /// Writes the summary of the note.
    pub fn to_display_string(&self) -> (r: String)
        requires
            note_displayable(*self),
        ensures
            r@ == note_text(*self),
    {
        match &self.value {
            Some(v) => shorten(v.as_str(), 100),
            None => String::from_str("(Empty Note)"),
        }
    }
}

} // verus!
