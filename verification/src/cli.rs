//! The decisions of the command-line inspection tool: reading its
//! arguments, choosing what to do, and choosing which individuals a name
//! filter lists.
use vstd::prelude::*;
use vstd::string::StringExecFns;
use crate::debug::{debug_quote, debug_quoted};
use crate::display::{name_text, DisplayText};
use crate::text::{
    contains_text, has_substring, join_strings, joined, lowercase, replace_all, replaced,
    split_whitespace, str_eq, string_views, to_lowercase, words,
};
use crate::types::individual::Individual;
use crate::types::{derefs, kept, GedcomData};

verus! {

/// The arguments of the tool.
#[derive(Clone, Debug)]
pub struct CliArgs {
    pub filename: Option<String>,
    pub individual_xref: Option<String>,
    pub individual_lastname: Option<String>,
    pub individual_firstname: Option<String>,
    pub help: bool,
}

impl Default for CliArgs {
    fn default() -> (r: Self)
        ensures
            r == no_args(),
    {
        CliArgs {
            filename: None,
            individual_xref: None,
            individual_lastname: None,
            individual_firstname: None,
            help: false,
        }
    }
}

/// The arguments before any is read.
pub open spec fn no_args() -> CliArgs {
    CliArgs {
        filename: None,
        individual_xref: None,
        individual_lastname: None,
        individual_firstname: None,
        help: false,
    }
}

/// The message for a file argument after the first: it lists the
/// arguments as `{:?}` writes a list of strings, and gives a hint.
pub open spec fn too_many_message(rest: Seq<Seq<char>>) -> Seq<char> {
    "Found more args than expected: ["@ + joined(rest.map_values(|a: Seq<char>| debug_quote(a)), ", "@)
        + "]\nHint: this tool expects exactly one .ged file path (quote it if it contains spaces), for example:\nged_io --individual-lastname \"/path/with spaces/family.ged\""@
}

/// Reading the arguments from index `i` on into `acc`: the arguments, or
/// the message of a usage error. Options come with their value in the next
/// argument; anything else that starts with `-` is unknown; the one other
/// argument is the file name.
pub open spec fn args_from(argv: Seq<String>, i: int, acc: CliArgs) -> Result<CliArgs, Seq<char>>
    decreases argv.len() - i,
{
    if i < 1 || i >= argv.len() {
        Ok(acc)
    } else {
        let a = argv[i]@;
        if a == "-h"@ || a == "--help"@ {
            args_from(argv, i + 1, CliArgs { help: true, ..acc })
        } else if a == "--individual"@ {
            if i + 1 < argv.len() {
                args_from(argv, i + 2, CliArgs { individual_xref: Some(argv[i + 1]), ..acc })
            } else {
                Err("--individual expects an XREF"@)
            }
        } else if a == "--individual-lastname"@ {
            if i + 1 < argv.len() {
                args_from(argv, i + 2, CliArgs { individual_lastname: Some(argv[i + 1]), ..acc })
            } else {
                Err("--individual-lastname expects a LASTNAME"@)
            }
        } else if a == "--individual-firstname"@ {
            if i + 1 < argv.len() {
                args_from(argv, i + 2, CliArgs { individual_firstname: Some(argv[i + 1]), ..acc })
            } else {
                Err("--individual-firstname expects a FIRSTNAME"@)
            }
        } else if a.len() > 0 && a[0] == '-' {
            Err("Unknown option: "@ + a)
        } else if acc.filename is Some {
            Err(too_many_message(string_views(argv.subrange(1, argv.len() as int))))
        } else {
            args_from(argv, i + 1, CliArgs { filename: Some(argv[i]), ..acc })
        }
    }
}

fn too_many_args(argv: &Vec<String>) -> (r: String)
    requires
        argv@.len() >= 1,
    ensures
        r@ == too_many_message(string_views(argv@.subrange(1, argv@.len() as int))),
{
    let ghost rest = string_views(argv@.subrange(1, argv@.len() as int));
    let mut quoted: Vec<String> = Vec::new();
    let mut k: usize = 1;
    while k < argv.len()
        invariant
            1 <= k <= argv@.len(),
            rest == string_views(argv@.subrange(1, argv@.len() as int)),
            string_views(quoted@) == rest.take(k - 1).map_values(|a: Seq<char>| debug_quote(a)),
        decreases argv@.len() - k,
    {
        let q = debug_quoted(argv[k].as_str());
        let ghost before = string_views(quoted@);
        quoted.push(q);
        proof {
            assert(rest[k - 1] == argv@[k as int]@);
            assert(string_views(quoted@) =~= before.push(debug_quote(rest[k - 1])));
            assert(rest.take(k as int).map_values(|a: Seq<char>| debug_quote(a)) =~= rest.take(k - 1).map_values(
                |a: Seq<char>| debug_quote(a),
            ).push(debug_quote(rest[k - 1])));
        }
        k = k + 1;
    }
    proof {
        assert(rest.take(rest.len() as int) =~= rest);
    }
    let mut out = String::from_str("Found more args than expected: [");
    let inner = join_strings(&quoted, ", ");
    out.append(inner.as_str());
    out.append(
        "]\nHint: this tool expects exactly one .ged file path (quote it if it contains spaces), for example:\nged_io --individual-lastname \"/path/with spaces/family.ged\"",
    );
    out
}

/// Reads the arguments of the tool; the first is the tool's own name.
pub fn parse_args(argv: &Vec<String>) -> (r: Result<CliArgs, String>)
    ensures
        match args_from(argv@, 1, no_args()) {
            Ok(a) => r == Ok::<CliArgs, String>(a),
            Err(m) => r matches Err(s) && s@ == m,
        },
{
    let mut out = CliArgs::default();
    let mut i: usize = 1;
    while i < argv.len()
        invariant
            1 <= i,
            args_from(argv@, i as int, out) == args_from(argv@, 1, no_args()),
        decreases argv@.len() - i,
    {
        let a = argv[i].as_str();
        if str_eq(a, "-h") || str_eq(a, "--help") {
            out.help = true;
            i = i + 1;
        } else if str_eq(a, "--individual") {
            if i + 1 >= argv.len() {
                return Err(String::from_str("--individual expects an XREF"));
            }
            out.individual_xref = Some(argv[i + 1].clone());
            i = i + 2;
        } else if str_eq(a, "--individual-lastname") {
            if i + 1 >= argv.len() {
                return Err(String::from_str("--individual-lastname expects a LASTNAME"));
            }
            out.individual_lastname = Some(argv[i + 1].clone());
            i = i + 2;
        } else if str_eq(a, "--individual-firstname") {
            if i + 1 >= argv.len() {
                return Err(String::from_str("--individual-firstname expects a FIRSTNAME"));
            }
            out.individual_firstname = Some(argv[i + 1].clone());
            i = i + 2;
        } else if a.unicode_len() > 0 && a.get_char(0) == '-' {
            let mut m = String::from_str("Unknown option: ");
            m.append(a);
            return Err(m);
        } else if out.filename.is_some() {
            return Err(too_many_args(argv));
        } else {
            out.filename = Some(argv[i].clone());
            i = i + 1;
        }
    }
    Ok(out)
}

/// The first names and the last name that a shown name gives: slashes
/// count as spaces, the last word is the last name, and the words before
/// it, with single spaces between, are the first names.
pub open spec fn first_last(shown: Seq<char>) -> (Option<Seq<char>>, Option<Seq<char>>) {
    let parts = words(replaced(shown, "/"@, " "@));
    if parts.len() == 0 {
        (None, None)
    } else if parts.len() == 1 {
        (None, Some(parts[0]))
    } else {
        (Some(joined(parts.drop_last(), " "@)), Some(parts.last()))
    }
}

/// Splits a shown name into first names and last name.
pub fn extract_first_last_name(display_name: &str) -> (r: (Option<String>, Option<String>))
    ensures
        ({
            let (f, l) = first_last(display_name@);
            &&& (match f {
                Some(v) => r.0 matches Some(s) && s@ == v,
                None => r.0 is None,
            })
            &&& (match l {
                Some(v) => r.1 matches Some(s) && s@ == v,
                None => r.1 is None,
            })
        }),
{
    let cleaned = replace_all(display_name, "/", " ");
    let mut parts = split_whitespace(cleaned.as_str());
    if parts.len() == 0 {
        return (None, None);
    }
    let ghost all = string_views(parts@);
    let last = parts.pop().unwrap();
    proof {
        assert(string_views(parts@) =~= all.drop_last());
    }
    if parts.len() == 0 {
        (None, Some(last))
    } else {
        (Some(join_strings(&parts, " ")), Some(last))
    }
}

/// Whether a part of a name passes a filter: no filter, or a part whose
/// lowercase form contains the filter.
pub open spec fn passes(part: Option<Seq<char>>, filter: Option<Seq<char>>) -> bool {
    match filter {
        Some(f) => match part {
            Some(p) => has_substring(lowercase(p), f),
            None => false,
        },
        None => true,
    }
}

/// The name shown for an individual in a listing.
pub open spec fn listed_name(i: Individual) -> Seq<char> {
    match i.name {
        Some(n) => name_text(n),
        None => "(Unknown)"@,
    }
}

/// Whether an individual passes both filters, given in lowercase.
pub open spec fn individual_passes(i: Individual, last: Option<Seq<char>>, first: Option<Seq<char>>) -> bool {
    let (f, l) = first_last(listed_name(i));
    passes(l, last) && passes(f, first)
}

/// A filter in lowercase, if there is one.
pub open spec fn lowered(f: Option<String>) -> Option<Seq<char>> {
    match f {
        Some(s) => Some(lowercase(s@)),
        None => None,
    }
}

fn lower_filter(f: &Option<String>) -> (r: Option<String>)
    ensures
        match lowered(*f) {
            Some(v) => r matches Some(s) && s@ == v,
            None => r is None,
        },
{
    match f {
        Some(s) => Some(to_lowercase(s.as_str())),
        None => None,
    }
}

fn part_passes(part: &Option<String>, filter: &Option<String>) -> (r: bool)
    ensures
        r == passes(
            match part {
                Some(p) => Some(p@),
                None => None,
            },
            match filter {
                Some(f) => Some(f@),
                None => None,
            },
        ),
{
    match filter {
        Some(f) => match part {
            Some(p) => {
                let low = to_lowercase(p.as_str());
                contains_text(low.as_str(), f.as_str())
            },
            None => false,
        },
        None => true,
    }
}

/// The individuals whose shown name passes the filters on the last name
/// and on the first names, ignoring case, in order.
pub fn individuals_matching<'a>(
    data: &'a GedcomData,
    lastname: &Option<String>,
    firstname: &Option<String>,
) -> (r: Vec<&'a Individual>)
    ensures
        derefs(r@) == kept(
            data.individuals@,
            |i: Individual| individual_passes(i, lowered(*lastname), lowered(*firstname)),
        ),
{
    let filter_last = lower_filter(lastname);
    let filter_first = lower_filter(firstname);
    let mut out: Vec<&Individual> = Vec::new();
    let mut k: usize = 0;
    while k < data.individuals.len()
        invariant
            k <= data.individuals@.len(),
            match lowered(*lastname) {
                Some(v) => filter_last matches Some(s) && s@ == v,
                None => filter_last is None,
            },
            match lowered(*firstname) {
                Some(v) => filter_first matches Some(s) && s@ == v,
                None => filter_first is None,
            },
            derefs(out@) == kept(
                data.individuals@.subrange(0, k as int),
                |i: Individual| individual_passes(i, lowered(*lastname), lowered(*firstname)),
            ),
        decreases data.individuals@.len() - k,
    {
        let individual = &data.individuals[k];
        let shown = match &individual.name {
            Some(n) => n.to_display_string(),
            None => String::from_str("(Unknown)"),
        };
        let (first, last) = extract_first_last_name(shown.as_str());
        let ok = part_passes(&last, &filter_last) && part_passes(&first, &filter_first);
        let ghost before = out@;
        if ok {
            out.push(individual);
        }
        proof {
            let keep = |i: Individual| individual_passes(i, lowered(*lastname), lowered(*firstname));
            assert(data.individuals@.subrange(0, k + 1).drop_last() =~= data.individuals@.subrange(0, k as int));
            assert(ok == keep(data.individuals@[k as int]));
            assert(derefs(out@) =~= (if ok { derefs(before).push(*individual) } else { derefs(before) }));
        }
        k = k + 1;
    }
    proof {
        assert(data.individuals@.subrange(0, data.individuals@.len() as int) =~= data.individuals@);
    }
    out
}

/// What the tool does with its arguments.
pub enum CliAction {
    /// Prints the help text.
    Help,
    /// Shows the individual with this xref from the file.
    Show { filename: String, xref: String },
    /// Lists the individuals of the file whose names pass the filters.
    Filter { filename: String, lastname: Option<String>, firstname: Option<String> },
    /// Prints the statistics of the file.
    Stats { filename: String },
}

/// Chooses what the tool does: help first; otherwise a file name is needed
/// (else the usage error `Missing filename.`); then an xref shows one
/// individual, name filters list individuals, and otherwise the file's
/// statistics are printed.
pub fn choose_action(args: &CliArgs) -> (r: Result<CliAction, String>)
    ensures
        args.help ==> r matches Ok(CliAction::Help),
        !args.help ==> match args.filename {
            None => (r matches Err(m) && m@ == "Missing filename."@),
            Some(f) => match args.individual_xref {
                Some(x) => (r matches Ok(CliAction::Show { filename, xref }) && filename == f && xref == x),
                None => if args.individual_lastname is Some || args.individual_firstname is Some {
                    (r matches Ok(CliAction::Filter { filename, lastname, firstname }) && filename == f
                        && lastname == args.individual_lastname && firstname == args.individual_firstname)
                } else {
                    (r matches Ok(CliAction::Stats { filename }) && filename == f)
                },
            },
        },
{
    if args.help {
        return Ok(CliAction::Help);
    }
    let filename = match &args.filename {
        Some(f) => f.clone(),
        None => return Err(String::from_str("Missing filename.")),
    };
    if let Some(x) = &args.individual_xref {
        return Ok(CliAction::Show { filename, xref: x.clone() });
    }
    if args.individual_lastname.is_some() || args.individual_firstname.is_some() {
        return Ok(CliAction::Filter {
            filename,
            lastname: args.individual_lastname.clone(),
            firstname: args.individual_firstname.clone(),
        });
    }
    Ok(CliAction::Stats { filename })
}

/// The summary of the first individual with this xref, or the message
/// `Individual not found: ` and the xref.
pub fn show_individual(data: &GedcomData, xref: &str) -> (r: Result<String, String>)
    ensures
        match crate::types::first_xref(crate::types::individual_xrefs(data.individuals@), xref@) {
            Some(k) => r matches Ok(s) && s@ == data.individuals@[k].display_text(),
            None => r matches Err(m) && m@ == "Individual not found: "@ + xref@,
        },
{
    match data.find_individual(xref) {
        Some(i) => Ok(i.to_display_string()),
        None => {
            let mut m = String::from_str("Individual not found: ");
            m.append(xref);
            Err(m)
        },
    }
}

} // verus!
