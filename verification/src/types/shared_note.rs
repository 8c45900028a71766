//! Shared notes (GEDCOM 7.0 `SNOTE` records), their translations and
//! external identifiers.
use vstd::prelude::*;
use crate::types::shared::{shared_end, Shared};
use vstd::string::StringExecFns;
use crate::error::GedcomError;
use crate::parser::{
    at_level_end, child_level, continued_end, continued_subset_end, continued_text_at, last_tag_state, last_tag_value,
    lemma_kids_push, parse_subset, record_read, spec_child_level, subset_kids, tag_error, tag_states, tag_values, text_of,
    value_at, value_end, Parser, TagHandler,
};
use crate::types::date::change_date::{change_date_holds, change_date_kids};
use crate::text::{chars_of, is_text, push_char, replace_all, replaced, str_eq, trim, trimmed};
use crate::tokenizer::{is_white_space, is_whitespace, TokState, Tokenizer};
use crate::types::custom::UserDefinedTag;
use crate::types::date::change_date::ChangeDate;
use crate::types::source::citation::Citation;

verus! {

/// A shared note record (`SNOTE`): a text that several structures point to.
#[derive(Clone, Debug)]
pub struct SharedNote {
    pub xref: Option<String>,
    pub text: String,
    pub mime: Option<String>,
    pub language: Option<String>,
    pub translations: Vec<NoteTranslation>,
    pub source_citations: Vec<Citation>,
    pub external_ids: Vec<ExternalId>,
    pub change_date: Option<ChangeDate>,
    pub creation_date: Option<ChangeDate>,
    pub custom_data: Vec<Box<UserDefinedTag>>,
}

/// A translation of a note (`TRAN`): its text, media type and language.
#[derive(Clone, Debug, PartialEq)]
pub struct NoteTranslation {
    pub text: String,
    pub mime: Option<String>,
    pub language: Option<String>,
}

/// An identifier in an outside system (`EXID`), with the URI of its kind.
#[derive(Clone, Debug, PartialEq)]
pub struct ExternalId {
    pub id: String,
    pub type_uri: Option<String>,
}

/// An optional text copied from an optional string slice.
fn owned(s: Option<&str>) -> (r: Option<String>)
    ensures
        match s {
            Some(x) => is_text(r, x@),
            None => r is None,
        },
{
    match s {
        Some(x) => Some(String::from_str(x)),
        None => None,
    }
}

impl ExternalId {
    /// An identifier, with the URI of its kind if given.
    pub fn new(id: &str, type_uri: Option<&str>) -> (r: Self)
        ensures
            r.id@ == id@,
            match type_uri {
                Some(u) => is_text(r.type_uri, u@),
                None => r.type_uri is None,
            },
    {
        ExternalId { id: String::from_str(id), type_uri: owned(type_uri) }
    }

    /// The URI of the kind followed by the identifier, when the kind is given.
    pub fn full_url(&self) -> (r: Option<String>)
        ensures
            match self.type_uri {
                Some(u) => is_text(r, u@ + self.id@),
                None => r is None,
            },
    {
        match &self.type_uri {
            Some(uri) => {
                let mut s = uri.clone();
                s.append(self.id.as_str());
                Some(s)
            },
            None => None,
        }
    }
}

impl NoteTranslation {
    /// A translation with the given text, media type and language.
    pub fn new(text: &str, mime: Option<&str>, language: Option<&str>) -> (r: Self)
        ensures
            r.text@ == text@,
            match mime {
                Some(m) => is_text(r.mime, m@),
                None => r.mime is None,
            },
            match language {
                Some(l) => is_text(r.language, l@),
                None => r.language is None,
            },
    {
        NoteTranslation { text: String::from_str(text), mime: owned(mime), language: owned(language) }
    }

    /// Whether the translation says its media type or its language.
    pub fn is_valid(&self) -> (r: bool)
        ensures
            r == (self.mime is Some || self.language is Some),
    {
        self.mime.is_some() || self.language.is_some()
    }
}

/// A text where each run of white space is one space (`last_ws`: the text
/// follows white space that was already written as a space).
pub open spec fn collapsed(s: Seq<char>, last_ws: bool) -> Seq<char>
    decreases s.len(),
{
    if s.len() == 0 {
        Seq::empty()
    } else if is_white_space(s[0]) {
        if last_ws {
            collapsed(s.subrange(1, s.len() as int), true)
        } else {
            seq![' '] + collapsed(s.subrange(1, s.len() as int), true)
        }
    } else {
        seq![s[0]] + collapsed(s.subrange(1, s.len() as int), false)
    }
}

/// A text without what lies between `<` and `>`, the brackets included
/// (`in_tag`: the text begins inside such a pair).
pub open spec fn stripped(s: Seq<char>, in_tag: bool) -> Seq<char>
    decreases s.len(),
{
    if s.len() == 0 {
        Seq::empty()
    } else if s[0] == '<' {
        stripped(s.subrange(1, s.len() as int), true)
    } else if s[0] == '>' {
        stripped(s.subrange(1, s.len() as int), false)
    } else if in_tag {
        stripped(s.subrange(1, s.len() as int), in_tag)
    } else {
        seq![s[0]] + stripped(s.subrange(1, s.len() as int), in_tag)
    }
}

/// Writes each run of white space in `input` as `replacement`.
fn regex_lite_replace(input: &str, _pattern: &str, replacement: &str) -> (r: String)
    requires
        replacement@ == seq![' '],
    ensures
        r@ == collapsed(input@, false),
{
    let v = chars_of(input);
    let ghost n = v@.len() as int;
    let mut result = String::new();
    let mut last_was_whitespace = false;
    let mut i: usize = 0;
    proof {
        assert(v@.subrange(0, n) =~= v@);
    }
    while i < v.len()
        invariant
            i <= v@.len(),
            n == v@.len(),
            v@ == input@,
            replacement@ == seq![' '],
            result@ + collapsed(v@.subrange(i as int, n), last_was_whitespace) == collapsed(input@, false),
        decreases v@.len() - i,
    {
        let ghost rest = v@.subrange(i as int, n);
        proof {
            assert(rest.subrange(1, rest.len() as int) =~= v@.subrange(i + 1, n));
        }
        let c = v[i];
        if is_whitespace(c) {
            if !last_was_whitespace {
                proof {
                    assert(result@ + replacement@ + collapsed(v@.subrange(i + 1, n), true)
                        =~= result@ + (seq![' '] + collapsed(v@.subrange(i + 1, n), true)));
                }
                result.append(replacement);
                last_was_whitespace = true;
            }
        } else {
            proof {
                assert(result@.push(c) + collapsed(v@.subrange(i + 1, n), false)
                    =~= result@ + (seq![c] + collapsed(v@.subrange(i + 1, n), false)));
            }
            push_char(&mut result, c);
            last_was_whitespace = false;
        }
        i = i + 1;
    }
    proof {
        assert(result@ + collapsed(v@.subrange(i as int, n), last_was_whitespace) =~= result@);
    }
    result
}

/// Removes what lies between `<` and `>` from a text, the brackets included.
pub fn remove_html_tags(input: &str) -> (r: String)
    ensures
        r@ == stripped(input@, false),
{
    let v = chars_of(input);
    let ghost n = v@.len() as int;
    let mut result = String::new();
    let mut in_tag = false;
    let mut i: usize = 0;
    proof {
        assert(v@.subrange(0, n) =~= v@);
    }
    while i < v.len()
        invariant
            i <= v@.len(),
            n == v@.len(),
            v@ == input@,
            result@ + stripped(v@.subrange(i as int, n), in_tag) == stripped(input@, false),
        decreases v@.len() - i,
    {
        let ghost rest = v@.subrange(i as int, n);
        proof {
            assert(rest.subrange(1, rest.len() as int) =~= v@.subrange(i + 1, n));
        }
        let c = v[i];
        if c == '<' {
            in_tag = true;
        } else if c == '>' {
            in_tag = false;
        } else if !in_tag {
            proof {
                assert(result@.push(c) + stripped(v@.subrange(i + 1, n), in_tag)
                    =~= result@ + (seq![c] + stripped(v@.subrange(i + 1, n), in_tag)));
            }
            push_char(&mut result, c);
        }
        i = i + 1;
    }
    proof {
        assert(result@ + stripped(v@.subrange(i as int, n), in_tag) =~= result@);
    }
    result
}

/// A text with the paragraph and line-break tags (`<p>`, `</p>`, `<br>`,
/// `<br/>`, `<br />`, in lower or upper case) replaced by line breaks, one
/// tag after the other.
pub open spec fn breaks_replaced(s: Seq<char>) -> Seq<char> {
    let nl = "\n"@;
    let s = replaced(s, "<p>"@, nl);
    let s = replaced(s, "<P>"@, nl);
    let s = replaced(s, "</p>"@, nl);
    let s = replaced(s, "</P>"@, nl);
    let s = replaced(s, "<br>"@, nl);
    let s = replaced(s, "<BR>"@, nl);
    let s = replaced(s, "<br/>"@, nl);
    let s = replaced(s, "<BR/>"@, nl);
    let s = replaced(s, "<br />"@, nl);
    replaced(s, "<BR />"@, nl)
}

/// The plain text of an HTML note: white space collapsed, paragraphs and
/// line breaks as line breaks, other tags removed, `&lt;`, `&gt;` and
/// `&amp;` decoded, and white space at the ends removed.
pub open spec fn plain_text_of(html: Seq<char>) -> Seq<char> {
    let s1 = breaks_replaced(collapsed(html, false));
    let s2 = stripped(s1, false);
    trimmed(replaced(replaced(replaced(s2, "&lt;"@, "<"@), "&gt;"@, ">"@), "&amp;"@, "&"@))
}

impl Default for SharedNote {
    fn default() -> (r: Self)
        ensures
            r.xref is None && r.text@.len() == 0 && r.mime is None && r.language is None,
            r.translations@.len() == 0 && r.source_citations@.len() == 0,
            r.external_ids@.len() == 0 && r.change_date is None && r.creation_date is None,
            r.custom_data@.len() == 0,
    {
        SharedNote {
            xref: None,
            text: String::new(),
            mime: None,
            language: None,
            translations: Vec::new(),
            source_citations: Vec::new(),
            external_ids: Vec::new(),
            change_date: None,
            creation_date: None,
            custom_data: Vec::new(),
        }
    }
}

/// The lines below a shared note whose tag is at `st`, after its text.
pub open spec fn shared_note_kids(s: Seq<char>, st: TokState, level: u8) -> Seq<(Seq<char>, TokState)> {
    match continued_end(s, st, level) {
        Ok(st1) => subset_kids::<SharedNote>(s, st1, level),
        Err(_) => Seq::empty(),
    }
}

impl SharedNote {
    /// Reads an `SNOTE` record at `level` whose cross-reference is `xref`.
    pub fn new(tokenizer: &mut Tokenizer, level: u8, xref: Option<String>) -> (r: Result<SharedNote, GedcomError>)
        requires
            old(tokenizer).wf(),
            old(tokenizer).token() is Tag,
        ensures
            record_read(*old(tokenizer), *final(tokenizer), r is Ok, level),
            r matches Ok(n) ==> n.xref == xref,
            r is Ok <==> continued_subset_end::<SharedNote>(old(tokenizer).input(), old(tokenizer).state(), level) is Ok,
            r is Ok ==> continued_subset_end::<SharedNote>(old(tokenizer).input(), old(tokenizer).state(), level) == Ok::<TokState, ()>(final(tokenizer).state()),
            r matches Ok(x) ==> x.holds(old(tokenizer).input(), shared_note_kids(old(tokenizer).input(), old(tokenizer).state(), level), level)
                && x.text@ == continued_text_at(old(tokenizer).input(), old(tokenizer).state(), level),
    {
        let mut note = SharedNote::default();
        let text = tokenizer.take_continued_text(level)?;
        let custom = parse_subset(tokenizer, level, &mut note)?;
        note.custom_data = custom;
        note.text = text;
        note.xref = xref;
        Ok(note)
    }

    /// A shared note with the given cross-reference and text and nothing more.
    pub fn with_text(xref: &str, text: &str) -> (r: Self)
        ensures
            is_text(r.xref, xref@),
            r.text@ == text@,
            r.mime is None && r.language is None && r.translations@.len() == 0,
            r.source_citations@.len() == 0 && r.external_ids@.len() == 0,
    {
        let mut n = SharedNote::default();
        n.xref = Some(String::from_str(xref));
        n.text = String::from_str(text);
        n
    }

    /// Adds a translation.
    pub fn add_translation(&mut self, translation: NoteTranslation)
        ensures
            final(self).translations@ == old(self).translations@.push(translation),
            final(self).text == old(self).text,
    {
        self.translations.push(translation);
    }

    /// Adds a source of the note.
    pub fn add_source_citation(&mut self, citation: Citation)
        ensures
            final(self).source_citations@ == old(self).source_citations@.push(citation),
            final(self).text == old(self).text,
    {
        self.source_citations.push(citation);
    }

    /// Adds an identifier in an outside system.
    pub fn add_external_id(&mut self, external_id: ExternalId)
        ensures
            final(self).external_ids@ == old(self).external_ids@.push(external_id),
            final(self).text == old(self).text,
    {
        self.external_ids.push(external_id);
    }

    /// Whether the note is HTML (`text/html`).
    pub fn is_html(&self) -> (r: bool)
        ensures
            r == is_text(self.mime, "text/html"@),
    {
        match &self.mime {
            Some(m) => str_eq(m.as_str(), "text/html"),
            None => false,
        }
    }

    /// Whether the note is plain text: no media type, or `text/plain`.
    pub fn is_plain_text(&self) -> (r: bool)
        ensures
            r == (self.mime is None || is_text(self.mime, "text/plain"@)),
    {
        match &self.mime {
            Some(m) => str_eq(m.as_str(), "text/plain"),
            None => true,
        }
    }

    /// The text of the note as plain text: an HTML note is turned to plain
    /// text as [`plain_text_of`] says; another note is given as it is.
    pub fn to_plain_text(&self) -> (r: String)
        ensures
            is_text(self.mime, "text/html"@) ==> r@ == plain_text_of(self.text@),
            !is_text(self.mime, "text/html"@) ==> r@ == self.text@,
    {
        if !self.is_html() {
            return self.text.clone();
        }
        proof {
            reveal_strlit(" ");
            assert(" "@ =~= seq![' ']);
        }
        let mut result = regex_lite_replace(self.text.as_str(), "[ \\t\\r\\n]+", " ");
        result = replace_all(result.as_str(), "<p>", "\n");
        result = replace_all(result.as_str(), "<P>", "\n");
        result = replace_all(result.as_str(), "</p>", "\n");
        result = replace_all(result.as_str(), "</P>", "\n");
        result = replace_all(result.as_str(), "<br>", "\n");
        result = replace_all(result.as_str(), "<BR>", "\n");
        result = replace_all(result.as_str(), "<br/>", "\n");
        result = replace_all(result.as_str(), "<BR/>", "\n");
        result = replace_all(result.as_str(), "<br />", "\n");
        result = replace_all(result.as_str(), "<BR />", "\n");
        result = remove_html_tags(result.as_str());
        result = replace_all(result.as_str(), "&lt;", "<");
        result = replace_all(result.as_str(), "&gt;", ">");
        result = replace_all(result.as_str(), "&amp;", "&");
        trim(result.as_str())
    }
}

impl TagHandler for SharedNote {
    open spec fn exact() -> bool {
        true
    }

    open spec fn tag_end(s: Seq<char>, st: TokState, t: Seq<char>, level: u8) -> Result<TokState, ()> {
        if t == "MIME"@ {
            value_end(s, st)
        } else if t == "LANG"@ {
            value_end(s, st)
        } else if t == "TRAN"@ {
            continued_end(s, st, spec_child_level(level))
        } else if t == "SOUR"@ {
            shared_end(Shared::Citation, s, st, spec_child_level(level))
        } else if t == "EXID"@ {
            value_end(s, st)
        } else if t == "CHAN"@ {
            shared_end(Shared::ChangeDate, s, st, spec_child_level(level))
        } else if t == "CREA"@ {
            shared_end(Shared::ChangeDate, s, st, spec_child_level(level))
        } else {
            Err(())
        }
    }

    /// The last media type and language; a translation with the text read
    /// from each `TRAN` line, a citation for each `SOUR` line and an external id
    /// with the value of each `EXID` line, in order; and the change and creation
    /// dates read from the last `CHAN` and `CREA` lines.
    open spec fn holds(&self, s: Seq<char>, kids: Seq<(Seq<char>, TokState)>, level: u8) -> bool {
        let sub = spec_child_level(level);
        &&& text_of(self.mime) == last_tag_value(s, kids, "MIME"@)
        &&& text_of(self.language) == last_tag_value(s, kids, "LANG"@)
        &&& self.translations@.len() == tag_states(kids, "TRAN"@).len()
        &&& forall|j: int| 0 <= j < tag_states(kids, "TRAN"@).len() ==> (#[trigger] self.translations@[j]).text@ == continued_text_at(s, tag_states(kids, "TRAN"@)[j], sub)
            && self.translations@[j].mime is None && self.translations@[j].language is None
        &&& self.source_citations@.len() == tag_states(kids, "SOUR"@).len()
        &&& self.external_ids@.len() == tag_values(s, kids, "EXID"@).len()
        &&& forall|j: int| 0 <= j < tag_values(s, kids, "EXID"@).len() ==> (#[trigger] self.external_ids@[j]).id@ == tag_values(s, kids, "EXID"@)[j]
            && self.external_ids@[j].type_uri is None
        &&& (match last_tag_state(kids, "CHAN"@) {
            Some(st) => self.change_date matches Some(c) && change_date_holds(
                c, (ChangeDate { date: None, note: None }), s, change_date_kids(s, st, sub), sub),
            None => self.change_date is None,
        })
        &&& (match last_tag_state(kids, "CREA"@) {
            Some(st) => self.creation_date matches Some(c) && change_date_holds(
                c, (ChangeDate { date: None, note: None }), s, change_date_kids(s, st, sub), sub),
            None => self.creation_date is None,
        })
    }

    #[verifier::rlimit(100)]
    #[verifier::spinoff_prover]
    fn handle_tag(&mut self, tag: &str, tokenizer: &mut Tokenizer, level: u8) -> (r: Result<(), GedcomError>) {
        let ghost s = old(tokenizer).input();
        let ghost at = old(tokenizer).state();
        let ghost prev = *self;
        let sub = child_level(level);
        if str_eq(tag, "MIME") {
            self.mime = Some(tokenizer.take_line_value()?);
            proof {
                lemma_sharednote_line(prev, *self, s, tag@, at, level);
            }
        } else if str_eq(tag, "LANG") {
            self.language = Some(tokenizer.take_line_value()?);
            proof {
                lemma_sharednote_line(prev, *self, s, tag@, at, level);
            }
        } else if str_eq(tag, "TRAN") {
            let text = tokenizer.take_continued_text(sub)?;
            self.translations.push(NoteTranslation { text, mime: None, language: None });
            assert(self.translations@.drop_last() =~= prev.translations@);
            proof {
                lemma_sharednote_line(prev, *self, s, tag@, at, level);
            }
        } else if str_eq(tag, "SOUR") {
            let c = Citation::new(tokenizer, sub)?;
            self.source_citations.push(c);
            proof {
                lemma_sharednote_line(prev, *self, s, tag@, at, level);
            }
        } else if str_eq(tag, "EXID") {
            let id = tokenizer.take_line_value()?;
            self.external_ids.push(ExternalId { id, type_uri: None });
            assert(self.external_ids@.drop_last() =~= prev.external_ids@);
            proof {
                lemma_sharednote_line(prev, *self, s, tag@, at, level);
            }
        } else if str_eq(tag, "CHAN") {
            self.change_date = Some(ChangeDate::new(tokenizer, sub)?);
            proof {
                lemma_sharednote_line(prev, *self, s, tag@, at, level);
            }
        } else if str_eq(tag, "CREA") {
            self.creation_date = Some(ChangeDate::new(tokenizer, sub)?);
            proof {
                lemma_sharednote_line(prev, *self, s, tag@, at, level);
            }
        } else {
            return Err(tag_error("Unhandled SharedNote Tag: ", tag, tokenizer.line()));

            proof {
                lemma_sharednote_line(prev, *self, s, tag@, at, level);
            }
        }
        Ok(())
    }
}

/// What reading the line whose tag `t` is at `at` does to a sharednote: the
/// field of its tag takes the line's value or what is read from it, and the
/// others stay.
spec fn sharednote_line_read(prev: SharedNote, cur: SharedNote, s: Seq<char>, t: Seq<char>, at: TokState, level: u8) -> bool {
    let v = value_at(s, at);
    let sub = spec_child_level(level);
    let others = |f: SharedNote| f.mime == prev.mime && f.language == prev.language && f.translations == prev.translations && f.source_citations == prev.source_citations && f.external_ids == prev.external_ids && f.change_date == prev.change_date && f.creation_date == prev.creation_date;
    ||| t == "MIME"@ && others(SharedNote { mime: prev.mime, ..cur }) && (cur.mime matches Some(x) && x@ == v)
    ||| t == "LANG"@ && others(SharedNote { language: prev.language, ..cur }) && (cur.language matches Some(x) && x@ == v)
    ||| t == "TRAN"@ && others(SharedNote { translations: prev.translations, ..cur }) && cur.translations@.len() == prev.translations@.len() + 1 && cur.translations@.drop_last() == prev.translations@ && cur.translations@.last().text@ == continued_text_at(s, at, sub) && cur.translations@.last().mime is None && cur.translations@.last().language is None
    ||| t == "SOUR"@ && others(SharedNote { source_citations: prev.source_citations, ..cur }) && cur.source_citations@.len() == prev.source_citations@.len() + 1
    ||| t == "EXID"@ && others(SharedNote { external_ids: prev.external_ids, ..cur }) && cur.external_ids@.len() == prev.external_ids@.len() + 1 && cur.external_ids@.drop_last() == prev.external_ids@ && cur.external_ids@.last().id@ == v && cur.external_ids@.last().type_uri is None
    ||| t == "CHAN"@ && others(SharedNote { change_date: prev.change_date, ..cur }) && (cur.change_date matches Some(c)
        && change_date_holds(c, (ChangeDate { date: None, note: None }), s, change_date_kids(s, at, sub), sub))
    ||| t == "CREA"@ && others(SharedNote { creation_date: prev.creation_date, ..cur }) && (cur.creation_date matches Some(c)
        && change_date_holds(c, (ChangeDate { date: None, note: None }), s, change_date_kids(s, at, sub), sub))
    ||| t != "MIME"@ && t != "LANG"@ && t != "TRAN"@ && t != "SOUR"@ && t != "EXID"@ && t != "CHAN"@ && t != "CREA"@ && others(cur)
}

/// Reading one line below a sharednote keeps what `holds` states: the field
/// that the line's tag fills joins what the lines before gave.
#[verifier::rlimit(100)]
#[verifier::spinoff_prover]
proof fn lemma_sharednote_line(prev: SharedNote, cur: SharedNote, s: Seq<char>, t: Seq<char>, at: TokState, level: u8)
    requires
        sharednote_line_read(prev, cur, s, t, at, level),
    ensures
        forall|kids: Seq<(Seq<char>, TokState)>| prev.holds(s, kids, level)
            ==> #[trigger] cur.holds(s, kids.push((t, at)), level),
{
    reveal_strlit("MIME");
    reveal_strlit("LANG");
    reveal_strlit("TRAN");
    reveal_strlit("SOUR");
    reveal_strlit("EXID");
    reveal_strlit("CHAN");
    reveal_strlit("CREA");
    assert("MIME"@.len() == 4 && "MIME"@[0] == 'M' && "MIME"@[1] == 'I');
    assert("LANG"@.len() == 4 && "LANG"@[0] == 'L' && "LANG"@[1] == 'A');
    assert("TRAN"@.len() == 4 && "TRAN"@[0] == 'T' && "TRAN"@[1] == 'R');
    assert("SOUR"@.len() == 4 && "SOUR"@[0] == 'S' && "SOUR"@[1] == 'O');
    assert("EXID"@.len() == 4 && "EXID"@[0] == 'E' && "EXID"@[1] == 'X');
    assert("CHAN"@.len() == 4 && "CHAN"@[0] == 'C' && "CHAN"@[1] == 'H');
    assert("CREA"@.len() == 4 && "CREA"@[0] == 'C' && "CREA"@[1] == 'R');
    let kid = (t, at);
    assert forall|kids: Seq<(Seq<char>, TokState)>| prev.holds(s, kids, level) implies #[trigger] cur.holds(
        s,
        kids.push(kid),
        level,
    ) by {
        lemma_kids_push(s, kids, kid);
        let n0 = tag_states(kids, "TRAN"@);
        let n1 = tag_states(kids.push(kid), "TRAN"@);
        if t == "TRAN"@ {
            assert forall|j: int| 0 <= j < n1.len() implies (#[trigger] cur.translations@[j]).text@ == continued_text_at(s, n1[j], spec_child_level(level))
                && cur.translations@[j].mime is None && cur.translations@[j].language is None by {
                if j < n0.len() {
                    assert(cur.translations@[j] == prev.translations@[j]);
                }
            }
        }
        let v0 = tag_values(s, kids, "EXID"@);
        let v1 = tag_values(s, kids.push(kid), "EXID"@);
        if t == "EXID"@ {
            assert forall|j: int| 0 <= j < v1.len() implies (#[trigger] cur.external_ids@[j]).id@ == v1[j] && cur.external_ids@[j].type_uri is None by {
                if j < v0.len() {
                    assert(cur.external_ids@[j] == prev.external_ids@[j]);
                }
            }
        }
    }
}


impl Parser for SharedNote {
    fn parse(&mut self, tokenizer: &mut Tokenizer, level: u8) -> (r: Result<(), GedcomError>) 
        ensures
            r is Ok ==> at_level_end(*final(tokenizer), level),
            r is Ok <==> continued_subset_end::<SharedNote>(old(tokenizer).input(), old(tokenizer).state(), level) is Ok,
            r is Ok && old(self).holds(old(tokenizer).input(), Seq::empty(), level)
                ==> final(self).holds(old(tokenizer).input(), shared_note_kids(old(tokenizer).input(), old(tokenizer).state(), level), level)
                    && final(self).text@ == continued_text_at(old(tokenizer).input(), old(tokenizer).state(), level),
    {
        let text = tokenizer.take_continued_text(level)?;
        let custom = parse_subset(tokenizer, level, self)?;
        self.text = text;
        self.custom_data = custom;
        Ok(())
    }
}

} // verus!
