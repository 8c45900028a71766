//! The header of a file: what it declares about the whole of it.
use vstd::prelude::*;
use crate::parser::FlatHandler;
use crate::parser::last_tag_state;
use crate::parser::last_tag_value;
use crate::parser::lemma_kids_push;
use crate::parser::step_subset_kids;
use crate::parser::text_of;
use crate::types::date::date_fields_at;
use crate::parser::continued_text_at;
use crate::types::shared::{shared_end, Shared};
use vstd::string::StringExecFns;
use crate::error::GedcomError;
use crate::parser::{at_level_end, child_level, continued_end, parse_subset, record_read, spec_child_level, step_subset_end, tag_error, value_end, value_flat_end, value_subset_end, Parser, TagHandler};
use crate::text::{starts_with, str_eq};
use crate::tokenizer::{TokState, Tokenizer};
use crate::types::custom::UserDefinedTag;
use crate::types::date::Date;
use crate::types::header::encoding::Encoding;
use crate::types::header::meta::HeadMeta;
use crate::types::header::place::HeadPlac;
use crate::types::header::schema::{uri_of, Schema};
use crate::types::header::source::HeadSour;
use crate::types::note::Note;

pub mod encoding;
pub mod meta;
pub mod place;
pub mod schema;
pub mod source;

verus! {

/// The header (`HEAD`): the version of GEDCOM, the program that wrote the
/// file, its defaults and what it is about.
#[derive(Clone, Debug)]
pub struct Header {
    pub gedcom: Option<HeadMeta>,
    pub schema: Option<Schema>,
    pub encoding: Option<Encoding>,
    pub source: Option<HeadSour>,
    pub destination: Option<String>,
    pub date: Option<Date>,
    pub submitter_tag: Option<String>,
    pub submission_tag: Option<String>,
    pub copyright: Option<String>,
    pub language: Option<String>,
    pub filename: Option<String>,
    pub note: Option<Note>,
    pub place: Option<HeadPlac>,
    pub custom_data: Vec<Box<UserDefinedTag>>,
}

impl Default for Header {
    fn default() -> (r: Self)
        ensures
            r.gedcom is None && r.schema is None && r.encoding is None && r.source is None,
            r.destination is None && r.date is None && r.submitter_tag is None,
            r.submission_tag is None && r.copyright is None && r.language is None,
            r.filename is None && r.note is None && r.place is None,
            r.custom_data@.len() == 0,
    {
        Header {
            gedcom: None,
            schema: None,
            encoding: None,
            source: None,
            destination: None,
            date: None,
            submitter_tag: None,
            submission_tag: None,
            copyright: None,
            language: None,
            filename: None,
            note: None,
            place: None,
            custom_data: Vec::new(),
        }
    }
}

/// Whether a header declares GEDCOM 7: it has a schema, or its version
/// begins with `7.`.
pub open spec fn declares_gedcom_7(h: Header) -> bool {
    ||| h.schema is Some
    ||| (h.gedcom matches Some(m) && m.version matches Some(v)
        && v@.len() >= 2 && v@.subrange(0, 2) == "7."@)
}

impl Header {
    /// Reads the `HEAD` structure at `level`.
    pub fn new(tokenizer: &mut Tokenizer, level: u8) -> (r: Result<Header, GedcomError>)
        requires
            old(tokenizer).wf(),
            old(tokenizer).token() is Tag,
        ensures
            record_read(*old(tokenizer), *final(tokenizer), r is Ok, level),
            r is Ok <==> step_subset_end::<Header>(old(tokenizer).input(), old(tokenizer).state(), level) is Ok,
            r is Ok ==> step_subset_end::<Header>(old(tokenizer).input(), old(tokenizer).state(), level) == Ok::<TokState, ()>(final(tokenizer).state()),
            r matches Ok(x) ==> x.holds(old(tokenizer).input(), step_subset_kids::<Header>(old(tokenizer).input(), old(tokenizer).state(), level), level),
    {
        let mut header = Header::default();
        tokenizer.next_token()?;
        let custom = parse_subset(tokenizer, level, &mut header)?;
        header.custom_data = custom;
        Ok(header)
    }

    /// Whether this header declares a GEDCOM 7 file.
    pub fn is_gedcom_7(&self) -> (r: bool)
        ensures
            r == declares_gedcom_7(*self),
    {
        if self.schema.is_some() {
            return true;
        }
        if let Some(meta) = &self.gedcom {
            if let Some(version) = &meta.version {
                proof {
                    reveal_strlit("7.");
                }
                return starts_with(version.as_str(), "7.");
            }
        }
        false
    }

    /// The declared version of GEDCOM.
    pub fn version(&self) -> (r: Option<&str>)
        ensures
            match self.gedcom {
                Some(m) => match m.version {
                    Some(v) => r is Some && r->0@ == v@,
                    None => r is None,
                },
                None => r is None,
            },
    {
        match &self.gedcom {
            Some(m) => match &m.version {
                Some(v) => Some(v.as_str()),
                None => None,
            },
            None => None,
        }
    }

    /// The identifier of the program that wrote the file.
    pub fn source_system(&self) -> (r: Option<&str>)
        ensures
            match self.source {
                Some(s) => match s.value {
                    Some(v) => r is Some && r->0@ == v@,
                    None => r is None,
                },
                None => r is None,
            },
    {
        match &self.source {
            Some(s) => match &s.value {
                Some(v) => Some(v.as_str()),
                None => None,
            },
            None => None,
        }
    }

    /// The name of the program that wrote the file.
    pub fn source_name(&self) -> (r: Option<&str>)
        ensures
            match self.source {
                Some(s) => match s.name {
                    Some(v) => r is Some && r->0@ == v@,
                    None => r is None,
                },
                None => r is None,
            },
    {
        match &self.source {
            Some(s) => match &s.name {
                Some(v) => Some(v.as_str()),
                None => None,
            },
            None => None,
        }
    }

    /// The version of the program that wrote the file.
    pub fn source_version(&self) -> (r: Option<&str>)
        ensures
            match self.source {
                Some(s) => match s.version {
                    Some(v) => r is Some && r->0@ == v@,
                    None => r is None,
                },
                None => r is None,
            },
    {
        match &self.source {
            Some(s) => match &s.version {
                Some(v) => Some(v.as_str()),
                None => None,
            },
            None => None,
        }
    }

    /// The URI that the schema gives an extension tag.
    pub fn find_extension_uri(&self, tag: &str) -> (r: Option<&str>)
        ensures
            match self.schema {
                Some(s) => match uri_of(s.tag_definitions@, tag@) {
                    Some(u) => r is Some && r->0@ == u,
                    None => r is None,
                },
                None => r is None,
            },
    {
        match &self.schema {
            Some(s) => s.find_uri(tag),
            None => None,
        }
    }
}

impl TagHandler for Header {
    open spec fn exact() -> bool {
        true
    }

    open spec fn tag_end(s: Seq<char>, st: TokState, t: Seq<char>, level: u8) -> Result<TokState, ()> {
        if t == "GEDC"@ {
            step_subset_end::<HeadMeta>(s, st, spec_child_level(level))
        } else if t == "SCHMA"@ {
            step_subset_end::<Schema>(s, st, spec_child_level(level))
        } else if t == "SOUR"@ {
            value_subset_end::<HeadSour>(s, st, spec_child_level(level))
        } else if t == "DEST"@ {
            value_end(s, st)
        } else if t == "DATE"@ {
            value_flat_end::<Date>(s, st, spec_child_level(level))
        } else if t == "SUBM"@ {
            value_end(s, st)
        } else if t == "SUBN"@ {
            value_end(s, st)
        } else if t == "FILE"@ {
            value_end(s, st)
        } else if t == "COPR"@ {
            continued_end(s, st, spec_child_level(level))
        } else if t == "CHAR"@ {
            value_flat_end::<Encoding>(s, st, spec_child_level(level))
        } else if t == "LANG"@ {
            value_end(s, st)
        } else if t == "NOTE"@ {
            shared_end(Shared::Note, s, st, spec_child_level(level))
        } else if t == "PLAC"@ {
            step_subset_end::<HeadPlac>(s, st, spec_child_level(level))
        } else {
            Err(())
        }
    }

    open spec fn holds(&self, s: Seq<char>, kids: Seq<(Seq<char>, TokState)>, level: u8) -> bool {
        &&& (match last_tag_state(kids, "GEDC"@) {
            Some(st) => self.gedcom matches Some(x) && x.holds(s, step_subset_kids::<HeadMeta>(s, st, spec_child_level(level)), spec_child_level(level)),
            None => self.gedcom is None,
        })
        &&& (match last_tag_state(kids, "SCHMA"@) {
            Some(st) => self.schema matches Some(x) && x.holds(s, step_subset_kids::<Schema>(s, st, spec_child_level(level)), spec_child_level(level)),
            None => self.schema is None,
        })
        &&& (match last_tag_state(kids, "SOUR"@) {
            Some(_) => self.source is Some,
            None => self.source is None,
        })
        &&& text_of(self.destination) == last_tag_value(s, kids, "DEST"@)
        &&& (match last_tag_state(kids, "DATE"@) {
            Some(st) => self.date matches Some(d) && d.fields() == date_fields_at(s, st, spec_child_level(level)),
            None => self.date is None,
        })
        &&& text_of(self.submitter_tag) == last_tag_value(s, kids, "SUBM"@)
        &&& text_of(self.submission_tag) == last_tag_value(s, kids, "SUBN"@)
        &&& text_of(self.filename) == last_tag_value(s, kids, "FILE"@)
        &&& (match last_tag_state(kids, "COPR"@) {
            Some(st) => self.copyright matches Some(c) && c@ == continued_text_at(s, st, spec_child_level(level)),
            None => self.copyright is None,
        })
        &&& (match last_tag_state(kids, "CHAR"@) {
            Some(_) => self.encoding is Some,
            None => self.encoding is None,
        })
        &&& text_of(self.language) == last_tag_value(s, kids, "LANG"@)
        &&& (match last_tag_state(kids, "NOTE"@) {
            Some(_) => self.note is Some,
            None => self.note is None,
        })
        &&& (match last_tag_state(kids, "PLAC"@) {
            Some(st) => self.place matches Some(x) && x.holds(s, step_subset_kids::<HeadPlac>(s, st, spec_child_level(level)), spec_child_level(level)),
            None => self.place is None,
        })
    }

    #[verifier::rlimit(100)]
    #[verifier::spinoff_prover]
    fn handle_tag(&mut self, tag: &str, tokenizer: &mut Tokenizer, level: u8) -> (r: Result<(), GedcomError>) {
        proof {
            reveal_strlit("GEDC");
            assert("GEDC"@.len() == 4);
            reveal_strlit("SCHMA");
            assert("SCHMA"@.len() == 5);
            reveal_strlit("SOUR");
            assert("SOUR"@.len() == 4);
            reveal_strlit("DEST");
            assert("DEST"@.len() == 4);
            reveal_strlit("DATE");
            assert("DATE"@.len() == 4);
            reveal_strlit("SUBM");
            assert("SUBM"@.len() == 4);
            reveal_strlit("SUBN");
            assert("SUBN"@.len() == 4);
            reveal_strlit("FILE");
            assert("FILE"@.len() == 4);
            reveal_strlit("COPR");
            assert("COPR"@.len() == 4);
            reveal_strlit("CHAR");
            assert("CHAR"@.len() == 4);
            reveal_strlit("LANG");
            assert("LANG"@.len() == 4);
            reveal_strlit("NOTE");
            assert("NOTE"@.len() == 4);
            reveal_strlit("PLAC");
            assert("PLAC"@.len() == 4);
            assert("GEDC"@[0] != "SOUR"@[0]);
            assert("GEDC"@[0] != "DEST"@[0]);
            assert("GEDC"@[0] != "DATE"@[0]);
            assert("GEDC"@[0] != "SUBM"@[0]);
            assert("GEDC"@[0] != "SUBN"@[0]);
            assert("GEDC"@[0] != "FILE"@[0]);
            assert("GEDC"@[0] != "COPR"@[0]);
            assert("GEDC"@[0] != "CHAR"@[0]);
            assert("GEDC"@[0] != "LANG"@[0]);
            assert("GEDC"@[0] != "NOTE"@[0]);
            assert("GEDC"@[0] != "PLAC"@[0]);
            assert("SOUR"@[0] != "DEST"@[0]);
            assert("SOUR"@[0] != "DATE"@[0]);
            assert("SOUR"@[1] != "SUBM"@[1]);
            assert("SOUR"@[1] != "SUBN"@[1]);
            assert("SOUR"@[0] != "FILE"@[0]);
            assert("SOUR"@[0] != "COPR"@[0]);
            assert("SOUR"@[0] != "CHAR"@[0]);
            assert("SOUR"@[0] != "LANG"@[0]);
            assert("SOUR"@[0] != "NOTE"@[0]);
            assert("SOUR"@[0] != "PLAC"@[0]);
            assert("DEST"@[1] != "DATE"@[1]);
            assert("DEST"@[0] != "SUBM"@[0]);
            assert("DEST"@[0] != "SUBN"@[0]);
            assert("DEST"@[0] != "FILE"@[0]);
            assert("DEST"@[0] != "COPR"@[0]);
            assert("DEST"@[0] != "CHAR"@[0]);
            assert("DEST"@[0] != "LANG"@[0]);
            assert("DEST"@[0] != "NOTE"@[0]);
            assert("DEST"@[0] != "PLAC"@[0]);
            assert("DATE"@[0] != "SUBM"@[0]);
            assert("DATE"@[0] != "SUBN"@[0]);
            assert("DATE"@[0] != "FILE"@[0]);
            assert("DATE"@[0] != "COPR"@[0]);
            assert("DATE"@[0] != "CHAR"@[0]);
            assert("DATE"@[0] != "LANG"@[0]);
            assert("DATE"@[0] != "NOTE"@[0]);
            assert("DATE"@[0] != "PLAC"@[0]);
            assert("SUBM"@[3] != "SUBN"@[3]);
            assert("SUBM"@[0] != "FILE"@[0]);
            assert("SUBM"@[0] != "COPR"@[0]);
            assert("SUBM"@[0] != "CHAR"@[0]);
            assert("SUBM"@[0] != "LANG"@[0]);
            assert("SUBM"@[0] != "NOTE"@[0]);
            assert("SUBM"@[0] != "PLAC"@[0]);
            assert("SUBN"@[0] != "FILE"@[0]);
            assert("SUBN"@[0] != "COPR"@[0]);
            assert("SUBN"@[0] != "CHAR"@[0]);
            assert("SUBN"@[0] != "LANG"@[0]);
            assert("SUBN"@[0] != "NOTE"@[0]);
            assert("SUBN"@[0] != "PLAC"@[0]);
            assert("FILE"@[0] != "COPR"@[0]);
            assert("FILE"@[0] != "CHAR"@[0]);
            assert("FILE"@[0] != "LANG"@[0]);
            assert("FILE"@[0] != "NOTE"@[0]);
            assert("FILE"@[0] != "PLAC"@[0]);
            assert("COPR"@[1] != "CHAR"@[1]);
            assert("COPR"@[0] != "LANG"@[0]);
            assert("COPR"@[0] != "NOTE"@[0]);
            assert("COPR"@[0] != "PLAC"@[0]);
            assert("CHAR"@[0] != "LANG"@[0]);
            assert("CHAR"@[0] != "NOTE"@[0]);
            assert("CHAR"@[0] != "PLAC"@[0]);
            assert("LANG"@[0] != "NOTE"@[0]);
            assert("LANG"@[0] != "PLAC"@[0]);
            assert("NOTE"@[0] != "PLAC"@[0]);
        }
        let sub = child_level(level);
        if str_eq(tag, "GEDC") {
            self.gedcom = Some(HeadMeta::new(tokenizer, sub)?);
        } else if str_eq(tag, "SCHMA") {
            self.schema = Some(Schema::new(tokenizer, sub)?);
        } else if str_eq(tag, "SOUR") {
            self.source = Some(HeadSour::new(tokenizer, sub)?);
        } else if str_eq(tag, "DEST") {
            self.destination = Some(tokenizer.take_line_value()?);
        } else if str_eq(tag, "DATE") {
            self.date = Some(Date::new(tokenizer, sub)?);
        } else if str_eq(tag, "SUBM") {
            self.submitter_tag = Some(tokenizer.take_line_value()?);
        } else if str_eq(tag, "SUBN") {
            self.submission_tag = Some(tokenizer.take_line_value()?);
        } else if str_eq(tag, "FILE") {
            self.filename = Some(tokenizer.take_line_value()?);
        } else if str_eq(tag, "COPR") {
            self.copyright = Some(tokenizer.take_continued_text(sub)?);
        } else if str_eq(tag, "CHAR") {
            self.encoding = Some(Encoding::new(tokenizer, sub)?);
        } else if str_eq(tag, "LANG") {
            self.language = Some(tokenizer.take_line_value()?);
        } else if str_eq(tag, "NOTE") {
            self.note = Some(Note::new(tokenizer, sub)?);
        } else if str_eq(tag, "PLAC") {
            self.place = Some(HeadPlac::new(tokenizer, sub)?);
        } else {
            return Err(tag_error("Unhandled Header Tag: ", tag, tokenizer.line()));
        }
        proof {
            let kid = (tag@, old(tokenizer).state());
            assert forall|kids: Seq<(Seq<char>, TokState)>| old(self).holds(old(tokenizer).input(), kids, level)
                implies #[trigger] self.holds(old(tokenizer).input(), kids.push(kid), level) by {
                lemma_kids_push(old(tokenizer).input(), kids, kid);
            }
        }
        Ok(())
    }
}

impl Parser for Header {
    fn parse(&mut self, tokenizer: &mut Tokenizer, level: u8) -> (r: Result<(), GedcomError>) 
        ensures
            r is Ok ==> at_level_end(*final(tokenizer), level),
            r is Ok <==> step_subset_end::<Header>(old(tokenizer).input(), old(tokenizer).state(), level) is Ok,
            r is Ok && old(self).holds(old(tokenizer).input(), Seq::empty(), level)
                ==> final(self).holds(old(tokenizer).input(), step_subset_kids::<Header>(old(tokenizer).input(), old(tokenizer).state(), level), level),
    {
        tokenizer.next_token()?;
        let custom = parse_subset(tokenizer, level, self)?;
        self.custom_data = custom;
        Ok(())
    }
}

} // verus!
