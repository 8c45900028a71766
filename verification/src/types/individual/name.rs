//! Personal names and their variant spellings.
use vstd::prelude::*;
use crate::types::shared::{shared_end, Shared};
use vstd::string::StringExecFns;
use crate::error::GedcomError;
use crate::parser::{at_level_end, child_level, flat_accepted, flat_children, fold_values, line_value, parse_flat, parse_subset, record_read, spec_child_level, text_of, value_end, value_flat_end, value_subset_end, FlatHandler, Parser, TagHandler};
use crate::text::{all_ascii, ascii_upper_char, is_text, remove_char, str_eq, to_uppercase, trim, trimmed, uppercase, without_char};
use crate::tokenizer::{take_value, TokState, Tokenizer};
use crate::types::custom::UserDefinedTag;
use crate::types::note::Note;
use crate::types::source::citation::Citation;

verus! {

/// The kind of a name (`TYPE`).
#[derive(Clone, Debug, PartialEq)]
pub enum NameType {
    Birth,
    Immigrant,
    Professional,
    Religious,
    Maiden,
    Married,
    Aka,
    Other(String),
}

/// The kind of name that an uppercase `TYPE` value names, among the known ones.
pub open spec fn known_name_type(u: Seq<char>) -> Option<NameType> {
    if u == "BIRTH"@ || u == "AKA"@ || u == "ALSO KNOWN AS"@ {
        Some(NameType::Aka)
    } else if u == "IMMIGRANT"@ {
        Some(NameType::Immigrant)
    } else if u == "PROFESSIONAL"@ {
        Some(NameType::Professional)
    } else if u == "RELIGIOUS"@ {
        Some(NameType::Religious)
    } else if u == "MAIDEN"@ {
        Some(NameType::Maiden)
    } else if u == "MARRIED"@ {
        Some(NameType::Married)
    } else {
        None
    }
}

/// The text of a kind of name.
pub open spec fn name_type_text(t: NameType) -> Seq<char> {
    match t {
        NameType::Birth => "BIRTH"@,
        NameType::Immigrant => "IMMIGRANT"@,
        NameType::Professional => "PROFESSIONAL"@,
        NameType::Religious => "RELIGIOUS"@,
        NameType::Maiden => "MAIDEN"@,
        NameType::Married => "MARRIED"@,
        NameType::Aka => "AKA"@,
        NameType::Other(s) => s@,
    }
}

/// Reading the text of a kind of name gives that kind back, except `BIRTH`,
/// which is read as an also-known-as name; a kind kept as its own text
/// (ASCII, naming no known kind) reads back as that text.
pub proof fn lemma_name_type_roundtrip(t: NameType)
    requires
        !(t is Birth),
        t matches NameType::Other(s) ==> all_ascii(s@)
            && known_name_type(s@.map_values(|c: char| ascii_upper_char(c))) is None,
    ensures
        all_ascii(name_type_text(t)),
        match known_name_type(name_type_text(t).map_values(|c: char| ascii_upper_char(c))) {
            Some(k) => k == t,
            None => t is Other,
        },
{
    reveal_strlit("BIRTH");
    reveal_strlit("AKA");
    reveal_strlit("ALSO KNOWN AS");
    reveal_strlit("IMMIGRANT");
    reveal_strlit("PROFESSIONAL");
    reveal_strlit("RELIGIOUS");
    reveal_strlit("MAIDEN");
    reveal_strlit("MARRIED");
    let x = name_type_text(t);
    if !(t is Other) {
        assert(x.map_values(|c: char| ascii_upper_char(c)) =~= x);
        assert("BIRTH"@.len() == 5 && "AKA"@.len() == 3 && "ALSO KNOWN AS"@.len() == 13);
        assert("IMMIGRANT"@.len() == 9 && "PROFESSIONAL"@.len() == 12 && "RELIGIOUS"@.len() == 9);
        assert("MAIDEN"@.len() == 6 && "MARRIED"@.len() == 7);
        assert("IMMIGRANT"@[0] != "RELIGIOUS"@[0]);
    }
}

impl NameType {
    /// Reads a `TYPE` value, in any case. `BIRTH` is read as an also-known-as
    /// name; an unknown value is kept as it was written.
    pub fn parse(value: &str) -> (r: Self)
        ensures
            match known_name_type(uppercase(value@)) {
                Some(t) => r == t,
                None => r matches NameType::Other(s) && s@ == value@,
            },
            all_ascii(value@) ==> match known_name_type(value@.map_values(|c: char| ascii_upper_char(c))) {
                Some(t) => r == t,
                None => r matches NameType::Other(s) && s@ == value@,
            },
    {
        let upper = to_uppercase(value);
        let u = upper.as_str();
        if str_eq(u, "BIRTH") || str_eq(u, "AKA") || str_eq(u, "ALSO KNOWN AS") {
            NameType::Aka
        } else if str_eq(u, "IMMIGRANT") {
            NameType::Immigrant
        } else if str_eq(u, "PROFESSIONAL") {
            NameType::Professional
        } else if str_eq(u, "RELIGIOUS") {
            NameType::Religious
        } else if str_eq(u, "MAIDEN") {
            NameType::Maiden
        } else if str_eq(u, "MARRIED") {
            NameType::Married
        } else {
            NameType::Other(String::from_str(value))
        }
    }

    /// The text of this kind of name.
    pub fn as_str(&self) -> (r: &str)
        ensures
            r@ == name_type_text(*self),
    {
        match self {
            NameType::Birth => "BIRTH",
            NameType::Immigrant => "IMMIGRANT",
            NameType::Professional => "PROFESSIONAL",
            NameType::Religious => "RELIGIOUS",
            NameType::Maiden => "MAIDEN",
            NameType::Married => "MARRIED",
            NameType::Aka => "AKA",
            NameType::Other(s) => s.as_str(),
        }
    }

    /// The text of this kind of name, as a string.
    pub fn to_display_string(&self) -> (r: String)
        ensures
            r@ == name_type_text(*self),
    {
        String::from_str(self.as_str())
    }
}

/// Another spelling of a name (`FONE` or `ROMN`), with its pieces.
#[derive(Clone, Debug, PartialEq)]
pub struct NameVariation {
    pub value: String,
    pub variation_type: Option<String>,
    pub given: Option<String>,
    pub surname: Option<String>,
    pub prefix: Option<String>,
    pub surname_prefix: Option<String>,
    pub suffix: Option<String>,
    pub nickname: Option<String>,
}

impl Default for NameVariation {
    fn default() -> (r: Self)
        ensures
            r.value@.len() == 0 && r.variation_type is None && r.given is None && r.surname is None,
            r.prefix is None && r.surname_prefix is None && r.suffix is None && r.nickname is None,
    {
        NameVariation {
            value: String::new(),
            variation_type: None,
            given: None,
            surname: None,
            prefix: None,
            surname_prefix: None,
            suffix: None,
            nickname: None,
        }
    }
}

impl NameVariation {
    /// Reads a `FONE` or `ROMN` structure of a name at `level`.
    pub fn new(tokenizer: &mut Tokenizer, level: u8) -> (r: Result<NameVariation, GedcomError>)
        requires
            old(tokenizer).wf(),
            old(tokenizer).token() is Tag,
        ensures
            record_read(*old(tokenizer), *final(tokenizer), r is Ok, level),
            r matches Ok(v) ==> v.value@ == line_value(*old(tokenizer)),
            r matches Ok(nv) ==> (take_value(old(tokenizer).input(), old(tokenizer).state()) matches Ok((st1, v))
                && flat_children(old(tokenizer).input(), st1, level) matches Ok((_, kids))
                && nv.fields() == fold_values::<NameVariation>((v, None, None, None, None, None, None, None), kids)),
            r is Ok <==> (take_value(old(tokenizer).input(), old(tokenizer).state()) matches Ok((st1, _))
                && flat_accepted::<NameVariation>(old(tokenizer).input(), st1, level)),
            r is Ok ==> crate::parser::value_flat_end::<NameVariation>(old(tokenizer).input(), old(tokenizer).state(), level)
                == Ok::<crate::tokenizer::TokState, ()>(final(tokenizer).state()),
    {
        let value = tokenizer.take_line_value()?;
        let mut variation = NameVariation::default();
        variation.value = value;
        let ghost f0 = variation.fields();
        let ghost st1 = tokenizer.state();
        parse_flat(tokenizer, level, &mut variation)?;
        proof {
            if let Ok((_, k)) = flat_children(tokenizer.input(), st1, level) {
                lemma_name_variation_keeps_value(f0, k);
            }
        }
        Ok(variation)
    }

    /// A variation with the given spelling and kind.
    pub fn with_type(value: &str, variation_type: &str) -> (r: Self)
        ensures
            r.value@ == value@,
            is_text(r.variation_type, variation_type@),
            r.given is None && r.surname is None && r.prefix is None,
            r.surname_prefix is None && r.suffix is None && r.nickname is None,
    {
        let mut v = NameVariation::default();
        v.value = String::from_str(value);
        v.variation_type = Some(String::from_str(variation_type));
        v
    }
}

/// The pieces of a name variation, as values: the spelling, its kind, the
/// given name, the surname, the prefix, the surname prefix, the suffix and
/// the nickname.
pub type NameVariationFields = (
    Seq<char>,
    Option<Seq<char>>,
    Option<Seq<char>>,
    Option<Seq<char>>,
    Option<Seq<char>>,
    Option<Seq<char>>,
    Option<Seq<char>>,
    Option<Seq<char>>,
);

impl FlatHandler for NameVariation {
    type Fields = NameVariationFields;

    open spec fn fields(&self) -> Self::Fields {
        (
            self.value@,
            text_of(self.variation_type),
            text_of(self.given),
            text_of(self.surname),
            text_of(self.prefix),
            text_of(self.surname_prefix),
            text_of(self.suffix),
            text_of(self.nickname),
        )
    }

    /// Every tag is read; the others are passed over with their values.
    open spec fn accepts(t: Seq<char>) -> bool {
        true
    }

    /// `TYPE`, `GIVN`, `SURN`, `NPFX`, `SPFX`, `NSFX` and `NICK` lines give
    /// the kind and the pieces of the name.
    open spec fn with_value(f: Self::Fields, t: Seq<char>, v: Seq<char>) -> Self::Fields {
        if t == "TYPE"@ {
            (f.0, Some(v), f.2, f.3, f.4, f.5, f.6, f.7)
        } else if t == "GIVN"@ {
            (f.0, f.1, Some(v), f.3, f.4, f.5, f.6, f.7)
        } else if t == "SURN"@ {
            (f.0, f.1, f.2, Some(v), f.4, f.5, f.6, f.7)
        } else if t == "NPFX"@ {
            (f.0, f.1, f.2, f.3, Some(v), f.5, f.6, f.7)
        } else if t == "SPFX"@ {
            (f.0, f.1, f.2, f.3, f.4, Some(v), f.6, f.7)
        } else if t == "NSFX"@ {
            (f.0, f.1, f.2, f.3, f.4, f.5, Some(v), f.7)
        } else if t == "NICK"@ {
            (f.0, f.1, f.2, f.3, f.4, f.5, f.6, Some(v))
        } else {
            f
        }
    }

    fn accepts_tag(tag: &str) -> (r: bool) {
        true
    }

    fn set_value(&mut self, tag: &str, value: String) {
        if str_eq(tag, "TYPE") {
            self.variation_type = Some(value);
        } else if str_eq(tag, "GIVN") {
            self.given = Some(value);
        } else if str_eq(tag, "SURN") {
            self.surname = Some(value);
        } else if str_eq(tag, "NPFX") {
            self.prefix = Some(value);
        } else if str_eq(tag, "SPFX") {
            self.surname_prefix = Some(value);
        } else if str_eq(tag, "NSFX") {
            self.suffix = Some(value);
        } else if str_eq(tag, "NICK") {
            self.nickname = Some(value);
        }
    }

    fn refusal(tag: &str, line: u32) -> GedcomError {
        crate::parser::tag_error("Unhandled NameVariation Tag: ", tag, line)
    }
}

/// The lines below a name variation keep its spelling.
pub proof fn lemma_name_variation_keeps_value(f: NameVariationFields, kids: Seq<(Seq<char>, Seq<char>)>)
    ensures
        fold_values::<NameVariation>(f, kids).0 == f.0,
    decreases kids.len(),
{
    if kids.len() > 0 {
        lemma_name_variation_keeps_value(f, kids.drop_last());
    }
}

impl Parser for NameVariation {
    fn parse(&mut self, tokenizer: &mut Tokenizer, level: u8) -> (r: Result<(), GedcomError>)
        ensures
            r is Ok ==> at_level_end(*final(tokenizer), level),
            r is Ok <==> flat_accepted::<NameVariation>(old(tokenizer).input(), old(tokenizer).state(), level),
            r is Ok ==> (flat_children(old(tokenizer).input(), old(tokenizer).state(), level) matches Ok((_, kids))
                && final(self).fields() == fold_values::<NameVariation>(old(self).fields(), kids)),
    {
        parse_flat(tokenizer, level, self)?;
        Ok(())
    }
}

/// A personal name (`NAME`): the full name as written, with the surname
/// between slashes, and its pieces.
#[derive(Clone, Debug)]
pub struct Name {
    pub value: Option<String>,
    pub given: Option<String>,
    pub surname: Option<String>,
    pub prefix: Option<String>,
    pub surname_prefix: Option<String>,
    pub note: Option<Note>,
    pub suffix: Option<String>,
    pub nickname: Option<String>,
    pub source: Vec<Citation>,
    pub name_type: Option<NameType>,
    pub phonetic: Vec<NameVariation>,
    pub romanized: Vec<NameVariation>,
    pub custom_data: Vec<Box<UserDefinedTag>>,
}

impl Default for Name {
    fn default() -> (r: Self)
        ensures
            r.value is None && r.given is None && r.surname is None && r.prefix is None,
            r.surname_prefix is None && r.note is None && r.suffix is None && r.nickname is None,
            r.source@.len() == 0 && r.name_type is None && r.phonetic@.len() == 0,
            r.romanized@.len() == 0 && r.custom_data@.len() == 0,
    {
        Name {
            value: None,
            given: None,
            surname: None,
            prefix: None,
            surname_prefix: None,
            note: None,
            suffix: None,
            nickname: None,
            source: Vec::new(),
            name_type: None,
            phonetic: Vec::new(),
            romanized: Vec::new(),
            custom_data: Vec::new(),
        }
    }
}

/// The full name of a written name: without its slashes, and without white
/// space at its ends.
pub open spec fn full_name_of(v: Seq<char>) -> Seq<char> {
    trimmed(without_char(v, '/'))
}

impl Name {
    /// Reads a `NAME` structure at `level`.
    pub fn new(tokenizer: &mut Tokenizer, level: u8) -> (r: Result<Name, GedcomError>)
        requires
            old(tokenizer).wf(),
            old(tokenizer).token() is Tag,
        ensures
            record_read(*old(tokenizer), *final(tokenizer), r is Ok, level),
            r matches Ok(n) ==> is_text(n.value, line_value(*old(tokenizer))),
            r is Ok <==> value_subset_end::<Name>(old(tokenizer).input(), old(tokenizer).state(), level) is Ok,
            r is Ok ==> value_subset_end::<Name>(old(tokenizer).input(), old(tokenizer).state(), level) == Ok::<TokState, ()>(final(tokenizer).state()),
    {
        let value = tokenizer.take_line_value()?;
        let mut name = Name::default();
        let custom = parse_subset(tokenizer, level, &mut name)?;
        name.custom_data = custom;
        name.value = Some(value);
        Ok(name)
    }

    /// Adds a source of the name.
    pub fn add_source_citation(&mut self, sour: Citation)
        ensures
            final(self).source@ == old(self).source@.push(sour),
    {
        self.source.push(sour);
    }

    /// Adds a phonetic spelling.
    pub fn add_phonetic(&mut self, variation: NameVariation)
        ensures
            final(self).phonetic@ == old(self).phonetic@.push(variation),
    {
        self.phonetic.push(variation);
    }

    /// Adds a romanized spelling.
    pub fn add_romanized(&mut self, variation: NameVariation)
        ensures
            final(self).romanized@ == old(self).romanized@.push(variation),
    {
        self.romanized.push(variation);
    }

    /// The name without its slashes and without white space at its ends.
    pub fn full_name(&self) -> (r: Option<String>)
        ensures
            match self.value {
                Some(v) => is_text(r, full_name_of(v@)),
                None => r is None,
            },
    {
        match &self.value {
            Some(v) => {
                let without = remove_char(v.as_str(), '/');
                Some(trim(without.as_str()))
            },
            None => None,
        }
    }

    /// Whether the name has a phonetic spelling.
    pub fn has_phonetic(&self) -> (r: bool)
        ensures
            r == (self.phonetic@.len() > 0),
    {
        self.phonetic.len() > 0
    }

    /// Whether the name has a romanized spelling.
    pub fn has_romanized(&self) -> (r: bool)
        ensures
            r == (self.romanized@.len() > 0),
    {
        self.romanized.len() > 0
    }
}

impl TagHandler for Name {
    open spec fn exact() -> bool {
        true
    }

    open spec fn tag_end(s: Seq<char>, st: TokState, t: Seq<char>, level: u8) -> Result<TokState, ()> {
        if t == "GIVN"@ {
            value_end(s, st)
        } else if t == "NPFX"@ {
            value_end(s, st)
        } else if t == "NSFX"@ {
            value_end(s, st)
        } else if t == "SPFX"@ {
            value_end(s, st)
        } else if t == "SURN"@ {
            value_end(s, st)
        } else if t == "NICK"@ {
            value_end(s, st)
        } else if t == "SOUR"@ {
            shared_end(Shared::Citation, s, st, spec_child_level(level))
        } else if t == "NOTE"@ {
            shared_end(Shared::Note, s, st, spec_child_level(level))
        } else if t == "TYPE"@ {
            value_end(s, st)
        } else if t == "FONE"@ {
            value_flat_end::<NameVariation>(s, st, spec_child_level(level))
        } else if t == "ROMN"@ {
            value_flat_end::<NameVariation>(s, st, spec_child_level(level))
        } else {
            value_end(s, st)
        }
    }

    fn handle_tag(&mut self, tag: &str, tokenizer: &mut Tokenizer, level: u8) -> (r: Result<(), GedcomError>) {
        let sub = child_level(level);
        if str_eq(tag, "GIVN") {
            self.given = Some(tokenizer.take_line_value()?);
        } else if str_eq(tag, "NPFX") {
            self.prefix = Some(tokenizer.take_line_value()?);
        } else if str_eq(tag, "NSFX") {
            self.suffix = Some(tokenizer.take_line_value()?);
        } else if str_eq(tag, "SPFX") {
            self.surname_prefix = Some(tokenizer.take_line_value()?);
        } else if str_eq(tag, "SURN") {
            self.surname = Some(tokenizer.take_line_value()?);
        } else if str_eq(tag, "NICK") {
            self.nickname = Some(tokenizer.take_line_value()?);
        } else if str_eq(tag, "SOUR") {
            let c = Citation::new(tokenizer, sub)?;
            self.add_source_citation(c);
        } else if str_eq(tag, "NOTE") {
            self.note = Some(Note::new(tokenizer, sub)?);
        } else if str_eq(tag, "TYPE") {
            let type_value = tokenizer.take_line_value()?;
            self.name_type = Some(NameType::parse(type_value.as_str()));
        } else if str_eq(tag, "FONE") {
            let v = NameVariation::new(tokenizer, sub)?;
            self.phonetic.push(v);
        } else if str_eq(tag, "ROMN") {
            let v = NameVariation::new(tokenizer, sub)?;
            self.romanized.push(v);
        } else {
            // other tags are passed over with their values
            tokenizer.take_line_value()?;
        }
        Ok(())
    }
}

impl Parser for Name {
    fn parse(&mut self, tokenizer: &mut Tokenizer, level: u8) -> (r: Result<(), GedcomError>) 
        ensures
            r is Ok ==> at_level_end(*final(tokenizer), level),
            r is Ok <==> value_subset_end::<Name>(old(tokenizer).input(), old(tokenizer).state(), level) is Ok,
    {
        self.value = Some(tokenizer.take_line_value()?);
        let custom = parse_subset(tokenizer, level, self)?;
        self.custom_data = custom;
        Ok(())
    }
}

} // verus!
