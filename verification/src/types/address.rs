//! Postal addresses.
use vstd::prelude::*;
use vstd::string::StringExecFns;
use crate::error::GedcomError;
use crate::parser::{flat_accepted, flat_children, flat_end, fold_values, kept_value, parse_flat, record_read, tag_error, text_of, FlatHandler, Parser};
use crate::text::{push_char, str_eq};
use crate::tokenizer::{step, take_value, Token, Tokenizer, TokState};
use crate::types::custom::UserDefinedTag;

verus! {

/// Physical address at which a fact occurs.
#[derive(Clone, Debug)]
pub struct Address {
    pub value: Option<String>,
    pub adr1: Option<String>,
    pub adr2: Option<String>,
    pub adr3: Option<String>,
    pub city: Option<String>,
    pub state: Option<String>,
    pub post: Option<String>,
    pub country: Option<String>,
    pub custom_data: Vec<Box<UserDefinedTag>>,
}

impl Default for Address {
    fn default() -> (r: Self)
        ensures
            r.value is None && r.adr1 is None && r.adr2 is None && r.adr3 is None,
            r.city is None && r.state is None && r.post is None && r.country is None,
            r.custom_data@.len() == 0,
    {
        Address {
            value: None,
            adr1: None,
            adr2: None,
            adr3: None,
            city: None,
            state: None,
            post: None,
            country: None,
            custom_data: Vec::new(),
        }
    }
}

/// Where the lines below a structure begin, from its tag at `st`: past the
/// tag and past a value on its line. `Err` where a step fails.
pub open spec fn after_tag_value(s: Seq<char>, st: TokState) -> Result<TokState, ()> {
    match step(s, st) {
        Ok(st1) => if st1.token is LineValue {
            step(s, st1)
        } else {
            Ok(st1)
        },
        Err(_) => Err(()),
    }
}

/// Where reading an address at `level` stops, from its tag at `st`; `Err`
/// where reading fails.
pub open spec fn address_end(s: Seq<char>, st: TokState, level: u8) -> Result<TokState, ()> {
    match after_tag_value(s, st) {
        Ok(st2) => flat_end::<AddressLines>(s, st2, level),
        Err(_) => Err(()),
    }
}

/// An address as values: its text, then the first, second and third lines,
/// the city, the state, the postal code and the country.
pub type AddressFields = (
    Seq<char>,
    Option<Seq<char>>,
    Option<Seq<char>>,
    Option<Seq<char>>,
    Option<Seq<char>>,
    Option<Seq<char>>,
    Option<Seq<char>>,
    Option<Seq<char>>,
);

/// An address after one more line below it: a `CONT` or `CONC` line adds a
/// line break and its value to the text; `ADR1`, `ADR2`, `ADR3`, `CITY`,
/// `STAE`, `POST` and `CTRY` lines give the pieces.
pub open spec fn address_with_line(f: AddressFields, t: Seq<char>, v: Seq<char>) -> AddressFields {
    if t == "CONT"@ || t == "CONC"@ {
        (f.0 + seq!['\n'] + v, f.1, f.2, f.3, f.4, f.5, f.6, f.7)
    } else if t == "ADR1"@ {
        (f.0, Some(v), f.2, f.3, f.4, f.5, f.6, f.7)
    } else if t == "ADR2"@ {
        (f.0, f.1, Some(v), f.3, f.4, f.5, f.6, f.7)
    } else if t == "ADR3"@ {
        (f.0, f.1, f.2, Some(v), f.4, f.5, f.6, f.7)
    } else if t == "CITY"@ {
        (f.0, f.1, f.2, f.3, Some(v), f.5, f.6, f.7)
    } else if t == "STAE"@ {
        (f.0, f.1, f.2, f.3, f.4, Some(v), f.6, f.7)
    } else if t == "POST"@ {
        (f.0, f.1, f.2, f.3, f.4, f.5, Some(v), f.7)
    } else if t == "CTRY"@ {
        (f.0, f.1, f.2, f.3, f.4, f.5, f.6, Some(v))
    } else {
        f
    }
}

/// An address after the lines `kids` below it.
pub open spec fn address_over_lines(f: AddressFields, kids: Seq<(Seq<char>, Seq<char>)>) -> AddressFields
    decreases kids.len(),
{
    if kids.len() == 0 {
        f
    } else {
        address_with_line(address_over_lines(f, kids.drop_last()), kids.last().0, kids.last().1)
    }
}

/// `a` holds the address `f`; the text is kept only where it is not empty.
pub open spec fn holds_address(a: Address, f: AddressFields) -> bool {
    &&& kept_value(a.value, f.0)
    &&& text_of(a.adr1) == f.1
    &&& text_of(a.adr2) == f.2
    &&& text_of(a.adr3) == f.3
    &&& text_of(a.city) == f.4
    &&& text_of(a.state) == f.5
    &&& text_of(a.post) == f.6
    &&& text_of(a.country) == f.7
}

/// The address being read, with the text gathered from the `ADDR` line and
/// its continuation lines.
pub struct AddressLines {
    addr: Address,
    value: String,
}

impl FlatHandler for AddressLines {
    type Fields = AddressFields;

    closed spec fn fields(&self) -> Self::Fields {
        (
            self.value@,
            text_of(self.addr.adr1),
            text_of(self.addr.adr2),
            text_of(self.addr.adr3),
            text_of(self.addr.city),
            text_of(self.addr.state),
            text_of(self.addr.post),
            text_of(self.addr.country),
        )
    }

    open spec fn accepts(t: Seq<char>) -> bool {
        t == "CONT"@ || t == "CONC"@ || t == "ADR1"@ || t == "ADR2"@ || t == "ADR3"@ || t == "CITY"@ || t == "STAE"@
            || t == "POST"@ || t == "CTRY"@
    }

    open spec fn with_value(f: Self::Fields, t: Seq<char>, v: Seq<char>) -> Self::Fields {
        address_with_line(f, t, v)
    }

    fn accepts_tag(tag: &str) -> (r: bool) {
        str_eq(tag, "CONT") || str_eq(tag, "CONC") || str_eq(tag, "ADR1") || str_eq(tag, "ADR2") || str_eq(tag, "ADR3")
            || str_eq(tag, "CITY") || str_eq(tag, "STAE") || str_eq(tag, "POST") || str_eq(tag, "CTRY")
    }

    fn set_value(&mut self, tag: &str, value: String) {
        if str_eq(tag, "CONT") || str_eq(tag, "CONC") {
            let ghost before = self.value@;
            push_char(&mut self.value, '\n');
            self.value.append(value.as_str());
            assert(self.value@ =~= before + seq!['\n'] + value@);
        } else if str_eq(tag, "ADR1") {
            self.addr.adr1 = Some(value);
        } else if str_eq(tag, "ADR2") {
            self.addr.adr2 = Some(value);
        } else if str_eq(tag, "ADR3") {
            self.addr.adr3 = Some(value);
        } else if str_eq(tag, "CITY") {
            self.addr.city = Some(value);
        } else if str_eq(tag, "STAE") {
            self.addr.state = Some(value);
        } else if str_eq(tag, "POST") {
            self.addr.post = Some(value);
        } else {
            self.addr.country = Some(value);
        }
    }

    fn refusal(tag: &str, line: u32) -> GedcomError {
        tag_error("Unhandled Address Tag: ", tag, line)
    }
}

proof fn lemma_address_lines(f: AddressFields, kids: Seq<(Seq<char>, Seq<char>)>)
    ensures
        fold_values::<AddressLines>(f, kids) == address_over_lines(f, kids),
    decreases kids.len(),
{
    if kids.len() > 0 {
        lemma_address_lines(f, kids.drop_last());
    }
}

impl Address {
    /// Reads an `ADDR` structure at `level`.
    pub fn new(tokenizer: &mut Tokenizer, level: u8) -> (r: Result<Address, GedcomError>)
        requires
            old(tokenizer).wf(),
            old(tokenizer).token() is Tag,
        ensures
            record_read(*old(tokenizer), *final(tokenizer), r is Ok, level),
            r matches Ok(a) ==> (take_value(old(tokenizer).input(), old(tokenizer).state()) matches Ok((st1, v))
                && flat_children(old(tokenizer).input(), st1, level) matches Ok((_, kids))
                && holds_address(a, address_over_lines((v, None, None, None, None, None, None, None), kids))),
            r is Ok <==> (after_tag_value(old(tokenizer).input(), old(tokenizer).state()) matches Ok(st2)
                && flat_accepted::<AddressLines>(old(tokenizer).input(), st2, level)),
            r is Ok ==> address_end(old(tokenizer).input(), old(tokenizer).state(), level)
                == Ok::<TokState, ()>(final(tokenizer).state()),
    {
        let mut addr = Address::default();
        addr.parse_lines(tokenizer, level)?;
        Ok(addr)
    }

    fn parse_lines(&mut self, tokenizer: &mut Tokenizer, level: u8) -> (r: Result<(), GedcomError>)
        requires
            old(tokenizer).wf(),
            old(tokenizer).token() is Tag,
        ensures
            record_read(*old(tokenizer), *final(tokenizer), r is Ok, level),
            r is Ok ==> (take_value(old(tokenizer).input(), old(tokenizer).state()) matches Ok((st1, v))
                && flat_children(old(tokenizer).input(), st1, level) matches Ok((_, kids))
                && holds_address(*final(self), address_over_lines((v, None, None, None, None, None, None, None), kids))),
            r is Ok <==> (after_tag_value(old(tokenizer).input(), old(tokenizer).state()) matches Ok(st2)
                && flat_accepted::<AddressLines>(old(tokenizer).input(), st2, level)),
            r is Ok ==> address_end(old(tokenizer).input(), old(tokenizer).state(), level)
                == Ok::<TokState, ()>(final(tokenizer).state()),
    {
        // skip the ADDR tag
        tokenizer.next_token()?;
        let mut value = String::new();
        // the value on the ADDR line
        if let Token::LineValue(addr) = tokenizer.current_token() {
            value.append(addr.as_str());
            tokenizer.next_token()?;
        }
        let mut lines = AddressLines { addr: Address::default(), value };
        let ghost f0 = lines.fields();
        let ghost st1 = tokenizer.state();
        let custom = parse_flat(tokenizer, level, &mut lines)?;
        proof {
            if let Ok((_, k)) = flat_children(tokenizer.input(), st1, level) {
                lemma_address_lines(f0, k);
            }
        }
        let AddressLines { addr, value } = lines;
        *self = addr;
        self.custom_data = custom;
        if value.as_str().is_empty() {
            self.value = None;
        } else {
            self.value = Some(value);
        }
        Ok(())
    }
}

impl Parser for Address {
    fn parse(&mut self, tokenizer: &mut Tokenizer, level: u8) -> (r: Result<(), GedcomError>)
        ensures
            r is Ok ==> crate::parser::at_level_end(*final(tokenizer), level),
            r is Ok <==> (after_tag_value(old(tokenizer).input(), old(tokenizer).state()) matches Ok(st2)
                && old(tokenizer).token() is Tag
                && flat_accepted::<AddressLines>(old(tokenizer).input(), st2, level)),
            r is Ok ==> (take_value(old(tokenizer).input(), old(tokenizer).state()) matches Ok((st1, v))
                && flat_children(old(tokenizer).input(), st1, level) matches Ok((_, kids))
                && holds_address(*final(self), address_over_lines((v, None, None, None, None, None, None, None), kids))),
    {
        if let Token::Tag(_) = tokenizer.current_token() {
            self.parse_lines(tokenizer, level)
        } else {
            Err(GedcomError::ParseError { line: tokenizer.line(), message: String::from_str("Expected the ADDR tag") })
        }
    }
}

} // verus!
