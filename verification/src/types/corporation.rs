//! The business that produced a file.
use vstd::prelude::*;
use vstd::string::StringExecFns;
use crate::error::GedcomError;
use crate::parser::{at_level_end, child_level, line_value, parse_subset, record_read, spec_child_level, tag_error, value_end, value_subset_end, Parser, TagHandler};
use crate::text::str_eq;
use crate::tokenizer::{TokState, Tokenizer};
use crate::types::address::{address_end, Address};

verus! {

/// A corporation: its name and how to reach it.
#[derive(Clone, Debug)]
pub struct Corporation {
    pub value: Option<String>,
    pub address: Option<Address>,
    pub phone: Option<String>,
    pub email: Option<String>,
    pub fax: Option<String>,
    pub website: Option<String>,
}

impl Default for Corporation {
    fn default() -> (r: Self)
        ensures
            r.value is None && r.address is None && r.phone is None,
            r.email is None && r.fax is None && r.website is None,
    {
        Corporation { value: None, address: None, phone: None, email: None, fax: None, website: None }
    }
}

impl TagHandler for Corporation {
    open spec fn exact() -> bool {
        true
    }

    open spec fn tag_end(s: Seq<char>, st: TokState, t: Seq<char>, level: u8) -> Result<TokState, ()> {
        if t == "ADDR"@ {
            address_end(s, st, spec_child_level(level))
        } else if t == "PHON"@ || t == "EMAIL"@ || t == "FAX"@ || t == "WWW"@ {
            value_end(s, st)
        } else {
            Err(())
        }
    }

    fn handle_tag(&mut self, tag: &str, tokenizer: &mut Tokenizer, level: u8) -> (r: Result<(), GedcomError>) {
        if str_eq(tag, "ADDR") {
            self.address = Some(Address::new(tokenizer, child_level(level))?);
        } else if str_eq(tag, "PHON") {
            self.phone = Some(tokenizer.take_line_value()?);
        } else if str_eq(tag, "EMAIL") {
            self.email = Some(tokenizer.take_line_value()?);
        } else if str_eq(tag, "FAX") {
            self.fax = Some(tokenizer.take_line_value()?);
        } else if str_eq(tag, "WWW") {
            self.website = Some(tokenizer.take_line_value()?);
        } else {
            return Err(tag_error("Unhandled Corporation Tag: ", tag, tokenizer.line()));
        }
        Ok(())
    }
}

impl Corporation {
    /// Reads a `CORP` structure at `level`.
    pub fn new(tokenizer: &mut Tokenizer, level: u8) -> (r: Result<Corporation, GedcomError>)
        requires
            old(tokenizer).wf(),
            old(tokenizer).token() is Tag,
        ensures
            record_read(*old(tokenizer), *final(tokenizer), r is Ok, level),
            r matches Ok(c) ==> c.value matches Some(v) && v@ == line_value(*old(tokenizer)),
            r is Ok <==> value_subset_end::<Corporation>(old(tokenizer).input(), old(tokenizer).state(), level) is Ok,
            r is Ok ==> value_subset_end::<Corporation>(old(tokenizer).input(), old(tokenizer).state(), level)
                == Ok::<TokState, ()>(final(tokenizer).state()),
    {
        let value = tokenizer.take_line_value()?;
        let mut corp = Corporation::default();
        parse_subset(tokenizer, level, &mut corp)?;
        corp.value = Some(value);
        Ok(corp)
    }
}

impl Parser for Corporation {
    fn parse(&mut self, tokenizer: &mut Tokenizer, level: u8) -> (r: Result<(), GedcomError>) 
        ensures
            r is Ok ==> at_level_end(*final(tokenizer), level),
            r is Ok <==> value_subset_end::<Corporation>(old(tokenizer).input(), old(tokenizer).state(), level) is Ok,
    {
        self.value = Some(tokenizer.take_line_value()?);
        parse_subset(tokenizer, level, self)?;
        Ok(())
    }
}

} // verus!
