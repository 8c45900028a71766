//! Dates and times as written in a file.
use vstd::prelude::*;
use vstd::string::StringExecFns;
use crate::error::GedcomError;
use crate::parser::{at_level_end, flat_accepted, flat_children, fold_values, line_value, parse_flat, record_read, tag_error, text_of, value_flat_end, FlatHandler, Parser};
use crate::text::str_eq;
use crate::tokenizer::{take_value, TokState, Tokenizer};

pub mod change_date;

pub use change_date::ChangeDate;

verus! {

/// A date, with an optional time, as written in the file.
#[derive(Debug, PartialEq)]
pub struct Date {
    pub value: Option<String>,
    pub time: Option<String>,
}

impl Clone for Date {
    fn clone(&self) -> (r: Self)
        ensures
            r == *self,
    {
        Date { value: self.value.clone(), time: self.time.clone() }
    }
}

impl Default for Date {
    fn default() -> (r: Self)
        ensures
            r.value is None && r.time is None,
    {
        Date { value: None, time: None }
    }
}

/// The value and time of a date read at `level` from its tag at `st`.
pub open spec fn date_fields_at(s: Seq<char>, st: TokState, level: u8) -> (Option<Seq<char>>, Option<Seq<char>>) {
    match take_value(s, st) {
        Ok((st1, v)) => match flat_children(s, st1, level) {
            Ok((_, kids)) => fold_values::<Date>((Some(v), None), kids),
            Err(_) => (None, None),
        },
        Err(_) => (None, None),
    }
}

impl FlatHandler for Date {
    type Fields = (Option<Seq<char>>, Option<Seq<char>>);

    /// The value and the time.
    open spec fn fields(&self) -> Self::Fields {
        (text_of(self.value), text_of(self.time))
    }

    open spec fn accepts(t: Seq<char>) -> bool {
        t == "TIME"@
    }

    /// A `TIME` line gives the time.
    open spec fn with_value(f: Self::Fields, t: Seq<char>, v: Seq<char>) -> Self::Fields {
        if t == "TIME"@ {
            (f.0, Some(v))
        } else {
            f
        }
    }

    fn accepts_tag(tag: &str) -> (r: bool) {
        str_eq(tag, "TIME")
    }

    fn set_value(&mut self, tag: &str, value: String) {
        self.time = Some(value);
    }

    fn refusal(tag: &str, line: u32) -> GedcomError {
        tag_error("Unhandled Date Tag: ", tag, line)
    }
}

/// The lines below a date keep its value.
pub proof fn lemma_date_keeps_value(f: (Option<Seq<char>>, Option<Seq<char>>), kids: Seq<(Seq<char>, Seq<char>)>)
    ensures
        fold_values::<Date>(f, kids).0 == f.0,
    decreases kids.len(),
{
    if kids.len() > 0 {
        lemma_date_keeps_value(f, kids.drop_last());
    }
}

impl Date {
    /// Reads a `DATE` structure at `level`.
    pub fn new(tokenizer: &mut Tokenizer, level: u8) -> (r: Result<Date, GedcomError>)
        requires
            old(tokenizer).wf(),
            old(tokenizer).token() is Tag,
        ensures
            record_read(*old(tokenizer), *final(tokenizer), r is Ok, level),
            r matches Ok(d) ==> d.value matches Some(v) && v@ == line_value(*old(tokenizer)),
            r matches Ok(d) ==> d.fields() == date_fields_at(old(tokenizer).input(), old(tokenizer).state(), level),
            r matches Ok(d) ==> (take_value(old(tokenizer).input(), old(tokenizer).state()) matches Ok((st1, v))
                && flat_children(old(tokenizer).input(), st1, level) matches Ok((_, kids))
                && d.fields() == fold_values::<Date>((Some(v), None), kids)),
            r is Ok <==> (take_value(old(tokenizer).input(), old(tokenizer).state()) matches Ok((st1, _))
                && flat_accepted::<Date>(old(tokenizer).input(), st1, level)),
            r is Ok ==> value_flat_end::<Date>(old(tokenizer).input(), old(tokenizer).state(), level)
                == Ok::<TokState, ()>(final(tokenizer).state()),
    {
        let mut date = Date::default();
        date.value = Some(tokenizer.take_line_value()?);
        let ghost f0 = date.fields();
        parse_flat(tokenizer, level, &mut date)?;
        proof {
            if let Ok((st1, _)) = take_value(tokenizer.input(), old(tokenizer).state()) {
                if let Ok((_, k)) = flat_children(tokenizer.input(), st1, level) {
                    lemma_date_keeps_value(f0, k);
                }
            }
        }
        Ok(date)
    }

    /// The date and the time, joined by a space, when a time is given.
    ///
    /// A time without a date value is read as the time after an empty date.
    pub fn datetime(&self) -> (r: Option<String>)
        ensures
            match self.time {
                Some(time) => r is Some && r->0@ == (match self.value {
                    Some(v) => v@,
                    None => Seq::<char>::empty(),
                }) + " "@ + time@,
                None => r is None,
            },
    {
        match &self.time {
            Some(time) => {
                let mut dt = String::new();
                match &self.value {
                    Some(v) => dt.append(v.as_str()),
                    None => {},
                }
                dt.append(" ");
                dt.append(time.as_str());
                Some(dt)
            },
            None => None,
        }
    }
}

impl Parser for Date {
    fn parse(&mut self, tokenizer: &mut Tokenizer, level: u8) -> (r: Result<(), GedcomError>)
        ensures
            r is Ok ==> at_level_end(*final(tokenizer), level),
            r is Ok <==> (take_value(old(tokenizer).input(), old(tokenizer).state()) matches Ok((st1, _))
                && flat_accepted::<Date>(old(tokenizer).input(), st1, level)),
            r is Ok ==> (take_value(old(tokenizer).input(), old(tokenizer).state()) matches Ok((st1, v))
                && flat_children(old(tokenizer).input(), st1, level) matches Ok((_, kids))
                && final(self).fields() == fold_values::<Date>((Some(v), old(self).fields().1), kids)),
    {
        self.value = Some(tokenizer.take_line_value()?);
        parse_flat(tokenizer, level, self)?;
        Ok(())
    }
}

} // verus!
