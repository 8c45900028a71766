//! Structures that GEDCOM 7.0 added: sort dates, creation dates, image crops,
//! non-events and phrases.
use vstd::prelude::*;
use crate::parser::tag_states;
use crate::parser::value_subset_kids;
use crate::parser::last_tag_state;
use crate::types::date::date_fields_at;
use crate::parser::last_tag_value;
use crate::parser::lemma_kids_push;
use crate::parser::step_subset_kids;
use crate::types::shared::{shared_end, Shared};
use vstd::string::StringExecFns;
use crate::error::GedcomError;
use crate::parser::{at_level_end, child_level, flat_accepted, flat_children, fold_values, line_value, parse_flat, parse_subset, record_read, spec_child_level, step_subset_end, tag_error, text_of, value_flat_end, value_read, value_subset_end, FlatHandler, Parser, TagHandler};
use crate::text::str_eq;
use crate::tokenizer::{take_value, TokState, Tokenizer};
use crate::types::date::Date;
use crate::types::note::Note;
use crate::types::source::citation::Citation;

verus! {

/// A date used for sorting events (`SDATE`).
#[derive(Clone, Debug, PartialEq)]
pub struct SortDate {
    pub value: Option<String>,
    pub time: Option<String>,
    pub phrase: Option<String>,
}

impl Default for SortDate {
    fn default() -> (r: Self)
        ensures
            r.value is None && r.time is None && r.phrase is None,
    {
        SortDate { value: None, time: None, phrase: None }
    }
}

impl FlatHandler for SortDate {
    type Fields = (Option<Seq<char>>, Option<Seq<char>>, Option<Seq<char>>);

    /// The value, the time and the phrase.
    open spec fn fields(&self) -> Self::Fields {
        (text_of(self.value), text_of(self.time), text_of(self.phrase))
    }

    open spec fn accepts(t: Seq<char>) -> bool {
        t == "TIME"@ || t == "PHRASE"@
    }

    /// A `TIME` line gives the time, a `PHRASE` line the phrase.
    open spec fn with_value(f: Self::Fields, t: Seq<char>, v: Seq<char>) -> Self::Fields {
        if t == "TIME"@ {
            (f.0, Some(v), f.2)
        } else if t == "PHRASE"@ {
            (f.0, f.1, Some(v))
        } else {
            f
        }
    }

    fn accepts_tag(tag: &str) -> (r: bool) {
        str_eq(tag, "TIME") || str_eq(tag, "PHRASE")
    }

    fn set_value(&mut self, tag: &str, value: String) {
        if str_eq(tag, "TIME") {
            self.time = Some(value);
        } else {
            self.phrase = Some(value);
        }
    }

    fn refusal(tag: &str, line: u32) -> GedcomError {
        tag_error("Unhandled SortDate Tag: ", tag, line)
    }
}

/// The lines below a sort date keep its value.
pub proof fn lemma_sort_date_keeps_value(
    f: (Option<Seq<char>>, Option<Seq<char>>, Option<Seq<char>>),
    kids: Seq<(Seq<char>, Seq<char>)>,
)
    ensures
        fold_values::<SortDate>(f, kids).0 == f.0,
    decreases kids.len(),
{
    if kids.len() > 0 {
        lemma_sort_date_keeps_value(f, kids.drop_last());
    }
}

impl SortDate {
    /// Reads an `SDATE` structure at `level`.
    pub fn new(tokenizer: &mut Tokenizer, level: u8) -> (r: Result<SortDate, GedcomError>)
        requires
            old(tokenizer).wf(),
            old(tokenizer).token() is Tag,
        ensures
            record_read(*old(tokenizer), *final(tokenizer), r is Ok, level),
            r matches Ok(d) ==> d.value matches Some(v) && v@ == line_value(*old(tokenizer)),
            r matches Ok(d) ==> (take_value(old(tokenizer).input(), old(tokenizer).state()) matches Ok((st1, v))
                && flat_children(old(tokenizer).input(), st1, level) matches Ok((_, kids))
                && d.fields() == fold_values::<SortDate>((Some(v), None, None), kids)),
            r is Ok <==> (take_value(old(tokenizer).input(), old(tokenizer).state()) matches Ok((st1, _))
                && flat_accepted::<SortDate>(old(tokenizer).input(), st1, level)),
            r is Ok ==> crate::parser::value_flat_end::<SortDate>(old(tokenizer).input(), old(tokenizer).state(), level)
                == Ok::<crate::tokenizer::TokState, ()>(final(tokenizer).state()),
    {
        let mut sort_date = SortDate::default();
        sort_date.value = Some(tokenizer.take_line_value()?);
        let ghost f0 = sort_date.fields();
        let ghost st1 = tokenizer.state();
        parse_flat(tokenizer, level, &mut sort_date)?;
        proof {
            if let Ok((_, k)) = flat_children(tokenizer.input(), st1, level) {
                lemma_sort_date_keeps_value(f0, k);
            }
        }
        Ok(sort_date)
    }

    /// A sort date with only a value.
    pub fn with_value(value: &str) -> (r: Self)
        ensures
            r.value is Some && r.value->0@ == value@,
            r.time is None && r.phrase is None,
    {
        SortDate { value: Some(String::from_str(value)), time: None, phrase: None }
    }
}

impl Parser for SortDate {
    fn parse(&mut self, tokenizer: &mut Tokenizer, level: u8) -> (r: Result<(), GedcomError>)
        ensures
            r is Ok ==> at_level_end(*final(tokenizer), level),
            r is Ok <==> (take_value(old(tokenizer).input(), old(tokenizer).state()) matches Ok((st1, _))
                && flat_accepted::<SortDate>(old(tokenizer).input(), st1, level)),
            r is Ok ==> (take_value(old(tokenizer).input(), old(tokenizer).state()) matches Ok((st1, v))
                && flat_children(old(tokenizer).input(), st1, level) matches Ok((_, kids))
                && final(self).fields() == fold_values::<SortDate>((Some(v), old(self).fields().1, old(self).fields().2), kids)),
    {
        self.value = Some(tokenizer.take_line_value()?);
        parse_flat(tokenizer, level, self)?;
        Ok(())
    }
}

/// The date a record was created (`CREA`).
#[derive(Clone, Debug, PartialEq)]
pub struct CreationDate {
    pub date: Option<Date>,
}

impl Default for CreationDate {
    fn default() -> (r: Self)
        ensures
            r.date is None,
    {
        CreationDate { date: None }
    }
}

impl TagHandler for CreationDate {
    open spec fn exact() -> bool {
        true
    }

    open spec fn tag_end(s: Seq<char>, st: TokState, t: Seq<char>, level: u8) -> Result<TokState, ()> {
        if t == "DATE"@ {
            value_flat_end::<Date>(s, st, spec_child_level(level))
        } else {
            Err(())
        }
    }

    open spec fn holds(&self, s: Seq<char>, kids: Seq<(Seq<char>, TokState)>, level: u8) -> bool {
        &&& (match last_tag_state(kids, "DATE"@) {
            Some(st) => self.date matches Some(d) && d.fields() == date_fields_at(s, st, spec_child_level(level)),
            None => self.date is None,
        })
    }

    fn handle_tag(&mut self, tag: &str, tokenizer: &mut Tokenizer, level: u8) -> (r: Result<(), GedcomError>) {
        proof {
            reveal_strlit("DATE");
            assert("DATE"@.len() == 4);
        }
        if str_eq(tag, "DATE") {
            self.date = Some(Date::new(tokenizer, child_level(level))?);
        } else {
            return Err(tag_error("Unhandled CreationDate Tag: ", tag, tokenizer.line()));
        }
        proof {
            let kid = (tag@, old(tokenizer).state());
            assert forall|kids: Seq<(Seq<char>, TokState)>| old(self).holds(old(tokenizer).input(), kids, level)
                implies #[trigger] self.holds(old(tokenizer).input(), kids.push(kid), level) by {
                lemma_kids_push(old(tokenizer).input(), kids, kid);
            }
        }
        Ok(())
    }
}

impl CreationDate {
    /// Reads a `CREA` structure at `level`.
    pub fn new(tokenizer: &mut Tokenizer, level: u8) -> (r: Result<CreationDate, GedcomError>)
        requires
            old(tokenizer).wf(),
            old(tokenizer).token() is Tag,
        ensures
            record_read(*old(tokenizer), *final(tokenizer), r is Ok, level),
            r is Ok <==> step_subset_end::<CreationDate>(old(tokenizer).input(), old(tokenizer).state(), level) is Ok,
            r is Ok ==> step_subset_end::<CreationDate>(old(tokenizer).input(), old(tokenizer).state(), level) == Ok::<TokState, ()>(final(tokenizer).state()),
            r matches Ok(x) ==> x.holds(old(tokenizer).input(), step_subset_kids::<CreationDate>(old(tokenizer).input(), old(tokenizer).state(), level), level),
    {
        let mut creation_date = CreationDate::default();
        tokenizer.next_token()?;
        parse_subset(tokenizer, level, &mut creation_date)?;
        Ok(creation_date)
    }
}

impl Parser for CreationDate {
    fn parse(&mut self, tokenizer: &mut Tokenizer, level: u8) -> (r: Result<(), GedcomError>) 
        ensures
            r is Ok ==> at_level_end(*final(tokenizer), level),
            r is Ok <==> step_subset_end::<CreationDate>(old(tokenizer).input(), old(tokenizer).state(), level) is Ok,
            r is Ok && old(self).holds(old(tokenizer).input(), Seq::empty(), level)
                ==> final(self).holds(old(tokenizer).input(), step_subset_kids::<CreationDate>(old(tokenizer).input(), old(tokenizer).state(), level), level),
    {
        tokenizer.next_token()?;
        parse_subset(tokenizer, level, self)?;
        Ok(())
    }
}

// ---------------------------------------------------------------------------
// The syntax of a decimal number, as `str::parse` for `f32` accepts it.
// ---------------------------------------------------------------------------

/// The end of the run of ASCII digits that starts at `i`.
pub open spec fn digit_run_end(b: Seq<char>, i: int) -> int
    decreases b.len() - i,
{
    if 0 <= i < b.len() && '0' <= b[i] && b[i] <= '9' {
        digit_run_end(b, i + 1)
    } else {
        i
    }
}

/// `s` equals `lower` letter by letter, each letter in either case.
pub open spec fn caseless_eq(s: Seq<char>, lower: Seq<char>, upper: Seq<char>) -> bool {
    &&& s.len() == lower.len()
    &&& lower.len() == upper.len()
    &&& forall|i: int| 0 <= i < s.len() ==> s[i] == lower[i] || s[i] == upper[i]
}

/// An exponent from `k` to the end: an optional sign, then digits.
pub open spec fn exponent_syntax(b: Seq<char>, k: int) -> bool {
    let k2 = if k < b.len() && (b[k] == '+' || b[k] == '-') { k + 1 } else { k };
    let e = digit_run_end(b, k2);
    e > k2 && e == b.len()
}

/// Digits, with an optional fraction, with an optional exponent; at least
/// one digit before the exponent.
pub open spec fn number_syntax(b: Seq<char>) -> bool {
    let i = digit_run_end(b, 0);
    let j = if i < b.len() && b[i] == '.' { digit_run_end(b, i + 1) } else { i };
    let mantissa = if i < b.len() && b[i] == '.' { i > 0 || j > i + 1 } else { i > 0 };
    mantissa && (j == b.len() || ((b[j] == 'e' || b[j] == 'E') && exponent_syntax(b, j + 1)))
}

/// The text of a decimal number, an infinity or a NaN, with an optional sign:
/// what `str::parse` for floating-point numbers accepts.
pub open spec fn float_syntax(s: Seq<char>) -> bool {
    let b = if s.len() > 0 && (s[0] == '+' || s[0] == '-') { s.subrange(1, s.len() as int) } else { s };
    ||| caseless_eq(b, "inf"@, "INF"@)
    ||| caseless_eq(b, "infinity"@, "INFINITY"@)
    ||| caseless_eq(b, "nan"@, "NAN"@)
    ||| number_syntax(b)
}

fn digit_run(b: &Vec<char>, i: usize) -> (r: usize)
    requires
        i <= b@.len(),
    ensures
        r == digit_run_end(b@, i as int),
        i <= r <= b@.len(),
{
    let mut k = i;
    while k < b.len() && '0' <= b[k] && b[k] <= '9'
        invariant
            i <= k <= b@.len(),
            digit_run_end(b@, k as int) == digit_run_end(b@, i as int),
        decreases b@.len() - k,
    {
        k = k + 1;
    }
    k
}

fn caseless_matches(b: &Vec<char>, start: usize, lower: &str, upper: &str) -> (r: bool)
    requires
        start <= b@.len(),
    ensures
        r == caseless_eq(b@.subrange(start as int, b@.len() as int), lower@, upper@),
{
    let n = lower.unicode_len();
    let m = upper.unicode_len();
    let blen = b.len();
    if n != m || blen - start != n {
        return false;
    }
    let mut i: usize = 0;
    while i < n
        invariant
            blen == b@.len(),
            n == lower@.len(),
            n == upper@.len(),
            b@.len() - start == n,
            start + n == b@.len(),
            i <= n,
            forall|j: int| 0 <= j < i ==> b@[start + j] == lower@[j] || b@[start + j] == upper@[j],
        decreases n - i,
    {
        let c = b[start + i];
        if c != lower.get_char(i) && c != upper.get_char(i) {
            return false;
        }
        i = i + 1;
    }
    true
}

/// Whether `s` is the text of a floating-point number (`str::parse` for `f32` succeeds).
pub fn is_float_text(s: &str) -> (r: bool)
    ensures
        r == float_syntax(s@),
{
    let chars = crate::text::chars_of(s);
    let start: usize = if chars.len() > 0 && (chars[0] == '+' || chars[0] == '-') { 1 } else { 0 };
    let ghost b = if s@.len() > 0 && (s@[0] == '+' || s@[0] == '-') { s@.subrange(1, s@.len() as int) } else { s@ };
    proof {
        assert(b =~= chars@.subrange(start as int, chars@.len() as int));
    }
    if caseless_matches(&chars, start, "inf", "INF") || caseless_matches(&chars, start, "infinity", "INFINITY")
        || caseless_matches(&chars, start, "nan", "NAN") {
        return true;
    }
    // the number syntax, on the characters after the sign
    let mut body: Vec<char> = Vec::new();
    let mut k = start;
    while k < chars.len()
        invariant
            start <= k <= chars@.len(),
            body@ == chars@.subrange(start as int, k as int),
        decreases chars@.len() - k,
    {
        body.push(chars[k]);
        k = k + 1;
        proof {
            assert(body@ =~= chars@.subrange(start as int, k as int));
        }
    }
    proof {
        assert(body@ =~= b);
    }
    is_number_text(&body)
}

fn is_exponent_text(b: &Vec<char>, k: usize) -> (r: bool)
    requires
        k <= b@.len(),
    ensures
        r == exponent_syntax(b@, k as int),
{
    let k2: usize = if k < b.len() && (b[k] == '+' || b[k] == '-') { k + 1 } else { k };
    let e = digit_run(b, k2);
    e > k2 && e == b.len()
}

fn is_number_text(body: &Vec<char>) -> (r: bool)
    ensures
        r == number_syntax(body@),
{
    let i = digit_run(body, 0);
    let j: usize;
    let mantissa: bool;
    if i < body.len() && body[i] == '.' {
        j = digit_run(body, i + 1);
        mantissa = i > 0 || j > i + 1;
    } else {
        j = i;
        mantissa = i > 0;
    }
    if !mantissa {
        return false;
    }
    if j == body.len() {
        return true;
    }
    if body[j] != 'e' && body[j] != 'E' {
        return false;
    }
    is_exponent_text(body, j + 1)
}

/// How to crop an image (`CROP`): four numbers, as written in the file.
///
/// Each value was checked to be the text of a floating-point number; the
/// numbers themselves are read where floating point is available.
#[derive(Clone, Debug, PartialEq)]
pub struct Crop {
    pub top: Option<String>,
    pub left: Option<String>,
    pub height: Option<String>,
    pub width: Option<String>,
}

impl Default for Crop {
    fn default() -> (r: Self)
        ensures
            r.top is None && r.left is None && r.height is None && r.width is None,
    {
        Crop { top: None, left: None, height: None, width: None }
    }
}

impl TagHandler for Crop {
    open spec fn exact() -> bool {
        true
    }

    open spec fn tag_end(s: Seq<char>, st: TokState, t: Seq<char>, level: u8) -> Result<TokState, ()> {
        match take_value(s, st) {
            Ok((st1, v)) => if float_syntax(v) && (t == "TOP"@ || t == "LEFT"@ || t == "HEIGHT"@ || t == "WIDTH"@) {
                Ok(st1)
            } else {
                Err(())
            },
            Err(_) => Err(()),
        }
    }

    open spec fn holds(&self, s: Seq<char>, kids: Seq<(Seq<char>, TokState)>, level: u8) -> bool {
        &&& text_of(self.top) == last_tag_value(s, kids, "TOP"@)
        &&& text_of(self.left) == last_tag_value(s, kids, "LEFT"@)
        &&& text_of(self.height) == last_tag_value(s, kids, "HEIGHT"@)
        &&& text_of(self.width) == last_tag_value(s, kids, "WIDTH"@)
    }

    fn handle_tag(&mut self, tag: &str, tokenizer: &mut Tokenizer, level: u8) -> (r: Result<(), GedcomError>) {
        proof {
            reveal_strlit("TOP");
            assert("TOP"@.len() == 3);
            reveal_strlit("LEFT");
            assert("LEFT"@.len() == 4);
            reveal_strlit("HEIGHT");
            assert("HEIGHT"@.len() == 6);
            reveal_strlit("WIDTH");
            assert("WIDTH"@.len() == 5);
        }
        let value_str = tokenizer.take_line_value()?;
        if !is_float_text(value_str.as_str()) {
            return Err(GedcomError::InvalidValueFormat {
                line: tokenizer.line() as usize,
                value: value_str,
                expected_format: String::from_str("numeric value (0-100)"),
            });
        }
        if str_eq(tag, "TOP") {
            self.top = Some(value_str);
        } else if str_eq(tag, "LEFT") {
            self.left = Some(value_str);
        } else if str_eq(tag, "HEIGHT") {
            self.height = Some(value_str);
        } else if str_eq(tag, "WIDTH") {
            self.width = Some(value_str);
        } else {
            return Err(tag_error("Unhandled Crop Tag: ", tag, tokenizer.line()));
        }
        proof {
            let kid = (tag@, old(tokenizer).state());
            assert forall|kids: Seq<(Seq<char>, TokState)>| old(self).holds(old(tokenizer).input(), kids, level)
                implies #[trigger] self.holds(old(tokenizer).input(), kids.push(kid), level) by {
                lemma_kids_push(old(tokenizer).input(), kids, kid);
            }
        }
        Ok(())
    }
}

impl Crop {
    /// Reads a `CROP` structure at `level`.
    pub fn new(tokenizer: &mut Tokenizer, level: u8) -> (r: Result<Crop, GedcomError>)
        requires
            old(tokenizer).wf(),
            old(tokenizer).token() is Tag,
        ensures
            record_read(*old(tokenizer), *final(tokenizer), r is Ok, level),
            r is Ok <==> step_subset_end::<Crop>(old(tokenizer).input(), old(tokenizer).state(), level) is Ok,
            r is Ok ==> step_subset_end::<Crop>(old(tokenizer).input(), old(tokenizer).state(), level) == Ok::<TokState, ()>(final(tokenizer).state()),
            r matches Ok(x) ==> x.holds(old(tokenizer).input(), step_subset_kids::<Crop>(old(tokenizer).input(), old(tokenizer).state(), level), level),
    {
        let mut crop = Crop::default();
        tokenizer.next_token()?;
        parse_subset(tokenizer, level, &mut crop)?;
        Ok(crop)
    }
}

impl Parser for Crop {
    fn parse(&mut self, tokenizer: &mut Tokenizer, level: u8) -> (r: Result<(), GedcomError>) 
        ensures
            r is Ok ==> at_level_end(*final(tokenizer), level),
            r is Ok <==> step_subset_end::<Crop>(old(tokenizer).input(), old(tokenizer).state(), level) is Ok,
            r is Ok && old(self).holds(old(tokenizer).input(), Seq::empty(), level)
                ==> final(self).holds(old(tokenizer).input(), step_subset_kids::<Crop>(old(tokenizer).input(), old(tokenizer).state(), level), level),
    {
        tokenizer.next_token()?;
        parse_subset(tokenizer, level, self)?;
        Ok(())
    }
}

/// An assertion that an event did not occur (`NO`).
#[derive(Clone, Debug)]
pub struct NonEvent {
    pub event_type: String,
    pub date: Option<Date>,
    pub note: Option<Note>,
    pub source_citations: Vec<Citation>,
}

impl Default for NonEvent {
    fn default() -> (r: Self)
        ensures
            r.event_type@.len() == 0 && r.date is None && r.note is None,
            r.source_citations@.len() == 0,
    {
        NonEvent { event_type: String::new(), date: None, note: None, source_citations: Vec::new() }
    }
}

impl TagHandler for NonEvent {
    open spec fn exact() -> bool {
        true
    }

    open spec fn tag_end(s: Seq<char>, st: TokState, t: Seq<char>, level: u8) -> Result<TokState, ()> {
        if t == "DATE"@ {
            value_flat_end::<Date>(s, st, spec_child_level(level))
        } else if t == "NOTE"@ {
            shared_end(Shared::Note, s, st, spec_child_level(level))
        } else if t == "SOUR"@ {
            shared_end(Shared::Citation, s, st, spec_child_level(level))
        } else {
            Err(())
        }
    }

    open spec fn holds(&self, s: Seq<char>, kids: Seq<(Seq<char>, TokState)>, level: u8) -> bool {
        &&& (match last_tag_state(kids, "DATE"@) {
            Some(st) => self.date matches Some(d) && d.fields() == date_fields_at(s, st, spec_child_level(level)),
            None => self.date is None,
        })
        &&& (match last_tag_state(kids, "NOTE"@) {
            Some(_) => self.note is Some,
            None => self.note is None,
        })
        &&& self.source_citations@.len() == tag_states(kids, "SOUR"@).len()
    }

    fn handle_tag(&mut self, tag: &str, tokenizer: &mut Tokenizer, level: u8) -> (r: Result<(), GedcomError>) {
        proof {
            reveal_strlit("DATE");
            assert("DATE"@.len() == 4);
            reveal_strlit("NOTE");
            assert("NOTE"@.len() == 4);
            reveal_strlit("SOUR");
            assert("SOUR"@.len() == 4);
            assert("DATE"@[0] != "NOTE"@[0]);
            assert("DATE"@[0] != "SOUR"@[0]);
            assert("NOTE"@[0] != "SOUR"@[0]);
        }
        if str_eq(tag, "DATE") {
            self.date = Some(Date::new(tokenizer, child_level(level))?);
        } else if str_eq(tag, "NOTE") {
            self.note = Some(Note::new(tokenizer, child_level(level))?);
        } else if str_eq(tag, "SOUR") {
            self.source_citations.push(Citation::new(tokenizer, child_level(level))?);
        } else {
            return Err(tag_error("Unhandled NonEvent Tag: ", tag, tokenizer.line()));
        }
        proof {
            let kid = (tag@, old(tokenizer).state());
            assert forall|kids: Seq<(Seq<char>, TokState)>| old(self).holds(old(tokenizer).input(), kids, level)
                implies #[trigger] self.holds(old(tokenizer).input(), kids.push(kid), level) by {
                lemma_kids_push(old(tokenizer).input(), kids, kid);
            }
        }
        Ok(())
    }
}

/// The description of an event tag: its name for the common events, the tag
/// itself otherwise.
pub open spec fn event_description_of(t: Seq<char>) -> Seq<char> {
    if t == "MARR"@ { "Marriage"@ }
    else if t == "CHR"@ { "Christening"@ }
    else if t == "BAPM"@ { "Baptism"@ }
    else if t == "BURI"@ { "Burial"@ }
    else if t == "CREM"@ { "Cremation"@ }
    else if t == "DEAT"@ { "Death"@ }
    else if t == "BIRT"@ { "Birth"@ }
    else if t == "CENS"@ { "Census"@ }
    else if t == "EMIG"@ { "Emigration"@ }
    else if t == "IMMI"@ { "Immigration"@ }
    else if t == "NATU"@ { "Naturalization"@ }
    else if t == "RESI"@ { "Residence"@ }
    else { t }
}

impl NonEvent {
    /// Reads a `NO` structure at `level`; its value is the event type.
    pub fn new(tokenizer: &mut Tokenizer, level: u8) -> (r: Result<NonEvent, GedcomError>)
        requires
            old(tokenizer).wf(),
            old(tokenizer).token() is Tag,
        ensures
            record_read(*old(tokenizer), *final(tokenizer), r is Ok, level),
            r matches Ok(n) ==> n.event_type@ == line_value(*old(tokenizer)),
            r is Ok <==> value_subset_end::<NonEvent>(old(tokenizer).input(), old(tokenizer).state(), level) is Ok,
            r is Ok ==> value_subset_end::<NonEvent>(old(tokenizer).input(), old(tokenizer).state(), level) == Ok::<TokState, ()>(final(tokenizer).state()),
            r matches Ok(x) ==> x.holds(old(tokenizer).input(), value_subset_kids::<NonEvent>(old(tokenizer).input(), old(tokenizer).state(), level), level),
    {
        let event_type = tokenizer.take_line_value()?;
        let mut non_event = NonEvent::default();
        parse_subset(tokenizer, level, &mut non_event)?;
        non_event.event_type = event_type;
        Ok(non_event)
    }

    /// A non-event for the event `event_type`.
    pub fn for_event(event_type: &str) -> (r: Self)
        ensures
            r.event_type@ == event_type@,
            r.date is None && r.note is None && r.source_citations@.len() == 0,
    {
        NonEvent { event_type: String::from_str(event_type), date: None, note: None, source_citations: Vec::new() }
    }

    /// The name of the event, for the common event tags; the tag otherwise.
    pub fn event_description(&self) -> (r: &str)
        ensures
            r@ == event_description_of(self.event_type@),
    {
        let t = self.event_type.as_str();
        if str_eq(t, "MARR") { "Marriage" }
        else if str_eq(t, "CHR") { "Christening" }
        else if str_eq(t, "BAPM") { "Baptism" }
        else if str_eq(t, "BURI") { "Burial" }
        else if str_eq(t, "CREM") { "Cremation" }
        else if str_eq(t, "DEAT") { "Death" }
        else if str_eq(t, "BIRT") { "Birth" }
        else if str_eq(t, "CENS") { "Census" }
        else if str_eq(t, "EMIG") { "Emigration" }
        else if str_eq(t, "IMMI") { "Immigration" }
        else if str_eq(t, "NATU") { "Naturalization" }
        else if str_eq(t, "RESI") { "Residence" }
        else { t }
    }
}

impl Parser for NonEvent {
    fn parse(&mut self, tokenizer: &mut Tokenizer, level: u8) -> (r: Result<(), GedcomError>) 
        ensures
            r is Ok ==> at_level_end(*final(tokenizer), level),
            r is Ok <==> value_subset_end::<NonEvent>(old(tokenizer).input(), old(tokenizer).state(), level) is Ok,
            r is Ok && old(self).holds(old(tokenizer).input(), Seq::empty(), level)
                ==> final(self).holds(old(tokenizer).input(), value_subset_kids::<NonEvent>(old(tokenizer).input(), old(tokenizer).state(), level), level),
    {
        self.event_type = tokenizer.take_line_value()?;
        parse_subset(tokenizer, level, self)?;
        Ok(())
    }
}

/// A free-text phrase for a date or an age (`PHRASE`).
#[derive(Clone, Debug, PartialEq)]
pub struct Phrase {
    pub value: String,
}

impl Default for Phrase {
    fn default() -> (r: Self)
        ensures
            r.value@.len() == 0,
    {
        Phrase { value: String::new() }
    }
}

impl Phrase {
    /// Reads a `PHRASE` line: its value.
    pub fn new(tokenizer: &mut Tokenizer, _level: u8) -> (r: Result<Phrase, GedcomError>)
        requires
            old(tokenizer).wf(),
            old(tokenizer).token() is Tag,
        ensures
            value_read(*old(tokenizer), *final(tokenizer), r is Ok),
            r matches Ok(p) ==> crate::tokenizer::take_value(old(tokenizer).input(), old(tokenizer).state()) matches Ok((_, v)) && p.value@ == v,
    {
        Ok(Phrase { value: tokenizer.take_line_value()? })
    }

    /// A phrase with the given text.
    pub fn with_value(value: &str) -> (r: Self)
        ensures
            r.value@ == value@,
    {
        Phrase { value: String::from_str(value) }
    }
}

} // verus!
