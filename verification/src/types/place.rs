//! Places where events occurred: names, jurisdictions, coordinates and
//! variant spellings.
use vstd::prelude::*;
use crate::types::shared::{shared_end, Shared};
use vstd::string::StringExecFns;
use crate::error::GedcomError;
use crate::parser::{at_level_end, child_level, flat_accepted, flat_children, fold_values, line_value, parse_flat, parse_subset, record_read, spec_child_level, step_flat_end, subset_end, tag_error, text_of, value_end, value_flat_end, value_subset_end, FlatHandler, Parser, TagHandler};
use crate::text::{chars_of, is_text, split_and_trim, split_trimmed, str_eq, string_of_range, string_views, trim, trimmed};
use crate::tokenizer::{step, take_value, TokState, Tokenizer};
use crate::types::custom::UserDefinedTag;
use crate::types::note::Note;
use crate::types::source::citation::Citation;

verus! {

/// A place (`PLAC`): its name, listing jurisdictions from the smallest to
/// the largest, and what describes it.
#[derive(Debug)]
pub struct Place {
    pub value: Option<String>,
    pub form: Option<String>,
    pub map: Option<MapCoordinates>,
    pub phonetic: Vec<PlaceVariation>,
    pub romanized: Vec<PlaceVariation>,
    pub notes: Vec<Note>,
    pub external_ids: Vec<String>,
    pub citations: Vec<Citation>,
    pub custom_data: Vec<Box<UserDefinedTag>>,
}

impl Clone for Place {
    fn clone(&self) -> (r: Self)
        ensures
            r.value == self.value,
            r.form == self.form,
    {
        Place {
            value: self.value.clone(),
            form: self.form.clone(),
            map: self.map.clone(),
            phonetic: self.phonetic.clone(),
            romanized: self.romanized.clone(),
            notes: self.notes.clone(),
            external_ids: self.external_ids.clone(),
            citations: self.citations.clone(),
            custom_data: self.custom_data.clone(),
        }
    }
}

/// Coordinates of a place (`MAP`), as written: a latitude such as `N50.83`
/// and a longitude such as `W122.41`.
#[derive(Clone, Debug, PartialEq)]
pub struct MapCoordinates {
    pub latitude: Option<String>,
    pub longitude: Option<String>,
}

/// Another spelling of a place name (`FONE` or `ROMN`) and how it was made.
#[derive(Clone, Debug, PartialEq)]
pub struct PlaceVariation {
    pub value: String,
    pub variation_type: Option<String>,
}

/// The sign and the digits of a coordinate: the text without white space at
/// its ends, where a leading `N` or `E` is dropped and a leading `S` or `W`
/// is dropped and makes the value negative. `None` for a blank text.
pub open spec fn coordinate_parts(c: Seq<char>) -> Option<(bool, Seq<char>)> {
    let t = trimmed(c);
    if t.len() == 0 {
        None
    } else if t[0] == 'N' || t[0] == 'E' {
        Some((false, t.subrange(1, t.len() as int)))
    } else if t[0] == 'S' || t[0] == 'W' {
        Some((true, t.subrange(1, t.len() as int)))
    } else {
        Some((false, t))
    }
}

/// Splits a coordinate into whether it is negative and the number it holds,
/// as [`coordinate_parts`] says.
pub fn split_coordinate(coord: &str) -> (r: Option<(bool, String)>)
    ensures
        match coordinate_parts(coord@) {
            Some((neg, digits)) => r matches Some((n, d)) && n == neg && d@ == digits,
            None => r is None,
        },
{
    let t = trim(coord);
    let v = chars_of(t.as_str());
    if v.len() == 0 {
        return None;
    }
    let first = v[0];
    if first == 'N' || first == 'E' {
        Some((false, string_of_range(&v, 1, v.len())))
    } else if first == 'S' || first == 'W' {
        Some((true, string_of_range(&v, 1, v.len())))
    } else {
        proof {
            assert(v@.subrange(0, v@.len() as int) =~= v@);
        }
        Some((false, string_of_range(&v, 0, v.len())))
    }
}

impl Default for MapCoordinates {
    fn default() -> (r: Self)
        ensures
            r.latitude is None && r.longitude is None,
    {
        MapCoordinates { latitude: None, longitude: None }
    }
}

impl MapCoordinates {
    /// Reads a `MAP` structure at `level`.
    pub fn new(tokenizer: &mut Tokenizer, level: u8) -> (r: Result<MapCoordinates, GedcomError>)
        requires
            old(tokenizer).wf(),
            old(tokenizer).token() is Tag,
        ensures
            record_read(*old(tokenizer), *final(tokenizer), r is Ok, level),
            r matches Ok(m) ==> (step(old(tokenizer).input(), old(tokenizer).state()) matches Ok(st1)
                && flat_children(old(tokenizer).input(), st1, level) matches Ok((_, kids))
                && m.fields() == fold_values::<MapCoordinates>((None, None), kids)),
            r is Ok <==> (step(old(tokenizer).input(), old(tokenizer).state()) matches Ok(st1)
                && flat_accepted::<MapCoordinates>(old(tokenizer).input(), st1, level)),
            r is Ok ==> crate::parser::step_flat_end::<MapCoordinates>(old(tokenizer).input(), old(tokenizer).state(), level)
                == Ok::<crate::tokenizer::TokState, ()>(final(tokenizer).state()),
    {
        let mut map = MapCoordinates::default();
        tokenizer.next_token()?;
        parse_flat(tokenizer, level, &mut map)?;
        Ok(map)
    }

    /// Coordinates with the given latitude and longitude.
    pub fn with_coordinates(latitude: &str, longitude: &str) -> (r: Self)
        ensures
            is_text(r.latitude, latitude@),
            is_text(r.longitude, longitude@),
    {
        MapCoordinates { latitude: Some(String::from_str(latitude)), longitude: Some(String::from_str(longitude)) }
    }

    /// Whether both the latitude and the longitude are given.
    pub fn is_complete(&self) -> (r: bool)
        ensures
            r == (self.latitude is Some && self.longitude is Some),
    {
        self.latitude.is_some() && self.longitude.is_some()
    }
}

impl FlatHandler for MapCoordinates {
    type Fields = (Option<Seq<char>>, Option<Seq<char>>);

    /// The latitude and the longitude.
    open spec fn fields(&self) -> Self::Fields {
        (text_of(self.latitude), text_of(self.longitude))
    }

    open spec fn accepts(t: Seq<char>) -> bool {
        t == "LATI"@ || t == "LONG"@
    }

    /// A `LATI` line gives the latitude, a `LONG` line the longitude.
    open spec fn with_value(f: Self::Fields, t: Seq<char>, v: Seq<char>) -> Self::Fields {
        if t == "LATI"@ {
            (Some(v), f.1)
        } else if t == "LONG"@ {
            (f.0, Some(v))
        } else {
            f
        }
    }

    fn accepts_tag(tag: &str) -> (r: bool) {
        str_eq(tag, "LATI") || str_eq(tag, "LONG")
    }

    fn set_value(&mut self, tag: &str, value: String) {
        if str_eq(tag, "LATI") {
            self.latitude = Some(value);
        } else {
            self.longitude = Some(value);
        }
    }

    fn refusal(tag: &str, line: u32) -> GedcomError {
        tag_error("Unhandled MapCoordinates Tag: ", tag, line)
    }
}

impl Parser for MapCoordinates {
    fn parse(&mut self, tokenizer: &mut Tokenizer, level: u8) -> (r: Result<(), GedcomError>)
        ensures
            r is Ok ==> at_level_end(*final(tokenizer), level),
            r is Ok <==> (step(old(tokenizer).input(), old(tokenizer).state()) matches Ok(st1)
                && flat_accepted::<MapCoordinates>(old(tokenizer).input(), st1, level)),
            r is Ok ==> (step(old(tokenizer).input(), old(tokenizer).state()) matches Ok(st1)
                && flat_children(old(tokenizer).input(), st1, level) matches Ok((_, kids))
                && final(self).fields() == fold_values::<MapCoordinates>(old(self).fields(), kids)),
    {
        tokenizer.next_token()?;
        parse_flat(tokenizer, level, self)?;
        Ok(())
    }
}

impl PlaceVariation {
    /// Reads a `FONE` or `ROMN` structure at `level`.
    pub fn new(tokenizer: &mut Tokenizer, level: u8) -> (r: Result<PlaceVariation, GedcomError>)
        requires
            old(tokenizer).wf(),
            old(tokenizer).token() is Tag,
        ensures
            record_read(*old(tokenizer), *final(tokenizer), r is Ok, level),
            r matches Ok(pv) ==> pv.value@ == line_value(*old(tokenizer)),
            r matches Ok(pv) ==> (take_value(old(tokenizer).input(), old(tokenizer).state()) matches Ok((st1, v))
                && flat_children(old(tokenizer).input(), st1, level) matches Ok((_, kids))
                && pv.fields() == fold_values::<PlaceVariation>((v, None), kids)),
            r is Ok <==> (take_value(old(tokenizer).input(), old(tokenizer).state()) matches Ok((st1, _))
                && flat_accepted::<PlaceVariation>(old(tokenizer).input(), st1, level)),
            r is Ok ==> crate::parser::value_flat_end::<PlaceVariation>(old(tokenizer).input(), old(tokenizer).state(), level)
                == Ok::<crate::tokenizer::TokState, ()>(final(tokenizer).state()),
    {
        let value = tokenizer.take_line_value()?;
        let mut variation = PlaceVariation { value, variation_type: None };
        let ghost f0 = variation.fields();
        let ghost st1 = tokenizer.state();
        parse_flat(tokenizer, level, &mut variation)?;
        proof {
            if let Ok((_, k)) = flat_children(tokenizer.input(), st1, level) {
                lemma_place_variation_keeps_value(f0, k);
            }
        }
        Ok(variation)
    }

    /// A variation with the given spelling and kind.
    pub fn with_type(value: &str, variation_type: &str) -> (r: Self)
        ensures
            r.value@ == value@,
            r.variation_type matches Some(t) && t@ == variation_type@,
    {
        PlaceVariation { value: String::from_str(value), variation_type: Some(String::from_str(variation_type)) }
    }
}

impl FlatHandler for PlaceVariation {
    type Fields = (Seq<char>, Option<Seq<char>>);

    /// The spelling and how it was made.
    open spec fn fields(&self) -> Self::Fields {
        (self.value@, text_of(self.variation_type))
    }

    open spec fn accepts(t: Seq<char>) -> bool {
        t == "TYPE"@
    }

    /// A `TYPE` line gives how the spelling was made.
    open spec fn with_value(f: Self::Fields, t: Seq<char>, v: Seq<char>) -> Self::Fields {
        if t == "TYPE"@ {
            (f.0, Some(v))
        } else {
            f
        }
    }

    fn accepts_tag(tag: &str) -> (r: bool) {
        str_eq(tag, "TYPE")
    }

    fn set_value(&mut self, tag: &str, value: String) {
        self.variation_type = Some(value);
    }

    fn refusal(tag: &str, line: u32) -> GedcomError {
        tag_error("Unhandled PlaceVariation Tag: ", tag, line)
    }
}

/// The lines below a spelling keep the spelling.
pub proof fn lemma_place_variation_keeps_value(f: (Seq<char>, Option<Seq<char>>), kids: Seq<(Seq<char>, Seq<char>)>)
    ensures
        fold_values::<PlaceVariation>(f, kids).0 == f.0,
    decreases kids.len(),
{
    if kids.len() > 0 {
        lemma_place_variation_keeps_value(f, kids.drop_last());
    }
}

impl Parser for PlaceVariation {
    fn parse(&mut self, tokenizer: &mut Tokenizer, level: u8) -> (r: Result<(), GedcomError>)
        ensures
            r is Ok ==> at_level_end(*final(tokenizer), level),
            r is Ok <==> flat_accepted::<PlaceVariation>(old(tokenizer).input(), old(tokenizer).state(), level),
            r is Ok ==> (flat_children(old(tokenizer).input(), old(tokenizer).state(), level) matches Ok((_, kids))
                && final(self).fields() == fold_values::<PlaceVariation>(old(self).fields(), kids)),
    {
        parse_flat(tokenizer, level, self)?;
        Ok(())
    }
}

impl Default for Place {
    fn default() -> (r: Self)
        ensures
            r.value is None && r.form is None && r.map is None,
            r.phonetic@.len() == 0 && r.romanized@.len() == 0 && r.notes@.len() == 0,
            r.external_ids@.len() == 0 && r.citations@.len() == 0 && r.custom_data@.len() == 0,
    {
        Place {
            value: None,
            form: None,
            map: None,
            phonetic: Vec::new(),
            romanized: Vec::new(),
            notes: Vec::new(),
            external_ids: Vec::new(),
            citations: Vec::new(),
            custom_data: Vec::new(),
        }
    }
}

impl Place {
    /// Reads a `PLAC` structure at `level`.
    pub fn new(tokenizer: &mut Tokenizer, level: u8) -> (r: Result<Place, GedcomError>)
        requires
            old(tokenizer).wf(),
            old(tokenizer).token() is Tag,
        ensures
            record_read(*old(tokenizer), *final(tokenizer), r is Ok, level),
            r matches Ok(pl) ==> pl.value matches Some(v) && v@ == line_value(*old(tokenizer)),
            r is Ok <==> value_subset_end::<Place>(old(tokenizer).input(), old(tokenizer).state(), level) is Ok,
            r is Ok ==> value_subset_end::<Place>(old(tokenizer).input(), old(tokenizer).state(), level) == Ok::<TokState, ()>(final(tokenizer).state()),
    {
        let value = tokenizer.take_line_value()?;
        let mut place = Place::default();
        let custom = parse_subset(tokenizer, level, &mut place)?;
        place.value = Some(value);
        place.custom_data = custom;
        Ok(place)
    }

    /// A place with the given name and nothing more.
    pub fn with_value(value: &str) -> (r: Self)
        ensures
            r.value matches Some(v) && v@ == value@,
            r.form is None && r.map is None,
            r.phonetic@.len() == 0 && r.romanized@.len() == 0 && r.notes@.len() == 0,
            r.external_ids@.len() == 0 && r.citations@.len() == 0 && r.custom_data@.len() == 0,
    {
        let mut place = Place::default();
        place.value = Some(String::from_str(value));
        place
    }

    /// Sets the coordinates of the place.
    pub fn set_coordinates(&mut self, latitude: &str, longitude: &str)
        ensures
            final(self).map matches Some(m) && is_text(m.latitude, latitude@) && is_text(m.longitude, longitude@),
            final(self).value == old(self).value,
            final(self).form == old(self).form,
    {
        self.map = Some(MapCoordinates::with_coordinates(latitude, longitude));
    }

    /// Whether the place has both a latitude and a longitude.
    pub fn has_coordinates(&self) -> (r: bool)
        ensures
            r == (self.map matches Some(m) && m.latitude is Some && m.longitude is Some),
    {
        match &self.map {
            Some(m) => m.is_complete(),
            None => false,
        }
    }

    /// Adds a phonetic spelling.
    pub fn add_phonetic(&mut self, variation: PlaceVariation)
        ensures
            final(self).phonetic@ == old(self).phonetic@.push(variation),
    {
        self.phonetic.push(variation);
    }

    /// Adds a romanized spelling.
    pub fn add_romanized(&mut self, variation: PlaceVariation)
        ensures
            final(self).romanized@ == old(self).romanized@.push(variation),
    {
        self.romanized.push(variation);
    }

    /// The jurisdictions of the place name: its pieces between commas, each
    /// without white space at its ends. None where the place has no name.
    pub fn jurisdictions(&self) -> (r: Vec<String>)
        ensures
            match self.value {
                Some(v) => string_views(r@) == split_trimmed(v@, ','),
                None => r@.len() == 0,
            },
    {
        match &self.value {
            Some(v) => split_and_trim(v.as_str(), ','),
            None => Vec::new(),
        }
    }
}

impl TagHandler for Place {
    open spec fn exact() -> bool {
        true
    }

    open spec fn tag_end(s: Seq<char>, st: TokState, t: Seq<char>, level: u8) -> Result<TokState, ()> {
        if t == "FORM"@ {
            value_end(s, st)
        } else if t == "MAP"@ {
            step_flat_end::<MapCoordinates>(s, st, spec_child_level(level))
        } else if t == "FONE"@ {
            value_flat_end::<PlaceVariation>(s, st, spec_child_level(level))
        } else if t == "ROMN"@ {
            value_flat_end::<PlaceVariation>(s, st, spec_child_level(level))
        } else if t == "NOTE"@ {
            shared_end(Shared::Note, s, st, spec_child_level(level))
        } else if t == "SOUR"@ {
            shared_end(Shared::Citation, s, st, spec_child_level(level))
        } else if t == "EXID"@ {
            value_end(s, st)
        } else {
            Err(())
        }
    }

    fn handle_tag(&mut self, tag: &str, tokenizer: &mut Tokenizer, level: u8) -> (r: Result<(), GedcomError>) {
        let sub = child_level(level);
        if str_eq(tag, "FORM") {
            self.form = Some(tokenizer.take_line_value()?);
        } else if str_eq(tag, "MAP") {
            self.map = Some(MapCoordinates::new(tokenizer, sub)?);
        } else if str_eq(tag, "FONE") {
            let v = PlaceVariation::new(tokenizer, sub)?;
            self.phonetic.push(v);
        } else if str_eq(tag, "ROMN") {
            let v = PlaceVariation::new(tokenizer, sub)?;
            self.romanized.push(v);
        } else if str_eq(tag, "NOTE") {
            let n = Note::new(tokenizer, sub)?;
            self.notes.push(n);
        } else if str_eq(tag, "SOUR") {
            let c = Citation::new(tokenizer, sub)?;
            self.citations.push(c);
        } else if str_eq(tag, "EXID") {
            let id = tokenizer.take_line_value()?;
            self.external_ids.push(id);
        } else {
            return Err(tag_error("Unhandled Place Tag: ", tag, tokenizer.line()));
        }
        Ok(())
    }
}

impl Parser for Place {
    fn parse(&mut self, tokenizer: &mut Tokenizer, level: u8) -> (r: Result<(), GedcomError>) 
        ensures
            r is Ok ==> at_level_end(*final(tokenizer), level),
            r is Ok <==> subset_end::<Place>(old(tokenizer).input(), old(tokenizer).state(), level) is Ok,
    {
        let custom = parse_subset(tokenizer, level, self)?;
        self.custom_data = custom;
        Ok(())
    }
}

} // verus!
