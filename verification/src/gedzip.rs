//! GEDZIP archives (GEDCOM 7): a ZIP archive whose `gedcom.ged` entry holds
//! the GEDCOM text, beside the media files that it refers to.
//!
//! The archive format is read by the `zip` crate; which entry is the GEDCOM
//! text, which entries are media files, and what each failure is called,
//! are decided here.
use vstd::prelude::*;
use vstd::string::StringExecFns;
use std::io::Read;
use crate::builder::GedcomBuilder;
use crate::encoding::{decode_gedcom_bytes, decoded, detected_encoding};
use crate::error::GedcomError;
use crate::text::{str_eq, string_views};
use crate::stream::initial_state;
use crate::tokenizer::step;
use crate::types::records::{holds_contents, holds_records, records_accepted, records_walk};
use crate::types::GedcomData;

verus! {

/// The name of the entry that holds the GEDCOM text.
pub const GEDCOM_FILENAME: &'static str = "gedcom.ged";

/// The error of the `zip` crate.
#[verifier::external_type_specification]
#[verifier::external_body]
pub struct ExZipError(zip::result::ZipError);

/// What can go wrong with a GEDZIP archive.
#[derive(Debug)]
pub enum GedzipError {
    /// The ZIP archive could not be read or written.
    ZipError(zip::result::ZipError),
    /// The archive has no `gedcom.ged` entry.
    MissingGedcomFile,
    /// The GEDCOM text could not be decoded or parsed.
    GedcomError(GedcomError),
    /// An I/O error while reading an entry.
    IoError(std::io::Error),
    /// A media file that was asked for is not in the archive.
    MissingMediaFile(String),
}

/// The names of the entries of the ZIP archive in `bytes`, in the order of
/// its central directory.
pub uninterp spec fn zip_entry_names(bytes: Seq<u8>) -> Seq<Seq<char>>;

/// The uncompressed contents of the entry `name` of the ZIP archive in
/// `bytes`.
pub uninterp spec fn zip_entry_data(bytes: Seq<u8>, name: Seq<char>) -> Seq<u8>;

/// Whether `zip::ZipArchive::new` reads the ZIP archive in `bytes` (its
/// central directory), which depends on the bytes alone.
pub uninterp spec fn zip_readable(bytes: Seq<u8>) -> bool;

/// Whether `ZipArchive::by_name` finds and opens the entry `name` of the ZIP
/// archive in `bytes`.
pub uninterp spec fn zip_entry_opens(bytes: Seq<u8>, name: Seq<char>) -> bool;

/// Whether `read_to_end` reads the whole of the entry `name` of the ZIP
/// archive in `bytes` (decompressing it and checking it).
pub uninterp spec fn zip_entry_reads(bytes: Seq<u8>, name: Seq<char>) -> bool;

/// `zip::ZipArchive::new` on the bytes, then `file_names`, collected. It
/// succeeds exactly when the archive is readable, named [`zip_readable`]; the
/// names are named [`zip_entry_names`]. Which error a failure gives is left
/// unsaid.
#[verifier::external_body]
fn archive_file_names(bytes: &[u8]) -> (r: Result<Vec<String>, zip::result::ZipError>)
    ensures
        r is Ok <==> zip_readable(bytes@),
        r matches Ok(v) ==> string_views(v@) == zip_entry_names(bytes@),
{
    let archive = zip::ZipArchive::new(std::io::Cursor::new(bytes))?;
    Ok(archive.file_names().map(String::from).collect())
}

/// `zip::ZipArchive::new` on the bytes, `by_name`, then `read_to_end`: the
/// outer error is that of the archive or of `by_name`, the inner one that of
/// reading. `by_name` looks the name up among the names of the entries, so an
/// entry that opens is one of them. The contents read are named
/// [`zip_entry_data`]; which error a failure gives is left unsaid.
#[verifier::external_body]
fn archive_entry(bytes: &[u8], name: &str) -> (r: Result<Result<Vec<u8>, std::io::Error>, zip::result::ZipError>)
    ensures
        r is Ok <==> (zip_readable(bytes@) && zip_entry_opens(bytes@, name@)),
        r is Ok ==> has_name(zip_entry_names(bytes@), name@),
        r matches Ok(Ok(_)) <==> (zip_readable(bytes@) && zip_entry_opens(bytes@, name@) && zip_entry_reads(bytes@, name@)),
        r matches Ok(Ok(v)) ==> v@ == zip_entry_data(bytes@, name@),
{
    let mut archive = zip::ZipArchive::new(std::io::Cursor::new(bytes))?;
    let mut file = archive.by_name(name)?;
    let mut out = Vec::new();
    match file.read_to_end(&mut out) {
        Ok(_) => Ok(Ok(out)),
        Err(e) => Ok(Err(e)),
    }
}

/// The message of an error of the `zip` crate (`ToString::to_string`).
/// Nothing is claimed of its text.
#[verifier::external_body]
fn zip_error_message(err: &zip::result::ZipError) -> String {
    err.to_string()
}

/// Whether `text` begins with `prefix`.
pub open spec fn begins_with(text: Seq<char>, prefix: Seq<char>) -> bool {
    text.len() >= prefix.len() && text.subrange(0, prefix.len() as int) == prefix
}

impl GedzipError {
    /// The message that describes this error to a person.
    pub fn to_display_string(&self) -> (r: String)
        ensures
            match self {
                GedzipError::ZipError(_) => begins_with(r@, "ZIP error: "@),
                GedzipError::MissingGedcomFile => r@ == "GEDZIP archive missing required gedcom.ged file"@,
                GedzipError::GedcomError(e) => r@ == "GEDCOM error: "@ + crate::error::error_text(*e),
                GedzipError::IoError(_) => begins_with(r@, "I/O error: "@),
                GedzipError::MissingMediaFile(name) => r@ == "Media file not found in archive: "@ + name@,
            },
    {
        match self {
            GedzipError::ZipError(e) => {
                let mut s = String::from_str("ZIP error: ");
                let m = zip_error_message(e);
                s.append(m.as_str());
                proof {
                    assert(s@.subrange(0, "ZIP error: "@.len() as int) =~= "ZIP error: "@);
                }
                s
            },
            GedzipError::MissingGedcomFile => String::from_str("GEDZIP archive missing required gedcom.ged file"),
            GedzipError::GedcomError(e) => {
                let mut s = String::from_str("GEDCOM error: ");
                let m = e.to_display_string();
                s.append(m.as_str());
                s
            },
            GedzipError::IoError(e) => {
                let mut s = String::from_str("I/O error: ");
                let m = crate::error::io_error_message(e);
                s.append(m.as_str());
                proof {
                    assert(s@.subrange(0, "I/O error: "@.len() as int) =~= "I/O error: "@);
                }
                s
            },
            GedzipError::MissingMediaFile(name) => {
                let mut s = String::from_str("Media file not found in archive: ");
                s.append(name.as_str());
                s
            },
        }
    }
}

/// Whether the entry `name` of the ZIP archive in `bytes` is read whole: the
/// archive is readable, the entry opens and its contents are read.
pub open spec fn entry_read(bytes: Seq<u8>, name: Seq<char>) -> bool {
    zip_readable(bytes) && zip_entry_opens(bytes, name) && zip_entry_reads(bytes, name)
}

/// Whether the GEDCOM entry of the archive in `bytes` is read, decoded and
/// parsed: the entry is read whole, its bytes decode to a text, and the
/// records of that text are read up to the trailer.
pub open spec fn gedcom_entry_parses(bytes: Seq<u8>) -> bool {
    let b = zip_entry_data(bytes, GEDCOM_FILENAME@);
    &&& entry_read(bytes, GEDCOM_FILENAME@)
    &&& decoded(b, detected_encoding(b)) matches Ok((t, _))
    &&& step(t, initial_state()) matches Ok(st1)
    &&& records_accepted(t, st1, 0)
}

/// Whether one of `names` is `name`.
pub open spec fn has_name(names: Seq<Seq<char>>, name: Seq<char>) -> bool {
    exists|i: int| 0 <= i < names.len() && names[i] == name
}

fn names_contain(names: &Vec<String>, name: &str) -> (r: bool)
    ensures
        r == has_name(string_views(names@), name@),
{
    let mut i: usize = 0;
    while i < names.len()
        invariant
            i <= names@.len(),
            forall|j: int| 0 <= j < i ==> string_views(names@)[j] != name@,
        decreases names@.len() - i,
    {
        if str_eq(names[i].as_str(), name) {
            assert(string_views(names@)[i as int] == name@);
            return true;
        }
        i = i + 1;
    }
    false
}

/// A GEDZIP archive, held as its bytes, with the names of its entries.
pub struct GedzipReader {
    bytes: Vec<u8>,
    file_names: Vec<String>,
}

impl GedzipReader {
    /// The bytes of the archive.
    pub closed spec fn archive(&self) -> Seq<u8> {
        self.bytes@
    }

    /// The names of the entries.
    pub closed spec fn names(&self) -> Seq<Seq<char>> {
        string_views(self.file_names@)
    }

    /// Opens an archive; it must have a `gedcom.ged` entry.
    pub fn new(bytes: Vec<u8>) -> (r: Result<Self, GedzipError>)
        ensures
            match r {
                Ok(g) => g.archive() == bytes@ && g.names() == zip_entry_names(bytes@)
                    && has_name(g.names(), GEDCOM_FILENAME@),
                Err(e) => e is ZipError || (e is MissingGedcomFile && !has_name(
                    zip_entry_names(bytes@),
                    GEDCOM_FILENAME@,
                )),
            },
            r is Ok <==> zip_readable(bytes@) && has_name(zip_entry_names(bytes@), GEDCOM_FILENAME@),
            r matches Err(e) ==> (e is ZipError <==> !zip_readable(bytes@)),
    {
        let file_names = match archive_file_names(bytes.as_slice()) {
            Ok(n) => n,
            Err(e) => return Err(GedzipError::ZipError(e)),
        };
        if !names_contain(&file_names, GEDCOM_FILENAME) {
            return Err(GedzipError::MissingGedcomFile);
        }
        Ok(GedzipReader { bytes, file_names })
    }

    /// The bytes of the `gedcom.ged` entry.
    pub fn read_gedcom_bytes(&mut self) -> (r: Result<Vec<u8>, GedzipError>)
        ensures
            *final(self) == *old(self),
            match r {
                Ok(v) => v@ == zip_entry_data(old(self).archive(), GEDCOM_FILENAME@),
                Err(e) => e is ZipError || e is IoError,
            },
            r is Ok <==> entry_read(old(self).archive(), GEDCOM_FILENAME@),
            r matches Err(e) ==> (e is ZipError <==> !(zip_readable(old(self).archive())
                && zip_entry_opens(old(self).archive(), GEDCOM_FILENAME@))),
    {
        match archive_entry(self.bytes.as_slice(), GEDCOM_FILENAME) {
            Ok(Ok(v)) => Ok(v),
            Ok(Err(e)) => Err(GedzipError::IoError(e)),
            Err(e) => Err(GedzipError::ZipError(e)),
        }
    }

    /// Reads the GEDCOM text of the archive: its bytes are decoded as
    /// [`decode_gedcom_bytes`] does, and the text is parsed. The records are
    /// those on the lines at level 0 of the decoded text.
    pub fn parse_gedcom(&mut self) -> (r: Result<GedcomData, GedzipError>)
        ensures
            *final(self) == *old(self),
            r is Ok <==> gedcom_entry_parses(old(self).archive()),
            r is Err ==> (r->Err_0 is ZipError || r->Err_0 is IoError || r->Err_0 is GedcomError),
            r matches Ok(d) ==> ({
                let b = zip_entry_data(old(self).archive(), GEDCOM_FILENAME@);
                &&& decoded(b, detected_encoding(b)) matches Ok((t, _))
                &&& step(t, initial_state()) matches Ok(st1)
                &&& records_accepted(t, st1, 0)
                &&& records_walk(t, st1, 0) matches Ok(recs)
                &&& holds_records(d, recs)
                &&& holds_contents(d, t, recs, 0)
            }),
    {
        let bytes = self.read_gedcom_bytes()?;
        let content = match decode_gedcom_bytes(bytes.as_slice()) {
            Ok((text, _)) => text,
            Err(e) => return Err(GedzipError::GedcomError(e)),
        };
        match GedcomBuilder::new().build_from_str(content.as_str()) {
            Ok(data) => Ok(data),
            Err(e) => Err(GedzipError::GedcomError(e)),
        }
    }

    /// The names of all entries.
    pub fn file_names(&self) -> (r: &[String])
        ensures
            string_views(r@) == self.names(),
    {
        self.file_names.as_slice()
    }

    /// The names of the entries other than `gedcom.ged`, in order.
    pub fn media_files(&self) -> (r: Vec<&str>)
        ensures
            r@.map_values(|s: &str| s@) == self.names().filter(|n: Seq<char>| n != GEDCOM_FILENAME@),
    {
        let ghost names = self.names();
        let mut out: Vec<&str> = Vec::new();
        let mut i: usize = 0;
        while i < self.file_names.len()
            invariant
                i <= self.file_names@.len(),
                names == string_views(self.file_names@),
                out@.map_values(|s: &str| s@) == names.take(i as int).filter(|n: Seq<char>| n != GEDCOM_FILENAME@),
            decreases self.file_names@.len() - i,
        {
            let name = self.file_names[i].as_str();
            let ghost before = out@;
            if !str_eq(name, GEDCOM_FILENAME) {
                out.push(name);
            }
            proof {
                assert(names.take(i + 1).drop_last() =~= names.take(i as int));
                assert(names.take(i + 1).last() == name@);
                names.take(i as int).lemma_filter_push(name@, |n: Seq<char>| n != GEDCOM_FILENAME@);
                assert(names.take(i as int).push(name@) =~= names.take(i + 1));
                assert(out@.map_values(|s: &str| s@) =~= (if name@ != GEDCOM_FILENAME@ {
                    before.map_values(|s: &str| s@).push(name@)
                } else {
                    before.map_values(|s: &str| s@)
                }));
            }
            i = i + 1;
        }
        proof {
            assert(names.take(names.len() as int) =~= names);
        }
        out
    }

    /// The bytes of the media file `name`; a name that the archive cannot
    /// give is a missing media file.
    pub fn read_media_file(&mut self, name: &str) -> (r: Result<Vec<u8>, GedzipError>)
        ensures
            *final(self) == *old(self),
            match r {
                Ok(v) => v@ == zip_entry_data(old(self).archive(), name@),
                Err(GedzipError::MissingMediaFile(n)) => n@ == name@,
                Err(e) => e is IoError,
            },
            r is Ok <==> entry_read(old(self).archive(), name@),
            r matches Err(e) ==> (e is MissingMediaFile <==> !(zip_readable(old(self).archive())
                && zip_entry_opens(old(self).archive(), name@))),
    {
        match archive_entry(self.bytes.as_slice(), name) {
            Ok(Ok(v)) => Ok(v),
            Ok(Err(e)) => Err(GedzipError::IoError(e)),
            Err(_) => Err(GedzipError::MissingMediaFile(String::from_str(name))),
        }
    }

    /// Whether the archive has an entry `name`.
    pub fn contains_file(&self, name: &str) -> (r: bool)
        ensures
            r == has_name(self.names(), name@),
    {
        names_contain(&self.file_names, name)
    }

    /// The number of entries.
    pub fn len(&self) -> (r: usize)
        ensures
            r == self.names().len(),
    {
        self.file_names.len()
    }

    /// Whether the archive holds nothing but the GEDCOM text.
    pub fn is_empty(&self) -> (r: bool)
        ensures
            r == (self.names().len() <= 1),
    {
        self.file_names.len() <= 1
    }
}

/// Reads the GEDCOM data of a GEDZIP archive held in memory.
pub fn read_gedzip(bytes: &[u8]) -> (r: Result<GedcomData, GedzipError>)
    ensures
        !has_name(zip_entry_names(bytes@), GEDCOM_FILENAME@) ==> r is Err,
        r is Ok <==> zip_readable(bytes@) && has_name(zip_entry_names(bytes@), GEDCOM_FILENAME@)
            && gedcom_entry_parses(bytes@),
        r matches Ok(d) ==> ({
            let b = zip_entry_data(bytes@, GEDCOM_FILENAME@);
            &&& decoded(b, detected_encoding(b)) matches Ok((t, _))
            &&& step(t, initial_state()) matches Ok(st1)
            &&& records_accepted(t, st1, 0)
            &&& records_walk(t, st1, 0) matches Ok(recs)
            &&& holds_records(d, recs)
            &&& holds_contents(d, t, recs, 0)
        }),
{
    let mut reader = GedzipReader::new(vstd::slice::slice_to_vec(bytes))?;
    reader.parse_gedcom()
}

} // verus!
