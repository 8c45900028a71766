//! Character encodings of GEDCOM files: detecting them, and converting
//! between them and Unicode text.
//!
//! The files come as UTF-8, UTF-16, ISO-8859-1, ISO-8859-15, ASCII or
//! ANSEL (Z39.47), the legacy encoding of GEDCOM 5.x.
use vstd::prelude::*;
use vstd::string::StringExecFns;
use vstd::utf8::{decode_utf8, valid_utf8};
use crate::error::GedcomError;

verus! {

// ---------------------------------------------------------------------------
// ANSEL tables.
// ---------------------------------------------------------------------------

/// The Unicode combining mark of an ANSEL diacritic byte (0xE0 to 0xFE).
pub open spec fn ansel_mark(byte: u8) -> Option<char> {
    match byte {
        0xE0 => Some('\u{0309}'),
        0xE1 => Some('\u{0300}'),
        0xE2 => Some('\u{0301}'),
        0xE3 => Some('\u{0302}'),
        0xE4 => Some('\u{0303}'),
        0xE5 => Some('\u{0304}'),
        0xE6 => Some('\u{0306}'),
        0xE7 => Some('\u{0307}'),
        0xE8 => Some('\u{0308}'),
        0xE9 => Some('\u{030C}'),
        0xEA => Some('\u{030A}'),
        0xEB => Some('\u{FE20}'),
        0xEC => Some('\u{FE21}'),
        0xED => Some('\u{0315}'),
        0xEE => Some('\u{030B}'),
        0xEF => Some('\u{0310}'),
        0xF0 => Some('\u{0327}'),
        0xF1 => Some('\u{0328}'),
        0xF2 => Some('\u{0323}'),
        0xF3 => Some('\u{0324}'),
        0xF4 => Some('\u{0325}'),
        0xF5 => Some('\u{0333}'),
        0xF6 => Some('\u{0332}'),
        0xF7 => Some('\u{0326}'),
        0xF8 => Some('\u{031C}'),
        0xF9 => Some('\u{032E}'),
        0xFA => Some('\u{FE22}'),
        0xFB => Some('\u{FE23}'),
        0xFE => Some('\u{0313}'),
        _ => None,
    }
}

/// The Unicode character of an ANSEL special character byte.
pub open spec fn ansel_special(byte: u8) -> Option<char> {
    match byte {
        0xA1 => Some('\u{0141}'),
        0xA2 => Some('\u{00D8}'),
        0xA3 => Some('\u{0110}'),
        0xA4 => Some('\u{00DE}'),
        0xA5 => Some('\u{00C6}'),
        0xA6 => Some('\u{0152}'),
        0xA7 => Some('\u{02B9}'),
        0xA8 => Some('\u{00B7}'),
        0xA9 => Some('\u{266D}'),
        0xAA => Some('\u{00AE}'),
        0xAB => Some('\u{00B1}'),
        0xAC => Some('\u{01A0}'),
        0xAD => Some('\u{01AF}'),
        0xAE => Some('\u{02BC}'),
        0xB0 => Some('\u{02BB}'),
        0xB1 => Some('\u{0142}'),
        0xB2 => Some('\u{00F8}'),
        0xB3 => Some('\u{0111}'),
        0xB4 => Some('\u{00FE}'),
        0xB5 => Some('\u{00E6}'),
        0xB6 => Some('\u{0153}'),
        0xB7 => Some('\u{02BA}'),
        0xB8 => Some('\u{0131}'),
        0xB9 => Some('\u{00A3}'),
        0xBA => Some('\u{00F0}'),
        0xBC => Some('\u{01A1}'),
        0xBD => Some('\u{01B0}'),
        0xC0 => Some('\u{00B0}'),
        0xC1 => Some('\u{2113}'),
        0xC2 => Some('\u{2117}'),
        0xC3 => Some('\u{00A9}'),
        0xC4 => Some('\u{266F}'),
        0xC5 => Some('\u{00BF}'),
        0xC6 => Some('\u{00A1}'),
        0xC7 => Some('\u{00DF}'),
        0xC8 => Some('\u{20AC}'),
        0xCD => Some('\u{0065}'),
        0xCE => Some('\u{006F}'),
        0xCF => Some('\u{00DF}'),
        0xFC => Some('\u{200D}'),
        0xFD => Some('\u{200C}'),
        _ => None,
    }
}

/// The ANSEL byte of a Unicode character that ANSEL writes as one byte:
/// its special characters and ASCII.
pub open spec fn ansel_base_byte(ch: char) -> Option<u8> {
    match ch {
        '\u{0141}' => Some(0xA1u8),
        '\u{00D8}' => Some(0xA2u8),
        '\u{0110}' => Some(0xA3u8),
        '\u{00DE}' => Some(0xA4u8),
        '\u{00C6}' => Some(0xA5u8),
        '\u{0152}' => Some(0xA6u8),
        '\u{02B9}' => Some(0xA7u8),
        '\u{00B7}' => Some(0xA8u8),
        '\u{266D}' => Some(0xA9u8),
        '\u{00AE}' => Some(0xAAu8),
        '\u{00B1}' => Some(0xABu8),
        '\u{01A0}' => Some(0xACu8),
        '\u{01AF}' => Some(0xADu8),
        '\u{02BC}' => Some(0xAEu8),
        '\u{02BB}' => Some(0xB0u8),
        '\u{0142}' => Some(0xB1u8),
        '\u{00F8}' => Some(0xB2u8),
        '\u{0111}' => Some(0xB3u8),
        '\u{00FE}' => Some(0xB4u8),
        '\u{00E6}' => Some(0xB5u8),
        '\u{0153}' => Some(0xB6u8),
        '\u{02BA}' => Some(0xB7u8),
        '\u{0131}' => Some(0xB8u8),
        '\u{00A3}' => Some(0xB9u8),
        '\u{00F0}' => Some(0xBAu8),
        '\u{01A1}' => Some(0xBCu8),
        '\u{01B0}' => Some(0xBDu8),
        '\u{00B0}' => Some(0xC0u8),
        '\u{2113}' => Some(0xC1u8),
        '\u{2117}' => Some(0xC2u8),
        '\u{00A9}' => Some(0xC3u8),
        '\u{266F}' => Some(0xC4u8),
        '\u{00BF}' => Some(0xC5u8),
        '\u{00A1}' => Some(0xC6u8),
        '\u{00DF}' => Some(0xC7u8),
        '\u{20AC}' => Some(0xC8u8),
        _ => if (ch as u32) < 128 { Some(ch as u8) } else { None },
    }
}

/// The ANSEL diacritic byte of a Unicode combining mark.
pub open spec fn ansel_mark_byte(ch: char) -> Option<u8> {
    match ch {
        '\u{0309}' => Some(0xE0u8),
        '\u{0300}' => Some(0xE1u8),
        '\u{0301}' => Some(0xE2u8),
        '\u{0302}' => Some(0xE3u8),
        '\u{0303}' => Some(0xE4u8),
        '\u{0304}' => Some(0xE5u8),
        '\u{0306}' => Some(0xE6u8),
        '\u{0307}' => Some(0xE7u8),
        '\u{0308}' => Some(0xE8u8),
        '\u{030C}' => Some(0xE9u8),
        '\u{030A}' => Some(0xEAu8),
        '\u{FE20}' => Some(0xEBu8),
        '\u{FE21}' => Some(0xECu8),
        '\u{0315}' => Some(0xEDu8),
        '\u{030B}' => Some(0xEEu8),
        '\u{0310}' => Some(0xEFu8),
        '\u{0327}' => Some(0xF0u8),
        '\u{0328}' => Some(0xF1u8),
        '\u{0323}' => Some(0xF2u8),
        '\u{0324}' => Some(0xF3u8),
        '\u{0325}' => Some(0xF4u8),
        '\u{0333}' => Some(0xF5u8),
        '\u{0332}' => Some(0xF6u8),
        '\u{0326}' => Some(0xF7u8),
        '\u{031C}' => Some(0xF8u8),
        '\u{032E}' => Some(0xF9u8),
        '\u{FE22}' => Some(0xFAu8),
        '\u{FE23}' => Some(0xFBu8),
        '\u{0313}' => Some(0xFEu8),
        _ => None,
    }
}

/// The ANSEL bytes (diacritic, then base letter) of a precomposed accented
/// Unicode letter.
pub open spec fn ansel_precomposed(ch: char) -> Option<(u8, u8)> {
    match ch {
        '\u{00C1}' => Some((0xE2u8, 0x41u8)),
        '\u{00E1}' => Some((0xE2u8, 0x61u8)),
        '\u{00C9}' => Some((0xE2u8, 0x45u8)),
        '\u{00E9}' => Some((0xE2u8, 0x65u8)),
        '\u{00CD}' => Some((0xE2u8, 0x49u8)),
        '\u{00ED}' => Some((0xE2u8, 0x69u8)),
        '\u{00D3}' => Some((0xE2u8, 0x4Fu8)),
        '\u{00F3}' => Some((0xE2u8, 0x6Fu8)),
        '\u{00DA}' => Some((0xE2u8, 0x55u8)),
        '\u{00FA}' => Some((0xE2u8, 0x75u8)),
        '\u{00DD}' => Some((0xE2u8, 0x59u8)),
        '\u{00FD}' => Some((0xE2u8, 0x79u8)),
        '\u{0106}' => Some((0xE2u8, 0x43u8)),
        '\u{0107}' => Some((0xE2u8, 0x63u8)),
        '\u{0143}' => Some((0xE2u8, 0x4Eu8)),
        '\u{0144}' => Some((0xE2u8, 0x6Eu8)),
        '\u{015A}' => Some((0xE2u8, 0x53u8)),
        '\u{015B}' => Some((0xE2u8, 0x73u8)),
        '\u{0179}' => Some((0xE2u8, 0x5Au8)),
        '\u{017A}' => Some((0xE2u8, 0x7Au8)),
        '\u{00C0}' => Some((0xE1u8, 0x41u8)),
        '\u{00E0}' => Some((0xE1u8, 0x61u8)),
        '\u{00C8}' => Some((0xE1u8, 0x45u8)),
        '\u{00E8}' => Some((0xE1u8, 0x65u8)),
        '\u{00CC}' => Some((0xE1u8, 0x49u8)),
        '\u{00EC}' => Some((0xE1u8, 0x69u8)),
        '\u{00D2}' => Some((0xE1u8, 0x4Fu8)),
        '\u{00F2}' => Some((0xE1u8, 0x6Fu8)),
        '\u{00D9}' => Some((0xE1u8, 0x55u8)),
        '\u{00F9}' => Some((0xE1u8, 0x75u8)),
        '\u{00C2}' => Some((0xE3u8, 0x41u8)),
        '\u{00E2}' => Some((0xE3u8, 0x61u8)),
        '\u{00CA}' => Some((0xE3u8, 0x45u8)),
        '\u{00EA}' => Some((0xE3u8, 0x65u8)),
        '\u{00CE}' => Some((0xE3u8, 0x49u8)),
        '\u{00EE}' => Some((0xE3u8, 0x69u8)),
        '\u{00D4}' => Some((0xE3u8, 0x4Fu8)),
        '\u{00F4}' => Some((0xE3u8, 0x6Fu8)),
        '\u{00DB}' => Some((0xE3u8, 0x55u8)),
        '\u{00FB}' => Some((0xE3u8, 0x75u8)),
        '\u{00C3}' => Some((0xE4u8, 0x41u8)),
        '\u{00E3}' => Some((0xE4u8, 0x61u8)),
        '\u{00D1}' => Some((0xE4u8, 0x4Eu8)),
        '\u{00F1}' => Some((0xE4u8, 0x6Eu8)),
        '\u{00D5}' => Some((0xE4u8, 0x4Fu8)),
        '\u{00F5}' => Some((0xE4u8, 0x6Fu8)),
        '\u{00C4}' => Some((0xE8u8, 0x41u8)),
        '\u{00E4}' => Some((0xE8u8, 0x61u8)),
        '\u{00CB}' => Some((0xE8u8, 0x45u8)),
        '\u{00EB}' => Some((0xE8u8, 0x65u8)),
        '\u{00CF}' => Some((0xE8u8, 0x49u8)),
        '\u{00EF}' => Some((0xE8u8, 0x69u8)),
        '\u{00D6}' => Some((0xE8u8, 0x4Fu8)),
        '\u{00F6}' => Some((0xE8u8, 0x6Fu8)),
        '\u{00DC}' => Some((0xE8u8, 0x55u8)),
        '\u{00FC}' => Some((0xE8u8, 0x75u8)),
        '\u{0178}' => Some((0xE8u8, 0x59u8)),
        '\u{00FF}' => Some((0xE8u8, 0x79u8)),
        '\u{010C}' => Some((0xE9u8, 0x43u8)),
        '\u{010D}' => Some((0xE9u8, 0x63u8)),
        '\u{011A}' => Some((0xE9u8, 0x45u8)),
        '\u{011B}' => Some((0xE9u8, 0x65u8)),
        '\u{0158}' => Some((0xE9u8, 0x52u8)),
        '\u{0159}' => Some((0xE9u8, 0x72u8)),
        '\u{0160}' => Some((0xE9u8, 0x53u8)),
        '\u{0161}' => Some((0xE9u8, 0x73u8)),
        '\u{017D}' => Some((0xE9u8, 0x5Au8)),
        '\u{017E}' => Some((0xE9u8, 0x7Au8)),
        '\u{00C5}' => Some((0xEAu8, 0x41u8)),
        '\u{00E5}' => Some((0xEAu8, 0x61u8)),
        '\u{016E}' => Some((0xEAu8, 0x55u8)),
        '\u{016F}' => Some((0xEAu8, 0x75u8)),
        '\u{00C7}' => Some((0xF0u8, 0x43u8)),
        '\u{00E7}' => Some((0xF0u8, 0x63u8)),
        '\u{015E}' => Some((0xF0u8, 0x53u8)),
        '\u{015F}' => Some((0xF0u8, 0x73u8)),
        '\u{0104}' => Some((0xF1u8, 0x41u8)),
        '\u{0105}' => Some((0xF1u8, 0x61u8)),
        '\u{0118}' => Some((0xF1u8, 0x45u8)),
        '\u{0119}' => Some((0xF1u8, 0x65u8)),
        '\u{0100}' => Some((0xE5u8, 0x41u8)),
        '\u{0101}' => Some((0xE5u8, 0x61u8)),
        '\u{0112}' => Some((0xE5u8, 0x45u8)),
        '\u{0113}' => Some((0xE5u8, 0x65u8)),
        '\u{012A}' => Some((0xE5u8, 0x49u8)),
        '\u{012B}' => Some((0xE5u8, 0x69u8)),
        '\u{014C}' => Some((0xE5u8, 0x4Fu8)),
        '\u{014D}' => Some((0xE5u8, 0x6Fu8)),
        '\u{016A}' => Some((0xE5u8, 0x55u8)),
        '\u{016B}' => Some((0xE5u8, 0x75u8)),
        '\u{0102}' => Some((0xE6u8, 0x41u8)),
        '\u{0103}' => Some((0xE6u8, 0x61u8)),
        '\u{017B}' => Some((0xE7u8, 0x5Au8)),
        '\u{017C}' => Some((0xE7u8, 0x7Au8)),
        '\u{0120}' => Some((0xE7u8, 0x47u8)),
        '\u{0121}' => Some((0xE7u8, 0x67u8)),
        '\u{0150}' => Some((0xEEu8, 0x4Fu8)),
        '\u{0151}' => Some((0xEEu8, 0x6Fu8)),
        '\u{0170}' => Some((0xEEu8, 0x55u8)),
        '\u{0171}' => Some((0xEEu8, 0x75u8)),
        _ => None,
    }
}

/// The canonical decomposition (Unicode NFD) of an accented Latin letter: its
/// base letter and its combining mark.
pub open spec fn canonical_decomposition(ch: char) -> Option<(char, char)> {
    match ch {
        '\u{00C1}' => Some(('\u{0041}', '\u{0301}')),
        '\u{00E1}' => Some(('\u{0061}', '\u{0301}')),
        '\u{00C9}' => Some(('\u{0045}', '\u{0301}')),
        '\u{00E9}' => Some(('\u{0065}', '\u{0301}')),
        '\u{00CD}' => Some(('\u{0049}', '\u{0301}')),
        '\u{00ED}' => Some(('\u{0069}', '\u{0301}')),
        '\u{00D3}' => Some(('\u{004F}', '\u{0301}')),
        '\u{00F3}' => Some(('\u{006F}', '\u{0301}')),
        '\u{00DA}' => Some(('\u{0055}', '\u{0301}')),
        '\u{00FA}' => Some(('\u{0075}', '\u{0301}')),
        '\u{00DD}' => Some(('\u{0059}', '\u{0301}')),
        '\u{00FD}' => Some(('\u{0079}', '\u{0301}')),
        '\u{0106}' => Some(('\u{0043}', '\u{0301}')),
        '\u{0107}' => Some(('\u{0063}', '\u{0301}')),
        '\u{0143}' => Some(('\u{004E}', '\u{0301}')),
        '\u{0144}' => Some(('\u{006E}', '\u{0301}')),
        '\u{015A}' => Some(('\u{0053}', '\u{0301}')),
        '\u{015B}' => Some(('\u{0073}', '\u{0301}')),
        '\u{0179}' => Some(('\u{005A}', '\u{0301}')),
        '\u{017A}' => Some(('\u{007A}', '\u{0301}')),
        '\u{00C0}' => Some(('\u{0041}', '\u{0300}')),
        '\u{00E0}' => Some(('\u{0061}', '\u{0300}')),
        '\u{00C8}' => Some(('\u{0045}', '\u{0300}')),
        '\u{00E8}' => Some(('\u{0065}', '\u{0300}')),
        '\u{00CC}' => Some(('\u{0049}', '\u{0300}')),
        '\u{00EC}' => Some(('\u{0069}', '\u{0300}')),
        '\u{00D2}' => Some(('\u{004F}', '\u{0300}')),
        '\u{00F2}' => Some(('\u{006F}', '\u{0300}')),
        '\u{00D9}' => Some(('\u{0055}', '\u{0300}')),
        '\u{00F9}' => Some(('\u{0075}', '\u{0300}')),
        '\u{00C2}' => Some(('\u{0041}', '\u{0302}')),
        '\u{00E2}' => Some(('\u{0061}', '\u{0302}')),
        '\u{00CA}' => Some(('\u{0045}', '\u{0302}')),
        '\u{00EA}' => Some(('\u{0065}', '\u{0302}')),
        '\u{00CE}' => Some(('\u{0049}', '\u{0302}')),
        '\u{00EE}' => Some(('\u{0069}', '\u{0302}')),
        '\u{00D4}' => Some(('\u{004F}', '\u{0302}')),
        '\u{00F4}' => Some(('\u{006F}', '\u{0302}')),
        '\u{00DB}' => Some(('\u{0055}', '\u{0302}')),
        '\u{00FB}' => Some(('\u{0075}', '\u{0302}')),
        '\u{00C3}' => Some(('\u{0041}', '\u{0303}')),
        '\u{00E3}' => Some(('\u{0061}', '\u{0303}')),
        '\u{00D1}' => Some(('\u{004E}', '\u{0303}')),
        '\u{00F1}' => Some(('\u{006E}', '\u{0303}')),
        '\u{00D5}' => Some(('\u{004F}', '\u{0303}')),
        '\u{00F5}' => Some(('\u{006F}', '\u{0303}')),
        '\u{00C4}' => Some(('\u{0041}', '\u{0308}')),
        '\u{00E4}' => Some(('\u{0061}', '\u{0308}')),
        '\u{00CB}' => Some(('\u{0045}', '\u{0308}')),
        '\u{00EB}' => Some(('\u{0065}', '\u{0308}')),
        '\u{00CF}' => Some(('\u{0049}', '\u{0308}')),
        '\u{00EF}' => Some(('\u{0069}', '\u{0308}')),
        '\u{00D6}' => Some(('\u{004F}', '\u{0308}')),
        '\u{00F6}' => Some(('\u{006F}', '\u{0308}')),
        '\u{00DC}' => Some(('\u{0055}', '\u{0308}')),
        '\u{00FC}' => Some(('\u{0075}', '\u{0308}')),
        '\u{0178}' => Some(('\u{0059}', '\u{0308}')),
        '\u{00FF}' => Some(('\u{0079}', '\u{0308}')),
        '\u{010C}' => Some(('\u{0043}', '\u{030C}')),
        '\u{010D}' => Some(('\u{0063}', '\u{030C}')),
        '\u{011A}' => Some(('\u{0045}', '\u{030C}')),
        '\u{011B}' => Some(('\u{0065}', '\u{030C}')),
        '\u{0158}' => Some(('\u{0052}', '\u{030C}')),
        '\u{0159}' => Some(('\u{0072}', '\u{030C}')),
        '\u{0160}' => Some(('\u{0053}', '\u{030C}')),
        '\u{0161}' => Some(('\u{0073}', '\u{030C}')),
        '\u{017D}' => Some(('\u{005A}', '\u{030C}')),
        '\u{017E}' => Some(('\u{007A}', '\u{030C}')),
        '\u{00C5}' => Some(('\u{0041}', '\u{030A}')),
        '\u{00E5}' => Some(('\u{0061}', '\u{030A}')),
        '\u{016E}' => Some(('\u{0055}', '\u{030A}')),
        '\u{016F}' => Some(('\u{0075}', '\u{030A}')),
        '\u{00C7}' => Some(('\u{0043}', '\u{0327}')),
        '\u{00E7}' => Some(('\u{0063}', '\u{0327}')),
        '\u{015E}' => Some(('\u{0053}', '\u{0327}')),
        '\u{015F}' => Some(('\u{0073}', '\u{0327}')),
        '\u{0104}' => Some(('\u{0041}', '\u{0328}')),
        '\u{0105}' => Some(('\u{0061}', '\u{0328}')),
        '\u{0118}' => Some(('\u{0045}', '\u{0328}')),
        '\u{0119}' => Some(('\u{0065}', '\u{0328}')),
        '\u{0100}' => Some(('\u{0041}', '\u{0304}')),
        '\u{0101}' => Some(('\u{0061}', '\u{0304}')),
        '\u{0112}' => Some(('\u{0045}', '\u{0304}')),
        '\u{0113}' => Some(('\u{0065}', '\u{0304}')),
        '\u{012A}' => Some(('\u{0049}', '\u{0304}')),
        '\u{012B}' => Some(('\u{0069}', '\u{0304}')),
        '\u{014C}' => Some(('\u{004F}', '\u{0304}')),
        '\u{014D}' => Some(('\u{006F}', '\u{0304}')),
        '\u{016A}' => Some(('\u{0055}', '\u{0304}')),
        '\u{016B}' => Some(('\u{0075}', '\u{0304}')),
        '\u{0102}' => Some(('\u{0041}', '\u{0306}')),
        '\u{0103}' => Some(('\u{0061}', '\u{0306}')),
        '\u{017B}' => Some(('\u{005A}', '\u{0307}')),
        '\u{017C}' => Some(('\u{007A}', '\u{0307}')),
        '\u{0120}' => Some(('\u{0047}', '\u{0307}')),
        '\u{0121}' => Some(('\u{0067}', '\u{0307}')),
        '\u{0150}' => Some(('\u{004F}', '\u{030B}')),
        '\u{0151}' => Some(('\u{006F}', '\u{030B}')),
        '\u{0170}' => Some(('\u{0055}', '\u{030B}')),
        '\u{0171}' => Some(('\u{0075}', '\u{030B}')),
        _ => None,
    }
}

/// ANSEL writes each precomposed accented letter as a diacritic and a base
/// letter that read back as the letter's canonical decomposition: the base
/// letter followed by its combining mark.
#[verifier::rlimit(100)]
#[verifier::spinoff_prover]
pub proof fn lemma_ansel_letter_decomposes(c: char)
    requires
        ansel_precomposed(c) is Some,
    ensures
        canonical_decomposition(c) matches Some((base, mark)) && ansel_text(ansel_bytes(seq![c])) == seq![base, mark],
{
    let s = seq![c];
    assert(marks_end(s, 1) == 1);
    assert(s.subrange(1, 1) =~= Seq::<char>::empty());
    assert(mark_bytes(Seq::<char>::empty()) =~= Seq::<u8>::empty());
    assert(ansel_bytes_from(s, 1) == Seq::<u8>::empty());
    let (d, b) = ansel_precomposed(c)->0;
    assert(ansel_base_byte(c) is None);
    assert(ansel_bytes(s) =~= seq![d, b]);
    let bytes = seq![d, b];
    assert(ansel_mark(b) is None);
    assert(ansel_text_from(bytes, 2, Seq::empty()) == Seq::<char>::empty());
    assert(ansel_text_from(bytes, 1, seq![ansel_mark(d)->0]) =~= seq![ansel_char(b), ansel_mark(d)->0]);
}

fn ansel_combining_mark(byte: u8) -> (r: Option<char>)
    ensures
        r == ansel_mark(byte),
{
    match byte {
        0xE0 => Some('\u{0309}'),
        0xE1 => Some('\u{0300}'),
        0xE2 => Some('\u{0301}'),
        0xE3 => Some('\u{0302}'),
        0xE4 => Some('\u{0303}'),
        0xE5 => Some('\u{0304}'),
        0xE6 => Some('\u{0306}'),
        0xE7 => Some('\u{0307}'),
        0xE8 => Some('\u{0308}'),
        0xE9 => Some('\u{030C}'),
        0xEA => Some('\u{030A}'),
        0xEB => Some('\u{FE20}'),
        0xEC => Some('\u{FE21}'),
        0xED => Some('\u{0315}'),
        0xEE => Some('\u{030B}'),
        0xEF => Some('\u{0310}'),
        0xF0 => Some('\u{0327}'),
        0xF1 => Some('\u{0328}'),
        0xF2 => Some('\u{0323}'),
        0xF3 => Some('\u{0324}'),
        0xF4 => Some('\u{0325}'),
        0xF5 => Some('\u{0333}'),
        0xF6 => Some('\u{0332}'),
        0xF7 => Some('\u{0326}'),
        0xF8 => Some('\u{031C}'),
        0xF9 => Some('\u{032E}'),
        0xFA => Some('\u{FE22}'),
        0xFB => Some('\u{FE23}'),
        0xFE => Some('\u{0313}'),
        _ => None,
    }
}

fn ansel_special_char(byte: u8) -> (r: Option<char>)
    ensures
        r == ansel_special(byte),
{
    match byte {
        0xA1 => Some('\u{0141}'),
        0xA2 => Some('\u{00D8}'),
        0xA3 => Some('\u{0110}'),
        0xA4 => Some('\u{00DE}'),
        0xA5 => Some('\u{00C6}'),
        0xA6 => Some('\u{0152}'),
        0xA7 => Some('\u{02B9}'),
        0xA8 => Some('\u{00B7}'),
        0xA9 => Some('\u{266D}'),
        0xAA => Some('\u{00AE}'),
        0xAB => Some('\u{00B1}'),
        0xAC => Some('\u{01A0}'),
        0xAD => Some('\u{01AF}'),
        0xAE => Some('\u{02BC}'),
        0xB0 => Some('\u{02BB}'),
        0xB1 => Some('\u{0142}'),
        0xB2 => Some('\u{00F8}'),
        0xB3 => Some('\u{0111}'),
        0xB4 => Some('\u{00FE}'),
        0xB5 => Some('\u{00E6}'),
        0xB6 => Some('\u{0153}'),
        0xB7 => Some('\u{02BA}'),
        0xB8 => Some('\u{0131}'),
        0xB9 => Some('\u{00A3}'),
        0xBA => Some('\u{00F0}'),
        0xBC => Some('\u{01A1}'),
        0xBD => Some('\u{01B0}'),
        0xC0 => Some('\u{00B0}'),
        0xC1 => Some('\u{2113}'),
        0xC2 => Some('\u{2117}'),
        0xC3 => Some('\u{00A9}'),
        0xC4 => Some('\u{266F}'),
        0xC5 => Some('\u{00BF}'),
        0xC6 => Some('\u{00A1}'),
        0xC7 => Some('\u{00DF}'),
        0xC8 => Some('\u{20AC}'),
        0xCD => Some('\u{0065}'),
        0xCE => Some('\u{006F}'),
        0xCF => Some('\u{00DF}'),
        0xFC => Some('\u{200D}'),
        0xFD => Some('\u{200C}'),
        _ => None,
    }
}

fn unicode_to_ansel_base(ch: char) -> (r: Option<u8>)
    ensures
        r == ansel_base_byte(ch),
{
    match ch {
        '\u{0141}' => Some(0xA1),
        '\u{00D8}' => Some(0xA2),
        '\u{0110}' => Some(0xA3),
        '\u{00DE}' => Some(0xA4),
        '\u{00C6}' => Some(0xA5),
        '\u{0152}' => Some(0xA6),
        '\u{02B9}' => Some(0xA7),
        '\u{00B7}' => Some(0xA8),
        '\u{266D}' => Some(0xA9),
        '\u{00AE}' => Some(0xAA),
        '\u{00B1}' => Some(0xAB),
        '\u{01A0}' => Some(0xAC),
        '\u{01AF}' => Some(0xAD),
        '\u{02BC}' => Some(0xAE),
        '\u{02BB}' => Some(0xB0),
        '\u{0142}' => Some(0xB1),
        '\u{00F8}' => Some(0xB2),
        '\u{0111}' => Some(0xB3),
        '\u{00FE}' => Some(0xB4),
        '\u{00E6}' => Some(0xB5),
        '\u{0153}' => Some(0xB6),
        '\u{02BA}' => Some(0xB7),
        '\u{0131}' => Some(0xB8),
        '\u{00A3}' => Some(0xB9),
        '\u{00F0}' => Some(0xBA),
        '\u{01A1}' => Some(0xBC),
        '\u{01B0}' => Some(0xBD),
        '\u{00B0}' => Some(0xC0),
        '\u{2113}' => Some(0xC1),
        '\u{2117}' => Some(0xC2),
        '\u{00A9}' => Some(0xC3),
        '\u{266F}' => Some(0xC4),
        '\u{00BF}' => Some(0xC5),
        '\u{00A1}' => Some(0xC6),
        '\u{00DF}' => Some(0xC7),
        '\u{20AC}' => Some(0xC8),
        _ => if (ch as u32) < 128 { Some(ch as u8) } else { None },
    }
}

fn unicode_combining_to_ansel(ch: char) -> (r: Option<u8>)
    ensures
        r == ansel_mark_byte(ch),
{
    match ch {
        '\u{0309}' => Some(0xE0),
        '\u{0300}' => Some(0xE1),
        '\u{0301}' => Some(0xE2),
        '\u{0302}' => Some(0xE3),
        '\u{0303}' => Some(0xE4),
        '\u{0304}' => Some(0xE5),
        '\u{0306}' => Some(0xE6),
        '\u{0307}' => Some(0xE7),
        '\u{0308}' => Some(0xE8),
        '\u{030C}' => Some(0xE9),
        '\u{030A}' => Some(0xEA),
        '\u{FE20}' => Some(0xEB),
        '\u{FE21}' => Some(0xEC),
        '\u{0315}' => Some(0xED),
        '\u{030B}' => Some(0xEE),
        '\u{0310}' => Some(0xEF),
        '\u{0327}' => Some(0xF0),
        '\u{0328}' => Some(0xF1),
        '\u{0323}' => Some(0xF2),
        '\u{0324}' => Some(0xF3),
        '\u{0325}' => Some(0xF4),
        '\u{0333}' => Some(0xF5),
        '\u{0332}' => Some(0xF6),
        '\u{0326}' => Some(0xF7),
        '\u{031C}' => Some(0xF8),
        '\u{032E}' => Some(0xF9),
        '\u{FE22}' => Some(0xFA),
        '\u{FE23}' => Some(0xFB),
        '\u{0313}' => Some(0xFE),
        _ => None,
    }
}

fn unicode_precomposed_to_ansel(ch: char) -> (r: Option<Vec<u8>>)
    ensures
        match ansel_precomposed(ch) {
            Some((d, b)) => r matches Some(v) && v@ == seq![d, b],
            None => r is None,
        },
{
    match ch {
        '\u{00C1}' => Some(vec![0xE2, 0x41]),
        '\u{00E1}' => Some(vec![0xE2, 0x61]),
        '\u{00C9}' => Some(vec![0xE2, 0x45]),
        '\u{00E9}' => Some(vec![0xE2, 0x65]),
        '\u{00CD}' => Some(vec![0xE2, 0x49]),
        '\u{00ED}' => Some(vec![0xE2, 0x69]),
        '\u{00D3}' => Some(vec![0xE2, 0x4F]),
        '\u{00F3}' => Some(vec![0xE2, 0x6F]),
        '\u{00DA}' => Some(vec![0xE2, 0x55]),
        '\u{00FA}' => Some(vec![0xE2, 0x75]),
        '\u{00DD}' => Some(vec![0xE2, 0x59]),
        '\u{00FD}' => Some(vec![0xE2, 0x79]),
        '\u{0106}' => Some(vec![0xE2, 0x43]),
        '\u{0107}' => Some(vec![0xE2, 0x63]),
        '\u{0143}' => Some(vec![0xE2, 0x4E]),
        '\u{0144}' => Some(vec![0xE2, 0x6E]),
        '\u{015A}' => Some(vec![0xE2, 0x53]),
        '\u{015B}' => Some(vec![0xE2, 0x73]),
        '\u{0179}' => Some(vec![0xE2, 0x5A]),
        '\u{017A}' => Some(vec![0xE2, 0x7A]),
        '\u{00C0}' => Some(vec![0xE1, 0x41]),
        '\u{00E0}' => Some(vec![0xE1, 0x61]),
        '\u{00C8}' => Some(vec![0xE1, 0x45]),
        '\u{00E8}' => Some(vec![0xE1, 0x65]),
        '\u{00CC}' => Some(vec![0xE1, 0x49]),
        '\u{00EC}' => Some(vec![0xE1, 0x69]),
        '\u{00D2}' => Some(vec![0xE1, 0x4F]),
        '\u{00F2}' => Some(vec![0xE1, 0x6F]),
        '\u{00D9}' => Some(vec![0xE1, 0x55]),
        '\u{00F9}' => Some(vec![0xE1, 0x75]),
        '\u{00C2}' => Some(vec![0xE3, 0x41]),
        '\u{00E2}' => Some(vec![0xE3, 0x61]),
        '\u{00CA}' => Some(vec![0xE3, 0x45]),
        '\u{00EA}' => Some(vec![0xE3, 0x65]),
        '\u{00CE}' => Some(vec![0xE3, 0x49]),
        '\u{00EE}' => Some(vec![0xE3, 0x69]),
        '\u{00D4}' => Some(vec![0xE3, 0x4F]),
        '\u{00F4}' => Some(vec![0xE3, 0x6F]),
        '\u{00DB}' => Some(vec![0xE3, 0x55]),
        '\u{00FB}' => Some(vec![0xE3, 0x75]),
        '\u{00C3}' => Some(vec![0xE4, 0x41]),
        '\u{00E3}' => Some(vec![0xE4, 0x61]),
        '\u{00D1}' => Some(vec![0xE4, 0x4E]),
        '\u{00F1}' => Some(vec![0xE4, 0x6E]),
        '\u{00D5}' => Some(vec![0xE4, 0x4F]),
        '\u{00F5}' => Some(vec![0xE4, 0x6F]),
        '\u{00C4}' => Some(vec![0xE8, 0x41]),
        '\u{00E4}' => Some(vec![0xE8, 0x61]),
        '\u{00CB}' => Some(vec![0xE8, 0x45]),
        '\u{00EB}' => Some(vec![0xE8, 0x65]),
        '\u{00CF}' => Some(vec![0xE8, 0x49]),
        '\u{00EF}' => Some(vec![0xE8, 0x69]),
        '\u{00D6}' => Some(vec![0xE8, 0x4F]),
        '\u{00F6}' => Some(vec![0xE8, 0x6F]),
        '\u{00DC}' => Some(vec![0xE8, 0x55]),
        '\u{00FC}' => Some(vec![0xE8, 0x75]),
        '\u{0178}' => Some(vec![0xE8, 0x59]),
        '\u{00FF}' => Some(vec![0xE8, 0x79]),
        '\u{010C}' => Some(vec![0xE9, 0x43]),
        '\u{010D}' => Some(vec![0xE9, 0x63]),
        '\u{011A}' => Some(vec![0xE9, 0x45]),
        '\u{011B}' => Some(vec![0xE9, 0x65]),
        '\u{0158}' => Some(vec![0xE9, 0x52]),
        '\u{0159}' => Some(vec![0xE9, 0x72]),
        '\u{0160}' => Some(vec![0xE9, 0x53]),
        '\u{0161}' => Some(vec![0xE9, 0x73]),
        '\u{017D}' => Some(vec![0xE9, 0x5A]),
        '\u{017E}' => Some(vec![0xE9, 0x7A]),
        '\u{00C5}' => Some(vec![0xEA, 0x41]),
        '\u{00E5}' => Some(vec![0xEA, 0x61]),
        '\u{016E}' => Some(vec![0xEA, 0x55]),
        '\u{016F}' => Some(vec![0xEA, 0x75]),
        '\u{00C7}' => Some(vec![0xF0, 0x43]),
        '\u{00E7}' => Some(vec![0xF0, 0x63]),
        '\u{015E}' => Some(vec![0xF0, 0x53]),
        '\u{015F}' => Some(vec![0xF0, 0x73]),
        '\u{0104}' => Some(vec![0xF1, 0x41]),
        '\u{0105}' => Some(vec![0xF1, 0x61]),
        '\u{0118}' => Some(vec![0xF1, 0x45]),
        '\u{0119}' => Some(vec![0xF1, 0x65]),
        '\u{0100}' => Some(vec![0xE5, 0x41]),
        '\u{0101}' => Some(vec![0xE5, 0x61]),
        '\u{0112}' => Some(vec![0xE5, 0x45]),
        '\u{0113}' => Some(vec![0xE5, 0x65]),
        '\u{012A}' => Some(vec![0xE5, 0x49]),
        '\u{012B}' => Some(vec![0xE5, 0x69]),
        '\u{014C}' => Some(vec![0xE5, 0x4F]),
        '\u{014D}' => Some(vec![0xE5, 0x6F]),
        '\u{016A}' => Some(vec![0xE5, 0x55]),
        '\u{016B}' => Some(vec![0xE5, 0x75]),
        '\u{0102}' => Some(vec![0xE6, 0x41]),
        '\u{0103}' => Some(vec![0xE6, 0x61]),
        '\u{017B}' => Some(vec![0xE7, 0x5A]),
        '\u{017C}' => Some(vec![0xE7, 0x7A]),
        '\u{0120}' => Some(vec![0xE7, 0x47]),
        '\u{0121}' => Some(vec![0xE7, 0x67]),
        '\u{0150}' => Some(vec![0xEE, 0x4F]),
        '\u{0151}' => Some(vec![0xEE, 0x6F]),
        '\u{0170}' => Some(vec![0xEE, 0x55]),
        '\u{0171}' => Some(vec![0xEE, 0x75]),
        _ => None,
    }
}

} // verus!

verus! {

// ---------------------------------------------------------------------------
// ANSEL decoding and encoding.
// ---------------------------------------------------------------------------

/// The character of an ANSEL byte that is not a diacritic: ASCII below
/// 0x80, a special character, or else the Latin-1 character of the byte.
pub open spec fn ansel_char(b: u8) -> char {
    if b < 0x80 {
        b as char
    } else {
        match ansel_special(b) {
            Some(c) => c,
            None => b as char,
        }
    }
}

/// The text of ANSEL bytes from `i` on, where `pending` holds the marks of
/// the diacritics read before `i`. ANSEL writes diacritics before the letter
/// they mark and Unicode after it, so each letter is followed by the marks
/// read before it; marks left at the end are written at the end.
pub open spec fn ansel_text_from(bytes: Seq<u8>, i: int, pending: Seq<char>) -> Seq<char>
    decreases bytes.len() - i,
{
    if i < 0 || i >= bytes.len() {
        pending
    } else {
        match ansel_mark(bytes[i]) {
            Some(m) => ansel_text_from(bytes, i + 1, pending.push(m)),
            None => seq![ansel_char(bytes[i])] + pending + ansel_text_from(bytes, i + 1, Seq::empty()),
        }
    }
}

/// The text of ANSEL bytes.
pub open spec fn ansel_text(bytes: Seq<u8>) -> Seq<char> {
    ansel_text_from(bytes, 0, Seq::empty())
}

/// Decodes ANSEL bytes to Unicode text, as [`ansel_text`] says.
pub fn decode_ansel(bytes: &[u8]) -> (r: Result<String, GedcomError>)
    ensures
        r matches Ok(s) && s@ == ansel_text(bytes@),
{
    let mut result = String::new();
    let mut pending: Vec<char> = Vec::new();
    let mut i: usize = 0;
    while i < bytes.len()
        invariant
            i <= bytes@.len(),
            result@ + ansel_text_from(bytes@, i as int, pending@) == ansel_text(bytes@),
        decreases bytes@.len() - i,
    {
        let byte = bytes[i];
        if let Some(combining) = ansel_combining_mark(byte) {
            pending.push(combining);
            i = i + 1;
            continue;
        }
        let ch = if byte < 0x80 {
            byte as char
        } else if let Some(special) = ansel_special_char(byte) {
            special
        } else {
            byte as char
        };
        let ghost before = result@;
        let ghost marks = pending@;
        crate::text::push_char(&mut result, ch);
        let mut k: usize = 0;
        while k < pending.len()
            invariant
                k <= pending@.len(),
                pending@ == marks,
                result@ == before.push(ch) + marks.subrange(0, k as int),
            decreases pending@.len() - k,
        {
            crate::text::push_char(&mut result, pending[k]);
            proof {
                assert(marks.subrange(0, k + 1) =~= marks.subrange(0, k as int).push(marks[k as int]));
            }
            k = k + 1;
        }
        proof {
            assert(marks.subrange(0, marks.len() as int) =~= marks);
            assert(result@ + ansel_text_from(bytes@, i + 1, Seq::empty())
                =~= before + (seq![ch] + marks + ansel_text_from(bytes@, i + 1, Seq::empty())));
        }
        pending = Vec::new();
        i = i + 1;
    }
    let ghost before = result@;
    let mut k: usize = 0;
    while k < pending.len()
        invariant
            k <= pending@.len(),
            result@ == before + pending@.subrange(0, k as int),
        decreases pending@.len() - k,
    {
        crate::text::push_char(&mut result, pending[k]);
        proof {
            assert(pending@.subrange(0, k + 1) =~= pending@.subrange(0, k as int).push(pending@[k as int]));
        }
        k = k + 1;
    }
    proof {
        assert(pending@.subrange(0, pending@.len() as int) =~= pending@);
    }
    Ok(result)
}

/// The end of the run of combining marks that begins at `i`.
pub open spec fn marks_end(s: Seq<char>, i: int) -> int
    decreases s.len() - i,
{
    if 0 <= i < s.len() && ansel_mark_byte(s[i]) is Some {
        marks_end(s, i + 1)
    } else {
        i
    }
}

proof fn lemma_marks_end(s: Seq<char>, i: int)
    requires
        0 <= i <= s.len(),
    ensures
        i <= marks_end(s, i) <= s.len(),
        forall|k: int| i <= k < marks_end(s, i) ==> ansel_mark_byte(#[trigger] s[k]) is Some,
        marks_end(s, i) < s.len() ==> ansel_mark_byte(s[marks_end(s, i)]) is None,
    decreases s.len() - i,
{
    if i < s.len() && ansel_mark_byte(s[i]) is Some {
        lemma_marks_end(s, i + 1);
    }
}

/// The diacritic bytes of a run of combining marks.
pub open spec fn mark_bytes(marks: Seq<char>) -> Seq<u8> {
    marks.map_values(|c: char| match ansel_mark_byte(c) {
        Some(b) => b,
        None => 0u8,
    })
}

/// The ANSEL bytes of a letter: its one byte, the diacritic and base of a
/// precomposed letter, or `?` for a character that ANSEL cannot write.
pub open spec fn ansel_letter_bytes(ch: char) -> Seq<u8> {
    match ansel_base_byte(ch) {
        Some(b) => seq![b],
        None => match ansel_precomposed(ch) {
            Some((d, b)) => seq![d, b],
            None => seq![0x3Fu8],
        },
    }
}

/// The ANSEL bytes of a text from `i` on: each letter is written after the
/// diacritics of the combining marks that follow it.
pub open spec fn ansel_bytes_from(s: Seq<char>, i: int) -> Seq<u8>
    decreases s.len() - i,
{
    if i < 0 || i >= s.len() {
        Seq::empty()
    } else {
        let k = marks_end(s, i + 1);
        if k <= i || k > s.len() {
            Seq::empty()
        } else {
            mark_bytes(s.subrange(i + 1, k)) + ansel_letter_bytes(s[i]) + ansel_bytes_from(s, k)
        }
    }
}

/// The ANSEL bytes of a text.
pub open spec fn ansel_bytes(s: Seq<char>) -> Seq<u8> {
    ansel_bytes_from(s, 0)
}

/// Encodes a text as ANSEL bytes, as [`ansel_bytes`] says.
pub fn encode_ansel(content: &str) -> (r: Result<Vec<u8>, GedcomError>)
    ensures
        r matches Ok(v) && v@ == ansel_bytes(content@),
{
    let chars = crate::text::chars_of(content);
    let ghost s = chars@;
    let mut result: Vec<u8> = Vec::new();
    let mut i: usize = 0;
    while i < chars.len()
        invariant
            i <= chars@.len(),
            s == chars@,
            result@ + ansel_bytes_from(s, i as int) == ansel_bytes(s),
        decreases chars@.len() - i,
    {
        let ch = chars[i];
        let base_byte = unicode_to_ansel_base(ch);
        let mut marks: Vec<u8> = Vec::new();
        let mut j: usize = i + 1;
        proof {
            lemma_marks_end(s, i + 1);
        }
        while j < chars.len() && unicode_combining_to_ansel(chars[j]).is_some()
            invariant
                i + 1 <= j <= chars@.len(),
                s == chars@,
                marks_end(s, j as int) == marks_end(s, i + 1),
                marks@ == mark_bytes(s.subrange(i + 1, j as int)),
            decreases chars@.len() - j,
        {
            let ghost before = marks@;
            match unicode_combining_to_ansel(chars[j]) {
                Some(d) => {
                    marks.push(d);
                },
                None => {},
            }
            proof {
                assert(s.subrange(i + 1, j + 1) =~= s.subrange(i + 1, j as int).push(s[j as int]));
                assert(marks@ =~= mark_bytes(s.subrange(i + 1, j + 1)));
            }
            j = j + 1;
        }
        let ghost r0 = result@;
        let mut k: usize = 0;
        while k < marks.len()
            invariant
                k <= marks@.len(),
                result@ == r0 + marks@.subrange(0, k as int),
            decreases marks@.len() - k,
        {
            result.push(marks[k]);
            proof {
                assert(marks@.subrange(0, k + 1) =~= marks@.subrange(0, k as int).push(marks@[k as int]));
            }
            k = k + 1;
        }
        proof {
            assert(marks@.subrange(0, marks@.len() as int) =~= marks@);
        }
        let ghost r1 = result@;
        if let Some(byte) = base_byte {
            result.push(byte);
            proof {
                assert(result@ =~= r1 + ansel_letter_bytes(ch));
            }
        } else {
            if let Some(bytes) = unicode_precomposed_to_ansel(ch) {
                result.push(bytes[0]);
                result.push(bytes[1]);
                proof {
                    assert(result@ =~= r1 + ansel_letter_bytes(ch));
                }
            } else if (ch as u32) < 128 {
                result.push(ch as u8);
            } else {
                result.push(0x3F);
                proof {
                    assert(result@ =~= r1 + ansel_letter_bytes(ch));
                }
            }
        }
        proof {
            assert(result@ + ansel_bytes_from(s, j as int)
                =~= r0 + (mark_bytes(s.subrange(i + 1, j as int)) + ansel_letter_bytes(ch) + ansel_bytes_from(s, j as int)));
        }
        i = j;
    }
    proof {
        assert(result@ + ansel_bytes_from(s, i as int) =~= result@);
    }
    Ok(result)
}

} // verus!

verus! {

// ---------------------------------------------------------------------------
// Encodings, and the conversions that outside code makes.
// ---------------------------------------------------------------------------

/// The encoding of a GEDCOM file, detected or declared.
#[derive(Clone, Copy, Debug, PartialEq, Eq, Structural)]
pub enum GedcomEncoding {
    Utf8,
    Utf16Le,
    Utf16Be,
    Iso8859_1,
    Iso8859_15,
    Ascii,
    Ansel,
    Unknown,
}

/// The name of an encoding.
pub open spec fn encoding_name(e: GedcomEncoding) -> Seq<char> {
    match e {
        GedcomEncoding::Utf8 => "UTF-8"@,
        GedcomEncoding::Utf16Le => "UTF-16LE"@,
        GedcomEncoding::Utf16Be => "UTF-16BE"@,
        GedcomEncoding::Iso8859_1 => "ISO-8859-1"@,
        GedcomEncoding::Iso8859_15 => "ISO-8859-15"@,
        GedcomEncoding::Ascii => "ASCII"@,
        GedcomEncoding::Ansel => "ANSEL"@,
        GedcomEncoding::Unknown => "Unknown"@,
    }
}

impl GedcomEncoding {
    /// The name of this encoding.
    pub fn to_display_string(&self) -> (r: String)
        ensures
            r@ == encoding_name(*self),
    {
        match self {
            GedcomEncoding::Utf8 => String::from_str("UTF-8"),
            GedcomEncoding::Utf16Le => String::from_str("UTF-16LE"),
            GedcomEncoding::Utf16Be => String::from_str("UTF-16BE"),
            GedcomEncoding::Iso8859_1 => String::from_str("ISO-8859-1"),
            GedcomEncoding::Iso8859_15 => String::from_str("ISO-8859-15"),
            GedcomEncoding::Ascii => String::from_str("ASCII"),
            GedcomEncoding::Ansel => String::from_str("ANSEL"),
            GedcomEncoding::Unknown => String::from_str("Unknown"),
        }
    }
}

/// The character sets that `encoding_rs` converts for this library:
/// Windows-1252 (which this library reads ISO-8859-1 as), ISO-8859-15, and
/// UTF-16 in either byte order.
#[derive(Clone, Copy, Debug, PartialEq, Eq, Structural)]
pub enum Charset {
    Windows1252,
    Iso8859_15,
    Utf16Le,
    Utf16Be,
}

/// Whether a character set writes one byte per character.
pub open spec fn single_byte(c: Charset) -> bool {
    c == Charset::Windows1252 || c == Charset::Iso8859_15
}

/// The characters of ASCII bytes.
pub open spec fn ascii_chars(bytes: Seq<u8>) -> Seq<char> {
    bytes.map_values(|b: u8| b as char)
}

/// The bytes of ASCII characters.
pub open spec fn ascii_bytes(s: Seq<char>) -> Seq<u8> {
    s.map_values(|c: char| c as u8)
}

/// Whether all bytes are below 0x80.
pub open spec fn all_ascii_bytes(bytes: Seq<u8>) -> bool {
    forall|i: int| 0 <= i < bytes.len() ==> #[trigger] bytes[i] < 0x80
}

/// The text, and whether malformed sequences were replaced, that
/// `encoding_rs::Encoding::decode` gives for `bytes` in `charset`.
pub uninterp spec fn charset_decoded(charset: Charset, bytes: Seq<u8>) -> (Seq<char>, bool);

/// The bytes, and whether unmappable characters were replaced, that
/// `encoding_rs::Encoding::encode` gives for `text` in `charset`.
pub uninterp spec fn charset_encoded(charset: Charset, text: Seq<char>) -> (Seq<u8>, bool);

/// Whether a character set is big-endian UTF-16.
pub open spec fn big_endian_charset(c: Charset) -> bool {
    c == Charset::Utf16Be
}

/// Whether an encoding is big-endian UTF-16.
pub open spec fn encoding_big_endian(e: GedcomEncoding) -> bool {
    e == GedcomEncoding::Utf16Be
}

/// Whether bytes begin with one of the byte order marks that
/// `encoding_rs::Encoding::for_bom` looks for (UTF-8, UTF-16LE, UTF-16BE).
pub open spec fn begins_with_bom(b: Seq<u8>) -> bool {
    ||| (b.len() >= 3 && b[0] == 0xEF && b[1] == 0xBB && b[2] == 0xBF)
    ||| (b.len() >= 2 && b[0] == 0xFF && b[1] == 0xFE)
    ||| (b.len() >= 2 && b[0] == 0xFE && b[1] == 0xFF)
}

/// `encoding_rs::Encoding::decode` on the encoding of `charset`: the decoded
/// text and whether malformed sequences were replaced. The result is named
/// [`charset_decoded`]. For a single-byte character set, ASCII bytes are
/// read as the same ASCII characters without errors (the source reads an
/// all-ASCII input as it is, after checking that it starts with no byte
/// order mark). For UTF-16, bytes that begin with no byte order mark (else
/// `decode` sniffs and drops it) and are the code units of a text in the
/// charset's order are read as that text without errors (the UTF-16
/// decoder of the Encoding Standard). What other bytes give is left unsaid.
/// The source panics only where the size of the buffer to allocate
/// overflows `usize` (inputs of more than a third of the address space);
/// that, like a failed allocation, is left out of this contract.
#[verifier::external_body]
fn decode_charset(charset: Charset, bytes: &[u8]) -> (r: (String, bool))
    ensures
        (r.0@, r.1) == charset_decoded(charset, bytes@),
        single_byte(charset) && all_ascii_bytes(bytes@) ==> r.0@ == ascii_chars(bytes@) && !r.1,
        (charset == Charset::Utf16Le || charset == Charset::Utf16Be) && !begins_with_bom(bytes@)
            ==> forall|t: Seq<char>| #[trigger] utf16_bytes(t, big_endian_charset(charset)) == bytes@
            ==> r.0@ == t && !r.1,
{
    let encoding = match charset {
        Charset::Windows1252 => encoding_rs::WINDOWS_1252,
        Charset::Iso8859_15 => encoding_rs::ISO_8859_15,
        Charset::Utf16Le => encoding_rs::UTF_16LE,
        Charset::Utf16Be => encoding_rs::UTF_16BE,
    };
    let (text, _, had_errors) = encoding.decode(bytes);
    (text.into_owned(), had_errors)
}

/// `encoding_rs::Encoding::encode` on the encoding of `charset`: the encoded
/// bytes and whether unmappable characters were replaced. The result is
/// named [`charset_encoded`]. For a single-byte character set, an ASCII text
/// is written as its ASCII bytes without errors (the source returns an
/// all-ASCII input as it is). What other characters give is left unsaid.
#[verifier::external_body]
fn encode_charset(charset: Charset, text: &str) -> (r: (Vec<u8>, bool))
    ensures
        (r.0@, r.1) == charset_encoded(charset, text@),
        single_byte(charset) && crate::text::all_ascii(text@) ==> r.0@ == ascii_bytes(text@) && !r.1,
{
    let encoding = match charset {
        Charset::Windows1252 => encoding_rs::WINDOWS_1252,
        Charset::Iso8859_15 => encoding_rs::ISO_8859_15,
        Charset::Utf16Le => encoding_rs::UTF_16LE,
        Charset::Utf16Be => encoding_rs::UTF_16BE,
    };
    let (bytes, _, had_errors) = encoding.encode(text);
    (bytes.into_owned(), had_errors)
}

/// The error of `String::from_utf8`.
#[verifier::external_type_specification]
#[verifier::external_body]
pub struct ExFromUtf8Error(std::string::FromUtf8Error);

/// `String::from_utf8` on a copy of `bytes`: the text, when the bytes are
/// valid UTF-8, as its documentation says.
#[verifier::external_body]
fn string_from_utf8(bytes: &[u8]) -> (r: Result<String, std::string::FromUtf8Error>)
    ensures
        r is Ok <==> valid_utf8(bytes@),
        r matches Ok(s) ==> s@ == decode_utf8(bytes@),
{
    String::from_utf8(bytes.to_vec())
}

/// The message of a `FromUtf8Error` (its `Display`). Its text, which says
/// where the invalid sequence is, is left unsaid.
#[verifier::external_body]
fn utf8_error_text(e: &std::string::FromUtf8Error) -> String {
    e.to_string()
}

} // verus!

verus! {

// ---------------------------------------------------------------------------
// Detection.
// ---------------------------------------------------------------------------

/// The encoding that an uppercase `CHAR` value names.
pub open spec fn encoding_of_value(u: Seq<char>) -> Option<GedcomEncoding> {
    if u == "UTF-8"@ || u == "UTF8"@ {
        Some(GedcomEncoding::Utf8)
    } else if u == "UTF-16"@ || u == "UTF16"@ || u == "UNICODE"@ || u == "UTF-16LE"@ || u == "UTF16LE"@ {
        Some(GedcomEncoding::Utf16Le)
    } else if u == "UTF-16BE"@ || u == "UTF16BE"@ {
        Some(GedcomEncoding::Utf16Be)
    } else if u == "ISO-8859-1"@ || u == "ISO8859-1"@ || u == "LATIN1"@ || u == "ISO_8859-1"@ {
        Some(GedcomEncoding::Iso8859_1)
    } else if u == "ISO-8859-15"@ || u == "ISO8859-15"@ || u == "LATIN9"@ || u == "ISO_8859-15"@ {
        Some(GedcomEncoding::Iso8859_15)
    } else if u == "ASCII"@ || u == "ANSI"@ {
        Some(GedcomEncoding::Ascii)
    } else if u == "ANSEL"@ {
        Some(GedcomEncoding::Ansel)
    } else {
        None
    }
}

/// Reads a `CHAR` value, in any case.
pub fn parse_encoding_value(value: &str) -> (r: Option<GedcomEncoding>)
    ensures
        r == encoding_of_value(crate::text::uppercase(value@)),
{
    let upper = crate::text::to_uppercase(value);
    let u = upper.as_str();
    if crate::text::str_eq(u, "UTF-8") || crate::text::str_eq(u, "UTF8") {
        Some(GedcomEncoding::Utf8)
    } else if crate::text::str_eq(u, "UTF-16") || crate::text::str_eq(u, "UTF16") || crate::text::str_eq(u, "UNICODE")
        || crate::text::str_eq(u, "UTF-16LE") || crate::text::str_eq(u, "UTF16LE") {
        Some(GedcomEncoding::Utf16Le)
    } else if crate::text::str_eq(u, "UTF-16BE") || crate::text::str_eq(u, "UTF16BE") {
        Some(GedcomEncoding::Utf16Be)
    } else if crate::text::str_eq(u, "ISO-8859-1") || crate::text::str_eq(u, "ISO8859-1") || crate::text::str_eq(u, "LATIN1")
        || crate::text::str_eq(u, "ISO_8859-1") {
        Some(GedcomEncoding::Iso8859_1)
    } else if crate::text::str_eq(u, "ISO-8859-15") || crate::text::str_eq(u, "ISO8859-15") || crate::text::str_eq(u, "LATIN9")
        || crate::text::str_eq(u, "ISO_8859-15") {
        Some(GedcomEncoding::Iso8859_15)
    } else if crate::text::str_eq(u, "ASCII") || crate::text::str_eq(u, "ANSI") {
        Some(GedcomEncoding::Ascii)
    } else if crate::text::str_eq(u, "ANSEL") {
        Some(GedcomEncoding::Ansel)
    } else {
        None
    }
}

/// The encoding that the first of the lines `ls[i..]` among the first 50
/// declares: a line that holds `CHAR` and whose second word is `CHAR` gives
/// the encoding its third word names (possibly none).
pub open spec fn char_tag_in(ls: Seq<Seq<char>>, i: int) -> Option<GedcomEncoding>
    decreases ls.len() - i,
{
    if i < 0 || i >= ls.len() || i >= 50 {
        None
    } else {
        let t = crate::text::trimmed(ls[i]);
        let w = crate::text::words(t);
        if crate::text::has_substring(t, "CHAR"@) && w.len() >= 3 && w[1] == "CHAR"@ {
            encoding_of_value(crate::text::uppercase(w[2]))
        } else {
            char_tag_in(ls, i + 1)
        }
    }
}

/// The text in which the `CHAR` line is looked for: the bytes as UTF-8 if
/// they are valid UTF-8, else their first 4096 bytes as Windows-1252.
pub open spec fn char_tag_text(bytes: Seq<u8>) -> Seq<char> {
    if valid_utf8(bytes) {
        decode_utf8(bytes)
    } else {
        let n = if bytes.len() < 4096 { bytes.len() as int } else { 4096 };
        charset_decoded(Charset::Windows1252, bytes.subrange(0, n)).0
    }
}

/// The encoding that the `CHAR` line of a file declares, if any.
pub open spec fn char_tag_encoding(bytes: Seq<u8>) -> Option<GedcomEncoding> {
    char_tag_in(crate::text::lines_of(crate::text::uppercase(char_tag_text(bytes))), 0)
}

/// Detects the encoding that the `CHAR` line of the header declares.
pub fn detect_encoding_from_char_tag(bytes: &[u8]) -> (r: Option<GedcomEncoding>)
    ensures
        r == char_tag_encoding(bytes@),
{
    let content = match string_from_utf8(bytes) {
        Ok(s) => s,
        Err(_) => {
            let n = if bytes.len() < 4096 { bytes.len() } else { 4096 };
            let sample = &bytes[0..n];
            let (decoded, _) = decode_charset(Charset::Windows1252, sample);
            decoded
        },
    };
    let upper = crate::text::to_uppercase(content.as_str());
    let ls = crate::text::lines(upper.as_str());
    let ghost lv = crate::text::string_views(ls@);
    let mut i: usize = 0;
    while i < ls.len() && i < 50
        invariant
            i <= ls@.len(),
            lv == crate::text::string_views(ls@),
            lv == crate::text::lines_of(crate::text::uppercase(char_tag_text(bytes@))),
            char_tag_in(lv, i as int) == char_tag_encoding(bytes@),
        decreases ls@.len() - i,
    {
        let trimmed = crate::text::trim(ls[i].as_str());
        if crate::text::contains_text(trimmed.as_str(), "CHAR") {
            let parts = crate::text::split_whitespace(trimmed.as_str());
            proof {
                assert(crate::text::string_views(parts@).len() == parts@.len());
            }
            if parts.len() >= 3 && crate::text::str_eq(parts[1].as_str(), "CHAR") {
                proof {
                    assert(crate::text::string_views(parts@)[1] == parts@[1]@);
                    assert(crate::text::string_views(parts@)[2] == parts@[2]@);
                }
                return parse_encoding_value(parts[2].as_str());
            }
            proof {
                if parts@.len() >= 3 {
                    assert(crate::text::string_views(parts@)[1] == parts@[1]@);
                }
            }
        }
        i = i + 1;
    }
    None
}

/// Whether one of the first 100 pairs of bytes holds an ASCII byte then a
/// zero byte (UTF-16 little-endian text), or, for `big_endian`, a zero byte
/// then an ASCII byte.
pub open spec fn utf16_hint(bytes: Seq<u8>, big_endian: bool) -> bool {
    exists|k: int| 0 <= k < 100 && 2 * k + 1 < bytes.len() && #[trigger] pair_hint(bytes, k, big_endian)
}

/// Whether the `k`-th pair of bytes looks like UTF-16 text of the given order.
pub open spec fn pair_hint(bytes: Seq<u8>, k: int, big_endian: bool) -> bool {
    if big_endian {
        bytes[2 * k] == 0 && bytes[2 * k + 1] < 0x80
    } else {
        bytes[2 * k + 1] == 0 && bytes[2 * k] < 0x80
    }
}

/// The encoding that the bytes of a file look like: ASCII or UTF-8 when
/// they are valid UTF-8, UTF-16 when zero bytes fall on one side of the
/// pairs only, and ISO-8859-1 otherwise.
pub open spec fn content_encoding(bytes: Seq<u8>) -> GedcomEncoding {
    if valid_utf8(bytes) {
        if all_ascii_bytes(bytes) { GedcomEncoding::Ascii } else { GedcomEncoding::Utf8 }
    } else if bytes.len() >= 4 && utf16_hint(bytes, false) && !utf16_hint(bytes, true) {
        GedcomEncoding::Utf16Le
    } else if bytes.len() >= 4 && utf16_hint(bytes, true) && !utf16_hint(bytes, false) {
        GedcomEncoding::Utf16Be
    } else {
        GedcomEncoding::Iso8859_1
    }
}

/// Detects the encoding of a file from its bytes alone.
pub fn detect_encoding_by_content(bytes: &[u8]) -> (r: GedcomEncoding)
    ensures
        r == content_encoding(bytes@),
        !valid_utf8(bytes@) && bytes@.len() >= 4 && utf16_hint(bytes@, false) && !utf16_hint(bytes@, true)
            ==> r == GedcomEncoding::Utf16Le,
        !valid_utf8(bytes@) && bytes@.len() >= 4 && utf16_hint(bytes@, true) && !utf16_hint(bytes@, false)
            ==> r == GedcomEncoding::Utf16Be,
{
    proof {
        lemma_content_byte_order(bytes@);
    }
    if string_from_utf8(bytes).is_ok() {
        let mut i: usize = 0;
        while i < bytes.len()
            invariant
                i <= bytes@.len(),
                valid_utf8(bytes@),
                forall|j: int| 0 <= j < i ==> #[trigger] bytes@[j] < 0x80,
            decreases bytes@.len() - i,
        {
            if bytes[i] >= 0x80 {
                return GedcomEncoding::Utf8;
            }
            i = i + 1;
        }
        return GedcomEncoding::Ascii;
    }
    if bytes.len() >= 4 {
        let mut le = false;
        let mut be = false;
        let mut k: usize = 0;
        while k < 100 && k < bytes.len() / 2
            invariant
                k <= 100,
                2 * k <= bytes@.len(),
                le == exists|j: int| 0 <= j < k && 2 * j + 1 < bytes@.len() && #[trigger] pair_hint(bytes@, j, false),
                be == exists|j: int| 0 <= j < k && 2 * j + 1 < bytes@.len() && #[trigger] pair_hint(bytes@, j, true),
            decreases 100 - k,
        {
            if bytes[2 * k + 1] == 0 && bytes[2 * k] < 0x80 {
                le = true;
                assert(pair_hint(bytes@, k as int, false));
            }
            if bytes[2 * k] == 0 && bytes[2 * k + 1] < 0x80 {
                be = true;
                assert(pair_hint(bytes@, k as int, true));
            }
            k = k + 1;
        }
        proof {
            assert(le == utf16_hint(bytes@, false));
            assert(be == utf16_hint(bytes@, true));
        }
        if le && !be {
            return GedcomEncoding::Utf16Le;
        }
        if be && !le {
            return GedcomEncoding::Utf16Be;
        }
    }
    GedcomEncoding::Iso8859_1
}

/// The encoding of a file: a byte order mark says it first; then the `CHAR`
/// line of the header; then the bytes themselves.
pub open spec fn detected_encoding(b: Seq<u8>) -> GedcomEncoding {
    if b.len() >= 3 && b[0] == 0xEF && b[1] == 0xBB && b[2] == 0xBF {
        GedcomEncoding::Utf8
    } else if b.len() >= 2 && b[0] == 0xFF && b[1] == 0xFE {
        GedcomEncoding::Utf16Le
    } else if b.len() >= 2 && b[0] == 0xFE && b[1] == 0xFF {
        GedcomEncoding::Utf16Be
    } else {
        match char_tag_encoding(b) {
            Some(e) => e,
            None => content_encoding(b),
        }
    }
}

/// The bytes of a file that is not UTF-8, has at least four bytes and no
/// byte order mark or `CHAR` line are taken for UTF-16 in the byte order
/// that their pairs show: little-endian where some of the first 100 pairs is
/// an ASCII byte then a zero byte and none is a zero byte then an ASCII byte,
/// big-endian the other way round; and the content is taken for UTF-16 in an
/// order only where the pairs show that order and not the other.
pub proof fn lemma_content_byte_order(b: Seq<u8>)
    ensures
        !valid_utf8(b) && b.len() >= 4 && utf16_hint(b, false) && !utf16_hint(b, true)
            ==> content_encoding(b) == GedcomEncoding::Utf16Le,
        !valid_utf8(b) && b.len() >= 4 && utf16_hint(b, true) && !utf16_hint(b, false)
            ==> content_encoding(b) == GedcomEncoding::Utf16Be,
        content_encoding(b) == GedcomEncoding::Utf16Le ==> utf16_hint(b, false) && !utf16_hint(b, true),
        content_encoding(b) == GedcomEncoding::Utf16Be ==> utf16_hint(b, true) && !utf16_hint(b, false),
        !(b.len() >= 3 && b[0] == 0xEF && b[1] == 0xBB && b[2] == 0xBF) && !(b.len() >= 2 && b[0] == 0xFF && b[1] == 0xFE)
            && !(b.len() >= 2 && b[0] == 0xFE && b[1] == 0xFF) && char_tag_encoding(b) is None && !valid_utf8(b)
            && b.len() >= 4 && utf16_hint(b, false) && !utf16_hint(b, true)
            ==> detected_encoding(b) == GedcomEncoding::Utf16Le,
        !(b.len() >= 3 && b[0] == 0xEF && b[1] == 0xBB && b[2] == 0xBF) && !(b.len() >= 2 && b[0] == 0xFF && b[1] == 0xFE)
            && !(b.len() >= 2 && b[0] == 0xFE && b[1] == 0xFF) && char_tag_encoding(b) is None && !valid_utf8(b)
            && b.len() >= 4 && utf16_hint(b, true) && !utf16_hint(b, false)
            ==> detected_encoding(b) == GedcomEncoding::Utf16Be,
{
}

/// Detects the encoding of a file.
pub fn detect_encoding(bytes: &[u8]) -> (r: GedcomEncoding)
    ensures
        r == detected_encoding(bytes@),
{
    if bytes.len() >= 3 && bytes[0] == 0xEF && bytes[1] == 0xBB && bytes[2] == 0xBF {
        return GedcomEncoding::Utf8;
    }
    if bytes.len() >= 2 {
        if bytes[0] == 0xFF && bytes[1] == 0xFE {
            return GedcomEncoding::Utf16Le;
        }
        if bytes[0] == 0xFE && bytes[1] == 0xFF {
            return GedcomEncoding::Utf16Be;
        }
    }
    if let Some(encoding) = detect_encoding_from_char_tag(bytes) {
        return encoding;
    }
    detect_encoding_by_content(bytes)
}

} // verus!

verus! {

// ---------------------------------------------------------------------------
// Decoding and encoding.
// ---------------------------------------------------------------------------

/// Bytes without a leading UTF-8 byte order mark.
pub open spec fn without_utf8_bom(b: Seq<u8>) -> Seq<u8> {
    if b.len() >= 3 && b[0] == 0xEF && b[1] == 0xBB && b[2] == 0xBF { b.subrange(3, b.len() as int) } else { b }
}

/// Bytes without a leading UTF-16 byte order mark of either order.
pub open spec fn without_utf16_bom(b: Seq<u8>) -> Seq<u8> {
    if b.len() >= 2 && ((b[0] == 0xFF && b[1] == 0xFE) || (b[0] == 0xFE && b[1] == 0xFF)) {
        b.subrange(2, b.len() as int)
    } else {
        b
    }
}

/// The name of a UTF-16 character set (`Encoding::name` in `encoding_rs`).
pub open spec fn utf16_name(c: Charset) -> Seq<char> {
    if c == Charset::Utf16Le { "UTF-16LE"@ } else { "UTF-16BE"@ }
}

/// What decoding bytes in an encoding gives: the text and the encoding it
/// was read as, or the message of the error (`None` where the message is
/// the description of an invalid UTF-8 sequence, which `String::from_utf8`
/// gives).
pub open spec fn decoded(bytes: Seq<u8>, encoding: GedcomEncoding) -> Result<(Seq<char>, GedcomEncoding), Option<Seq<char>>> {
    match encoding {
        GedcomEncoding::Utf8 | GedcomEncoding::Ascii => {
            let b = without_utf8_bom(bytes);
            if valid_utf8(b) { Ok((decode_utf8(b), encoding)) } else { Err(None) }
        },
        GedcomEncoding::Utf16Le => {
            let (t, bad) = charset_decoded(Charset::Utf16Le, without_utf16_bom(bytes));
            if bad { Err(Some("Invalid UTF-16LE sequence"@)) } else { Ok((t, encoding)) }
        },
        GedcomEncoding::Utf16Be => {
            let (t, bad) = charset_decoded(Charset::Utf16Be, without_utf16_bom(bytes));
            if bad { Err(Some("Invalid UTF-16BE sequence"@)) } else { Ok((t, encoding)) }
        },
        GedcomEncoding::Iso8859_1 => {
            let (t, bad) = charset_decoded(Charset::Windows1252, bytes);
            if bad { Err(Some("Invalid ISO-8859-1 sequence"@)) } else { Ok((t, encoding)) }
        },
        GedcomEncoding::Iso8859_15 => {
            let (t, bad) = charset_decoded(Charset::Iso8859_15, bytes);
            if bad { Err(Some("Invalid ISO-8859-15 sequence"@)) } else { Ok((t, encoding)) }
        },
        GedcomEncoding::Ansel => Ok((ansel_text(bytes), encoding)),
        GedcomEncoding::Unknown => {
            if valid_utf8(bytes) {
                Ok((decode_utf8(bytes), GedcomEncoding::Utf8))
            } else {
                Ok((charset_decoded(Charset::Windows1252, bytes).0, encoding))
            }
        },
    }
}

/// Whether a result of decoding is what [`decoded`] says.
pub open spec fn decoding_matches(r: Result<(String, GedcomEncoding), GedcomError>, d: Result<(Seq<char>, GedcomEncoding), Option<Seq<char>>>) -> bool {
    match d {
        Ok((t, e)) => r matches Ok((s, e2)) && s@ == t && e2 == e,
        Err(None) => r matches Err(GedcomError::EncodingError(m))
            && m@.len() >= 15 && m@.subrange(0, 15) == "Invalid UTF-8: "@,
        Err(Some(msg)) => r matches Err(GedcomError::EncodingError(m)) && m@ == msg,
    }
}

/// Decodes UTF-16 bytes, without a leading byte order mark.
fn decode_utf16(bytes: &[u8], encoding: Charset) -> (r: Result<String, GedcomError>)
    requires
        encoding == Charset::Utf16Le || encoding == Charset::Utf16Be,
    ensures
        ({
            let (t, bad) = charset_decoded(encoding, without_utf16_bom(bytes@));
            if bad {
                r matches Err(GedcomError::EncodingError(m)) && m@ == "Invalid "@ + utf16_name(encoding) + " sequence"@
            } else {
                r matches Ok(s) && s@ == t
            }
        }),
        !begins_with_bom(without_utf16_bom(bytes@)) ==> forall|t: Seq<char>|
            #[trigger] utf16_bytes(t, big_endian_charset(encoding)) == without_utf16_bom(bytes@)
            ==> (r matches Ok(x) && x@ == t),
{
    let body = if bytes.len() >= 2 && ((bytes[0] == 0xFF && bytes[1] == 0xFE) || (bytes[0] == 0xFE && bytes[1] == 0xFF)) {
        &bytes[2..bytes.len()]
    } else {
        bytes
    };
    let (decoded, had_errors) = decode_charset(encoding, body);
    if had_errors {
        let mut message = String::from_str("Invalid ");
        if encoding == Charset::Utf16Le {
            message.append("UTF-16LE");
        } else {
            message.append("UTF-16BE");
        }
        message.append(" sequence");
        return Err(GedcomError::EncodingError(message));
    }
    Ok(decoded)
}

/// Decodes the bytes of a file in the given encoding, as [`decoded`] says.
pub fn decode_with_encoding(bytes: &[u8], encoding: GedcomEncoding) -> (r: Result<(String, GedcomEncoding), GedcomError>)
    ensures
        decoding_matches(r, decoded(bytes@, encoding)),
        (encoding == GedcomEncoding::Utf16Le || encoding == GedcomEncoding::Utf16Be)
            && !begins_with_bom(without_utf16_bom(bytes@)) ==> forall|t: Seq<char>|
            #[trigger] utf16_bytes(t, encoding_big_endian(encoding)) == without_utf16_bom(bytes@)
            ==> (r matches Ok((x, e)) && x@ == t && e == encoding),
{
    proof {
        reveal_strlit("Invalid UTF-8: ");
        reveal_strlit("Invalid ");
        reveal_strlit(" sequence");
        reveal_strlit("UTF-16LE");
        reveal_strlit("UTF-16BE");
        reveal_strlit("Invalid UTF-16LE sequence");
        reveal_strlit("Invalid UTF-16BE sequence");
    }
    let result = match encoding {
        GedcomEncoding::Utf8 | GedcomEncoding::Ascii => {
            let b = if bytes.len() >= 3 && bytes[0] == 0xEF && bytes[1] == 0xBB && bytes[2] == 0xBF {
                &bytes[3..bytes.len()]
            } else {
                bytes
            };
            match string_from_utf8(b) {
                Ok(s) => s,
                Err(e) => {
                    let mut message = String::from_str("Invalid UTF-8: ");
                    let detail = utf8_error_text(&e);
                    let ghost head = message@;
                    message.append(detail.as_str());
                    proof {
                        assert(message@.subrange(0, 15) =~= head);
                    }
                    return Err(GedcomError::EncodingError(message));
                },
            }
        },
        GedcomEncoding::Utf16Le => {
            let r = decode_utf16(bytes, Charset::Utf16Le);
            proof {
                assert("Invalid "@ + "UTF-16LE"@ + " sequence"@ =~= "Invalid UTF-16LE sequence"@);
                if !begins_with_bom(without_utf16_bom(bytes@)) {
                    assert forall|t: Seq<char>| #[trigger] utf16_bytes(t, encoding_big_endian(encoding))
                        == without_utf16_bom(bytes@) implies (r matches Ok(x) && x@ == t) by {
                        assert(encoding_big_endian(encoding) == big_endian_charset(Charset::Utf16Le));
                        assert(utf16_bytes(t, big_endian_charset(Charset::Utf16Le)) == without_utf16_bom(bytes@));
                    }
                }
            }
            r?
        },
        GedcomEncoding::Utf16Be => {
            let r = decode_utf16(bytes, Charset::Utf16Be);
            proof {
                assert("Invalid "@ + "UTF-16BE"@ + " sequence"@ =~= "Invalid UTF-16BE sequence"@);
                if !begins_with_bom(without_utf16_bom(bytes@)) {
                    assert forall|t: Seq<char>| #[trigger] utf16_bytes(t, encoding_big_endian(encoding))
                        == without_utf16_bom(bytes@) implies (r matches Ok(x) && x@ == t) by {
                        assert(encoding_big_endian(encoding) == big_endian_charset(Charset::Utf16Be));
                        assert(utf16_bytes(t, big_endian_charset(Charset::Utf16Be)) == without_utf16_bom(bytes@));
                    }
                }
            }
            r?
        },
        GedcomEncoding::Iso8859_1 => {
            let (decoded, had_errors) = decode_charset(Charset::Windows1252, bytes);
            if had_errors {
                return Err(GedcomError::EncodingError(String::from_str("Invalid ISO-8859-1 sequence")));
            }
            decoded
        },
        GedcomEncoding::Iso8859_15 => {
            let (decoded, had_errors) = decode_charset(Charset::Iso8859_15, bytes);
            if had_errors {
                return Err(GedcomError::EncodingError(String::from_str("Invalid ISO-8859-15 sequence")));
            }
            decoded
        },
        GedcomEncoding::Ansel => {
            let r = decode_ansel(bytes);
            r?
        },
        GedcomEncoding::Unknown => {
            if let Ok(s) = string_from_utf8(bytes) {
                return Ok((s, GedcomEncoding::Utf8));
            }
            let (decoded, _) = decode_charset(Charset::Windows1252, bytes);
            decoded
        },
    };
    Ok((result, encoding))
}

/// Detects the encoding of a file and decodes it.
pub fn decode_gedcom_bytes(bytes: &[u8]) -> (r: Result<(String, GedcomEncoding), GedcomError>)
    ensures
        decoding_matches(r, decoded(bytes@, detected_encoding(bytes@))),
        (detected_encoding(bytes@) == GedcomEncoding::Utf16Le || detected_encoding(bytes@) == GedcomEncoding::Utf16Be)
            && !begins_with_bom(without_utf16_bom(bytes@)) ==> forall|t: Seq<char>|
            #[trigger] utf16_bytes(t, encoding_big_endian(detected_encoding(bytes@))) == without_utf16_bom(bytes@)
            ==> (r matches Ok((x, e)) && x@ == t && e == detected_encoding(bytes@)),
{
    let encoding = detect_encoding(bytes);
    decode_with_encoding(bytes, encoding)
}

/// The UTF-16 code units of a character.
pub open spec fn utf16_units(c: char) -> Seq<u16> {
    let v = c as u32;
    if v < 0x10000 {
        seq![v as u16]
    } else {
        let w = (v - 0x10000) as u32;
        seq![(0xD800 + w / 1024) as u16, (0xDC00 + w % 1024) as u16]
    }
}

/// The UTF-16 bytes of a text, in little-endian (or, for `big_endian`,
/// big-endian) order, without a byte order mark.
pub open spec fn utf16_bytes(s: Seq<char>, big_endian: bool) -> Seq<u8>
    decreases s.len(),
{
    if s.len() == 0 {
        Seq::empty()
    } else {
        utf16_bytes(s.drop_last(), big_endian) + unit_bytes(utf16_units(s.last()), big_endian)
    }
}

/// The bytes of UTF-16 code units in the given order.
pub open spec fn unit_bytes(units: Seq<u16>, big_endian: bool) -> Seq<u8>
    decreases units.len(),
{
    if units.len() == 0 {
        Seq::empty()
    } else {
        let u = units[0];
        let pair = if big_endian { seq![(u / 256) as u8, (u % 256) as u8] } else { seq![(u % 256) as u8, (u / 256) as u8] };
        pair + unit_bytes(units.subrange(1, units.len() as int), big_endian)
    }
}

fn push_unit(bytes: &mut Vec<u8>, u: u16, big_endian: bool)
    ensures
        final(bytes)@ == old(bytes)@ + unit_bytes(seq![u], big_endian),
{
    let hi = (u / 256) as u8;
    let lo = (u % 256) as u8;
    if big_endian {
        bytes.push(hi);
        bytes.push(lo);
    } else {
        bytes.push(lo);
        bytes.push(hi);
    }
    proof {
        let units = seq![u];
        assert(units.subrange(1, 1) =~= Seq::<u16>::empty());
        assert(unit_bytes(Seq::<u16>::empty(), big_endian) =~= Seq::<u8>::empty());
        assert(final(bytes)@ =~= old(bytes)@ + unit_bytes(units, big_endian));
    }
}

/// Writes a text as UTF-16 bytes after a byte order mark.
fn encode_utf16(content: &str, big_endian: bool) -> (r: Vec<u8>)
    ensures
        r@ == (if big_endian { seq![0xFEu8, 0xFFu8] } else { seq![0xFFu8, 0xFEu8] }) + utf16_bytes(content@, big_endian),
{
    let chars = crate::text::chars_of(content);
    let mut bytes: Vec<u8> = Vec::new();
    if big_endian {
        bytes.push(0xFE);
        bytes.push(0xFF);
    } else {
        bytes.push(0xFF);
        bytes.push(0xFE);
    }
    let ghost bom = bytes@;
    let mut i: usize = 0;
    while i < chars.len()
        invariant
            i <= chars@.len(),
            chars@ == content@,
            bom == (if big_endian { seq![0xFEu8, 0xFFu8] } else { seq![0xFFu8, 0xFEu8] }),
            bytes@ == bom + utf16_bytes(chars@.subrange(0, i as int), big_endian),
        decreases chars@.len() - i,
    {
        let c = chars[i];
        let v = c as u32;
        let ghost before = bytes@;
        proof {
            assert(chars@.subrange(0, i + 1).drop_last() =~= chars@.subrange(0, i as int));
        }
        if v < 0x10000 {
            push_unit(&mut bytes, v as u16, big_endian);
            proof {
                assert(utf16_units(c) =~= seq![v as u16]);
            }
        } else {
            let w = v - 0x10000;
            let u1 = (0xD800 + w / 1024) as u16;
            let u2 = (0xDC00 + w % 1024) as u16;
            push_unit(&mut bytes, u1, big_endian);
            push_unit(&mut bytes, u2, big_endian);
            proof {
                assert(utf16_units(c) =~= seq![u1, u2]);
                let units = seq![u1, u2];
                assert(units.subrange(1, 2) =~= seq![u2]);
                assert(unit_bytes(units, big_endian) =~= unit_bytes(seq![u1], big_endian) + unit_bytes(seq![u2], big_endian)) by {
                    assert(seq![u1].subrange(1, 1) =~= Seq::<u16>::empty());
                    assert(seq![u2].subrange(1, 1) =~= Seq::<u16>::empty());
                    assert(unit_bytes(Seq::<u16>::empty(), big_endian) =~= Seq::<u8>::empty());
                    assert(unit_bytes(seq![u2], big_endian) == unit_bytes(units.subrange(1, 2), big_endian));
                }
            }
        }
        proof {
            assert(bytes@ =~= bom + utf16_bytes(chars@.subrange(0, i + 1), big_endian));
        }
        i = i + 1;
    }
    proof {
        assert(chars@.subrange(0, chars@.len() as int) =~= chars@);
    }
    bytes
}

/// What encoding a text gives: its bytes, or the message of the error.
pub open spec fn encoded(s: Seq<char>, encoding: GedcomEncoding) -> Result<Seq<u8>, Seq<char>> {
    match encoding {
        GedcomEncoding::Utf8 | GedcomEncoding::Ascii | GedcomEncoding::Unknown => Ok(vstd::utf8::encode_utf8(s)),
        GedcomEncoding::Utf16Le => Ok(seq![0xFFu8, 0xFEu8] + utf16_bytes(s, false)),
        GedcomEncoding::Utf16Be => Ok(seq![0xFEu8, 0xFFu8] + utf16_bytes(s, true)),
        GedcomEncoding::Iso8859_1 => {
            let (b, bad) = charset_encoded(Charset::Windows1252, s);
            if bad { Err("Cannot encode to ISO-8859-1: contains unsupported characters"@) } else { Ok(b) }
        },
        GedcomEncoding::Iso8859_15 => {
            let (b, bad) = charset_encoded(Charset::Iso8859_15, s);
            if bad { Err("Cannot encode to ISO-8859-15: contains unsupported characters"@) } else { Ok(b) }
        },
        GedcomEncoding::Ansel => Ok(ansel_bytes(s)),
    }
}

/// Writes a text in the given encoding, as [`encoded`] says.
pub fn encode_to_bytes(content: &str, encoding: GedcomEncoding) -> (r: Result<Vec<u8>, GedcomError>)
    ensures
        match encoded(content@, encoding) {
            Ok(b) => r matches Ok(v) && v@ == b,
            Err(msg) => r matches Err(GedcomError::EncodingError(m)) && m@ == msg,
        },
{
    match encoding {
        GedcomEncoding::Utf8 | GedcomEncoding::Ascii | GedcomEncoding::Unknown => {
            Ok(vstd::slice::slice_to_vec(content.as_bytes()))
        },
        GedcomEncoding::Utf16Le => Ok(encode_utf16(content, false)),
        GedcomEncoding::Utf16Be => Ok(encode_utf16(content, true)),
        GedcomEncoding::Iso8859_1 => {
            let (bytes, had_errors) = encode_charset(Charset::Windows1252, content);
            if had_errors {
                return Err(GedcomError::EncodingError(String::from_str("Cannot encode to ISO-8859-1: contains unsupported characters")));
            }
            Ok(bytes)
        },
        GedcomEncoding::Iso8859_15 => {
            let (bytes, had_errors) = encode_charset(Charset::Iso8859_15, content);
            if had_errors {
                return Err(GedcomError::EncodingError(String::from_str("Cannot encode to ISO-8859-15: contains unsupported characters")));
            }
            Ok(bytes)
        },
        GedcomEncoding::Ansel => encode_ansel(content),
    }
}

} // verus!

verus! {

use vstd::utf8::*;

proof fn lemma_utf8_bom_lead(c: u32)
    requires
        vstd::utf8::is_scalar(c),
        vstd::utf8::encode_scalar(c).len() >= 3,
        vstd::utf8::encode_scalar(c)[0] == 0xEF,
        vstd::utf8::encode_scalar(c)[1] == 0xBB,
        vstd::utf8::encode_scalar(c)[2] == 0xBF,
    ensures
        c == 0xFEFF,
{
    if has_width_1_encoding(c) {
    } else if has_width_2_encoding(c) {
    } else if has_width_3_encoding(c) {
        assert(has_width_3_encoding(c) && leading_byte_width_3(c) == 0xEF
            && second_last_continuation_byte(c) == 0xBB && last_continuation_byte(c) == 0xBF
            ==> c == 0xFEFF) by (bit_vector);
    } else {
        assert(has_width_4_encoding(c) ==> leading_byte_width_4(c) != 0xEF) by (bit_vector);
    }
}

/// A text written as UTF-8 reads back as the same text, unless it begins
/// with the byte order mark character U+FEFF, which reading drops.
pub proof fn lemma_utf8_roundtrip(s: Seq<char>)
    requires
        !(s.len() > 0 && s[0] == '\u{FEFF}'),
    ensures
        match encoded(s, GedcomEncoding::Utf8) {
            Ok(b) => decoded(b, GedcomEncoding::Utf8) == Ok::<(Seq<char>, GedcomEncoding), Option<Seq<char>>>(
                (s, GedcomEncoding::Utf8),
            ),
            Err(_) => false,
        },
{
    let b = encode_utf8(s);
    encode_utf8_valid_utf8(s);
    encode_utf8_decode_utf8(s);
    if b.len() >= 3 && b[0] == 0xEF && b[1] == 0xBB && b[2] == 0xBF {
        assert(s.len() > 0);
        let c = s[0] as u32;
        char_is_scalar(s[0]);
        let e = encode_scalar(c);
        assert(b == e + encode_utf8(s.drop_first()));
        if e.len() < 3 {
            if has_width_1_encoding(c) {
                assert(has_width_1_encoding(c) ==> leading_byte_width_1(c) != 0xEF) by (bit_vector);
            } else {
                assert(has_width_2_encoding(c) ==> leading_byte_width_2(c) != 0xEF) by (bit_vector);
            }
        } else {
            lemma_utf8_bom_lead(c);
            char_u32_cast(s[0], c);
            assert(s[0] == '\u{FEFF}');
        }
    }
    assert(without_utf8_bom(b) == b);
}

} // verus!

verus! {

/// Whether an ANSEL byte that is not a diacritic reads as a character that
/// ANSEL writes back as that same byte.
pub open spec fn ansel_invertible(b: u8) -> bool {
    ansel_mark(b) is None && ansel_base_byte(ansel_char(b)) == Some(b)
}

/// ANSEL bytes that read back unchanged: each byte is a diacritic or an
/// invertible letter, and the last byte is not a diacritic (each diacritic
/// has a letter to mark).
pub open spec fn plain_ansel(bytes: Seq<u8>) -> bool {
    &&& forall|i: int| 0 <= i < bytes.len() ==> ansel_mark(#[trigger] bytes[i]) is Some
        || ansel_invertible(bytes[i])
    &&& bytes.len() > 0 ==> ansel_mark(bytes.last()) is None
}

proof fn lemma_mark_inverse(b: u8)
    ensures
        ansel_mark(b) matches Some(c) ==> ansel_mark_byte(c) == Some(b),
{
}

proof fn lemma_letter_not_mark(b: u8)
    requires
        ansel_mark(b) is None,
    ensures
        ansel_mark_byte(ansel_char(b)) is None,
{
}

/// All characters of `p` are combining marks that ANSEL can write.
spec fn all_marks(p: Seq<char>) -> bool {
    forall|k: int| 0 <= k < p.len() ==> ansel_mark_byte(#[trigger] p[k]) is Some
}

proof fn lemma_marks_end_shift(a: Seq<char>, r: Seq<char>, k: int)
    requires
        0 <= k <= r.len(),
    ensures
        marks_end(a + r, a.len() + k) == a.len() + marks_end(r, k),
    decreases r.len() - k,
{
    if k < r.len() && ansel_mark_byte(r[k]) is Some {
        assert((a + r)[a.len() + k] == r[k]);
        lemma_marks_end_shift(a, r, k + 1);
    } else if k < r.len() {
        assert((a + r)[a.len() + k] == r[k]);
    }
}

proof fn lemma_bytes_from_shift(a: Seq<char>, r: Seq<char>, k: int)
    requires
        0 <= k <= r.len(),
    ensures
        ansel_bytes_from(a + r, a.len() + k) == ansel_bytes_from(r, k),
    decreases r.len() - k,
{
    let s = a + r;
    if k < r.len() {
        assert(s[a.len() + k] == r[k]);
        lemma_marks_end_shift(a, r, k + 1);
        lemma_marks_end(r, k + 1);
        let e = marks_end(r, k + 1);
        assert(s.subrange(a.len() + k + 1, a.len() + e) =~= r.subrange(k + 1, e));
        lemma_bytes_from_shift(a, r, e);
    }
}

proof fn lemma_marks_run(s: Seq<char>, n: int, t: int)
    requires
        1 <= t <= n + 1,
        n + 1 <= s.len(),
        forall|k: int| 1 <= k <= n ==> ansel_mark_byte(#[trigger] s[k]) is Some,
        n + 1 < s.len() ==> ansel_mark_byte(s[n + 1]) is None,
    ensures
        marks_end(s, t) == n + 1,
    decreases n + 1 - t,
{
    if t <= n {
        lemma_marks_run(s, n, t + 1);
    }
}

/// The bytes of a letter, its marks, and what follows.
proof fn lemma_group_bytes(c: char, p: Seq<char>, r: Seq<char>)
    requires
        ansel_mark_byte(c) is None,
        all_marks(p),
        r.len() > 0 ==> ansel_mark_byte(r[0]) is None,
    ensures
        ansel_bytes(seq![c] + p + r) == mark_bytes(p) + ansel_letter_bytes(c) + ansel_bytes(r),
{
    let a = seq![c] + p;
    let s = a + r;
    let n = p.len() as int;
    assert forall|k: int| 1 <= k <= n implies ansel_mark_byte(#[trigger] s[k]) is Some by {
        assert(s[k] == p[k - 1]);
    }
    if n + 1 < s.len() {
        assert(s[n + 1] == r[0]);
    }
    lemma_marks_run(s, n, 1);
    assert(s.subrange(1, n + 1) =~= p);
    lemma_bytes_from_shift(a, r, 0);
}

proof fn lemma_text_starts_with_letter(bytes: Seq<u8>, i: int, p: Seq<char>)
    requires
        plain_ansel(bytes),
        0 <= i < bytes.len(),
    ensures
        ansel_text_from(bytes, i, p).len() > 0,
        ansel_mark_byte(ansel_text_from(bytes, i, p)[0]) is None,
    decreases bytes.len() - i,
{
    match ansel_mark(bytes[i]) {
        Some(m) => {
            lemma_text_starts_with_letter(bytes, i + 1, p.push(m));
        },
        None => {
            lemma_letter_not_mark(bytes[i]);
        },
    }
}

proof fn lemma_ansel_roundtrip_from(bytes: Seq<u8>, i: int, p: Seq<char>)
    requires
        plain_ansel(bytes),
        0 <= i <= bytes.len(),
        all_marks(p),
        i == bytes.len() ==> p.len() == 0,
    ensures
        ansel_bytes(ansel_text_from(bytes, i, p)) == mark_bytes(p) + bytes.subrange(i, bytes.len() as int),
    decreases bytes.len() - i,
{
    if i == bytes.len() {
        assert(mark_bytes(p) =~= Seq::<u8>::empty());
        assert(ansel_bytes(Seq::<char>::empty()) =~= Seq::<u8>::empty());
        assert(bytes.subrange(i, bytes.len() as int) =~= Seq::<u8>::empty());
    } else {
        let b = bytes[i];
        assert(ansel_mark(b) is Some || ansel_invertible(b));
        match ansel_mark(b) {
            Some(m) => {
                lemma_mark_inverse(b);
                assert(i + 1 < bytes.len());
                assert(all_marks(p.push(m))) by {
                    assert forall|k: int| 0 <= k < p.push(m).len() implies ansel_mark_byte(
                        #[trigger] p.push(m)[k],
                    ) is Some by {
                        if k < p.len() {
                            assert(p.push(m)[k] == p[k]);
                        }
                    }
                }
                lemma_ansel_roundtrip_from(bytes, i + 1, p.push(m));
                assert(mark_bytes(p.push(m)) =~= mark_bytes(p).push(b));
                assert(mark_bytes(p).push(b) + bytes.subrange(i + 1, bytes.len() as int)
                    =~= mark_bytes(p) + bytes.subrange(i, bytes.len() as int));
            },
            None => {
                let c = ansel_char(b);
                let r = ansel_text_from(bytes, i + 1, Seq::empty());
                lemma_letter_not_mark(b);
                if i + 1 < bytes.len() {
                    lemma_text_starts_with_letter(bytes, i + 1, Seq::empty());
                } else {
                    assert(r =~= Seq::<char>::empty());
                }
                lemma_group_bytes(c, p, r);
                lemma_ansel_roundtrip_from(bytes, i + 1, Seq::empty());
                assert(mark_bytes(Seq::<char>::empty()) =~= Seq::<u8>::empty());
                assert(ansel_letter_bytes(c) =~= seq![b]);
                assert(mark_bytes(p) + seq![b] + bytes.subrange(i + 1, bytes.len() as int)
                    =~= mark_bytes(p) + bytes.subrange(i, bytes.len() as int));
            },
        }
    }
}

/// ANSEL bytes in which every diacritic marks a letter, and every letter
/// reads as a character that ANSEL writes as that letter's byte, are
/// written back unchanged after reading: encoding undoes decoding.
pub proof fn lemma_ansel_roundtrip(bytes: Seq<u8>)
    requires
        plain_ansel(bytes),
    ensures
        ansel_bytes(ansel_text(bytes)) == bytes,
{
    lemma_ansel_roundtrip_from(bytes, 0, Seq::empty());
    assert(mark_bytes(Seq::<char>::empty()) =~= Seq::<u8>::empty());
    assert(bytes.subrange(0, bytes.len() as int) =~= bytes);
}

} // verus!
