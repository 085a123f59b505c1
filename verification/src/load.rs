//! Loading font data into the database: face extraction through the
//! font parser, name-table decoding, and registration of the parsed
//! faces under fresh IDs.
//!
//! Partial success is the norm here: malformed or unnamed faces are
//! skipped and reported, never aborting the rest of a load.

use vstd::prelude::*;
use std::sync::Arc;
use crate::database::{clone_source_handle, lemma_lookup_roundtrip, lookup_spec, source_ref, Database};
use crate::types::{FaceInfo, ID, LoadError, LoadReport, SkippedFace, Source, Stretch, Style, Weight};

verus! {

// ---------------------------------------------------------------------
// Names for what the outside font parser computes. Each is a pure
// function of the bytes handed to it.
// ---------------------------------------------------------------------

/// The number of fonts a TrueType collection header announces; nothing
/// for data that is not a collection.
pub uninterp spec fn collection_face_count(data: Seq<u8>) -> Option<u32>;

/// Whether the font parser accepts face `index` of `data`.
pub uninterp spec fn face_parse_ok(data: Seq<u8>, index: u32) -> bool;

/// The string that decoding a sequence of UTF-16 code units yields;
/// nothing when the units are not valid UTF-16.
pub uninterp spec fn utf16_decoded(units: Seq<u16>) -> Option<Seq<char>>;

/// Whether the parsed face carries the italic flag.
pub uninterp spec fn face_italic_flag(data: Seq<u8>, index: u32) -> bool;

/// Whether the parsed face carries the oblique flag.
pub uninterp spec fn face_oblique_flag(data: Seq<u8>, index: u32) -> bool;

/// Whether the parsed face is marked monospaced.
pub uninterp spec fn face_monospaced_flag(data: Seq<u8>, index: u32) -> bool;

/// The numeric weight class of the parsed face.
pub uninterp spec fn face_weight_num(data: Seq<u8>, index: u32) -> u16;

/// The numeric width class of the parsed face, 1 to 9.
pub uninterp spec fn face_width_class(data: Seq<u8>, index: u32) -> u16;

/// How many records the parsed face's name table holds; zero when the
/// face does not parse.
pub uninterp spec fn name_record_count(data: Seq<u8>, index: u32) -> u16;

/// Record `i` of the parsed face's name table, as plain values; nothing
/// when the face does not parse or the record is unreadable.
pub uninterp spec fn name_record_at(data: Seq<u8>, index: u32, i: u16) -> Option<RawName>;

// ---------------------------------------------------------------------
// Trusted wrappers around the outside font parser.
// ---------------------------------------------------------------------

/// Relies on ttf_parser::fonts_in_collection: reads the number of fonts
/// from a TrueType collection header, `None` for a non-collection; a
/// function of the bytes alone.
#[verifier::external_body]
fn fonts_in_collection(data: &[u8]) -> (r: Option<u32>)
    ensures
        r == collection_face_count(data@),
{
    ttf_parser::fonts_in_collection(data)
}

/// The matching axes of one parsed face, handed out as plain values.
struct FaceAxes {
    italic: bool,
    oblique: bool,
    monospaced: bool,
    weight: u16,
    width_class: u16,
}

/// Relies on ttf_parser::Face::parse and the face accessors is_italic,
/// is_oblique, is_monospaced, weight and width (the latter two through
/// to_number): whether a face parses, and each of its matching axes, is
/// a function of the bytes and the index alone.
#[verifier::external_body]
fn extract_face_axes(data: &[u8], index: u32) -> (r: Option<FaceAxes>)
    ensures
        (r is Some) == face_parse_ok(data@, index),
        r matches Some(v) ==> v.italic == face_italic_flag(data@, index) && v.oblique
            == face_oblique_flag(data@, index) && v.monospaced == face_monospaced_flag(
            data@,
            index,
        ) && v.weight == face_weight_num(data@, index) && v.width_class == face_width_class(
            data@,
            index,
        ),
{
    let face = ttf_parser::Face::parse(data, index).ok()?;
    Some(FaceAxes {
        italic: face.is_italic(),
        oblique: face.is_oblique(),
        monospaced: face.is_monospaced(),
        weight: face.weight().to_number(),
        width_class: face.width().to_number(),
    })
}

/// Relies on ttf_parser::Face::names and Names::len: how many records
/// the face's name table holds; a function of the bytes and the index.
#[verifier::external_body]
fn name_record_count_of(data: &[u8], index: u32) -> (r: u16)
    ensures
        r == name_record_count(data@, index),
{
    match ttf_parser::Face::parse(data, index) {
        Ok(face) => face.names().len(),
        Err(_) => 0,
    }
}

/// Relies on ttf_parser::name::Names::get: reads one record of the
/// face's name table, converted field for field into a plain record; a
/// function of the bytes, the face index and the record index.
#[verifier::external_body]
fn name_record_at_of(data: &[u8], index: u32, i: u16) -> (r: Option<RawName>)
    ensures
        r == name_record_at(data@, index, i),
{
    let face = ttf_parser::Face::parse(data, index).ok()?;
    let n = face.names().get(i)?;
    let platform = match n.platform_id {
        ttf_parser::PlatformId::Unicode => Platform::Unicode,
        ttf_parser::PlatformId::Macintosh => Platform::Macintosh,
        ttf_parser::PlatformId::Iso => Platform::Iso,
        ttf_parser::PlatformId::Windows => Platform::Windows,
        ttf_parser::PlatformId::Custom => Platform::Custom,
    };
    Some(RawName { platform, encoding_id: n.encoding_id, name_id: n.name_id, bytes: n.name.to_vec() })
}

/// Relies on String::from_utf16: decoding UTF-16 code units into a
/// string is a function of the units alone; invalid units yield an
/// error, mapped here to nothing.
#[verifier::external_body]
fn utf16_to_string(units: &Vec<u16>) -> (r: Option<String>)
    ensures
        match r {
            Some(s) => utf16_decoded(units@) == Some(s@),
            None => utf16_decoded(units@) is None,
        },
{
    String::from_utf16(units.as_slice()).ok()
}

// ---------------------------------------------------------------------
// Name records as plain values, and their encodings.
// ---------------------------------------------------------------------

/// A TrueType name-table platform identifier.
#[derive(Clone, Copy, PartialEq, Eq, Debug, Structural)]
pub enum Platform {
    /// The Unicode platform.
    Unicode,
    /// The Macintosh platform.
    Macintosh,
    /// The ISO platform, deprecated.
    Iso,
    /// The Windows platform.
    Windows,
    /// A custom platform.
    Custom,
}

/// One name-table record, as plain values: which name it is, how its
/// bytes are encoded, and the bytes themselves.
#[derive(Clone, Debug)]
pub struct RawName {
    /// The platform identifier of the record.
    pub platform: Platform,
    /// The platform-specific encoding identifier.
    pub encoding_id: u16,
    /// Which name the record carries (family, PostScript name, ...).
    pub name_id: u16,
    /// The raw name data, in the record's encoding.
    pub bytes: Vec<u8>,
}

/// The *Font Family* name identifier.
pub const NAME_ID_FAMILY: u16 = 1;

/// The *PostScript name* identifier.
pub const NAME_ID_POST_SCRIPT_NAME: u16 = 6;

/// The *Typographic Family* name identifier.
pub const NAME_ID_TYPOGRAPHIC_FAMILY: u16 = 16;

/// Whether a record's bytes are UTF-16BE: the Unicode platform, or the
/// Windows platform with the Symbol or Unicode BMP encoding.
pub open spec fn is_unicode_encoding(platform: Platform, encoding_id: u16) -> bool {
    match platform {
        Platform::Unicode => true,
        Platform::Windows => encoding_id == 0 || encoding_id == 1,
        _ => false,
    }
}

/// Whether a record's bytes are MacRoman: the Macintosh platform with
/// the Roman encoding.
pub open spec fn is_mac_roman_encoding(platform: Platform, encoding_id: u16) -> bool {
    platform == Platform::Macintosh && encoding_id == 0
}

/// Whether the loader can decode a record's bytes at all.
pub open spec fn is_supported_encoding(platform: Platform, encoding_id: u16) -> bool {
    is_unicode_encoding(platform, encoding_id) || is_mac_roman_encoding(platform, encoding_id)
}

impl RawName {
    /// Whether this record's bytes are UTF-16BE.
    pub fn is_unicode(&self) -> (r: bool)
        ensures
            r == is_unicode_encoding(self.platform, self.encoding_id),
    {
        match self.platform {
            Platform::Unicode => true,
            Platform::Windows => self.encoding_id == 0 || self.encoding_id == 1,
            _ => false,
        }
    }

    /// Whether this record's bytes are MacRoman.
    pub fn is_mac_roman(&self) -> (r: bool)
        ensures
            r == is_mac_roman_encoding(self.platform, self.encoding_id),
    {
        match self.platform {
            Platform::Macintosh => self.encoding_id == 0,
            _ => false,
        }
    }

    /// Whether the loader can decode this record at all.
    pub fn is_supported_encoding(&self) -> (r: bool)
        ensures
            r == is_supported_encoding(self.platform, self.encoding_id),
    {
        self.is_unicode() || self.is_mac_roman()
    }
}

// ---------------------------------------------------------------------
// MacRoman decoding.
// ---------------------------------------------------------------------

/// The UTF-16 code unit a MacRoman byte stands for. Bytes below 0x80
/// map to themselves, except the four Macintosh key symbols.
pub open spec fn mac_roman_unit(b: u8) -> u16 {
    if b < 0x80 {
        if b == 0x11 {
            0x2318
        } else if b == 0x12 {
            0x21E7
        } else if b == 0x13 {
            0x2325
        } else if b == 0x14 {
            0x2303
        } else {
            b as u16
        }
    } else {
        match b {
            0x80 => 0x00C4,
            0x81 => 0x00C5,
            0x82 => 0x00C7,
            0x83 => 0x00C9,
            0x84 => 0x00D1,
            0x85 => 0x00D6,
            0x86 => 0x00DC,
            0x87 => 0x00E1,
            0x88 => 0x00E0,
            0x89 => 0x00E2,
            0x8A => 0x00E4,
            0x8B => 0x00E3,
            0x8C => 0x00E5,
            0x8D => 0x00E7,
            0x8E => 0x00E9,
            0x8F => 0x00E8,
            0x90 => 0x00EA,
            0x91 => 0x00EB,
            0x92 => 0x00ED,
            0x93 => 0x00EC,
            0x94 => 0x00EE,
            0x95 => 0x00EF,
            0x96 => 0x00F1,
            0x97 => 0x00F3,
            0x98 => 0x00F2,
            0x99 => 0x00F4,
            0x9A => 0x00F6,
            0x9B => 0x00F5,
            0x9C => 0x00FA,
            0x9D => 0x00F9,
            0x9E => 0x00FB,
            0x9F => 0x00FC,
            0xA0 => 0x2020,
            0xA1 => 0x00B0,
            0xA2 => 0x00A2,
            0xA3 => 0x00A3,
            0xA4 => 0x00A7,
            0xA5 => 0x2022,
            0xA6 => 0x00B6,
            0xA7 => 0x00DF,
            0xA8 => 0x00AE,
            0xA9 => 0x00A9,
            0xAA => 0x2122,
            0xAB => 0x00B4,
            0xAC => 0x00A8,
            0xAD => 0x2260,
            0xAE => 0x00C6,
            0xAF => 0x00D8,
            0xB0 => 0x221E,
            0xB1 => 0x00B1,
            0xB2 => 0x2264,
            0xB3 => 0x2265,
            0xB4 => 0x00A5,
            0xB5 => 0x00B5,
            0xB6 => 0x2202,
            0xB7 => 0x2211,
            0xB8 => 0x220F,
            0xB9 => 0x03C0,
            0xBA => 0x222B,
            0xBB => 0x00AA,
            0xBC => 0x00BA,
            0xBD => 0x03A9,
            0xBE => 0x00E6,
            0xBF => 0x00F8,
            0xC0 => 0x00BF,
            0xC1 => 0x00A1,
            0xC2 => 0x00AC,
            0xC3 => 0x221A,
            0xC4 => 0x0192,
            0xC5 => 0x2248,
            0xC6 => 0x2206,
            0xC7 => 0x00AB,
            0xC8 => 0x00BB,
            0xC9 => 0x2026,
            0xCA => 0x00A0,
            0xCB => 0x00C0,
            0xCC => 0x00C3,
            0xCD => 0x00D5,
            0xCE => 0x0152,
            0xCF => 0x0153,
            0xD0 => 0x2013,
            0xD1 => 0x2014,
            0xD2 => 0x201C,
            0xD3 => 0x201D,
            0xD4 => 0x2018,
            0xD5 => 0x2019,
            0xD6 => 0x00F7,
            0xD7 => 0x25CA,
            0xD8 => 0x00FF,
            0xD9 => 0x0178,
            0xDA => 0x2044,
            0xDB => 0x20AC,
            0xDC => 0x2039,
            0xDD => 0x203A,
            0xDE => 0xFB01,
            0xDF => 0xFB02,
            0xE0 => 0x2021,
            0xE1 => 0x00B7,
            0xE2 => 0x201A,
            0xE3 => 0x201E,
            0xE4 => 0x2030,
            0xE5 => 0x00C2,
            0xE6 => 0x00CA,
            0xE7 => 0x00C1,
            0xE8 => 0x00CB,
            0xE9 => 0x00C8,
            0xEA => 0x00CD,
            0xEB => 0x00CE,
            0xEC => 0x00CF,
            0xED => 0x00CC,
            0xEE => 0x00D3,
            0xEF => 0x00D4,
            0xF0 => 0xF8FF,
            0xF1 => 0x00D2,
            0xF2 => 0x00DA,
            0xF3 => 0x00DB,
            0xF4 => 0x00D9,
            0xF5 => 0x0131,
            0xF6 => 0x02C6,
            0xF7 => 0x02DC,
            0xF8 => 0x00AF,
            0xF9 => 0x02D8,
            0xFA => 0x02D9,
            0xFB => 0x02DA,
            0xFC => 0x00B8,
            0xFD => 0x02DD,
            0xFE => 0x02DB,
            0xFF => 0x02C7,
            _ => 0,
        }
    }
}

/// Decodes one MacRoman byte to its UTF-16 code unit.
pub fn mac_roman_to_utf16(b: u8) -> (r: u16)
    ensures
        r == mac_roman_unit(b),
{
    if b < 0x80 {
        if b == 0x11 {
            0x2318
        } else if b == 0x12 {
            0x21E7
        } else if b == 0x13 {
            0x2325
        } else if b == 0x14 {
            0x2303
        } else {
            b as u16
        }
    } else {
        match b {
            0x80 => 0x00C4,
            0x81 => 0x00C5,
            0x82 => 0x00C7,
            0x83 => 0x00C9,
            0x84 => 0x00D1,
            0x85 => 0x00D6,
            0x86 => 0x00DC,
            0x87 => 0x00E1,
            0x88 => 0x00E0,
            0x89 => 0x00E2,
            0x8A => 0x00E4,
            0x8B => 0x00E3,
            0x8C => 0x00E5,
            0x8D => 0x00E7,
            0x8E => 0x00E9,
            0x8F => 0x00E8,
            0x90 => 0x00EA,
            0x91 => 0x00EB,
            0x92 => 0x00ED,
            0x93 => 0x00EC,
            0x94 => 0x00EE,
            0x95 => 0x00EF,
            0x96 => 0x00F1,
            0x97 => 0x00F3,
            0x98 => 0x00F2,
            0x99 => 0x00F4,
            0x9A => 0x00F6,
            0x9B => 0x00F5,
            0x9C => 0x00FA,
            0x9D => 0x00F9,
            0x9E => 0x00FB,
            0x9F => 0x00FC,
            0xA0 => 0x2020,
            0xA1 => 0x00B0,
            0xA2 => 0x00A2,
            0xA3 => 0x00A3,
            0xA4 => 0x00A7,
            0xA5 => 0x2022,
            0xA6 => 0x00B6,
            0xA7 => 0x00DF,
            0xA8 => 0x00AE,
            0xA9 => 0x00A9,
            0xAA => 0x2122,
            0xAB => 0x00B4,
            0xAC => 0x00A8,
            0xAD => 0x2260,
            0xAE => 0x00C6,
            0xAF => 0x00D8,
            0xB0 => 0x221E,
            0xB1 => 0x00B1,
            0xB2 => 0x2264,
            0xB3 => 0x2265,
            0xB4 => 0x00A5,
            0xB5 => 0x00B5,
            0xB6 => 0x2202,
            0xB7 => 0x2211,
            0xB8 => 0x220F,
            0xB9 => 0x03C0,
            0xBA => 0x222B,
            0xBB => 0x00AA,
            0xBC => 0x00BA,
            0xBD => 0x03A9,
            0xBE => 0x00E6,
            0xBF => 0x00F8,
            0xC0 => 0x00BF,
            0xC1 => 0x00A1,
            0xC2 => 0x00AC,
            0xC3 => 0x221A,
            0xC4 => 0x0192,
            0xC5 => 0x2248,
            0xC6 => 0x2206,
            0xC7 => 0x00AB,
            0xC8 => 0x00BB,
            0xC9 => 0x2026,
            0xCA => 0x00A0,
            0xCB => 0x00C0,
            0xCC => 0x00C3,
            0xCD => 0x00D5,
            0xCE => 0x0152,
            0xCF => 0x0153,
            0xD0 => 0x2013,
            0xD1 => 0x2014,
            0xD2 => 0x201C,
            0xD3 => 0x201D,
            0xD4 => 0x2018,
            0xD5 => 0x2019,
            0xD6 => 0x00F7,
            0xD7 => 0x25CA,
            0xD8 => 0x00FF,
            0xD9 => 0x0178,
            0xDA => 0x2044,
            0xDB => 0x20AC,
            0xDC => 0x2039,
            0xDD => 0x203A,
            0xDE => 0xFB01,
            0xDF => 0xFB02,
            0xE0 => 0x2021,
            0xE1 => 0x00B7,
            0xE2 => 0x201A,
            0xE3 => 0x201E,
            0xE4 => 0x2030,
            0xE5 => 0x00C2,
            0xE6 => 0x00CA,
            0xE7 => 0x00C1,
            0xE8 => 0x00CB,
            0xE9 => 0x00C8,
            0xEA => 0x00CD,
            0xEB => 0x00CE,
            0xEC => 0x00CF,
            0xED => 0x00CC,
            0xEE => 0x00D3,
            0xEF => 0x00D4,
            0xF0 => 0xF8FF,
            0xF1 => 0x00D2,
            0xF2 => 0x00DA,
            0xF3 => 0x00DB,
            0xF4 => 0x00D9,
            0xF5 => 0x0131,
            0xF6 => 0x02C6,
            0xF7 => 0x02DC,
            0xF8 => 0x00AF,
            0xF9 => 0x02D8,
            0xFA => 0x02D9,
            0xFB => 0x02DA,
            0xFC => 0x00B8,
            0xFD => 0x02DD,
            0xFE => 0x02DB,
            0xFF => 0x02C7,
            _ => 0,
        }
    }
}

// ---------------------------------------------------------------------
// Decoding name bytes to UTF-16 code units.
// ---------------------------------------------------------------------

/// The UTF-16 code units of big-endian byte pairs; a trailing odd byte
/// is dropped.
pub open spec fn utf16_be_units(bytes: Seq<u8>) -> Seq<u16> {
    Seq::new(bytes.len() / 2, |i: int| ((bytes[2 * i] * 256 + bytes[2 * i + 1])) as u16)
}

/// The UTF-16 code units of MacRoman bytes, one per byte.
pub open spec fn mac_roman_units(bytes: Seq<u8>) -> Seq<u16> {
    Seq::new(bytes.len(), |i: int| mac_roman_unit(bytes[i]))
}

/// Collects big-endian byte pairs into UTF-16 code units.
fn utf16_be_collect(bytes: &Vec<u8>) -> (r: Vec<u16>)
    ensures
        r@ == utf16_be_units(bytes@),
{
    let len = bytes.len();
    let n = len / 2;
    let mut out: Vec<u16> = Vec::new();
    let mut i: usize = 0;
    while i < n
        invariant
            i <= n,
            len == bytes@.len(),
            n == bytes@.len() / 2,
            out@.len() == i,
            forall|k: int| 0 <= k < i ==> out@[k] == utf16_be_units(bytes@)[k],
        decreases n - i,
    {
        proof {
            assert(2 * (i as int) + 1 < len);
        }
        let hi = bytes[2 * i] as u16;
        let lo = bytes[2 * i + 1] as u16;
        out.push(hi * 256 + lo);
        i += 1;
    }
    proof {
        assert(out@ =~= utf16_be_units(bytes@));
    }
    out
}

/// Decodes MacRoman bytes into UTF-16 code units.
fn mac_roman_collect(bytes: &Vec<u8>) -> (r: Vec<u16>)
    ensures
        r@ == mac_roman_units(bytes@),
{
    let mut out: Vec<u16> = Vec::new();
    let mut i: usize = 0;
    while i < bytes.len()
        invariant
            i <= bytes@.len(),
            out@.len() == i,
            forall|k: int| 0 <= k < i ==> out@[k] == mac_roman_units(bytes@)[k],
        decreases bytes@.len() - i,
    {
        out.push(mac_roman_to_utf16(bytes[i]));
        i += 1;
    }
    proof {
        assert(out@ =~= mac_roman_units(bytes@));
    }
    out
}

// ---------------------------------------------------------------------
// Selecting and decoding a name from the records.
// ---------------------------------------------------------------------

/// Whether a record carries the wanted name in a decodable encoding.
pub open spec fn name_matches(n: RawName, want: u16) -> bool {
    n.name_id == want && is_supported_encoding(n.platform, n.encoding_id)
}

/// The least index at or after `i` of a record carrying the wanted name
/// in a decodable encoding; `names.len()` when none does.
pub open spec fn name_index_from(names: Seq<RawName>, want: u16, i: int) -> int
    decreases names.len() - i,
{
    if i < 0 || i >= names.len() {
        names.len() as int
    } else if name_matches(names[i], want) {
        i
    } else {
        name_index_from(names, want, i + 1)
    }
}

/// What decoding one record yields: its bytes through the decoder its
/// encoding calls for.
pub open spec fn decode_name(n: RawName) -> Option<Seq<char>> {
    if is_unicode_encoding(n.platform, n.encoding_id) {
        utf16_decoded(utf16_be_units(n.bytes@))
    } else if is_mac_roman_encoding(n.platform, n.encoding_id) {
        utf16_decoded(mac_roman_units(n.bytes@))
    } else {
        None
    }
}

/// What looking up name `want` in the records yields: the first record
/// carrying it in a decodable encoding, decoded.
pub open spec fn parse_name_spec(names: Seq<RawName>, want: u16) -> Option<Seq<char>> {
    let ix = name_index_from(names, want, 0);
    if ix < names.len() {
        decode_name(names[ix])
    } else {
        None
    }
}

/// Characterizes `name_index_from`: it points at the first matching
/// record at or after `i`, or at the end when none matches.
proof fn lemma_name_index_char(names: Seq<RawName>, want: u16, i: int)
    requires
        0 <= i <= names.len(),
    ensures
        ({
            let ix = name_index_from(names, want, i);
            &&& i <= ix <= names.len()
            &&& (ix < names.len() ==> name_matches(names[ix], want))
            &&& forall|j: int| i <= j < ix ==> !name_matches(#[trigger] names[j], want)
        }),
    decreases names.len() - i,
{
    if i < names.len() && !name_matches(names[i], want) {
        lemma_name_index_char(names, want, i + 1);
    }
}

/// Looks up name `want` among the records: takes the first record that
/// carries it in a decodable encoding and decodes it.
fn parse_name(names: &Vec<RawName>, want: u16) -> (r: Option<String>)
    ensures
        match r {
            Some(s) => parse_name_spec(names@, want) == Some(s@),
            None => parse_name_spec(names@, want) is None,
        },
{
    let mut i: usize = 0;
    while i < names.len()
        invariant
            i <= names@.len(),
            forall|j: int| 0 <= j < i ==> !name_matches(#[trigger] names@[j], want),
        decreases names@.len() - i,
    {
        let n = &names[i];
        if n.name_id == want && n.is_supported_encoding() {
            proof {
                lemma_name_index_char(names@, want, 0);
                assert(name_index_from(names@, want, 0) == i as int);
            }
            let units = if n.is_unicode() {
                utf16_be_collect(&n.bytes)
            } else {
                // The record is decodable but not UTF-16, so it is
                // MacRoman.
                mac_roman_collect(&n.bytes)
            };
            return utf16_to_string(&units);
        }
        i += 1;
    }
    proof {
        lemma_name_index_char(names@, want, 0);
    }
    None
}

// ---------------------------------------------------------------------
// Extracting one face.
// ---------------------------------------------------------------------

/// The name records the loader reads from the face's name table, from
/// record `i` on: the prefix up to the first unreadable record, as the
/// parser's own name iteration yields it.
pub open spec fn face_name_records_from(data: Seq<u8>, index: u32, i: int) -> Seq<RawName>
    decreases name_record_count(data, index) - i,
{
    if i < 0 || i >= name_record_count(data, index) {
        Seq::empty()
    } else {
        match name_record_at(data, index, i as u16) {
            Some(r) => seq![r] + face_name_records_from(data, index, i + 1),
            None => Seq::empty(),
        }
    }
}

/// The name records the loader reads from the face's name table.
pub open spec fn face_name_records(data: Seq<u8>, index: u32) -> Seq<RawName> {
    face_name_records_from(data, index, 0)
}

/// The family name a load extracts for a face: the *Typographic Family*
/// preferred over the plain *Font Family*, decoded from the first
/// record of that name in a decodable encoding.
pub open spec fn face_family_name(data: Seq<u8>, index: u32) -> Option<Seq<char>> {
    let recs = face_name_records(data, index);
    match parse_name_spec(recs, NAME_ID_TYPOGRAPHIC_FAMILY) {
        Some(s) => Some(s),
        None => parse_name_spec(recs, NAME_ID_FAMILY),
    }
}

/// The PostScript name a load extracts for a face.
pub open spec fn face_post_script_name(data: Seq<u8>, index: u32) -> Option<Seq<char>> {
    parse_name_spec(face_name_records(data, index), NAME_ID_POST_SCRIPT_NAME)
}

/// The style a load derives from the face's flags: the italic flag
/// wins, then the oblique flag, else Normal.
pub open spec fn style_of_flags(italic: bool, oblique: bool) -> Style {
    if italic {
        Style::Italic
    } else if oblique {
        Style::Oblique
    } else {
        Style::Normal
    }
}

/// The stretch a numeric width class stands for; classes outside 1 to 9
/// count as Normal, as the parser itself normalizes them.
pub open spec fn stretch_of_class(n: u16) -> Stretch {
    if n == 1 {
        Stretch::UltraCondensed
    } else if n == 2 {
        Stretch::ExtraCondensed
    } else if n == 3 {
        Stretch::Condensed
    } else if n == 4 {
        Stretch::SemiCondensed
    } else if n == 6 {
        Stretch::SemiExpanded
    } else if n == 7 {
        Stretch::Expanded
    } else if n == 8 {
        Stretch::ExtraExpanded
    } else if n == 9 {
        Stretch::UltraExpanded
    } else {
        Stretch::Normal
    }
}

/// Maps a numeric width class to its stretch.
fn stretch_from_class(n: u16) -> (r: Stretch)
    ensures
        r == stretch_of_class(n),
{
    if n == 1 {
        Stretch::UltraCondensed
    } else if n == 2 {
        Stretch::ExtraCondensed
    } else if n == 3 {
        Stretch::Condensed
    } else if n == 4 {
        Stretch::SemiCondensed
    } else if n == 6 {
        Stretch::SemiExpanded
    } else if n == 7 {
        Stretch::Expanded
    } else if n == 8 {
        Stretch::ExtraExpanded
    } else if n == 9 {
        Stretch::UltraExpanded
    } else {
        Stretch::Normal
    }
}

/// Whether a load registers face `index` of `data`: the parser accepts
/// it, and it carries a usable family name and PostScript name.
pub open spec fn slot_registered(data: Seq<u8>, index: u32) -> bool {
    &&& face_parse_ok(data, index)
    &&& face_family_name(data, index) is Some
    &&& face_post_script_name(data, index) is Some
}

/// The metadata of one successfully extracted face, before an ID and a
/// source are attached.
struct ParsedFace {
    family: String,
    post_script_name: String,
    style: Style,
    weight: Weight,
    stretch: Stretch,
    monospaced: bool,
}

/// What extracting face `index` of `data` yields: the exact outcome of
/// `parse_face_info`. A face the parser rejects is malformed; a parsed
/// face without a usable family name or PostScript name is unnamed; an
/// extracted face carries exactly the parsed names, flags, weight and
/// width class.
spec fn parse_outcome(data: Seq<u8>, index: u32, r: Result<ParsedFace, LoadError>) -> bool {
    match r {
        Ok(p) => {
            &&& slot_registered(data, index)
            &&& Some(p.family@) == face_family_name(data, index)
            &&& Some(p.post_script_name@) == face_post_script_name(data, index)
            &&& p.style == style_of_flags(
                face_italic_flag(data, index),
                face_oblique_flag(data, index),
            )
            &&& p.weight == Weight(face_weight_num(data, index))
            &&& p.stretch == stretch_of_class(face_width_class(data, index))
            &&& p.monospaced == face_monospaced_flag(data, index)
        },
        Err(e) => match e {
            LoadError::MalformedFont => !face_parse_ok(data, index),
            LoadError::UnnamedFont => face_parse_ok(data, index) && !(face_family_name(
                data,
                index,
            ) is Some && face_post_script_name(data, index) is Some),
        },
    }
}

/// Reads all name records of a face into plain records, stopping at the
/// first unreadable one, as the parser's own name iteration does.
fn collect_names(data: &[u8], index: u32) -> (r: Vec<RawName>)
    ensures
        r@ == face_name_records(data@, index),
{
    let n = name_record_count_of(data, index);
    let mut out: Vec<RawName> = Vec::new();
    let mut i: u16 = 0;
    while i < n
        invariant
            i <= n,
            n == name_record_count(data@, index),
            face_name_records(data@, index) == out@ + face_name_records_from(
                data@,
                index,
                i as int,
            ),
        decreases n - i,
    {
        match name_record_at_of(data, index, i) {
            Some(r) => {
                proof {
                    assert(face_name_records_from(data@, index, i as int) == seq![r]
                        + face_name_records_from(data@, index, i as int + 1));
                    assert(out@ + (seq![r] + face_name_records_from(data@, index, i as int + 1))
                        =~= out@.push(r) + face_name_records_from(data@, index, i as int + 1));
                }
                out.push(r);
            },
            None => {
                // The parser's name iteration stops at the first
                // unreadable record, and so does this read.
                proof {
                    assert(face_name_records_from(data@, index, i as int) =~= Seq::<
                        RawName,
                    >::empty());
                    assert(out@ + face_name_records_from(data@, index, i as int) =~= out@);
                }
                return out;
            },
        }
        i += 1;
    }
    proof {
        assert(face_name_records_from(data@, index, i as int) =~= Seq::<RawName>::empty());
        assert(out@ + face_name_records_from(data@, index, i as int) =~= out@);
    }
    out
}

/// Extracts the matching metadata of face `index` from raw font data.
///
/// A face the parser rejects is malformed; a parsed face without a
/// usable family name or PostScript name is unnamed. Both are reported,
/// not raised. An extracted face carries exactly the parsed names,
/// style flags, weight and width class.
fn parse_face_info(data: &[u8], index: u32) -> (r: Result<ParsedFace, LoadError>)
    ensures
        parse_outcome(data@, index, r),
{
    let axes = match extract_face_axes(data, index) {
        Some(a) => a,
        None => {
            return Err(LoadError::MalformedFont);
        },
    };
    let raw = collect_names(data, index);
    let family = match parse_name(&raw, NAME_ID_TYPOGRAPHIC_FAMILY) {
        Some(f) => Some(f),
        None => parse_name(&raw, NAME_ID_FAMILY),
    };
    let family = match family {
        Some(f) => f,
        None => {
            return Err(LoadError::UnnamedFont);
        },
    };
    let post_script_name = match parse_name(&raw, NAME_ID_POST_SCRIPT_NAME) {
        Some(p) => p,
        None => {
            return Err(LoadError::UnnamedFont);
        },
    };
    let style = if axes.italic {
        Style::Italic
    } else if axes.oblique {
        Style::Oblique
    } else {
        Style::Normal
    };
    Ok(
        ParsedFace {
            family,
            post_script_name,
            style,
            weight: Weight(axes.weight),
            stretch: stretch_from_class(axes.width_class),
            monospaced: axes.monospaced,
        },
    )
}

// ---------------------------------------------------------------------
// Loading into the database.
// ---------------------------------------------------------------------

/// How many face slots a load of `data` walks through: the announced
/// collection size, or one for a simple font. Every slot consumes an
/// ID, registered or skipped.
pub open spec fn face_slots(data: Seq<u8>) -> int {
    match collection_face_count(data) {
        Some(n) => n as int,
        None => 1,
    }
}

/// The face slots below `n` that a load of `data` registers, in
/// ascending slot order.
pub open spec fn registered_slots(data: Seq<u8>, n: int) -> Seq<u32>
    decreases n,
{
    if n <= 0 {
        Seq::empty()
    } else {
        let rest = registered_slots(data, n - 1);
        if slot_registered(data, (n - 1) as u32) {
            rest.push((n - 1) as u32)
        } else {
            rest
        }
    }
}

/// The face slots below `n` that a load of `data` skips, in ascending
/// slot order.
pub open spec fn skipped_slots(data: Seq<u8>, n: int) -> Seq<u32>
    decreases n,
{
    if n <= 0 {
        Seq::empty()
    } else {
        let rest = skipped_slots(data, n - 1);
        if slot_registered(data, (n - 1) as u32) {
            rest
        } else {
            rest.push((n - 1) as u32)
        }
    }
}

/// Law: every slot is either registered or skipped, so the two slot
/// sequences of a load partition the `n` slots between them.
pub proof fn lemma_slots_partition(data: Seq<u8>, n: int)
    requires
        n >= 0,
    ensures
        registered_slots(data, n).len() + skipped_slots(data, n).len() == n,
    decreases n,
{
    if n > 0 {
        lemma_slots_partition(data, n - 1);
    }
}

/// What loading the font bytes `data` into a database does. Exactly
/// the slots that parse and carry usable names are registered: their
/// faces are appended in slot order, each carrying its slot as `index`,
/// the shared source `src`, the ID `pre.next_id + slot + 1` (the
/// allocator advances by one per slot, registered or not, so IDs always
/// exceed every ID handed out before), and exactly the names, style
/// flags, weight and width class the parser yields for that slot.
/// Every returned ID resolves to its new record, and the skipped slots
/// are reported in order: malformed when the parser rejects the slot,
/// unnamed when it parses without usable names.
pub open spec fn load_post(
    pre: Database,
    post: Database,
    data: Seq<u8>,
    src: Source,
    r: LoadReport,
) -> bool {
    let oldn = pre.faces@.len() as int;
    let slots = face_slots(data);
    let regs = registered_slots(data, slots);
    let skips = skipped_slots(data, slots);
    &&& post.wf()
    &&& post.next_id == pre.next_id + slots
    &&& post.family_serif == pre.family_serif
    &&& post.family_sans_serif == pre.family_sans_serif
    &&& post.family_cursive == pre.family_cursive
    &&& post.family_fantasy == pre.family_fantasy
    &&& post.family_monospace == pre.family_monospace
    &&& post.faces@.len() == oldn + regs.len()
    &&& post.faces@.take(oldn) == pre.faces@
    &&& r.ids@.len() == regs.len()
    &&& forall|k: int|
        0 <= k < regs.len() ==> ({
            let f = post.faces@[oldn + k];
            let s = #[trigger] regs[k];
            &&& r.ids@[k] == f.id
            &&& f.id.0 == pre.next_id + s + 1
            &&& f.index == s
            &&& f.source == src
            &&& Some(f.family@) == face_family_name(data, s)
            &&& Some(f.post_script_name@) == face_post_script_name(data, s)
            &&& f.style == style_of_flags(face_italic_flag(data, s), face_oblique_flag(data, s))
            &&& f.weight == Weight(face_weight_num(data, s))
            &&& f.stretch == stretch_of_class(face_width_class(data, s))
            &&& f.monospaced == face_monospaced_flag(data, s)
        })
    &&& forall|k: int|
        0 <= k < r.ids@.len() ==> lookup_spec(post, #[trigger] r.ids@[k]) == Some(
            post.faces@[oldn + k],
        )
    &&& r.skipped@.len() == skips.len()
    &&& forall|k: int|
        0 <= k < skips.len() ==> ({
            let sk = #[trigger] r.skipped@[k];
            &&& sk.index == skips[k]
            &&& sk.reason == (if !face_parse_ok(data, skips[k]) {
                LoadError::MalformedFont
            } else {
                LoadError::UnnamedFont
            })
        })
}

impl Database {
    /// Registers every face of the font bytes `data` that the parser
    /// accepts and that carries a usable name, each referring to the
    /// shared `source`. Skipped faces are reported with their reasons;
    /// they never abort the load.
    ///
    /// This is the registration core behind `load_font_data`; callers
    /// that resolve a file to bytes themselves hand the mapped bytes
    /// here together with a file-backed source.
    ///
    /// Every ID handed back resolves to its new record until that
    /// record is removed. The caller answers for the ID space: one ID
    /// is consumed per face slot, and the allocator must not overflow;
    /// `try_load_font_faces` checks this instead of requiring it.
    pub fn load_font_faces(&mut self, data: &[u8], source: Arc<Source>) -> (r: LoadReport)
        requires
            old(self).wf(),
            old(self).next_id + face_slots(data@) <= u32::MAX,
        ensures
            load_post(*old(self), *final(self), data@, *source, r),
    {
        let ghost oldn = self.faces@.len() as int;
        let n: u32 = match fonts_in_collection(data) {
            Some(c) => c,
            None => 1,
        };
        proof {
            assert(n as int == face_slots(data@));
        }
        // Extract every face of the collection up front, while the raw
        // bytes are directly at hand.
        let mut parsed: Vec<Result<ParsedFace, LoadError>> = Vec::new();
        let mut index: u32 = 0;
        while index < n
            invariant
                index <= n,
                parsed@.len() == index,
                forall|k: int|
                    0 <= k < index ==> parse_outcome(data@, k as u32, #[trigger] parsed@[k]),
            decreases n - index,
        {
            parsed.push(parse_face_info(data, index));
            index += 1;
        }
        let mut ids: Vec<ID> = Vec::new();
        let mut skipped: Vec<SkippedFace> = Vec::new();
        let mut i: u32 = 0;
        while i < n
            invariant
                i <= n,
                n as int == face_slots(data@),
                parsed@.len() == n - i,
                forall|k: int|
                    0 <= k < parsed@.len() ==> parse_outcome(
                        data@,
                        (i + k) as u32,
                        #[trigger] parsed@[k],
                    ),
                self.wf(),
                oldn == old(self).faces@.len() as int,
                self.next_id == old(self).next_id + i,
                old(self).next_id + face_slots(data@) <= u32::MAX,
                self.faces@.take(oldn) == old(self).faces@,
                self.family_serif == old(self).family_serif,
                self.family_sans_serif == old(self).family_sans_serif,
                self.family_cursive == old(self).family_cursive,
                self.family_fantasy == old(self).family_fantasy,
                self.family_monospace == old(self).family_monospace,
                ids@.len() == registered_slots(data@, i as int).len(),
                self.faces@.len() == oldn + ids@.len(),
                skipped@.len() == skipped_slots(data@, i as int).len(),
                forall|k: int|
                    0 <= k < ids@.len() ==> ({
                        let f = self.faces@[oldn + k];
                        let s = #[trigger] registered_slots(data@, i as int)[k];
                        &&& ids@[k] == f.id
                        &&& f.id.0 == old(self).next_id + s + 1
                        &&& f.index == s
                        &&& f.source == source
                        &&& Some(f.family@) == face_family_name(data@, s)
                        &&& Some(f.post_script_name@) == face_post_script_name(data@, s)
                        &&& f.style == style_of_flags(
                            face_italic_flag(data@, s),
                            face_oblique_flag(data@, s),
                        )
                        &&& f.weight == Weight(face_weight_num(data@, s))
                        &&& f.stretch == stretch_of_class(face_width_class(data@, s))
                        &&& f.monospaced == face_monospaced_flag(data@, s)
                    }),
                forall|k: int|
                    0 <= k < skipped@.len() ==> ({
                        let sk = #[trigger] skipped@[k];
                        let s = skipped_slots(data@, i as int)[k];
                        &&& sk.index == s
                        &&& sk.reason == (if !face_parse_ok(data@, s) {
                            LoadError::MalformedFont
                        } else {
                            LoadError::UnnamedFont
                        })
                    }),
            decreases n - i,
        {
            self.next_id = self.next_id + 1;
            let ghost pre_faces = self.faces@;
            let item = parsed.remove(0);
            proof {
                // Slot i decides which of the two slot sequences grows.
                assert(registered_slots(data@, i as int + 1) == (if slot_registered(data@, i) {
                    registered_slots(data@, i as int).push(i)
                } else {
                    registered_slots(data@, i as int)
                }));
                assert(skipped_slots(data@, i as int + 1) == (if slot_registered(data@, i) {
                    skipped_slots(data@, i as int)
                } else {
                    skipped_slots(data@, i as int).push(i)
                }));
            }
            match item {
                Ok(p) => {
                    proof {
                        assert(slot_registered(data@, i));
                    }
                    let id = ID(self.next_id);
                    let record = FaceInfo {
                        id,
                        source: clone_source_handle(&source),
                        index: i,
                        family: p.family,
                        post_script_name: p.post_script_name,
                        style: p.style,
                        weight: p.weight,
                        stretch: p.stretch,
                        monospaced: p.monospaced,
                    };
                    self.faces.push(record);
                    ids.push(id);
                    proof {
                        assert(self.faces@.take(oldn) =~= pre_faces.take(oldn));
                    }
                },
                Err(e) => {
                    proof {
                        assert(!slot_registered(data@, i));
                    }
                    skipped.push(SkippedFace { index: i, reason: e });
                },
            }
            i += 1;
        }
        proof {
            assert forall|k: int| 0 <= k < ids@.len() implies lookup_spec(
                *self,
                #[trigger] ids@[k],
            ) == Some(self.faces@[oldn + k]) by {
                let s = registered_slots(data@, i as int)[k];
                assert(ids@[k] == self.faces@[oldn + k].id);
                lemma_lookup_roundtrip(*self, oldn + k);
            }
        }
        LoadReport { ids, skipped }
    }

    /// Loads font data into the database, taking ownership of the bytes
    /// as one shared binary source for every face of a collection.
    ///
    /// The caller answers for the ID space, as with `load_font_faces`;
    /// `try_load_font_data` checks it instead of requiring it.
    pub fn load_font_data(&mut self, data: Vec<u8>) -> (r: LoadReport)
        requires
            old(self).wf(),
            old(self).next_id + face_slots(data@) <= u32::MAX,
        ensures
            load_post(*old(self), *final(self), data@, Source::Binary(data), r),
    {
        let source = Arc::new(Source::Binary(data));
        match source_binary(&source) {
            Some(bytes) => {
                let handle = clone_source_handle(&source);
                self.load_font_faces(bytes.as_slice(), handle)
            },
            None => {
                // The source was just built as a binary one.
                proof {
                    assert(false);
                }
                LoadReport { ids: Vec::new(), skipped: Vec::new() }
            },
        }
    }

    /// Registers faces from bytes and a shared source after checking
    /// that the ID space suffices: the total counterpart of
    /// `load_font_faces`.
    ///
    /// Returns nothing, and changes nothing, when registering one ID
    /// per face slot would overflow the allocator.
    pub fn try_load_font_faces(&mut self, data: &[u8], source: Arc<Source>) -> (r: Option<
        LoadReport,
    >)
        requires
            old(self).wf(),
        ensures
            (r is Some) <==> old(self).next_id + face_slots(data@) <= u32::MAX,
            r matches Some(report) ==> load_post(*old(self), *final(self), data@, *source, report),
            r is None ==> *final(self) == *old(self),
    {
        let n: u32 = match fonts_in_collection(data) {
            Some(c) => c,
            None => 1,
        };
        if (self.next_id as u64) + (n as u64) <= (u32::MAX as u64) {
            Some(self.load_font_faces(data, source))
        } else {
            None
        }
    }

    /// Loads font data after checking that the ID space suffices: the
    /// total counterpart of `load_font_data`.
    ///
    /// Returns nothing, and changes nothing, when registering one ID
    /// per face slot would overflow the allocator.
    pub fn try_load_font_data(&mut self, data: Vec<u8>) -> (r: Option<LoadReport>)
        requires
            old(self).wf(),
        ensures
            (r is Some) <==> old(self).next_id + face_slots(data@) <= u32::MAX,
            r matches Some(report) ==> load_post(
                *old(self),
                *final(self),
                data@,
                Source::Binary(data),
                report,
            ),
            r is None ==> *final(self) == *old(self),
    {
        let n: u32 = match fonts_in_collection(data.as_slice()) {
            Some(c) => c,
            None => 1,
        };
        if (self.next_id as u64) + (n as u64) <= (u32::MAX as u64) {
            Some(self.load_font_data(data))
        } else {
            None
        }
    }
}

/// The borrowed bytes of a binary source; nothing for a file-backed
/// one.
fn source_binary<'a>(source: &'a Arc<Source>) -> (r: Option<&'a Vec<u8>>)
    ensures
        match r {
            Some(bytes) => **source == Source::Binary(*bytes),
            None => **source is File,
        },
{
    match source_ref(source) {
        Source::Binary(bytes) => Some(bytes),
        Source::File(_) => None,
    }
}

} // verus!
