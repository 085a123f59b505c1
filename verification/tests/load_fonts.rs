//! Tests for loading font binaries: faces are extracted through the
//! real font parser, so these tests build small TrueType fonts byte by
//! byte — a table directory with the head, hhea and maxp tables the
//! parser requires, plus name, OS/2 and post tables as needed.

use fontdb::{Database, Family, LoadError, Query, Source, Stretch, Style, Weight};

fn be16(v: u16) -> [u8; 2] {
    v.to_be_bytes()
}

fn be32(v: u32) -> [u8; 4] {
    v.to_be_bytes()
}

fn head_table() -> Vec<u8> {
    let mut t = vec![0u8; 54];
    t[0..4].copy_from_slice(&be32(0x00010000)); // version
    t[12..16].copy_from_slice(&be32(0x5F0F3CF5)); // magic number
    t[18..20].copy_from_slice(&be16(1000)); // units per em
    // index-to-location format 0 at offset 50; the rest may stay zero.
    t
}

fn hhea_table() -> Vec<u8> {
    let mut t = vec![0u8; 36];
    t[0..4].copy_from_slice(&be32(0x00010000)); // version
    t[4..6].copy_from_slice(&be16(800)); // ascender
    t[34..36].copy_from_slice(&be16(1)); // number of h-metrics
    t
}

fn maxp_table() -> Vec<u8> {
    let mut t = vec![0u8; 6];
    t[0..4].copy_from_slice(&be32(0x00010000)); // version
    t[4..6].copy_from_slice(&be16(1)); // number of glyphs
    t
}

fn os2_table(weight: u16, width: u16, fs_selection: u16) -> Vec<u8> {
    let mut t = vec![0u8; 96];
    t[0..2].copy_from_slice(&be16(4)); // version
    t[4..6].copy_from_slice(&be16(weight)); // usWeightClass
    t[6..8].copy_from_slice(&be16(width)); // usWidthClass
    t[62..64].copy_from_slice(&be16(fs_selection)); // fsSelection
    t
}

fn post_table(is_fixed_pitch: bool) -> Vec<u8> {
    let mut t = vec![0u8; 32];
    t[0..4].copy_from_slice(&be32(0x00030000)); // version
    if is_fixed_pitch {
        t[12..16].copy_from_slice(&be32(1));
    }
    t
}

/// A name table (format 0) from records of
/// `(platform_id, encoding_id, language_id, name_id, bytes)`.
fn name_table(entries: &[(u16, u16, u16, u16, Vec<u8>)]) -> Vec<u8> {
    let count = entries.len() as u16;
    let storage_offset = 6 + 12 * count;
    let mut t = Vec::new();
    t.extend(be16(0)); // version
    t.extend(be16(count));
    t.extend(be16(storage_offset));
    let mut storage: Vec<u8> = Vec::new();
    for (platform, encoding, language, name_id, bytes) in entries {
        t.extend(be16(*platform));
        t.extend(be16(*encoding));
        t.extend(be16(*language));
        t.extend(be16(*name_id));
        t.extend(be16(bytes.len() as u16));
        t.extend(be16(storage.len() as u16));
        storage.extend(bytes);
    }
    t.extend(storage);
    t
}

fn utf16_be(s: &str) -> Vec<u8> {
    let mut out = Vec::new();
    for unit in s.encode_utf16() {
        out.extend(be16(unit));
    }
    out
}

/// Windows-platform Unicode BMP records for the family (name 1) and
/// PostScript name (name 6).
fn windows_names(family: &str, post_script: &str) -> Vec<(u16, u16, u16, u16, Vec<u8>)> {
    vec![
        (3, 1, 0x409, 1, utf16_be(family)),
        (3, 1, 0x409, 6, utf16_be(post_script)),
    ]
}

/// A complete single-face font from tables `(tag, data)`; the tags must
/// be in ascending order. `base` is the absolute offset at which the
/// font will sit in the final file, zero for a standalone font.
fn sfnt(tables: &[(&[u8; 4], Vec<u8>)], base: u32) -> Vec<u8> {
    let mut font = Vec::new();
    font.extend(be32(0x00010000)); // sfnt magic
    font.extend(be16(tables.len() as u16));
    font.extend(be16(0)); // search range
    font.extend(be16(0)); // entry selector
    font.extend(be16(0)); // range shift
    let mut offset = 12 + 16 * tables.len() as u32;
    let mut body: Vec<u8> = Vec::new();
    for (tag, data) in tables {
        font.extend(*tag);
        font.extend(be32(0)); // checksum, unchecked
        font.extend(be32(base + offset));
        font.extend(be32(data.len() as u32));
        offset += data.len() as u32;
        body.extend(data);
    }
    font.extend(body);
    font
}

/// A simple font with the given names and OS/2 axes.
fn build_font(
    names: &[(u16, u16, u16, u16, Vec<u8>)],
    weight: u16,
    width: u16,
    fs_selection: u16,
    fixed_pitch: bool,
) -> Vec<u8> {
    sfnt(
        &[
            (b"OS/2", os2_table(weight, width, fs_selection)),
            (b"head", head_table()),
            (b"hhea", hhea_table()),
            (b"maxp", maxp_table()),
            (b"name", name_table(names)),
            (b"post", post_table(fixed_pitch)),
        ],
        0,
    )
}

/// A TrueType collection holding the given complete fonts.
fn build_collection(fonts: &[Vec<u8>]) -> Vec<u8> {
    let n = fonts.len() as u32;
    let mut out = Vec::new();
    out.extend(be32(0x74746366)); // 'ttcf'
    out.extend(be32(0x00010000)); // version
    out.extend(be32(n));
    let mut offset = 12 + 4 * n;
    for font in fonts {
        out.extend(be32(offset));
        offset += font.len() as u32;
    }
    for font in fonts {
        out.extend(font);
    }
    out
}

/// A font whose faces sit at `base`, for embedding in a collection.
fn build_font_at(names: &[(u16, u16, u16, u16, Vec<u8>)], base: u32) -> Vec<u8> {
    sfnt(
        &[
            (b"OS/2", os2_table(400, 5, 0)),
            (b"head", head_table()),
            (b"hhea", hhea_table()),
            (b"maxp", maxp_table()),
            (b"name", name_table(names)),
            (b"post", post_table(false)),
        ],
        base,
    )
}

#[test]
fn built_fonts_satisfy_the_parser() {
    // The builder's output must be a font the parser accepts, or every
    // other test here would test nothing.
    let data = build_font(&windows_names("Check", "Check-PS"), 400, 5, 0, false);
    let face = ttf_parser::Face::parse(&data, 0);
    assert!(face.is_ok(), "builder font rejected: {:?}", face.err());
}

#[test]
fn add_fonts_and_get_ids_back() {
    let mut font_db = Database::new();
    let report = font_db.load_font_data(build_font(
        &windows_names("Tuffy", "Tuffy-Regular"),
        400,
        5,
        0,
        false,
    ));

    assert_eq!(report.ids.len(), 1);
    let id = report.ids[0];

    let font = font_db.face(id).unwrap();
    assert!(font.family == "Tuffy");
}

#[test]
fn corrupt_font_is_skipped_with_reason() {
    let mut db = Database::new();
    let report = db.load_font_data(vec![0xDE, 0xAD, 0xBE, 0xEF, 0x00]);
    assert_eq!(report.ids.len(), 0);
    assert_eq!(report.skipped.len(), 1);
    assert_eq!(report.skipped[0].index, 0);
    assert_eq!(report.skipped[0].reason, LoadError::MalformedFont);
    assert!(db.is_empty());
}

#[test]
fn valid_face_registers_next_to_corrupt_one() {
    // One valid and one corrupt blob: the valid one registers, the
    // corrupt one is reported, and nothing aborts.
    let mut db = Database::new();
    let good = db.load_font_data(build_font(
        &windows_names("Good Font", "Good-PS"),
        400,
        5,
        0,
        false,
    ));
    let bad = db.load_font_data(vec![1, 2, 3]);
    assert_eq!(good.ids.len(), 1);
    assert_eq!(good.skipped.len(), 0);
    assert_eq!(bad.ids.len(), 0);
    assert_eq!(bad.skipped.len(), 1);
    assert_eq!(bad.skipped[0].reason, LoadError::MalformedFont);
    assert_eq!(db.len(), 1);
    assert_eq!(db.face(good.ids[0]).unwrap().family, "Good Font");
}

#[test]
fn unnamed_font_is_skipped_with_reason() {
    // The parser accepts the font, but it has no usable family name.
    let mut db = Database::new();
    let report = db.load_font_data(build_font(&[], 400, 5, 0, false));
    assert_eq!(report.ids.len(), 0);
    assert_eq!(report.skipped.len(), 1);
    assert_eq!(report.skipped[0].reason, LoadError::UnnamedFont);
}

#[test]
fn missing_post_script_name_is_unnamed() {
    let mut db = Database::new();
    let only_family = vec![(3u16, 1u16, 0x409u16, 1u16, utf16_be("Half Named"))];
    let report = db.load_font_data(build_font(&only_family, 400, 5, 0, false));
    assert_eq!(report.ids.len(), 0);
    assert_eq!(report.skipped[0].reason, LoadError::UnnamedFont);
}

#[test]
fn face_axes_come_from_the_font() {
    let mut db = Database::new();
    // fsSelection bit 0 marks italic; width class 3 is Condensed.
    let report = db.load_font_data(build_font(
        &windows_names("Slanted", "Slanted-Italic"),
        700,
        3,
        1,
        true,
    ));
    assert_eq!(report.ids.len(), 1);
    let rec = db.face(report.ids[0]).unwrap();
    assert_eq!(rec.family, "Slanted");
    assert_eq!(rec.post_script_name, "Slanted-Italic");
    assert_eq!(rec.weight, Weight(700));
    assert_eq!(rec.stretch, Stretch::Condensed);
    assert_eq!(rec.style, Style::Italic);
    assert!(rec.monospaced);
}

#[test]
fn typographic_family_wins_over_family() {
    let mut db = Database::new();
    let names = vec![
        (3u16, 1u16, 0x409u16, 1u16, utf16_be("Legacy Name")),
        (3, 1, 0x409, 6, utf16_be("Both-PS")),
        (3, 1, 0x409, 16, utf16_be("Typographic Name")),
    ];
    let report = db.load_font_data(build_font(&names, 400, 5, 0, false));
    assert_eq!(report.ids.len(), 1);
    assert_eq!(db.face(report.ids[0]).unwrap().family, "Typographic Name");
}

#[test]
fn mac_roman_names_are_decoded() {
    // A Macintosh-platform, Roman-encoded name: byte 0x8E stands for
    // the e with acute accent.
    let mut db = Database::new();
    let mut family_bytes = b"Caf".to_vec();
    family_bytes.push(0x8E);
    let names = vec![
        (1u16, 0u16, 0u16, 1u16, family_bytes),
        (1, 0, 0, 6, b"Cafe-PS".to_vec()),
    ];
    let report = db.load_font_data(build_font(&names, 400, 5, 0, false));
    assert_eq!(report.ids.len(), 1);
    assert_eq!(db.face(report.ids[0]).unwrap().family, "Caf\u{00E9}");
}

#[test]
fn unsupported_encodings_are_ignored() {
    // An ISO-platform record is not decodable; with no other family
    // record the face counts as unnamed.
    let mut db = Database::new();
    let names = vec![
        (2u16, 0u16, 0u16, 1u16, b"Iso Name".to_vec()),
        (3, 1, 0x409, 6, utf16_be("Iso-PS")),
    ];
    let report = db.load_font_data(build_font(&names, 400, 5, 0, false));
    assert_eq!(report.ids.len(), 0);
    assert_eq!(report.skipped[0].reason, LoadError::UnnamedFont);
}

#[test]
fn collection_loads_every_face() {
    // Two fonts in one TrueType collection: both register, in order,
    // and share one binary source.
    let header = 12 + 4 * 2;
    let alpha = build_font_at(&windows_names("Coll Alpha", "CollAlpha-PS"), header);
    let beta_base = header + alpha.len() as u32;
    let beta = build_font_at(&windows_names("Coll Beta", "CollBeta-PS"), beta_base);
    let data = build_collection(&[alpha, beta]);

    let mut db = Database::new();
    let report = db.load_font_data(data.clone());
    assert_eq!(report.ids.len(), 2);
    assert_eq!(report.skipped.len(), 0);
    let first = db.face(report.ids[0]).unwrap();
    let second = db.face(report.ids[1]).unwrap();
    assert_eq!(first.family, "Coll Alpha");
    assert_eq!(second.family, "Coll Beta");
    assert_eq!(first.index, 0);
    assert_eq!(second.index, 1);
    match (first.source.as_ref(), second.source.as_ref()) {
        (Source::Binary(a), Source::Binary(b)) => {
            assert_eq!(*a, data);
            assert_eq!(*b, data);
        },
        _ => panic!("expected binary sources"),
    }
}

#[test]
fn mixed_collection_registers_and_skips_in_slot_order() {
    // One named and one unnamed face in a single collection: slot 0
    // registers, slot 1 is reported as unnamed, in order.
    let header = 12 + 4 * 2;
    let named = build_font_at(&windows_names("Mixed Good", "MixedGood-PS"), header);
    let unnamed_base = header + named.len() as u32;
    let unnamed = build_font_at(&[], unnamed_base);
    let data = build_collection(&[named, unnamed]);

    let mut db = Database::new();
    let report = db.load_font_data(data);
    assert_eq!(report.ids.len(), 1);
    assert_eq!(report.skipped.len(), 1);
    assert_eq!(report.skipped[0].index, 1);
    assert_eq!(report.skipped[0].reason, LoadError::UnnamedFont);
    let rec = db.face(report.ids[0]).unwrap();
    assert_eq!(rec.family, "Mixed Good");
    assert_eq!(rec.index, 0);
}

#[test]
fn loaded_faces_answer_queries() {
    let mut db = Database::new();
    let regular = db.load_font_data(build_font(
        &windows_names("Queried", "Queried-Regular"),
        400,
        5,
        0,
        false,
    ));
    let bold = db.load_font_data(build_font(
        &windows_names("Queried", "Queried-Bold"),
        700,
        5,
        0,
        false,
    ));
    let q = Query {
        families: vec![Family::Name(String::from("Queried"))],
        weight: Weight(700),
        stretch: Stretch::Normal,
        style: Style::Normal,
    };
    assert_eq!(db.query(&q), Some(bold.ids[0]));
    let q400 = Query {
        families: vec![Family::Name(String::from("Queried"))],
        weight: Weight(400),
        stretch: Stretch::Normal,
        style: Style::Normal,
    };
    assert_eq!(db.query(&q400), Some(regular.ids[0]));
}

#[test]
fn with_face_data_hands_back_loaded_bytes() {
    let mut db = Database::new();
    let data = build_font(&windows_names("Bytes", "Bytes-PS"), 400, 5, 0, false);
    let report = db.load_font_data(data.clone());
    let got = db.with_face_data(report.ids[0], |bytes, index| (bytes.to_vec(), index));
    assert_eq!(got, Some((data, 0)));
}

#[test]
fn try_load_checks_the_id_space() {
    let mut db = Database::new();
    let data = build_font(&windows_names("Fits", "Fits-PS"), 400, 5, 0, false);
    let report = db.try_load_font_data(data.clone()).unwrap();
    assert_eq!(report.ids.len(), 1);

    // With the allocator at its ceiling there is no room for one more
    // ID, and nothing is loaded.
    db.next_id = u32::MAX;
    let before = db.len();
    assert!(db.try_load_font_data(data).is_none());
    assert_eq!(db.len(), before);
}

#[test]
fn empty_collection_registers_nothing() {
    // A collection announcing zero fonts walks zero face slots.
    let mut db = Database::new();
    let report = db.load_font_data(build_collection(&[]));
    assert_eq!(report.ids.len(), 0);
    assert_eq!(report.skipped.len(), 0);
    assert!(db.is_empty());
}

#[test]
fn ids_grow_across_loads() {
    let mut db = Database::new();
    let first = db.load_font_data(build_font(&windows_names("One", "One-PS"), 400, 5, 0, false));
    let second = db.load_font_data(build_font(&windows_names("Two", "Two-PS"), 400, 5, 0, false));
    assert!(first.ids[0] < second.ids[0]);
    assert_eq!(db.faces().len(), 2);
    assert_eq!(db.faces()[0].family, "One");
    assert_eq!(db.faces()[1].family, "Two");
}

#[test]
fn load_error_messages() {
    assert_eq!(LoadError::MalformedFont.message(), "malformed font");
    assert_eq!(
        LoadError::UnnamedFont.message(),
        "font doesn't have a family name"
    );
}
