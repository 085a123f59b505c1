//! Scenario tests for the registry: registration, lookup, removal,
//! generic-family aliasing, and family selection in queries.

use std::sync::Arc;
use fontdb::{Database, FaceInfo, Family, ID, Query, Source, Stretch, Style, Weight};

fn face(family: &str, style: Style, weight: u16, stretch: Stretch) -> FaceInfo {
    FaceInfo {
        id: ID(0),
        source: Arc::new(Source::Binary(Vec::new())),
        index: 0,
        family: String::from(family),
        post_script_name: format!("{}-PS", family),
        style,
        weight: Weight(weight),
        stretch,
        monospaced: false,
    }
}

fn name_query(names: &[&str]) -> Query {
    Query {
        families: names.iter().map(|n| Family::Name(String::from(*n))).collect(),
        weight: Weight(400),
        stretch: Stretch::Normal,
        style: Style::Normal,
    }
}

#[test]
fn push_assigns_fresh_increasing_ids() {
    let mut db = Database::new();
    assert!(db.is_empty());
    let a = db.push_face_info(face("Alpha", Style::Normal, 400, Stretch::Normal));
    let b = db.push_face_info(face("Beta", Style::Normal, 400, Stretch::Normal));
    assert_ne!(a, b);
    assert!(a < b);
    assert_eq!(db.len(), 2);
    assert!(!db.is_empty());
}

#[test]
fn lookup_resolves_to_stored_record() {
    let mut db = Database::new();
    let a = db.push_face_info(face("Alpha", Style::Italic, 700, Stretch::Condensed));
    let rec = db.face(a).unwrap();
    assert_eq!(rec.id, a);
    assert_eq!(rec.family, "Alpha");
    assert_eq!(rec.style, Style::Italic);
    assert_eq!(rec.weight, Weight(700));
    assert_eq!(rec.stretch, Stretch::Condensed);
    assert_eq!(rec.post_script_name, "Alpha-PS");
}

#[test]
fn lookup_after_removal_is_none() {
    let mut db = Database::new();
    let a = db.push_face_info(face("Alpha", Style::Normal, 400, Stretch::Normal));
    let b = db.push_face_info(face("Beta", Style::Normal, 400, Stretch::Normal));
    let c = db.push_face_info(face("Gamma", Style::Normal, 400, Stretch::Normal));
    assert!(db.remove_face(b));
    assert!(db.face(b).is_none());
    assert!(db.face(a).is_some());
    assert!(db.face(c).is_some());
    assert_eq!(db.len(), 2);
    // Removing an unknown or already removed ID reports false.
    assert!(!db.remove_face(b));
    assert!(!db.remove_face(ID(999)));
    assert_eq!(db.len(), 2);
}

#[test]
fn ids_are_not_reused_after_removal() {
    let mut db = Database::new();
    let a = db.push_face_info(face("Alpha", Style::Normal, 400, Stretch::Normal));
    assert!(db.remove_face(a));
    let b = db.push_face_info(face("Beta", Style::Normal, 400, Stretch::Normal));
    assert_ne!(a, b);
    assert!(db.face(a).is_none());
}

#[test]
fn query_picks_requested_family() {
    let mut db = Database::new();
    let _a = db.push_face_info(face("Alpha", Style::Normal, 400, Stretch::Normal));
    let b = db.push_face_info(face("Beta", Style::Normal, 400, Stretch::Normal));
    assert_eq!(db.query(&name_query(&["Beta"])), Some(b));
}

#[test]
fn query_unknown_family_is_none() {
    let mut db = Database::new();
    let _a = db.push_face_info(face("Alpha", Style::Normal, 400, Stretch::Normal));
    assert_eq!(db.query(&name_query(&["Nothing Here"])), None);
}

#[test]
fn query_empty_family_list_is_none() {
    let mut db = Database::new();
    let _a = db.push_face_info(face("Alpha", Style::Normal, 400, Stretch::Normal));
    assert_eq!(db.query(&name_query(&[])), None);
}

#[test]
fn query_falls_through_unknown_families() {
    let mut db = Database::new();
    let foo = db.push_face_info(face("Foo Sans", Style::Normal, 400, Stretch::Normal));
    let q = name_query(&["No Such", "Foo Sans", "Also Missing"]);
    assert_eq!(db.query(&q), Some(foo));
}

#[test]
fn query_exact_match_beats_fallbacks() {
    let mut db = Database::new();
    let _r = db.push_face_info(face("Foo Sans", Style::Normal, 400, Stretch::Normal));
    let b = db.push_face_info(face("Foo Sans", Style::Normal, 700, Stretch::Normal));
    let _i = db.push_face_info(face("Foo Sans", Style::Italic, 400, Stretch::Normal));
    let q = Query {
        families: vec![Family::Name(String::from("Foo Sans"))],
        weight: Weight(700),
        stretch: Stretch::Normal,
        style: Style::Normal,
    };
    assert_eq!(db.query(&q), Some(b));
}

#[test]
fn query_is_deterministic() {
    let build = || {
        let mut db = Database::new();
        db.push_face_info(face("Foo Sans", Style::Normal, 400, Stretch::Normal));
        db.push_face_info(face("Foo Sans", Style::Italic, 700, Stretch::Condensed));
        db
    };
    let db1 = build();
    let db2 = build();
    let q = Query {
        families: vec![Family::Name(String::from("Foo Sans"))],
        weight: Weight(600),
        stretch: Stretch::SemiCondensed,
        style: Style::Italic,
    };
    let r1 = db1.query(&q);
    assert_eq!(r1, db1.query(&q));
    assert_eq!(r1, db2.query(&q));
    assert!(r1.is_some());
}

#[test]
fn generic_alias_behaves_like_the_name() {
    let mut db = Database::new();
    let g = db.push_face_info(face("Generic Sans", Style::Normal, 400, Stretch::Normal));
    db.set_sans_serif_family(String::from("Generic Sans"));
    let by_class = Query {
        families: vec![Family::SansSerif],
        weight: Weight(400),
        stretch: Stretch::Normal,
        style: Style::Normal,
    };
    let by_name = name_query(&["Generic Sans"]);
    assert_eq!(db.query(&by_class), Some(g));
    assert_eq!(db.query(&by_class), db.query(&by_name));
}

#[test]
fn unset_generic_class_is_skipped() {
    let mut db = Database::new();
    let a = db.push_face_info(face("Alpha", Style::Normal, 400, Stretch::Normal));
    let q = Query {
        families: vec![Family::Serif, Family::Name(String::from("Alpha"))],
        weight: Weight(400),
        stretch: Stretch::Normal,
        style: Style::Normal,
    };
    // The unset class is silently skipped, not an error.
    assert_eq!(db.query(&q), Some(a));
    let only_class = Query {
        families: vec![Family::Serif],
        weight: Weight(400),
        stretch: Stretch::Normal,
        style: Style::Normal,
    };
    assert_eq!(db.query(&only_class), None);
}

#[test]
fn alias_overwrites_previous_value() {
    let mut db = Database::new();
    let a = db.push_face_info(face("Alpha", Style::Normal, 400, Stretch::Normal));
    let b = db.push_face_info(face("Beta", Style::Normal, 400, Stretch::Normal));
    db.set_monospace_family(String::from("Alpha"));
    db.set_monospace_family(String::from("Beta"));
    let q = Query {
        families: vec![Family::Monospace],
        weight: Weight(400),
        stretch: Stretch::Normal,
        style: Style::Normal,
    };
    assert_eq!(db.query(&q), Some(b));
    assert_ne!(db.query(&q), Some(a));
}

#[test]
fn all_five_generic_classes_resolve() {
    let mut db = Database::new();
    let a = db.push_face_info(face("A", Style::Normal, 400, Stretch::Normal));
    db.set_serif_family(String::from("A"));
    db.set_sans_serif_family(String::from("A"));
    db.set_cursive_family(String::from("A"));
    db.set_fantasy_family(String::from("A"));
    db.set_monospace_family(String::from("A"));
    for fam in [
        Family::Serif,
        Family::SansSerif,
        Family::Cursive,
        Family::Fantasy,
        Family::Monospace,
    ] {
        let q = Query {
            families: vec![fam],
            weight: Weight(400),
            stretch: Stretch::Normal,
            style: Style::Normal,
        };
        assert_eq!(db.query(&q), Some(a));
    }
}

#[test]
fn insertion_order_breaks_query_ties() {
    let mut db = Database::new();
    let first = db.push_face_info(face("Twin", Style::Normal, 400, Stretch::Normal));
    let _second = db.push_face_info(face("Twin", Style::Normal, 400, Stretch::Normal));
    assert_eq!(db.query(&name_query(&["Twin"])), Some(first));
}

#[test]
fn face_source_shares_the_source() {
    let mut db = Database::new();
    let data = vec![1u8, 2, 3, 4];
    let mut info = face("Alpha", Style::Normal, 400, Stretch::Normal);
    info.source = Arc::new(Source::Binary(data.clone()));
    info.index = 7;
    let a = db.push_face_info(info);
    let (src, index) = db.face_source(a).unwrap();
    assert_eq!(index, 7);
    match src.as_ref() {
        Source::Binary(d) => assert_eq!(*d, data),
        Source::File(_) => panic!("expected a binary source"),
    }
    assert!(db.face_source(ID(999)).is_none());
}

#[test]
fn with_face_data_runs_on_binary_sources() {
    let mut db = Database::new();
    let data = vec![9u8, 8, 7];
    let mut info = face("Alpha", Style::Normal, 400, Stretch::Normal);
    info.source = Arc::new(Source::Binary(data.clone()));
    info.index = 3;
    let a = db.push_face_info(info);
    let got = db.with_face_data(a, |bytes, index| (bytes.to_vec(), index));
    assert_eq!(got, Some((data, 3)));
    assert_eq!(db.with_face_data(ID(999), |_, _| ()), None);
}

#[test]
fn with_face_data_skips_file_sources() {
    let mut db = Database::new();
    let mut info = face("Alpha", Style::Normal, 400, Stretch::Normal);
    info.source = Arc::new(Source::File(String::from("/no/such/file.ttf")));
    let a = db.push_face_info(info);
    // Resolving a file-backed source needs the filesystem, which the
    // registry itself never touches.
    assert_eq!(db.with_face_data(a, |_, _| ()), None);
}

#[test]
fn default_axes_are_normal() {
    assert_eq!(Weight::default(), Weight(400));
    assert_eq!(Style::default(), Style::Normal);
    assert_eq!(Stretch::default(), Stretch::Normal);
}

#[test]
fn stretch_numbers_are_ordered_width_classes() {
    assert_eq!(Stretch::UltraCondensed.to_number(), 1);
    assert_eq!(Stretch::SemiCondensed.to_number(), 4);
    assert_eq!(Stretch::Normal.to_number(), 5);
    assert_eq!(Stretch::UltraExpanded.to_number(), 9);
}
