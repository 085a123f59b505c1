//! Scenario tests for the three-stage best-match engine, run directly
//! against `find_best_match` on hand-built candidate lists.

use fontdb::{find_best_match, FaceProperties, Query, Stretch, Style, Weight};

fn fp(style: Style, weight: u16, stretch: Stretch) -> FaceProperties {
    FaceProperties {
        style,
        weight: Weight(weight),
        stretch,
    }
}

fn q(weight: u16, stretch: Stretch, style: Style) -> Query {
    Query {
        families: Vec::new(),
        weight: Weight(weight),
        stretch,
        style,
    }
}

#[test]
fn empty_candidates_no_match() {
    let candidates: Vec<FaceProperties> = Vec::new();
    assert_eq!(
        find_best_match(&candidates, &q(400, Stretch::Normal, Style::Normal)),
        None
    );
}

#[test]
fn exact_match_wins() {
    let candidates = vec![
        fp(Style::Italic, 700, Stretch::Condensed),
        fp(Style::Normal, 400, Stretch::Normal),
        fp(Style::Oblique, 300, Stretch::Expanded),
    ];
    assert_eq!(
        find_best_match(&candidates, &q(400, Stretch::Normal, Style::Normal)),
        Some(1)
    );
    assert_eq!(
        find_best_match(&candidates, &q(700, Stretch::Condensed, Style::Italic)),
        Some(0)
    );
}

#[test]
fn stretch_normal_prefers_narrower() {
    // Requesting Normal stretch against only semi-condensed and
    // semi-expanded candidates takes the semi-condensed one.
    let candidates = vec![
        fp(Style::Normal, 400, Stretch::SemiCondensed),
        fp(Style::Normal, 400, Stretch::SemiExpanded),
    ];
    assert_eq!(
        find_best_match(&candidates, &q(400, Stretch::Normal, Style::Normal)),
        Some(0)
    );
    let swapped = vec![
        fp(Style::Normal, 400, Stretch::SemiExpanded),
        fp(Style::Normal, 400, Stretch::SemiCondensed),
    ];
    assert_eq!(
        find_best_match(&swapped, &q(400, Stretch::Normal, Style::Normal)),
        Some(1)
    );
}

#[test]
fn stretch_narrower_takes_widest_of_narrower() {
    let candidates = vec![
        fp(Style::Normal, 400, Stretch::UltraCondensed),
        fp(Style::Normal, 400, Stretch::SemiCondensed),
        fp(Style::Normal, 400, Stretch::UltraExpanded),
    ];
    assert_eq!(
        find_best_match(&candidates, &q(400, Stretch::Normal, Style::Normal)),
        Some(1)
    );
}

#[test]
fn stretch_expanded_prefers_wider() {
    // A query wider than Normal searches wider candidates first.
    let candidates = vec![
        fp(Style::Normal, 400, Stretch::Condensed),
        fp(Style::Normal, 400, Stretch::Expanded),
    ];
    assert_eq!(
        find_best_match(&candidates, &q(400, Stretch::SemiExpanded, Style::Normal)),
        Some(1)
    );
}

#[test]
fn stretch_expanded_falls_back_to_narrower() {
    let candidates = vec![
        fp(Style::Normal, 400, Stretch::Condensed),
        fp(Style::Normal, 400, Stretch::UltraCondensed),
    ];
    assert_eq!(
        find_best_match(&candidates, &q(400, Stretch::SemiExpanded, Style::Normal)),
        Some(0)
    );
}

#[test]
fn style_italic_prefers_oblique_over_normal() {
    let candidates = vec![
        fp(Style::Normal, 400, Stretch::Normal),
        fp(Style::Oblique, 400, Stretch::Normal),
    ];
    assert_eq!(
        find_best_match(&candidates, &q(400, Stretch::Normal, Style::Italic)),
        Some(1)
    );
}

#[test]
fn style_oblique_prefers_italic_over_normal() {
    let candidates = vec![
        fp(Style::Normal, 400, Stretch::Normal),
        fp(Style::Italic, 400, Stretch::Normal),
    ];
    assert_eq!(
        find_best_match(&candidates, &q(400, Stretch::Normal, Style::Oblique)),
        Some(1)
    );
}

#[test]
fn style_normal_prefers_oblique_over_italic() {
    let candidates = vec![
        fp(Style::Italic, 400, Stretch::Normal),
        fp(Style::Oblique, 400, Stretch::Normal),
    ];
    assert_eq!(
        find_best_match(&candidates, &q(400, Stretch::Normal, Style::Normal)),
        Some(1)
    );
}

#[test]
fn weight_seam_401_takes_thinner_of_the_two() {
    // With no candidate at 500 the seam rule does not apply: a query at
    // 401 prefers the closest weight at or below it.
    let candidates = vec![
        fp(Style::Normal, 200, Stretch::Normal),
        fp(Style::Normal, 700, Stretch::Normal),
    ];
    assert_eq!(
        find_best_match(&candidates, &q(401, Stretch::Normal, Style::Normal)),
        Some(0)
    );
}

#[test]
fn weight_399_takes_closest_below() {
    let candidates = vec![
        fp(Style::Normal, 300, Stretch::Normal),
        fp(Style::Normal, 200, Stretch::Normal),
    ];
    assert_eq!(
        find_best_match(&candidates, &q(399, Stretch::Normal, Style::Normal)),
        Some(0)
    );
}

#[test]
fn weight_seam_searches_up_to_500_first() {
    // A query in [400, 450) takes 500 when present, before anything
    // else, an exact 400 included.
    let candidates = vec![
        fp(Style::Normal, 400, Stretch::Normal),
        fp(Style::Normal, 500, Stretch::Normal),
    ];
    assert_eq!(
        find_best_match(&candidates, &q(420, Stretch::Normal, Style::Normal)),
        Some(1)
    );
    assert_eq!(
        find_best_match(&candidates, &q(400, Stretch::Normal, Style::Normal)),
        Some(1)
    );
}

#[test]
fn weight_seam_searches_down_to_400_first() {
    // A query in [450, 500] takes 400 when present, before anything
    // else, an exact 500 included.
    let candidates = vec![
        fp(Style::Normal, 400, Stretch::Normal),
        fp(Style::Normal, 500, Stretch::Normal),
    ];
    assert_eq!(
        find_best_match(&candidates, &q(460, Stretch::Normal, Style::Normal)),
        Some(0)
    );
    assert_eq!(
        find_best_match(&candidates, &q(500, Stretch::Normal, Style::Normal)),
        Some(0)
    );
}

#[test]
fn weight_heavy_prefers_heavier_then_falls_back() {
    let heavier_present = vec![
        fp(Style::Normal, 400, Stretch::Normal),
        fp(Style::Normal, 600, Stretch::Normal),
    ];
    assert_eq!(
        find_best_match(&heavier_present, &q(505, Stretch::Normal, Style::Normal)),
        Some(1)
    );
    let only_lighter = vec![
        fp(Style::Normal, 300, Stretch::Normal),
        fp(Style::Normal, 400, Stretch::Normal),
    ];
    assert_eq!(
        find_best_match(&only_lighter, &q(505, Stretch::Normal, Style::Normal)),
        Some(1)
    );
}

#[test]
fn ties_resolve_to_first_candidate() {
    let candidates = vec![
        fp(Style::Normal, 400, Stretch::Normal),
        fp(Style::Normal, 400, Stretch::Normal),
    ];
    assert_eq!(
        find_best_match(&candidates, &q(400, Stretch::Normal, Style::Normal)),
        Some(0)
    );
}

#[test]
fn stages_narrow_in_order() {
    // Stretch narrows first: an exact-stretch candidate beats one that
    // matches style and weight but not stretch.
    let candidates = vec![
        fp(Style::Italic, 700, Stretch::Condensed),
        fp(Style::Normal, 400, Stretch::Normal),
    ];
    assert_eq!(
        find_best_match(&candidates, &q(700, Stretch::Normal, Style::Italic)),
        Some(1)
    );
}
