//! The laws of the library, stated and proved once over the
//! specification functions that the executable contracts use: how the
//! matching engine falls back along each axis, and how queries relate
//! to the registry's contents.

use vstd::prelude::*;
use crate::database::{
    family_name_spec, lemma_matching_faces_membership, matching_faces, props_fn, query_spec,
    query_spec_from, Database,
};
use crate::matching::{
    best_match_spec, first_survivor_from, has_ab_weight, has_stretch, has_stretch_style,
    key_stretch, key_weight, lemma_first_survivor_char, lemma_max_key_where_props,
    lemma_min_key_where_props, lemma_survivor_exists, max_key_where, min_key_where,
    pred_ab_weight_ge, pred_ab_weight_le, pred_stretch_lt, stage_stretch, stage_style,
    stage_weight, survives,
};
use crate::types::{stretch_num, FaceProperties, Family, Query, Stretch, Style};

verus! {

// ---------------------------------------------------------------------
// Laws of the matching engine.
// ---------------------------------------------------------------------

/// Law: exact match precedence. When a candidate carries exactly the
/// requested stretch, style and weight, the chosen candidate carries
/// them too — the engine never prefers a fallback over an exact match.
///
/// The weight seam is the one exception and is excluded here: a query
/// weight in [400, 450) yields 500 when a 500-weight survivor exists,
/// and a query weight in [450, 500] yields 400 when a 400-weight
/// survivor exists, exact match or not.
pub proof fn lemma_exact_match_precedence(
    c: Seq<FaceProperties>,
    qs: Stretch,
    qst: Style,
    qw: u16,
    e: int,
)
    requires
        0 <= e < c.len(),
        c[e].stretch == qs,
        c[e].style == qst,
        c[e].weight.0 == qw,
        !(400 <= qw < 450 && has_ab_weight(c, stretch_num(qs), qst, 500)),
        !(450 <= qw <= 500 && has_ab_weight(c, stretch_num(qs), qst, 400)),
    ensures
        best_match_spec(c, qs, qst, qw) is Some,
        best_match_spec(c, qs, qst, qw) matches Some(i) ==> 0 <= i < c.len() && c[i].stretch == qs
            && c[i].style == qst && c[i].weight.0 == qw,
{
    let qn = stretch_num(qs);
    assert(has_stretch(c, qs));
    let vs = stage_stretch(c, qs);
    assert(vs == qn);
    assert(has_stretch_style(c, vs, qst));
    let st = stage_style(c, vs, qst);
    assert(st == qst);
    let vw = stage_weight(c, vs, st, qw);
    let w = qw as int;
    if w <= 500 {
        lemma_max_key_where_props(c, pred_ab_weight_le(vs, st, w), key_weight());
        assert(pred_ab_weight_le(vs, st, w)(c[e]));
        match max_key_where(c, pred_ab_weight_le(vs, st, w), key_weight()) {
            Some(m) => {
                assert(m >= w);
                assert(m <= w);
            },
            None => {
                assert(false);
            },
        }
        assert(vw == w);
    } else {
        lemma_min_key_where_props(c, pred_ab_weight_ge(vs, st, w), key_weight());
        assert(pred_ab_weight_ge(vs, st, w)(c[e]));
        match min_key_where(c, pred_ab_weight_ge(vs, st, w), key_weight()) {
            Some(m) => {
                assert(m <= w);
                assert(m >= w);
            },
            None => {
                assert(false);
            },
        }
        assert(vw == w);
    }
    assert(survives(c, qs, qst, qw, c[e]));
    lemma_first_survivor_char(c, qs, qst, qw, 0);
    let r = first_survivor_from(c, qs, qst, qw, 0);
    assert(r < c.len());
    assert(survives(c, qs, qst, qw, c[r]));
    assert(stretch_num(c[r].stretch) == qn ==> c[r].stretch == qs);
}

/// Law: stretch fallback direction. When no candidate matches the
/// requested stretch, the request is at Normal or narrower, and some
/// candidate is narrower, the chosen candidate is narrower than the
/// request — and is the widest of the narrower ones.
pub proof fn lemma_stretch_fallback_narrower(
    c: Seq<FaceProperties>,
    qs: Stretch,
    qst: Style,
    qw: u16,
)
    requires
        c.len() > 0,
        !has_stretch(c, qs),
        stretch_num(qs) <= 5,
        exists|i: int| 0 <= i < c.len() && stretch_num(#[trigger] c[i].stretch) < stretch_num(qs),
    ensures
        best_match_spec(c, qs, qst, qw) is Some,
        best_match_spec(c, qs, qst, qw) matches Some(i) ==> 0 <= i < c.len() && stretch_num(
            c[i].stretch,
        ) < stretch_num(qs) && (forall|j: int|
            0 <= j < c.len() && stretch_num(#[trigger] c[j].stretch) < stretch_num(qs)
                ==> stretch_num(c[j].stretch) <= stretch_num(c[i].stretch)),
{
    let qn = stretch_num(qs);
    lemma_max_key_where_props(c, pred_stretch_lt(qn), key_stretch());
    let x = choose|i: int|
        0 <= i < c.len() && stretch_num(#[trigger] c[i].stretch) < stretch_num(qs);
    assert(pred_stretch_lt(qn)(c[x]));
    let vs = stage_stretch(c, qs);
    match max_key_where(c, pred_stretch_lt(qn), key_stretch()) {
        Some(m) => {
            assert(vs == m);
            assert(m < qn);
        },
        None => {
            assert(false);
        },
    }
    lemma_survivor_exists(c, qs, qst, qw);
    lemma_first_survivor_char(c, qs, qst, qw, 0);
    let r = first_survivor_from(c, qs, qst, qw, 0);
    assert(r < c.len());
    assert(stretch_num(c[r].stretch) == vs);
    assert(forall|j: int|
        0 <= j < c.len() && stretch_num(#[trigger] c[j].stretch) < qn ==> pred_stretch_lt(qn)(
            c[j],
        ) && key_stretch()(c[j]) == stretch_num(c[j].stretch));
}

/// Law: style fallback. A query for Italic against stretch survivors
/// that offer Oblique but not Italic yields an Oblique face, never a
/// Normal one.
pub proof fn lemma_style_fallback_oblique(c: Seq<FaceProperties>, qs: Stretch, qw: u16)
    requires
        c.len() > 0,
        !has_stretch_style(c, stage_stretch(c, qs), Style::Italic),
        has_stretch_style(c, stage_stretch(c, qs), Style::Oblique),
    ensures
        best_match_spec(c, qs, Style::Italic, qw) is Some,
        best_match_spec(c, qs, Style::Italic, qw) matches Some(i) ==> 0 <= i < c.len()
            && c[i].style == Style::Oblique,
{
    let vs = stage_stretch(c, qs);
    assert(stage_style(c, vs, Style::Italic) == Style::Oblique);
    lemma_survivor_exists(c, qs, Style::Italic, qw);
    lemma_first_survivor_char(c, qs, Style::Italic, qw, 0);
}

/// Law: the weight seam, upward. A query weight in [400, 450) takes a
/// 500-weight survivor when one exists, before anything else.
pub proof fn lemma_weight_seam_upward(c: Seq<FaceProperties>, qs: Stretch, qst: Style, qw: u16)
    requires
        c.len() > 0,
        400 <= qw < 450,
        has_ab_weight(c, stage_stretch(c, qs), stage_style(c, stage_stretch(c, qs), qst), 500),
    ensures
        best_match_spec(c, qs, qst, qw) is Some,
        best_match_spec(c, qs, qst, qw) matches Some(i) ==> 0 <= i < c.len() && c[i].weight.0
            == 500,
{
    let vs = stage_stretch(c, qs);
    let st = stage_style(c, vs, qst);
    assert(stage_weight(c, vs, st, qw) == 500);
    lemma_survivor_exists(c, qs, qst, qw);
    lemma_first_survivor_char(c, qs, qst, qw, 0);
}

/// Law: the weight seam, downward. A query weight in [450, 500] takes a
/// 400-weight survivor when one exists, before anything else.
pub proof fn lemma_weight_seam_downward(c: Seq<FaceProperties>, qs: Stretch, qst: Style, qw: u16)
    requires
        c.len() > 0,
        450 <= qw <= 500,
        has_ab_weight(c, stage_stretch(c, qs), stage_style(c, stage_stretch(c, qs), qst), 400),
    ensures
        best_match_spec(c, qs, qst, qw) is Some,
        best_match_spec(c, qs, qst, qw) matches Some(i) ==> 0 <= i < c.len() && c[i].weight.0
            == 400,
{
    let vs = stage_stretch(c, qs);
    let st = stage_style(c, vs, qst);
    assert(stage_weight(c, vs, st, qw) == 400);
    lemma_survivor_exists(c, qs, qst, qw);
    lemma_first_survivor_char(c, qs, qst, qw, 0);
}

// ---------------------------------------------------------------------
// Laws of the query against the registry.
// ---------------------------------------------------------------------

/// Whether family position `i` of the list yields no candidates in
/// `db`: it is an unset generic class, or no face carries its name.
pub open spec fn family_barren(db: Database, fams: Seq<Family>, i: int) -> bool {
    match family_name_spec(db, fams[i]) {
        Some(name) => matching_faces(db.faces@, name).len() == 0,
        None => true,
    }
}

proof fn lemma_query_from_none(
    db: Database,
    fams: Seq<Family>,
    qs: Stretch,
    qst: Style,
    qw: u16,
    i: int,
)
    requires
        0 <= i <= fams.len(),
        forall|j: int| 0 <= j < fams.len() ==> #[trigger] family_barren(db, fams, j),
    ensures
        query_spec_from(db, fams, qs, qst, qw, i) is None,
    decreases fams.len() - i,
{
    if i < fams.len() {
        assert(family_barren(db, fams, i));
        lemma_query_from_none(db, fams, qs, qst, qw, i + 1);
    }
}

/// Law: no match without candidates. A query whose family list is empty,
/// or whose families all resolve to nothing or to names no face
/// carries, returns no match.
pub proof fn lemma_query_no_match(db: Database, q: Query)
    requires
        forall|j: int| 0 <= j < q.families@.len() ==> #[trigger] family_barren(db, q.families@, j),
    ensures
        query_spec(db, q) is None,
{
    lemma_query_from_none(db, q.families@, q.stretch, q.style, q.weight.0, 0);
}

proof fn lemma_query_from_shift(
    db: Database,
    fams: Seq<Family>,
    qs: Stretch,
    qst: Style,
    qw: u16,
    i: int,
)
    requires
        1 <= i <= fams.len(),
    ensures
        query_spec_from(db, fams, qs, qst, qw, i) == query_spec_from(
            db,
            fams.skip(1),
            qs,
            qst,
            qw,
            i - 1,
        ),
    decreases fams.len() - i,
{
    if i < fams.len() {
        assert(fams.skip(1)[i - 1] == fams[i]);
        lemma_query_from_shift(db, fams, qs, qst, qw, i + 1);
    }
}

/// Law: family fallback. When the first family of the list yields no
/// candidates, the query behaves exactly as if that family were not
/// listed at all.
pub proof fn lemma_query_family_fallback(db: Database, q1: Query, q2: Query)
    requires
        q1.stretch == q2.stretch,
        q1.style == q2.style,
        q1.weight == q2.weight,
        q1.families@.len() > 0,
        q2.families@ == q1.families@.skip(1),
        family_barren(db, q1.families@, 0),
    ensures
        query_spec(db, q1) == query_spec(db, q2),
{
    assert(query_spec_from(db, q1.families@, q1.stretch, q1.style, q1.weight.0, 0)
        == query_spec_from(db, q1.families@, q1.stretch, q1.style, q1.weight.0, 1));
    lemma_query_from_shift(db, q1.families@, q1.stretch, q1.style, q1.weight.0, 1);
}

proof fn lemma_query_from_equivalent(
    db: Database,
    fams1: Seq<Family>,
    fams2: Seq<Family>,
    qs: Stretch,
    qst: Style,
    qw: u16,
    i: int,
)
    requires
        0 <= i <= fams1.len(),
        fams1.len() == fams2.len(),
        forall|j: int|
            0 <= j < fams1.len() ==> family_name_spec(db, #[trigger] fams1[j]) == family_name_spec(
                db,
                #[trigger] fams2[j],
            ),
    ensures
        query_spec_from(db, fams1, qs, qst, qw, i) == query_spec_from(db, fams2, qs, qst, qw, i),
    decreases fams1.len() - i,
{
    if i < fams1.len() {
        lemma_query_from_equivalent(db, fams1, fams2, qs, qst, qw, i + 1);
    }
}

/// Law: queries see families only through the names they resolve to.
/// Two queries with the same axes whose family lists resolve pairwise
/// to the same names yield the same result.
pub proof fn lemma_query_families_equivalent(db: Database, q1: Query, q2: Query)
    requires
        q1.stretch == q2.stretch,
        q1.style == q2.style,
        q1.weight == q2.weight,
        q1.families@.len() == q2.families@.len(),
        forall|j: int|
            0 <= j < q1.families@.len() ==> family_name_spec(db, #[trigger] q1.families@[j])
                == family_name_spec(db, #[trigger] q2.families@[j]),
    ensures
        query_spec(db, q1) == query_spec(db, q2),
{
    lemma_query_from_equivalent(
        db,
        q1.families@,
        q2.families@,
        q1.stretch,
        q1.style,
        q1.weight.0,
        0,
    );
}

/// Law: generic aliasing. A generic class aliased to a concrete family
/// resolves exactly as that family's literal name does, so by
/// `lemma_query_families_equivalent` querying the class behaves
/// identically to querying the name.
pub proof fn lemma_generic_alias_resolution(db: Database, f: Family)
    requires
        match f {
            Family::Name(_) => true,
            Family::Serif => db.family_serif is Some,
            Family::SansSerif => db.family_sans_serif is Some,
            Family::Cursive => db.family_cursive is Some,
            Family::Fantasy => db.family_fantasy is Some,
            Family::Monospace => db.family_monospace is Some,
        },
    ensures
        family_name_spec(db, f) is Some,
        match f {
            Family::Name(_) => true,
            Family::Serif => db.family_serif matches Some(s) ==> family_name_spec(db, f)
                == family_name_spec(db, Family::Name(s)),
            Family::SansSerif => db.family_sans_serif matches Some(s) ==> family_name_spec(db, f)
                == family_name_spec(db, Family::Name(s)),
            Family::Cursive => db.family_cursive matches Some(s) ==> family_name_spec(db, f)
                == family_name_spec(db, Family::Name(s)),
            Family::Fantasy => db.family_fantasy matches Some(s) ==> family_name_spec(db, f)
                == family_name_spec(db, Family::Name(s)),
            Family::Monospace => db.family_monospace matches Some(s) ==> family_name_spec(db, f)
                == family_name_spec(db, Family::Name(s)),
        },
{
}

proof fn lemma_query_from_registered(
    db: Database,
    fams: Seq<Family>,
    qs: Stretch,
    qst: Style,
    qw: u16,
    i: int,
)
    requires
        0 <= i <= fams.len(),
    ensures
        query_spec_from(db, fams, qs, qst, qw, i) matches Some(id) ==> exists|j: int, fi: int|
            0 <= j < db.faces@.len() && i <= fi < fams.len() && (#[trigger] db.faces@[j]).id == id
                && family_name_spec(db, #[trigger] fams[fi]) == Some(db.faces@[j].family@),
    decreases fams.len() - i,
{
    if i < fams.len() {
        lemma_query_from_registered(db, fams, qs, qst, qw, i + 1);
        match family_name_spec(db, fams[i]) {
            None => {},
            Some(name) => {
                let cand = matching_faces(db.faces@, name);
                if cand.len() > 0 {
                    let props = cand.map_values(props_fn());
                    lemma_survivor_exists(props, qs, qst, qw);
                    lemma_first_survivor_char(props, qs, qst, qw, 0);
                    match best_match_spec(props, qs, qst, qw) {
                        Some(bi) => {
                            assert(0 <= bi < cand.len());
                            lemma_matching_faces_membership(db.faces@, name);
                            assert(cand[bi].family@ == name);
                            let j = choose|j: int| 0 <= j < db.faces@.len() && db.faces@[j] == cand[bi];
                            assert(db.faces@[j].id == cand[bi].id);
                            assert(family_name_spec(db, fams[i]) == Some(db.faces@[j].family@));
                        },
                        None => {},
                    }
                }
            },
        }
    }
}

/// Law: a match is always a registered face of a requested family. A
/// query that yields an ID yields the ID of a face stored in the
/// registry, and that face's family is one that a family of the query
/// resolves to.
pub proof fn lemma_query_returns_registered_face(db: Database, q: Query)
    ensures
        query_spec(db, q) matches Some(id) ==> exists|j: int, fi: int|
            0 <= j < db.faces@.len() && 0 <= fi < q.families@.len() && (#[trigger] db.faces@[j]).id
                == id && family_name_spec(db, #[trigger] q.families@[fi]) == Some(
                db.faces@[j].family@,
            ),
{
    lemma_query_from_registered(db, q.families@, q.stretch, q.style, q.weight.0, 0);
}

proof fn lemma_query_from_deterministic(
    a: Database,
    b: Database,
    fams: Seq<Family>,
    qs: Stretch,
    qst: Style,
    qw: u16,
    i: int,
)
    requires
        0 <= i <= fams.len(),
        a.faces@ == b.faces@,
        a.family_serif == b.family_serif,
        a.family_sans_serif == b.family_sans_serif,
        a.family_cursive == b.family_cursive,
        a.family_fantasy == b.family_fantasy,
        a.family_monospace == b.family_monospace,
    ensures
        query_spec_from(a, fams, qs, qst, qw, i) == query_spec_from(b, fams, qs, qst, qw, i),
    decreases fams.len() - i,
{
    if i < fams.len() {
        assert(family_name_spec(a, fams[i]) == family_name_spec(b, fams[i]));
        lemma_query_from_deterministic(a, b, fams, qs, qst, qw, i + 1);
    }
}

/// Law: determinism. The result of a query is a pure function of the
/// registry's face records and aliases and of the query itself: two
/// databases with the same faces and aliases answer every query
/// identically, whatever their ID allocators read.
pub proof fn lemma_query_deterministic(a: Database, b: Database, q: Query)
    requires
        a.faces@ == b.faces@,
        a.family_serif == b.family_serif,
        a.family_sans_serif == b.family_sans_serif,
        a.family_cursive == b.family_cursive,
        a.family_fantasy == b.family_fantasy,
        a.family_monospace == b.family_monospace,
    ensures
        query_spec(a, q) == query_spec(b, q),
{
    lemma_query_from_deterministic(a, b, q.families@, q.stretch, q.style, q.weight.0, 0);
}

} // verus!
