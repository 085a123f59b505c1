//! The CSS-style best-match engine.
//!
//! Given a candidate list of face properties (already narrowed to one
//! family) and a query, the engine picks the single best candidate by
//! narrowing in three stages: stretch, then style, then weight. Each
//! stage computes a *matching value* and retains only the candidates
//! equal to it; ties among the final survivors resolve to the lowest
//! index, i.e. insertion order.

use vstd::prelude::*;
use crate::types::{stretch_num, FaceProperties, Query, Stretch, Style};

verus! {

/// The least key `k(x)` over the entries of `c` that satisfy `p`, or
/// `None` when no entry does.
pub open spec fn min_key_where(
    c: Seq<FaceProperties>,
    p: spec_fn(FaceProperties) -> bool,
    k: spec_fn(FaceProperties) -> int,
) -> Option<int>
    decreases c.len(),
{
    if c.len() == 0 {
        None
    } else {
        let rest = min_key_where(c.drop_last(), p, k);
        if p(c.last()) {
            match rest {
                None => Some(k(c.last())),
                Some(m) => if k(c.last()) < m {
                    Some(k(c.last()))
                } else {
                    Some(m)
                },
            }
        } else {
            rest
        }
    }
}

/// The greatest key `k(x)` over the entries of `c` that satisfy `p`, or
/// `None` when no entry does.
pub open spec fn max_key_where(
    c: Seq<FaceProperties>,
    p: spec_fn(FaceProperties) -> bool,
    k: spec_fn(FaceProperties) -> int,
) -> Option<int>
    decreases c.len(),
{
    if c.len() == 0 {
        None
    } else {
        let rest = max_key_where(c.drop_last(), p, k);
        if p(c.last()) {
            match rest {
                None => Some(k(c.last())),
                Some(m) => if k(c.last()) > m {
                    Some(k(c.last()))
                } else {
                    Some(m)
                },
            }
        } else {
            rest
        }
    }
}

/// `min_key_where` yields a value exactly when some entry satisfies the
/// filter, and that value is the least key of a satisfying entry.
pub proof fn lemma_min_key_where_props(
    c: Seq<FaceProperties>,
    p: spec_fn(FaceProperties) -> bool,
    k: spec_fn(FaceProperties) -> int,
)
    ensures
        (min_key_where(c, p, k) is Some) <==> (exists|i: int| 0 <= i < c.len() && #[trigger] p(c[i])),
        min_key_where(c, p, k) matches Some(m) ==> (exists|i: int|
            0 <= i < c.len() && #[trigger] p(c[i]) && k(c[i]) == m),
        min_key_where(c, p, k) matches Some(m) ==> (forall|i: int|
            0 <= i < c.len() && #[trigger] p(c[i]) ==> m <= k(c[i])),
    decreases c.len(),
{
    if c.len() == 0 {
    } else {
        lemma_min_key_where_props(c.drop_last(), p, k);
        assert(forall|i: int| 0 <= i < c.len() - 1 ==> c.drop_last()[i] == c[i]);
        assert(c.last() == c[c.len() - 1]);
        match min_key_where(c, p, k) {
            Some(m) => {
                if p(c.last()) && k(c.last()) == m {
                    assert(p(c[c.len() - 1]) && k(c[c.len() - 1]) == m);
                } else {
                    let j = choose|j: int|
                        0 <= j < c.drop_last().len() && #[trigger] p(c.drop_last()[j]) && k(
                            c.drop_last()[j],
                        ) == m;
                    assert(0 <= j < c.len() && p(c[j]) && k(c[j]) == m);
                }
            },
            None => {},
        }
    }
}

/// `max_key_where` yields a value exactly when some entry satisfies the
/// filter, and that value is the greatest key of a satisfying entry.
pub proof fn lemma_max_key_where_props(
    c: Seq<FaceProperties>,
    p: spec_fn(FaceProperties) -> bool,
    k: spec_fn(FaceProperties) -> int,
)
    ensures
        (max_key_where(c, p, k) is Some) <==> (exists|i: int| 0 <= i < c.len() && #[trigger] p(c[i])),
        max_key_where(c, p, k) matches Some(m) ==> (exists|i: int|
            0 <= i < c.len() && #[trigger] p(c[i]) && k(c[i]) == m),
        max_key_where(c, p, k) matches Some(m) ==> (forall|i: int|
            0 <= i < c.len() && #[trigger] p(c[i]) ==> k(c[i]) <= m),
    decreases c.len(),
{
    if c.len() == 0 {
    } else {
        lemma_max_key_where_props(c.drop_last(), p, k);
        assert(forall|i: int| 0 <= i < c.len() - 1 ==> c.drop_last()[i] == c[i]);
        assert(c.last() == c[c.len() - 1]);
        match max_key_where(c, p, k) {
            Some(m) => {
                if p(c.last()) && k(c.last()) == m {
                    assert(p(c[c.len() - 1]) && k(c[c.len() - 1]) == m);
                } else {
                    let j = choose|j: int|
                        0 <= j < c.drop_last().len() && #[trigger] p(c.drop_last()[j]) && k(
                            c.drop_last()[j],
                        ) == m;
                    assert(0 <= j < c.len() && p(c[j]) && k(c[j]) == m);
                }
            },
            None => {},
        }
    }
}

/// One unfolding step of `min_key_where` along a growing prefix.
pub proof fn lemma_min_key_where_step(
    c: Seq<FaceProperties>,
    p: spec_fn(FaceProperties) -> bool,
    k: spec_fn(FaceProperties) -> int,
    i: int,
)
    requires
        0 <= i < c.len(),
    ensures
        min_key_where(c.take(i + 1), p, k) == ({
            let rest = min_key_where(c.take(i), p, k);
            if p(c[i]) {
                match rest {
                    None => Some(k(c[i])),
                    Some(m) => if k(c[i]) < m {
                        Some(k(c[i]))
                    } else {
                        Some(m)
                    },
                }
            } else {
                rest
            }
        }),
{
    assert(c.take(i + 1).drop_last() =~= c.take(i));
    assert(c.take(i + 1).last() == c[i]);
}

/// One unfolding step of `max_key_where` along a growing prefix.
pub proof fn lemma_max_key_where_step(
    c: Seq<FaceProperties>,
    p: spec_fn(FaceProperties) -> bool,
    k: spec_fn(FaceProperties) -> int,
    i: int,
)
    requires
        0 <= i < c.len(),
    ensures
        max_key_where(c.take(i + 1), p, k) == ({
            let rest = max_key_where(c.take(i), p, k);
            if p(c[i]) {
                match rest {
                    None => Some(k(c[i])),
                    Some(m) => if k(c[i]) > m {
                        Some(k(c[i]))
                    } else {
                        Some(m)
                    },
                }
            } else {
                rest
            }
        }),
{
    assert(c.take(i + 1).drop_last() =~= c.take(i));
    assert(c.take(i + 1).last() == c[i]);
}

// ---------------------------------------------------------------------
// The filters and keys the three stages minimize or maximize over.
// ---------------------------------------------------------------------

/// The filter that accepts every candidate.
pub open spec fn pred_true() -> spec_fn(FaceProperties) -> bool {
    |f: FaceProperties| true
}

/// The width class of a candidate, as the key to minimize or maximize.
pub open spec fn key_stretch() -> spec_fn(FaceProperties) -> int {
    |f: FaceProperties| stretch_num(f.stretch)
}

/// Accepts candidates narrower than width class `b`.
pub open spec fn pred_stretch_lt(b: int) -> spec_fn(FaceProperties) -> bool {
    |f: FaceProperties| stretch_num(f.stretch) < b
}

/// Accepts candidates wider than width class `b`.
pub open spec fn pred_stretch_gt(b: int) -> spec_fn(FaceProperties) -> bool {
    |f: FaceProperties| stretch_num(f.stretch) > b
}

/// The weight of a candidate, as the key to minimize or maximize.
pub open spec fn key_weight() -> spec_fn(FaceProperties) -> int {
    |f: FaceProperties| f.weight.0 as int
}

/// Accepts the candidates that survived the stretch and style stages:
/// width class `vs` and style `st`.
pub open spec fn pred_ab(vs: int, st: Style) -> spec_fn(FaceProperties) -> bool {
    |f: FaceProperties| stretch_num(f.stretch) == vs && f.style == st
}

/// Accepts stretch/style survivors whose weight is at most `w`.
pub open spec fn pred_ab_weight_le(vs: int, st: Style, w: int) -> spec_fn(FaceProperties) -> bool {
    |f: FaceProperties| stretch_num(f.stretch) == vs && f.style == st && f.weight.0 <= w
}

/// Accepts stretch/style survivors whose weight is at least `w`.
pub open spec fn pred_ab_weight_ge(vs: int, st: Style, w: int) -> spec_fn(FaceProperties) -> bool {
    |f: FaceProperties| stretch_num(f.stretch) == vs && f.style == st && f.weight.0 >= w
}

// ---------------------------------------------------------------------
// The three narrowing stages.
// ---------------------------------------------------------------------

/// Whether some candidate has exactly stretch `v`.
pub open spec fn has_stretch(c: Seq<FaceProperties>, v: Stretch) -> bool {
    exists|i: int| 0 <= i < c.len() && c[i].stretch == v
}

/// Extracts the value of an `Option<int>`, zero when absent. The stages
/// below apply it only where the option is known to hold a value.
pub open spec fn key_or_zero(o: Option<int>) -> int {
    match o {
        Some(m) => m,
        None => 0,
    }
}

/// The width class that survives the stretch stage.
///
/// An exact match wins. Otherwise, a query at Normal or narrower prefers
/// the widest of the narrower candidates, falling back to the narrowest
/// candidate overall; a query wider than Normal mirrors this, preferring
/// the narrowest of the wider candidates, falling back to the widest
/// overall.
pub open spec fn stage_stretch(c: Seq<FaceProperties>, q: Stretch) -> int {
    let qn = stretch_num(q);
    if has_stretch(c, q) {
        qn
    } else if qn <= 5 {
        match max_key_where(c, pred_stretch_lt(qn), key_stretch()) {
            Some(m) => m,
            None => key_or_zero(min_key_where(c, pred_true(), key_stretch())),
        }
    } else {
        match min_key_where(c, pred_stretch_gt(qn), key_stretch()) {
            Some(m) => m,
            None => key_or_zero(max_key_where(c, pred_true(), key_stretch())),
        }
    }
}

/// The fixed style preference order for a query style: the queried style
/// first, then the other slanted style, then the remaining one.
pub open spec fn style_pref(q: Style) -> (Style, Style, Style) {
    match q {
        Style::Italic => (Style::Italic, Style::Oblique, Style::Normal),
        Style::Oblique => (Style::Oblique, Style::Italic, Style::Normal),
        Style::Normal => (Style::Normal, Style::Oblique, Style::Italic),
    }
}

/// Whether some candidate has width class `vs` and style `s`.
pub open spec fn has_stretch_style(c: Seq<FaceProperties>, vs: int, s: Style) -> bool {
    exists|i: int|
        0 <= i < c.len() && stretch_num(#[trigger] c[i].stretch) == vs && c[i].style == s
}

/// The style that survives the style stage: the first style in the
/// preference order that some stretch survivor carries.
pub open spec fn stage_style(c: Seq<FaceProperties>, vs: int, q: Style) -> Style {
    let (p0, p1, p2) = style_pref(q);
    if has_stretch_style(c, vs, p0) {
        p0
    } else if has_stretch_style(c, vs, p1) {
        p1
    } else {
        p2
    }
}

/// Whether some stretch/style survivor has weight exactly `w`.
pub open spec fn has_ab_weight(c: Seq<FaceProperties>, vs: int, st: Style, w: int) -> bool {
    exists|i: int|
        0 <= i < c.len() && stretch_num(#[trigger] c[i].stretch) == vs && c[i].style == st
            && c[i].weight.0 == w
}

/// The weight that survives the weight stage, special-cased around the
/// seam between 400 and 500.
///
/// A query in [400, 450) takes 500 when present, before anything else; a
/// query in [450, 500] takes 400 when present. Otherwise a query at 500
/// or below prefers the closest weight below or at the query, falling
/// back to the lightest survivor; a heavier query prefers the closest
/// weight at or above, falling back to the heaviest survivor.
pub open spec fn stage_weight(c: Seq<FaceProperties>, vs: int, st: Style, qw: u16) -> int {
    let w = qw as int;
    if 400 <= w && w < 450 && has_ab_weight(c, vs, st, 500) {
        500
    } else if 450 <= w && w <= 500 && has_ab_weight(c, vs, st, 400) {
        400
    } else if w <= 500 {
        match max_key_where(c, pred_ab_weight_le(vs, st, w), key_weight()) {
            Some(m) => m,
            None => key_or_zero(min_key_where(c, pred_ab(vs, st), key_weight())),
        }
    } else {
        match min_key_where(c, pred_ab_weight_ge(vs, st, w), key_weight()) {
            Some(m) => m,
            None => key_or_zero(max_key_where(c, pred_ab(vs, st), key_weight())),
        }
    }
}

/// Whether a candidate survives all three stages of the query
/// `(qs, qst, qw)` against the candidate list `c`.
pub open spec fn survives(
    c: Seq<FaceProperties>,
    qs: Stretch,
    qst: Style,
    qw: u16,
    f: FaceProperties,
) -> bool {
    let vs = stage_stretch(c, qs);
    let st = stage_style(c, vs, qst);
    let vw = stage_weight(c, vs, st, qw);
    stretch_num(f.stretch) == vs && f.style == st && f.weight.0 == vw
}

/// The least index at or after `i` whose candidate survives all three
/// stages; `c.len()` when none does.
pub open spec fn first_survivor_from(
    c: Seq<FaceProperties>,
    qs: Stretch,
    qst: Style,
    qw: u16,
    i: int,
) -> int
    decreases c.len() - i,
{
    if i < 0 || i >= c.len() {
        c.len() as int
    } else if survives(c, qs, qst, qw, c[i]) {
        i
    } else {
        first_survivor_from(c, qs, qst, qw, i + 1)
    }
}

/// The index of the best-matching candidate for the query axes
/// `(qs, qst, qw)`: the lowest-indexed survivor of the three narrowing
/// stages. `None` exactly when the candidate list is empty.
pub open spec fn best_match_spec(
    c: Seq<FaceProperties>,
    qs: Stretch,
    qst: Style,
    qw: u16,
) -> Option<int> {
    if c.len() == 0 {
        None
    } else {
        Some(first_survivor_from(c, qs, qst, qw, 0))
    }
}

// ---------------------------------------------------------------------
// Every stage keeps at least one candidate.
// ---------------------------------------------------------------------

/// The stretch stage keeps at least one candidate: some candidate's
/// width class equals the matching value.
pub proof fn lemma_stage_stretch_nonempty(c: Seq<FaceProperties>, qs: Stretch)
    requires
        c.len() > 0,
    ensures
        exists|i: int| 0 <= i < c.len() && stretch_num(#[trigger] c[i].stretch) == stage_stretch(c, qs),
{
    let qn = stretch_num(qs);
    if has_stretch(c, qs) {
        let i = choose|i: int| 0 <= i < c.len() && c[i].stretch == qs;
        assert(stretch_num(c[i].stretch) == qn);
    } else if qn <= 5 {
        match max_key_where(c, pred_stretch_lt(qn), key_stretch()) {
            Some(m) => {
                lemma_max_key_where_props(c, pred_stretch_lt(qn), key_stretch());
                let i = choose|i: int|
                    0 <= i < c.len() && #[trigger] pred_stretch_lt(qn)(c[i]) && key_stretch()(c[i])
                        == m;
                assert(stretch_num(c[i].stretch) == m);
            },
            None => {
                lemma_min_key_where_props(c, pred_true(), key_stretch());
                assert(pred_true()(c[0]));
                let o = min_key_where(c, pred_true(), key_stretch());
                assert(o is Some);
                let i = choose|i: int|
                    0 <= i < c.len() && #[trigger] pred_true()(c[i]) && key_stretch()(c[i])
                        == key_or_zero(o);
                assert(stretch_num(c[i].stretch) == key_or_zero(o));
            },
        }
    } else {
        match min_key_where(c, pred_stretch_gt(qn), key_stretch()) {
            Some(m) => {
                lemma_min_key_where_props(c, pred_stretch_gt(qn), key_stretch());
                let i = choose|i: int|
                    0 <= i < c.len() && #[trigger] pred_stretch_gt(qn)(c[i]) && key_stretch()(c[i])
                        == m;
                assert(stretch_num(c[i].stretch) == m);
            },
            None => {
                lemma_max_key_where_props(c, pred_true(), key_stretch());
                assert(pred_true()(c[0]));
                let o = max_key_where(c, pred_true(), key_stretch());
                assert(o is Some);
                let i = choose|i: int|
                    0 <= i < c.len() && #[trigger] pred_true()(c[i]) && key_stretch()(c[i])
                        == key_or_zero(o);
                assert(stretch_num(c[i].stretch) == key_or_zero(o));
            },
        }
    }
}

/// The style stage keeps at least one candidate: some candidate carries
/// both the matching width class and the matching style.
pub proof fn lemma_stage_style_nonempty(c: Seq<FaceProperties>, qs: Stretch, qst: Style)
    requires
        c.len() > 0,
    ensures
        ({
            let vs = stage_stretch(c, qs);
            let st = stage_style(c, vs, qst);
            exists|i: int|
                0 <= i < c.len() && stretch_num(#[trigger] c[i].stretch) == vs && c[i].style == st
        }),
{
    let vs = stage_stretch(c, qs);
    let st = stage_style(c, vs, qst);
    let (p0, p1, p2) = style_pref(qst);
    if has_stretch_style(c, vs, p0) || has_stretch_style(c, vs, p1) {
    } else {
        lemma_stage_stretch_nonempty(c, qs);
        let i = choose|i: int| 0 <= i < c.len() && stretch_num(#[trigger] c[i].stretch) == vs;
        assert(c[i].style == p0 || c[i].style == p1 || c[i].style == p2);
        assert(c[i].style == p2);
    }
}

/// The weight stage keeps at least one candidate: some candidate
/// survives all three stages.
pub proof fn lemma_survivor_exists(c: Seq<FaceProperties>, qs: Stretch, qst: Style, qw: u16)
    requires
        c.len() > 0,
    ensures
        exists|i: int| 0 <= i < c.len() && survives(c, qs, qst, qw, #[trigger] c[i]),
{
    let vs = stage_stretch(c, qs);
    let st = stage_style(c, vs, qst);
    let vw = stage_weight(c, vs, st, qw);
    let w = qw as int;
    lemma_stage_style_nonempty(c, qs, qst);
    let ab = choose|i: int|
        0 <= i < c.len() && stretch_num(#[trigger] c[i].stretch) == vs && c[i].style == st;
    assert(pred_ab(vs, st)(c[ab]));
    if 400 <= w && w < 450 && has_ab_weight(c, vs, st, 500) {
        let i = choose|i: int|
            0 <= i < c.len() && stretch_num(#[trigger] c[i].stretch) == vs && c[i].style == st
                && c[i].weight.0 == 500;
        assert(survives(c, qs, qst, qw, c[i]));
    } else if 450 <= w && w <= 500 && has_ab_weight(c, vs, st, 400) {
        let i = choose|i: int|
            0 <= i < c.len() && stretch_num(#[trigger] c[i].stretch) == vs && c[i].style == st
                && c[i].weight.0 == 400;
        assert(survives(c, qs, qst, qw, c[i]));
    } else if w <= 500 {
        match max_key_where(c, pred_ab_weight_le(vs, st, w), key_weight()) {
            Some(m) => {
                lemma_max_key_where_props(c, pred_ab_weight_le(vs, st, w), key_weight());
                let i = choose|i: int|
                    0 <= i < c.len() && #[trigger] pred_ab_weight_le(vs, st, w)(c[i])
                        && key_weight()(c[i]) == m;
                assert(survives(c, qs, qst, qw, c[i]));
            },
            None => {
                lemma_min_key_where_props(c, pred_ab(vs, st), key_weight());
                let o = min_key_where(c, pred_ab(vs, st), key_weight());
                assert(o is Some);
                let i = choose|i: int|
                    0 <= i < c.len() && #[trigger] pred_ab(vs, st)(c[i]) && key_weight()(c[i])
                        == key_or_zero(o);
                assert(survives(c, qs, qst, qw, c[i]));
            },
        }
    } else {
        match min_key_where(c, pred_ab_weight_ge(vs, st, w), key_weight()) {
            Some(m) => {
                lemma_min_key_where_props(c, pred_ab_weight_ge(vs, st, w), key_weight());
                let i = choose|i: int|
                    0 <= i < c.len() && #[trigger] pred_ab_weight_ge(vs, st, w)(c[i])
                        && key_weight()(c[i]) == m;
                assert(survives(c, qs, qst, qw, c[i]));
            },
            None => {
                lemma_max_key_where_props(c, pred_ab(vs, st), key_weight());
                let o = max_key_where(c, pred_ab(vs, st), key_weight());
                assert(o is Some);
                let i = choose|i: int|
                    0 <= i < c.len() && #[trigger] pred_ab(vs, st)(c[i]) && key_weight()(c[i])
                        == key_or_zero(o);
                assert(survives(c, qs, qst, qw, c[i]));
            },
        }
    }
}

/// Characterizes `first_survivor_from`: it points at the first surviving
/// index at or after `i`, or at the end when none survives.
pub proof fn lemma_first_survivor_char(
    c: Seq<FaceProperties>,
    qs: Stretch,
    qst: Style,
    qw: u16,
    i: int,
)
    requires
        0 <= i <= c.len(),
    ensures
        ({
            let r = first_survivor_from(c, qs, qst, qw, i);
            &&& i <= r <= c.len()
            &&& (r < c.len() ==> survives(c, qs, qst, qw, c[r]))
            &&& forall|j: int| i <= j < r ==> !survives(c, qs, qst, qw, #[trigger] c[j])
            &&& ((exists|j: int| i <= j < c.len() && survives(c, qs, qst, qw, #[trigger] c[j]))
                ==> r < c.len())
        }),
    decreases c.len() - i,
{
    if i < c.len() && !survives(c, qs, qst, qw, c[i]) {
        lemma_first_survivor_char(c, qs, qst, qw, i + 1);
    }
}

/// `first_survivor_from` starting at the front lands exactly on an index
/// that survives and has no surviving index before it.
pub proof fn lemma_first_survivor_is(
    c: Seq<FaceProperties>,
    qs: Stretch,
    qst: Style,
    qw: u16,
    i: int,
)
    requires
        0 <= i < c.len(),
        survives(c, qs, qst, qw, c[i]),
        forall|j: int| 0 <= j < i ==> !survives(c, qs, qst, qw, #[trigger] c[j]),
    ensures
        first_survivor_from(c, qs, qst, qw, 0) == i,
{
    lemma_first_survivor_step(c, qs, qst, qw, i, 0);
}

proof fn lemma_first_survivor_step(
    c: Seq<FaceProperties>,
    qs: Stretch,
    qst: Style,
    qw: u16,
    i: int,
    j: int,
)
    requires
        0 <= j <= i < c.len(),
        survives(c, qs, qst, qw, c[i]),
        forall|m: int| j <= m < i ==> !survives(c, qs, qst, qw, #[trigger] c[m]),
    ensures
        first_survivor_from(c, qs, qst, qw, j) == i,
    decreases i - j,
{
    if j < i {
        lemma_first_survivor_step(c, qs, qst, qw, i, j + 1);
    }
}

// ---------------------------------------------------------------------
// Executable helpers: scans over the candidate list, each tied to the
// spec-level minimum, maximum, or existence it computes.
// ---------------------------------------------------------------------

/// An `Option<u16>` as the `Option<int>` the spec helpers produce.
pub open spec fn opt_as_int(o: Option<u16>) -> Option<int> {
    match o {
        Some(v) => Some(v as int),
        None => None,
    }
}

/// Whether some candidate has exactly stretch `v`.
fn any_stretch_eq(c: &Vec<FaceProperties>, v: Stretch) -> (r: bool)
    ensures
        r == has_stretch(c@, v),
{
    let mut i: usize = 0;
    let mut found = false;
    while i < c.len()
        invariant
            i <= c.len(),
            found == exists|j: int| 0 <= j < i && c@[j].stretch == v,
        decreases c.len() - i,
    {
        if c[i].stretch == v {
            found = true;
        }
        i += 1;
    }
    found
}

/// The widest width class among candidates narrower than `b`.
fn max_stretch_lt(c: &Vec<FaceProperties>, b: u16) -> (r: Option<u16>)
    ensures
        opt_as_int(r) == max_key_where(c@, pred_stretch_lt(b as int), key_stretch()),
{
    let mut i: usize = 0;
    let mut best: Option<u16> = None;
    while i < c.len()
        invariant
            i <= c.len(),
            opt_as_int(best) == max_key_where(c@.take(i as int), pred_stretch_lt(b as int), key_stretch()),
        decreases c.len() - i,
    {
        proof {
            lemma_max_key_where_step(c@, pred_stretch_lt(b as int), key_stretch(), i as int);
        }
        let x = c[i].stretch.to_number();
        if x < b {
            best = Some(
                match best {
                    Some(m) => if x > m {
                        x
                    } else {
                        m
                    },
                    None => x,
                },
            );
        }
        i += 1;
    }
    proof {
        assert(c@.take(c@.len() as int) =~= c@);
    }
    best
}

/// The narrowest width class among candidates wider than `b`.
fn min_stretch_gt(c: &Vec<FaceProperties>, b: u16) -> (r: Option<u16>)
    ensures
        opt_as_int(r) == min_key_where(c@, pred_stretch_gt(b as int), key_stretch()),
{
    let mut i: usize = 0;
    let mut best: Option<u16> = None;
    while i < c.len()
        invariant
            i <= c.len(),
            opt_as_int(best) == min_key_where(c@.take(i as int), pred_stretch_gt(b as int), key_stretch()),
        decreases c.len() - i,
    {
        proof {
            lemma_min_key_where_step(c@, pred_stretch_gt(b as int), key_stretch(), i as int);
        }
        let x = c[i].stretch.to_number();
        if x > b {
            best = Some(
                match best {
                    Some(m) => if x < m {
                        x
                    } else {
                        m
                    },
                    None => x,
                },
            );
        }
        i += 1;
    }
    proof {
        assert(c@.take(c@.len() as int) =~= c@);
    }
    best
}

/// The narrowest width class over all candidates.
fn min_stretch_all(c: &Vec<FaceProperties>) -> (r: u16)
    requires
        c@.len() > 0,
    ensures
        Some(r as int) == min_key_where(c@, pred_true(), key_stretch()),
{
    let mut i: usize = 0;
    let mut best: Option<u16> = None;
    while i < c.len()
        invariant
            i <= c.len(),
            opt_as_int(best) == min_key_where(c@.take(i as int), pred_true(), key_stretch()),
        decreases c.len() - i,
    {
        proof {
            lemma_min_key_where_step(c@, pred_true(), key_stretch(), i as int);
        }
        let x = c[i].stretch.to_number();
        best = Some(
            match best {
                Some(m) => if x < m {
                    x
                } else {
                    m
                },
                None => x,
            },
        );
        i += 1;
    }
    proof {
        assert(c@.take(c@.len() as int) =~= c@);
    }
    match best {
        Some(v) => v,
        None => {
            proof {
                assert(pred_true()(c@[0]));
                lemma_min_key_where_props(c@, pred_true(), key_stretch());
            }
            0
        },
    }
}

/// The widest width class over all candidates.
fn max_stretch_all(c: &Vec<FaceProperties>) -> (r: u16)
    requires
        c@.len() > 0,
    ensures
        Some(r as int) == max_key_where(c@, pred_true(), key_stretch()),
{
    let mut i: usize = 0;
    let mut best: Option<u16> = None;
    while i < c.len()
        invariant
            i <= c.len(),
            opt_as_int(best) == max_key_where(c@.take(i as int), pred_true(), key_stretch()),
        decreases c.len() - i,
    {
        proof {
            lemma_max_key_where_step(c@, pred_true(), key_stretch(), i as int);
        }
        let x = c[i].stretch.to_number();
        best = Some(
            match best {
                Some(m) => if x > m {
                    x
                } else {
                    m
                },
                None => x,
            },
        );
        i += 1;
    }
    proof {
        assert(c@.take(c@.len() as int) =~= c@);
    }
    match best {
        Some(v) => v,
        None => {
            proof {
                assert(pred_true()(c@[0]));
                lemma_max_key_where_props(c@, pred_true(), key_stretch());
            }
            0
        },
    }
}

/// Whether some candidate has width class `vs` and style `s`.
fn any_stretch_style(c: &Vec<FaceProperties>, vs: u16, s: Style) -> (r: bool)
    ensures
        r == has_stretch_style(c@, vs as int, s),
{
    let mut i: usize = 0;
    let mut found = false;
    while i < c.len()
        invariant
            i <= c.len(),
            found == exists|j: int|
                0 <= j < i && stretch_num(#[trigger] c@[j].stretch) == vs && c@[j].style == s,
        decreases c.len() - i,
    {
        if c[i].stretch.to_number() == vs && c[i].style == s {
            found = true;
        }
        i += 1;
    }
    found
}

/// Whether some stretch/style survivor has weight exactly `w`.
fn any_ab_weight(c: &Vec<FaceProperties>, vs: u16, st: Style, w: u16) -> (r: bool)
    ensures
        r == has_ab_weight(c@, vs as int, st, w as int),
{
    let mut i: usize = 0;
    let mut found = false;
    while i < c.len()
        invariant
            i <= c.len(),
            found == exists|j: int|
                0 <= j < i && stretch_num(#[trigger] c@[j].stretch) == vs && c@[j].style == st
                    && c@[j].weight.0 == w,
        decreases c.len() - i,
    {
        if c[i].stretch.to_number() == vs && c[i].style == st && c[i].weight.0 == w {
            found = true;
        }
        i += 1;
    }
    found
}

/// The heaviest weight at most `w` among stretch/style survivors.
fn max_weight_le(c: &Vec<FaceProperties>, vs: u16, st: Style, w: u16) -> (r: Option<u16>)
    ensures
        opt_as_int(r) == max_key_where(c@, pred_ab_weight_le(vs as int, st, w as int), key_weight()),
{
    let mut i: usize = 0;
    let mut best: Option<u16> = None;
    while i < c.len()
        invariant
            i <= c.len(),
            opt_as_int(best) == max_key_where(
                c@.take(i as int),
                pred_ab_weight_le(vs as int, st, w as int),
                key_weight(),
            ),
        decreases c.len() - i,
    {
        proof {
            lemma_max_key_where_step(
                c@,
                pred_ab_weight_le(vs as int, st, w as int),
                key_weight(),
                i as int,
            );
        }
        let x = c[i].weight.0;
        if c[i].stretch.to_number() == vs && c[i].style == st && x <= w {
            best = Some(
                match best {
                    Some(m) => if x > m {
                        x
                    } else {
                        m
                    },
                    None => x,
                },
            );
        }
        i += 1;
    }
    proof {
        assert(c@.take(c@.len() as int) =~= c@);
    }
    best
}

/// The lightest weight at least `w` among stretch/style survivors.
fn min_weight_ge(c: &Vec<FaceProperties>, vs: u16, st: Style, w: u16) -> (r: Option<u16>)
    ensures
        opt_as_int(r) == min_key_where(c@, pred_ab_weight_ge(vs as int, st, w as int), key_weight()),
{
    let mut i: usize = 0;
    let mut best: Option<u16> = None;
    while i < c.len()
        invariant
            i <= c.len(),
            opt_as_int(best) == min_key_where(
                c@.take(i as int),
                pred_ab_weight_ge(vs as int, st, w as int),
                key_weight(),
            ),
        decreases c.len() - i,
    {
        proof {
            lemma_min_key_where_step(
                c@,
                pred_ab_weight_ge(vs as int, st, w as int),
                key_weight(),
                i as int,
            );
        }
        let x = c[i].weight.0;
        if c[i].stretch.to_number() == vs && c[i].style == st && x >= w {
            best = Some(
                match best {
                    Some(m) => if x < m {
                        x
                    } else {
                        m
                    },
                    None => x,
                },
            );
        }
        i += 1;
    }
    proof {
        assert(c@.take(c@.len() as int) =~= c@);
    }
    best
}

/// The lightest weight among stretch/style survivors.
fn min_weight_ab(c: &Vec<FaceProperties>, vs: u16, st: Style) -> (r: u16)
    requires
        exists|i: int|
            0 <= i < c@.len() && stretch_num(#[trigger] c@[i].stretch) == vs && c@[i].style == st,
    ensures
        Some(r as int) == min_key_where(c@, pred_ab(vs as int, st), key_weight()),
{
    let mut i: usize = 0;
    let mut best: Option<u16> = None;
    while i < c.len()
        invariant
            i <= c.len(),
            opt_as_int(best) == min_key_where(c@.take(i as int), pred_ab(vs as int, st), key_weight()),
        decreases c.len() - i,
    {
        proof {
            lemma_min_key_where_step(c@, pred_ab(vs as int, st), key_weight(), i as int);
        }
        let x = c[i].weight.0;
        if c[i].stretch.to_number() == vs && c[i].style == st {
            best = Some(
                match best {
                    Some(m) => if x < m {
                        x
                    } else {
                        m
                    },
                    None => x,
                },
            );
        }
        i += 1;
    }
    proof {
        assert(c@.take(c@.len() as int) =~= c@);
    }
    match best {
        Some(v) => v,
        None => {
            proof {
                let i = choose|i: int|
                    0 <= i < c@.len() && stretch_num(#[trigger] c@[i].stretch) == vs && c@[i].style
                        == st;
                assert(pred_ab(vs as int, st)(c@[i]));
                lemma_min_key_where_props(c@, pred_ab(vs as int, st), key_weight());
            }
            0
        },
    }
}

/// The heaviest weight among stretch/style survivors.
fn max_weight_ab(c: &Vec<FaceProperties>, vs: u16, st: Style) -> (r: u16)
    requires
        exists|i: int|
            0 <= i < c@.len() && stretch_num(#[trigger] c@[i].stretch) == vs && c@[i].style == st,
    ensures
        Some(r as int) == max_key_where(c@, pred_ab(vs as int, st), key_weight()),
{
    let mut i: usize = 0;
    let mut best: Option<u16> = None;
    while i < c.len()
        invariant
            i <= c.len(),
            opt_as_int(best) == max_key_where(c@.take(i as int), pred_ab(vs as int, st), key_weight()),
        decreases c.len() - i,
    {
        proof {
            lemma_max_key_where_step(c@, pred_ab(vs as int, st), key_weight(), i as int);
        }
        let x = c[i].weight.0;
        if c[i].stretch.to_number() == vs && c[i].style == st {
            best = Some(
                match best {
                    Some(m) => if x > m {
                        x
                    } else {
                        m
                    },
                    None => x,
                },
            );
        }
        i += 1;
    }
    proof {
        assert(c@.take(c@.len() as int) =~= c@);
    }
    match best {
        Some(v) => v,
        None => {
            proof {
                let i = choose|i: int|
                    0 <= i < c@.len() && stretch_num(#[trigger] c@[i].stretch) == vs && c@[i].style
                        == st;
                assert(pred_ab(vs as int, st)(c@[i]));
                lemma_max_key_where_props(c@, pred_ab(vs as int, st), key_weight());
            }
            0
        },
    }
}

/// The lowest index whose candidate carries exactly the three matching
/// values.
fn first_index_matching(c: &Vec<FaceProperties>, vs: u16, st: Style, vw: u16) -> (r: usize)
    requires
        exists|i: int|
            0 <= i < c@.len() && stretch_num(#[trigger] c@[i].stretch) == vs && c@[i].style == st
                && c@[i].weight.0 == vw,
    ensures
        r < c@.len(),
        stretch_num(c@[r as int].stretch) == vs && c@[r as int].style == st && c@[
            r as int
        ].weight.0 == vw,
        forall|j: int|
            0 <= j < r ==> !(stretch_num(#[trigger] c@[j].stretch) == vs && c@[j].style == st && c@[
                j
            ].weight.0 == vw),
{
    let mut i: usize = 0;
    while i < c.len()
        invariant
            i <= c.len(),
            exists|m: int|
                0 <= m < c@.len() && stretch_num(#[trigger] c@[m].stretch) == vs && c@[m].style
                    == st && c@[m].weight.0 == vw,
            forall|j: int|
                0 <= j < i ==> !(stretch_num(#[trigger] c@[j].stretch) == vs && c@[j].style == st
                    && c@[j].weight.0 == vw),
        decreases c.len() - i,
    {
        if c[i].stretch.to_number() == vs && c[i].style == st && c[i].weight.0 == vw {
            return i;
        }
        i += 1;
    }
    proof {
        assert(false);
    }
    0
}

// ---------------------------------------------------------------------
// The matching engine.
// ---------------------------------------------------------------------

/// Returns the index of the best-matching candidate for the query's
/// weight, stretch and style, per the three-stage narrowing algorithm;
/// `None` exactly when the candidate list is empty.
///
/// Ties among equally good candidates resolve to the lowest index, so
/// insertion order decides.
pub fn find_best_match(candidates: &Vec<FaceProperties>, query: &Query) -> (r: Option<usize>)
    ensures
        (r is Some) <==> candidates@.len() > 0,
        r matches Some(i) ==> i < candidates@.len() && best_match_spec(
            candidates@,
            query.stretch,
            query.style,
            query.weight.0,
        ) == Some(i as int),
{
    if candidates.len() == 0 {
        return None;
    }
    let ghost c = candidates@;
    let ghost qs = query.stretch;
    let ghost qst = query.style;
    let ghost qw = query.weight.0;

    // Stage: stretch.
    let qn: u16 = query.stretch.to_number();
    let m_stretch: u16 = if any_stretch_eq(candidates, query.stretch) {
        qn
    } else if qn <= 5 {
        match max_stretch_lt(candidates, qn) {
            Some(v) => v,
            None => min_stretch_all(candidates),
        }
    } else {
        match min_stretch_gt(candidates, qn) {
            Some(v) => v,
            None => max_stretch_all(candidates),
        }
    };
    proof {
        assert(m_stretch as int == stage_stretch(c, qs));
    }

    // Stage: style.
    let (s0, s1, s2) = match query.style {
        Style::Italic => (Style::Italic, Style::Oblique, Style::Normal),
        Style::Oblique => (Style::Oblique, Style::Italic, Style::Normal),
        Style::Normal => (Style::Normal, Style::Oblique, Style::Italic),
    };
    let m_style: Style = if any_stretch_style(candidates, m_stretch, s0) {
        s0
    } else if any_stretch_style(candidates, m_stretch, s1) {
        s1
    } else {
        s2
    };
    proof {
        assert(m_style == stage_style(c, m_stretch as int, qst));
    }

    // Stage: weight.
    let w = query.weight.0;
    proof {
        lemma_stage_style_nonempty(c, qs, qst);
    }
    let m_weight: u16 = if w >= 400 && w < 450 && any_ab_weight(candidates, m_stretch, m_style, 500) {
        500
    } else if w >= 450 && w <= 500 && any_ab_weight(candidates, m_stretch, m_style, 400) {
        400
    } else if w <= 500 {
        match max_weight_le(candidates, m_stretch, m_style, w) {
            Some(v) => v,
            None => min_weight_ab(candidates, m_stretch, m_style),
        }
    } else {
        match min_weight_ge(candidates, m_stretch, m_style, w) {
            Some(v) => v,
            None => max_weight_ab(candidates, m_stretch, m_style),
        }
    };
    proof {
        assert(m_weight as int == stage_weight(c, m_stretch as int, m_style, qw));
        lemma_survivor_exists(c, qs, qst, qw);
        let i = choose|i: int| 0 <= i < c.len() && survives(c, qs, qst, qw, #[trigger] c[i]);
        assert(stretch_num(c[i].stretch) == m_stretch as int && c[i].style == m_style && c[
            i
        ].weight.0 == m_weight);
    }

    // The survivors of all three stages resolve to the lowest index.
    let idx = first_index_matching(candidates, m_stretch, m_style, m_weight);
    proof {
        assert(survives(c, qs, qst, qw, c[idx as int]));
        assert(forall|j: int| 0 <= j < idx ==> !survives(c, qs, qst, qw, #[trigger] c[j]));
        lemma_first_survivor_is(c, qs, qst, qw, idx as int);
    }
    Some(idx)
}

} // verus!
