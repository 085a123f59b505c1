//! The face registry: an ordered collection of face records with
//! ID-based lookup and removal, generic-family aliasing, and the
//! CSS-like query that ties the registry to the matching engine.

use vstd::prelude::*;
use std::sync::Arc;
use crate::matching::{best_match_spec, find_best_match};
use crate::types::{FaceInfo, FaceProperties, Family, ID, Query, Source, Stretch, Style};

verus! {

/// A font face database.
///
/// Face records are kept in insertion order; insertion order is not
/// semantically meaningful for matching, but it is stable and breaks
/// ties. IDs grow monotonically and are never reused.
#[derive(Clone, Debug)]
pub struct Database {
    /// The ID allocator's high-water mark: the last ID handed out.
    pub next_id: u32,
    /// The face records, in registration order.
    pub faces: Vec<FaceInfo>,
    /// The family that `Family::Serif` resolves to, when set.
    pub family_serif: Option<String>,
    /// The family that `Family::SansSerif` resolves to, when set.
    pub family_sans_serif: Option<String>,
    /// The family that `Family::Cursive` resolves to, when set.
    pub family_cursive: Option<String>,
    /// The family that `Family::Fantasy` resolves to, when set.
    pub family_fantasy: Option<String>,
    /// The family that `Family::Monospace` resolves to, when set.
    pub family_monospace: Option<String>,
}

/// The record `info` with its ID replaced by `id`.
pub open spec fn with_id(info: FaceInfo, id: ID) -> FaceInfo {
    FaceInfo {
        id: id,
        source: info.source,
        index: info.index,
        family: info.family,
        post_script_name: info.post_script_name,
        style: info.style,
        weight: info.weight,
        stretch: info.stretch,
        monospaced: info.monospaced,
    }
}

/// The matching properties of a face record.
pub open spec fn props_of(f: FaceInfo) -> FaceProperties {
    FaceProperties { style: f.style, weight: f.weight, stretch: f.stretch }
}

/// `props_of` as a function value, for mapping over sequences.
pub open spec fn props_fn() -> spec_fn(FaceInfo) -> FaceProperties {
    |f: FaceInfo| props_of(f)
}

/// The least index at or after `i` holding a face with ID `id`;
/// `faces.len()` when none does.
pub open spec fn id_index(faces: Seq<FaceInfo>, id: ID, i: int) -> int
    decreases faces.len() - i,
{
    if i < 0 || i >= faces.len() {
        faces.len() as int
    } else if faces[i].id == id {
        i
    } else {
        id_index(faces, id, i + 1)
    }
}

/// What looking up `id` in `db` yields: the first face record carrying
/// the ID, or nothing when no record does.
pub open spec fn lookup_spec(db: Database, id: ID) -> Option<FaceInfo> {
    let ix = id_index(db.faces@, id, 0);
    if ix < db.faces@.len() {
        Some(db.faces@[ix])
    } else {
        None
    }
}

/// Characterizes `id_index`: it points at the first face at or after `i`
/// carrying `id`, or at the end when none does.
pub proof fn lemma_id_index_char(faces: Seq<FaceInfo>, id: ID, i: int)
    requires
        0 <= i <= faces.len(),
    ensures
        ({
            let ix = id_index(faces, id, i);
            &&& i <= ix <= faces.len()
            &&& (ix < faces.len() ==> faces[ix].id == id)
            &&& forall|j: int| i <= j < ix ==> (#[trigger] faces[j].id) != id
            &&& ((exists|j: int| i <= j < faces.len() && (#[trigger] faces[j].id) == id) ==> ix
                < faces.len())
        }),
    decreases faces.len() - i,
{
    if i < faces.len() && faces[i].id != id {
        lemma_id_index_char(faces, id, i + 1);
    }
}

/// The concrete family name a family specifier resolves to in `db`: a
/// literal name resolves to itself, a generic class to the family the
/// caller aliased it to, or to nothing when the class is unset.
pub open spec fn family_name_spec(db: Database, f: Family) -> Option<Seq<char>> {
    match f {
        Family::Name(s) => Some(s@),
        Family::Serif => match db.family_serif {
            Some(s) => Some(s@),
            None => None,
        },
        Family::SansSerif => match db.family_sans_serif {
            Some(s) => Some(s@),
            None => None,
        },
        Family::Cursive => match db.family_cursive {
            Some(s) => Some(s@),
            None => None,
        },
        Family::Fantasy => match db.family_fantasy {
            Some(s) => Some(s@),
            None => None,
        },
        Family::Monospace => match db.family_monospace {
            Some(s) => Some(s@),
            None => None,
        },
    }
}

/// The faces whose family equals `name`, in registry order.
pub open spec fn matching_faces(faces: Seq<FaceInfo>, name: Seq<char>) -> Seq<FaceInfo>
    decreases faces.len(),
{
    if faces.len() == 0 {
        Seq::empty()
    } else {
        let rest = matching_faces(faces.drop_last(), name);
        if faces.last().family@ == name {
            rest.push(faces.last())
        } else {
            rest
        }
    }
}

/// Every entry of `matching_faces` carries the name and is one of the
/// faces it was filtered from.
pub proof fn lemma_matching_faces_membership(faces: Seq<FaceInfo>, name: Seq<char>)
    ensures
        forall|k: int|
            0 <= k < matching_faces(faces, name).len() ==> ((#[trigger] matching_faces(
                faces,
                name,
            )[k]).family@ == name && exists|i: int|
                0 <= i < faces.len() && faces[i] == matching_faces(faces, name)[k]),
    decreases faces.len(),
{
    if faces.len() > 0 {
        lemma_matching_faces_membership(faces.drop_last(), name);
        let rest = matching_faces(faces.drop_last(), name);
        assert(forall|i: int| 0 <= i < faces.len() - 1 ==> faces.drop_last()[i] == faces[i]);
        assert(faces.last() == faces[faces.len() - 1]);
        assert forall|k: int| 0 <= k < matching_faces(faces, name).len() implies ((
        #[trigger] matching_faces(faces, name)[k]).family@ == name && exists|i: int|
            0 <= i < faces.len() && faces[i] == matching_faces(faces, name)[k]) by {
            if k < rest.len() {
                assert(matching_faces(faces, name)[k] == rest[k]);
                let i = choose|i: int|
                    0 <= i < faces.drop_last().len() && faces.drop_last()[i] == rest[k];
                assert(faces[i] == matching_faces(faces, name)[k]);
            } else {
                assert(matching_faces(faces, name)[k] == faces[faces.len() - 1]);
            }
        }
    }
}

/// One unfolding step of `matching_faces` along a growing prefix.
pub proof fn lemma_matching_faces_step(faces: Seq<FaceInfo>, name: Seq<char>, j: int)
    requires
        0 <= j < faces.len(),
    ensures
        matching_faces(faces.take(j + 1), name) == (if faces[j].family@ == name {
            matching_faces(faces.take(j), name).push(faces[j])
        } else {
            matching_faces(faces.take(j), name)
        }),
{
    assert(faces.take(j + 1).drop_last() =~= faces.take(j));
    assert(faces.take(j + 1).last() == faces[j]);
}

/// The result of a query, examining the family list from position `i`
/// on: the first family that resolves to a name with a non-empty
/// candidate set decides, through the matching engine; when no family
/// does, there is no match.
pub open spec fn query_spec_from(
    db: Database,
    fams: Seq<Family>,
    qs: Stretch,
    qst: Style,
    qw: u16,
    i: int,
) -> Option<ID>
    decreases fams.len() - i,
{
    if i < 0 || i >= fams.len() {
        None
    } else {
        match family_name_spec(db, fams[i]) {
            None => query_spec_from(db, fams, qs, qst, qw, i + 1),
            Some(name) => {
                let cand = matching_faces(db.faces@, name);
                if cand.len() == 0 {
                    query_spec_from(db, fams, qs, qst, qw, i + 1)
                } else {
                    match best_match_spec(cand.map_values(props_fn()), qs, qst, qw) {
                        Some(bi) => Some(cand[bi].id),
                        None => None,
                    }
                }
            },
        }
    }
}

/// The result of a query against `db`: a pure function of the registry
/// contents, the aliases, and the query.
pub open spec fn query_spec(db: Database, q: Query) -> Option<ID> {
    query_spec_from(db, q.families@, q.stretch, q.style, q.weight.0, 0)
}

/// The bytes a source holds directly: those of a binary source. A
/// file-backed source resolves to bytes only through the filesystem.
pub open spec fn source_binary_bytes(s: Source) -> Option<Seq<u8>> {
    match s {
        Source::Binary(d) => Some(d@),
        Source::File(_) => None,
    }
}

/// Relies on `Arc::as_ref`: the reference is to the shared source value.
#[verifier::external_body]
pub(crate) fn source_ref<'a>(a: &'a Arc<Source>) -> (r: &'a Source)
    ensures
        *r == **a,
{
    a.as_ref()
}

/// Relies on `Arc::clone`: the clone is a handle to the same source.
#[verifier::external_body]
pub(crate) fn clone_source_handle(a: &Arc<Source>) -> (r: Arc<Source>)
    ensures
        r == *a,
{
    a.clone()
}

/// Law: an ID stored in the registry resolves to exactly its record, as
/// long as that record stays in the registry.
pub proof fn lemma_lookup_roundtrip(db: Database, i: int)
    requires
        db.wf(),
        0 <= i < db.faces@.len(),
    ensures
        lookup_spec(db, db.faces@[i].id) == Some(db.faces@[i]),
{
    let id = db.faces@[i].id;
    lemma_id_index_char(db.faces@, id, 0);
    let ix = id_index(db.faces@, id, 0);
    assert(ix < db.faces@.len());
    if ix < i {
        assert(db.faces@[ix].id.0 < db.faces@[i].id.0);
        assert(false);
    }
    assert(ix == i);
}

/// Law: a removed ID stops resolving. Taking the record that carries an
/// ID out of a well-formed registry leaves no record that resolves
/// under it: IDs are unique, so the lookup afterwards yields nothing.
pub proof fn lemma_removed_lookup_none(pre: Database, post: Database, id: ID)
    requires
        pre.wf(),
        ({
            let ix = id_index(pre.faces@, id, 0);
            &&& 0 <= ix < pre.faces@.len()
            &&& post.faces@ == pre.faces@.remove(ix)
        }),
    ensures
        lookup_spec(post, id) is None,
{
    let ix = id_index(pre.faces@, id, 0);
    lemma_id_index_char(pre.faces@, id, 0);
    assert(pre.faces@[ix].id == id);
    assert forall|j: int| 0 <= j < post.faces@.len() implies (#[trigger] post.faces@[j].id)
        != id by {
        let oj = if j < ix {
            j
        } else {
            j + 1
        };
        assert(post.faces@[j] == pre.faces@[oj]);
        if oj > ix {
            assert(pre.faces@[ix].id.0 < pre.faces@[oj].id.0);
        }
    }
    lemma_id_index_char(post.faces@, id, 0);
}

impl Database {
    /// Well-formedness: IDs are strictly increasing in registry order
    /// (hence unique), positive, and no larger than the allocator's
    /// high-water mark.
    pub open spec fn wf(self) -> bool {
        &&& forall|i: int, j: int|
            0 <= i < j < self.faces@.len() ==> (#[trigger] self.faces@[i].id).0 < (
            #[trigger] self.faces@[j].id).0
        &&& forall|i: int|
            0 <= i < self.faces@.len() ==> 1 <= (#[trigger] self.faces@[i].id).0 <= self.next_id
    }

    /// Create a new, empty database.
    pub fn new() -> (db: Database)
        ensures
            db.wf(),
            db.next_id == 0,
            db.faces@.len() == 0,
            db.family_serif is None,
            db.family_sans_serif is None,
            db.family_cursive is None,
            db.family_fantasy is None,
            db.family_monospace is None,
    {
        Database {
            next_id: 0,
            faces: Vec::new(),
            family_serif: None,
            family_sans_serif: None,
            family_cursive: None,
            family_fantasy: None,
            family_monospace: None,
        }
    }

    /// Returns `true` if the database contains no font faces.
    pub fn is_empty(&self) -> (r: bool)
        ensures
            r == (self.faces@.len() == 0),
    {
        self.faces.len() == 0
    }

    /// Returns the number of font faces in the database.
    ///
    /// The database stores faces, not fonts: a collection of five faces
    /// counts as five.
    pub fn len(&self) -> (r: usize)
        ensures
            r == self.faces@.len(),
    {
        self.faces.len()
    }

    /// Sets the family used by `Family::Serif`. Overwrites, never
    /// accumulates: the last write wins.
    pub fn set_serif_family(&mut self, family: String)
        ensures
            *final(self) == (Database { family_serif: Some(family), ..*old(self) }),
    {
        self.family_serif = Some(family);
    }

    /// Sets the family used by `Family::SansSerif`. Overwrites, never
    /// accumulates: the last write wins.
    pub fn set_sans_serif_family(&mut self, family: String)
        ensures
            *final(self) == (Database { family_sans_serif: Some(family), ..*old(self) }),
    {
        self.family_sans_serif = Some(family);
    }

    /// Sets the family used by `Family::Cursive`. Overwrites, never
    /// accumulates: the last write wins.
    pub fn set_cursive_family(&mut self, family: String)
        ensures
            *final(self) == (Database { family_cursive: Some(family), ..*old(self) }),
    {
        self.family_cursive = Some(family);
    }

    /// Sets the family used by `Family::Fantasy`. Overwrites, never
    /// accumulates: the last write wins.
    pub fn set_fantasy_family(&mut self, family: String)
        ensures
            *final(self) == (Database { family_fantasy: Some(family), ..*old(self) }),
    {
        self.family_fantasy = Some(family);
    }

    /// Sets the family used by `Family::Monospace`. Overwrites, never
    /// accumulates: the last write wins.
    pub fn set_monospace_family(&mut self, family: String)
        ensures
            *final(self) == (Database { family_monospace: Some(family), ..*old(self) }),
    {
        self.family_monospace = Some(family);
    }

    /// Registers an externally parsed face record under a freshly
    /// allocated ID and returns that ID.
    ///
    /// The ID stored in `info` is ignored and replaced.
    pub fn push_face_info(&mut self, info: FaceInfo) -> (r: ID)
        requires
            old(self).wf(),
            old(self).next_id < u32::MAX,
        ensures
            final(self).wf(),
            r == ID((old(self).next_id + 1) as u32),
            final(self).next_id == old(self).next_id + 1,
            final(self).faces@ == old(self).faces@.push(with_id(info, r)),
            final(self).family_serif == old(self).family_serif,
            final(self).family_sans_serif == old(self).family_sans_serif,
            final(self).family_cursive == old(self).family_cursive,
            final(self).family_fantasy == old(self).family_fantasy,
            final(self).family_monospace == old(self).family_monospace,
    {
        self.next_id = self.next_id + 1;
        let id = ID(self.next_id);
        let record = FaceInfo {
            id: id,
            source: info.source,
            index: info.index,
            family: info.family,
            post_script_name: info.post_script_name,
            style: info.style,
            weight: info.weight,
            stretch: info.stretch,
            monospaced: info.monospaced,
        };
        self.faces.push(record);
        id
    }

    /// Removes a font face by `id` from the database.
    ///
    /// Returns `false`, and changes nothing, when no face with that ID
    /// exists; removal is linear in the number of faces, by design.
    pub fn remove_face(&mut self, id: ID) -> (r: bool)
        ensures
            r == (exists|i: int|
                0 <= i < old(self).faces@.len() && (#[trigger] old(self).faces@[i].id) == id),
            !r ==> *final(self) == *old(self),
            r ==> ({
                let ix = id_index(old(self).faces@, id, 0);
                &&& 0 <= ix < old(self).faces@.len()
                &&& old(self).faces@[ix].id == id
                &&& *final(self) == (Database {
                    faces: final(self).faces,
                    ..*old(self)
                })
                &&& final(self).faces@ == old(self).faces@.remove(ix)
            }),
            old(self).wf() ==> final(self).wf(),
    {
        let mut i: usize = 0;
        while i < self.faces.len()
            invariant
                *self == *old(self),
                i <= self.faces@.len(),
                forall|j: int| 0 <= j < i ==> (#[trigger] self.faces@[j].id) != id,
            decreases self.faces@.len() - i,
        {
            if self.faces[i].id == id {
                proof {
                    lemma_id_index_char(self.faces@, id, 0);
                    assert(id_index(self.faces@, id, 0) == i as int);
                }
                let ghost pre = self.faces@;
                self.faces.remove(i);
                proof {
                    assert(self.faces@ =~= pre.remove(i as int));
                    if old(self).wf() {
                        assert forall|a: int, b: int|
                            0 <= a < b < self.faces@.len() implies (
                        #[trigger] self.faces@[a].id).0 < (#[trigger] self.faces@[b].id).0 by {
                            let oa = if a < i as int {
                                a
                            } else {
                                a + 1
                            };
                            let ob = if b < i as int {
                                b
                            } else {
                                b + 1
                            };
                            assert(self.faces@[a] == pre[oa]);
                            assert(self.faces@[b] == pre[ob]);
                        }
                    }
                }
                return true;
            }
            i += 1;
        }
        proof {
            lemma_id_index_char(self.faces@, id, 0);
        }
        false
    }

    /// Resolves a family specifier to a concrete family name: a literal
    /// name to itself, a generic class to its alias, or nothing when the
    /// class is unset.
    fn family_name<'a>(&'a self, family: &'a Family) -> (r: Option<&'a String>)
        ensures
            match r {
                Some(s) => family_name_spec(*self, *family) == Some(s@),
                None => family_name_spec(*self, *family) is None,
            },
    {
        match family {
            Family::Name(name) => Some(name),
            Family::Serif => match &self.family_serif {
                Some(s) => Some(s),
                None => None,
            },
            Family::SansSerif => match &self.family_sans_serif {
                Some(s) => Some(s),
                None => None,
            },
            Family::Cursive => match &self.family_cursive {
                Some(s) => Some(s),
                None => None,
            },
            Family::Fantasy => match &self.family_fantasy {
                Some(s) => Some(s),
                None => None,
            },
            Family::Monospace => match &self.family_monospace {
                Some(s) => Some(s),
                None => None,
            },
        }
    }

    /// Performs a CSS-like query and returns the best matched face ID.
    ///
    /// The families are tried in order; the first one that resolves to a
    /// name carried by at least one face decides, through the matching
    /// engine. Unset generic classes and families with no faces are
    /// silently skipped. The result is a pure function of the registry
    /// contents, the aliases, and the query.
    pub fn query(&self, query: &Query) -> (r: Option<ID>)
        ensures
            r == query_spec(*self, *query),
    {
        let ghost fams = query.families@;
        let ghost qs = query.stretch;
        let ghost qst = query.style;
        let ghost qw = query.weight.0;
        let mut fi: usize = 0;
        while fi < query.families.len()
            invariant
                fi <= fams.len(),
                fams == query.families@,
                qs == query.stretch,
                qst == query.style,
                qw == query.weight.0,
                query_spec(*self, *query) == query_spec_from(*self, fams, qs, qst, qw, fi as int),
            decreases fams.len() - fi,
        {
            let name = match self.family_name(&query.families[fi]) {
                Some(name) => name,
                None => {
                    // An unset generic class: skip this family.
                    proof {
                        assert(query_spec_from(*self, fams, qs, qst, qw, fi as int)
                            == query_spec_from(*self, fams, qs, qst, qw, fi as int + 1));
                    }
                    fi += 1;
                    continue ;
                },
            };
            let ghost mf = matching_faces(self.faces@, name@);
            let mut ids: Vec<ID> = Vec::new();
            let mut candidates: Vec<FaceProperties> = Vec::new();
            let mut j: usize = 0;
            while j < self.faces.len()
                invariant
                    j <= self.faces@.len(),
                    mf == matching_faces(self.faces@, name@),
                    ids@.len() == matching_faces(self.faces@.take(j as int), name@).len(),
                    candidates@.len() == ids@.len(),
                    forall|k: int|
                        0 <= k < ids@.len() ==> (#[trigger] ids@[k]) == matching_faces(
                            self.faces@.take(j as int),
                            name@,
                        )[k].id,
                    forall|k: int|
                        0 <= k < candidates@.len() ==> (#[trigger] candidates@[k]) == props_of(
                            matching_faces(self.faces@.take(j as int), name@)[k],
                        ),
                decreases self.faces@.len() - j,
            {
                proof {
                    lemma_matching_faces_step(self.faces@, name@, j as int);
                }
                if self.faces[j].family == *name {
                    ids.push(self.faces[j].id);
                    candidates.push(
                        FaceProperties {
                            style: self.faces[j].style,
                            weight: self.faces[j].weight,
                            stretch: self.faces[j].stretch,
                        },
                    );
                }
                j += 1;
            }
            proof {
                assert(self.faces@.take(self.faces@.len() as int) =~= self.faces@);
                assert(candidates@ =~= mf.map_values(props_fn()));
            }
            if candidates.len() > 0 {
                let best = find_best_match(&candidates, query);
                let bi = match best {
                    Some(b) => b,
                    None => {
                        proof {
                            assert(false);
                        }
                        0
                    },
                };
                proof {
                    assert(mf.map_values(props_fn()).len() == mf.len());
                    assert(best_match_spec(mf.map_values(props_fn()), qs, qst, qw) == Some(
                        bi as int,
                    ));
                    assert(query_spec_from(*self, fams, qs, qst, qw, fi as int) == Some(
                        mf[bi as int].id,
                    ));
                    assert(ids@[bi as int] == mf[bi as int].id);
                }
                return Some(ids[bi]);
            }
            proof {
                assert(mf.len() == 0);
                assert(query_spec_from(*self, fams, qs, qst, qw, fi as int) == query_spec_from(
                    *self,
                    fams,
                    qs,
                    qst,
                    qw,
                    fi as int + 1,
                ));
            }
            fi += 1;
        }
        None
    }

    /// Returns a reference to the internal face storage, in registration
    /// order. This can be used for manual font matching.
    pub fn faces(&self) -> (r: &Vec<FaceInfo>)
        ensures
            r@ == self.faces@,
    {
        &self.faces
    }

    /// Selects a face record by `id`.
    ///
    /// Returns `None` if a face with this ID was already removed, or the
    /// ID belongs to another database.
    pub fn face(&self, id: ID) -> (r: Option<&FaceInfo>)
        ensures
            match r {
                Some(f) => lookup_spec(*self, id) == Some(*f),
                None => lookup_spec(*self, id) is None,
            },
    {
        let mut i: usize = 0;
        while i < self.faces.len()
            invariant
                i <= self.faces@.len(),
                forall|j: int| 0 <= j < i ==> (#[trigger] self.faces@[j].id) != id,
            decreases self.faces@.len() - i,
        {
            if self.faces[i].id == id {
                proof {
                    lemma_id_index_char(self.faces@, id, 0);
                    assert(id_index(self.faces@, id, 0) == i as int);
                }
                return Some(&self.faces[i]);
            }
            i += 1;
        }
        proof {
            lemma_id_index_char(self.faces@, id, 0);
        }
        None
    }

    /// Returns the font source and the face index within it for `id`.
    ///
    /// Cheap: shares ownership of the source, never touches the disk.
    pub fn face_source(&self, id: ID) -> (r: Option<(Arc<Source>, u32)>)
        ensures
            match r {
                Some(pair) => lookup_spec(*self, id) matches Some(f) && pair.0 == f.source
                    && pair.1 == f.index,
                None => lookup_spec(*self, id) is None,
            },
    {
        match self.face(id) {
            Some(info) => Some((clone_source_handle(&info.source), info.index)),
            None => None,
        }
    }

    /// Executes a closure with a face's raw font data and face index.
    ///
    /// The closure runs directly on the shared binary source of the
    /// face. A face backed by a file resolves to bytes only through the
    /// filesystem, which belongs to the embedding application: for such
    /// a face, and for an unknown ID, nothing is returned and the
    /// closure does not run.
    pub fn with_face_data<T, P: FnOnce(&[u8], u32) -> T>(&self, id: ID, p: P) -> (r: Option<T>)
        requires
            forall|d: &[u8], idx: u32| call_requires(p, (d, idx)),
        ensures
            match r {
                Some(t) => ({
                    &&& lookup_spec(*self, id) is Some
                    &&& lookup_spec(*self, id) matches Some(f) ==> match source_binary_bytes(
                        *f.source,
                    ) {
                        Some(bs) => exists|sl: &[u8]|
                            sl@ == bs && call_ensures(p, (sl, f.index), t),
                        None => false,
                    }
                }),
                None => lookup_spec(*self, id) is None || (lookup_spec(*self, id) matches Some(f)
                    && source_binary_bytes(*f.source) is None),
            },
    {
        let info = match self.face(id) {
            Some(info) => info,
            None => {
                return None;
            },
        };
        match source_ref(&info.source) {
            Source::Binary(bytes) => {
                let data: &[u8] = bytes.as_slice();
                Some(p(data, info.index))
            },
            Source::File(_) => None,
        }
    }
}

} // verus!
