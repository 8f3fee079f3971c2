//! Collection registration and removal, and clearing the library.
//!
//! A collection is keyed by its normalized absolute path: registering
//! the same path again updates the label of the existing row instead of
//! creating a second one. Deleting a collection cascades to its tracks.
//! Clearing the library removes all collections, artists, albums and
//! tracks but leaves the settings untouched.

use vstd::prelude::*;
use vstd::string::*;
use crate::models::{AppError, Collection, CollectionInput, CollectionInputV, CollectionV, ErrKind};
use crate::paths::{is_absolute_path, normalize_path, normalize_seps, spec_is_absolute};
use crate::seqtools::{first_match_idx, lemma_first_match_idx_props};
use crate::ordering::{lemma_sort_by_le_multiset, sort_by_le};
use crate::sorts::{coll_order_le, sort_collections};
use crate::store::{
    coll_by_path, coll_not_id, lemma_rows_view_push, lemma_rows_view_update,
    lemma_wf_collection_push, lemma_wf_collection_update, lemma_wf_delete_collection, LibModel,
    Library, res_agrees, rows_view, track_not_of_collection, wf,
};
use vstd::relations::sorted_by;

verus! {

/// What registering a collection does to the store: reject a relative
/// path, reject a missing path unless checks are skipped, update the
/// label of the collection already at that (normalized) path, or append
/// a fresh row stamped `now`.
pub open spec fn spec_add_collection(
    m: LibModel,
    input: CollectionInputV,
    skip_fs_checks: bool,
    path_exists: bool,
    now: Seq<char>,
) -> (LibModel, Result<CollectionV, ErrKind>) {
    if !spec_is_absolute(input.path) {
        (m, Err(ErrKind::InvalidInput))
    } else if !skip_fs_checks && !path_exists {
        (m, Err(ErrKind::InvalidInput))
    } else {
        let norm = normalize_seps(input.path);
        let f = first_match_idx(m.collections, coll_by_path(norm));
        if f >= 0 {
            let c1 = CollectionV { label: input.label, ..m.collections[f] };
            (LibModel { collections: m.collections.update(f, c1), ..m }, Ok(c1))
        } else if m.next_collection_id == i64::MAX {
            (m, Err(ErrKind::Database))
        } else {
            let c = CollectionV {
                id: m.next_collection_id,
                path: norm,
                label: input.label,
                created_at: now,
            };
            (
                LibModel {
                    collections: m.collections.push(c),
                    next_collection_id: (m.next_collection_id + 1) as i64,
                    ..m
                },
                Ok(c),
            )
        }
    }
}

/// What deleting a collection does to the store: the collection row and
/// every track belonging to it are removed; artists, albums and
/// settings stay.
pub open spec fn spec_delete_collection(m: LibModel, collection_id: i64) -> LibModel {
    LibModel {
        collections: m.collections.filter(coll_not_id(collection_id)),
        tracks: m.tracks.filter(track_not_of_collection(collection_id)),
        ..m
    }
}

/// What clearing the library does to the store: collections, artists,
/// albums and tracks are removed; settings and the id counters stay.
pub open spec fn spec_clear(m: LibModel) -> LibModel {
    LibModel {
        collections: Seq::empty(),
        artists: Seq::empty(),
        albums: Seq::empty(),
        tracks: Seq::empty(),
        ..m
    }
}

/// The relation `add_collection_inner` establishes for the timestamp it
/// drew from the clock.
pub open spec fn add_collection_post(
    m0: LibModel,
    m1: LibModel,
    input: CollectionInputV,
    skip_fs_checks: bool,
    path_exists: bool,
    now: Seq<char>,
    r: Result<Collection, AppError>,
) -> bool {
    let (m2, out) = spec_add_collection(m0, input, skip_fs_checks, path_exists, now);
    m1 == m2 && res_agrees(r, out)
}

impl Library {
    /// Register a collection, stamping a new row with `now`.
    ///
    /// The path must be absolute under the library's rule; when
    /// `skip_fs_checks` is false the caller reports through
    /// `path_exists` whether the path exists on disk, and a missing
    /// path is rejected. Registration is keyed by the normalized path:
    /// a second registration at the same path updates the label and
    /// returns the existing row.
    pub fn add_collection_at(
        &mut self,
        input: CollectionInput,
        skip_fs_checks: bool,
        path_exists: bool,
        now: String,
    ) -> (r: Result<Collection, AppError>)
        requires
            wf(old(self)@),
        ensures
            wf(final(self)@),
            ({
                let (m2, out) = spec_add_collection(
                    old(self)@,
                    input@,
                    skip_fs_checks,
                    path_exists,
                    now@,
                );
                final(self)@ == m2 && res_agrees(r, out)
            }),
            !spec_is_absolute(input.path@) ==> (r matches Err(e) && e.msg()
                == "Path must be absolute: "@ + input.path@),
            spec_is_absolute(input.path@) && !skip_fs_checks && !path_exists ==> (r matches Err(e)
                && e.msg() == "Path does not exist: "@ + input.path@),
    {
        let ghost m = old(self)@;
        if !is_absolute_path(input.path.as_str()) {
            let mut msg = String::from_str("Path must be absolute: ");
            msg.append(input.path.as_str());
            return Err(AppError::InvalidInput(msg));
        }
        if !skip_fs_checks && !path_exists {
            let mut msg = String::from_str("Path does not exist: ");
            msg.append(input.path.as_str());
            return Err(AppError::InvalidInput(msg));
        }
        let norm = normalize_path(input.path.as_str());
        match self.find_collection_by_path(norm.as_str()) {
            Some(k) => {
                proof {
                    lemma_first_match_idx_props(m.collections, coll_by_path(norm@));
                }
                let c0 = &self.collections[k];
                let c1 = Collection {
                    id: c0.id,
                    path: c0.path.clone(),
                    label: crate::strutil::clone_opt_str(&input.label),
                    created_at: c0.created_at.clone(),
                };
                let ghost c1g = c1;
                let ret = c1.duplicate();
                self.collections[k] = c1;
                proof {
                    lemma_rows_view_update(old(self).collections@, k as int, c1g);
                    let (m2, out) = spec_add_collection(
                        m,
                        input@,
                        skip_fs_checks,
                        path_exists,
                        now@,
                    );
                    assert(c1g@ == CollectionV { label: input@.label, ..m.collections[k as int] });
                    assert(self@ =~= m2);
                    lemma_wf_collection_update(m, k as int, c1g@);
                }
                Ok(ret)
            },
            None => {
                if self.next_collection_id == i64::MAX {
                    return Err(AppError::Database(String::from_str("id space exhausted")));
                }
                let id = self.next_collection_id;
                let c = Collection {
                    id,
                    path: norm,
                    label: crate::strutil::clone_opt_str(&input.label),
                    created_at: now,
                };
                let ghost cg = c;
                let ret = c.duplicate();
                self.collections.push(c);
                self.next_collection_id = id + 1;
                proof {
                    lemma_rows_view_push(old(self).collections@, cg);
                    let (m2, out) = spec_add_collection(
                        m,
                        input@,
                        skip_fs_checks,
                        path_exists,
                        now@,
                    );
                    assert(self@ =~= m2);
                    lemma_first_match_idx_props(m.collections, coll_by_path(norm@));
                    lemma_wf_collection_push(m, cg@);
                }
                Ok(ret)
            },
        }
    }

    /// Register a collection, stamped with the current time.
    pub fn add_collection_inner(
        &mut self,
        input: CollectionInput,
        skip_fs_checks: bool,
        path_exists: bool,
    ) -> (r: Result<Collection, AppError>)
        requires
            wf(old(self)@),
        ensures
            wf(final(self)@),
            exists|now: Seq<char>|
                #[trigger] add_collection_post(
                    old(self)@,
                    final(self)@,
                    input@,
                    skip_fs_checks,
                    path_exists,
                    now,
                    r,
                ),
    {
        let now = crate::clock::now_rfc3339();
        let ghost ts = now@;
        let ghost input_g = input;
        let r = self.add_collection_at(input, skip_fs_checks, path_exists, now);
        proof {
            assert(add_collection_post(
                old(self)@,
                self@,
                input_g@,
                skip_fs_checks,
                path_exists,
                ts,
                r,
            ));
        }
        r
    }

    /// Remove a collection and, with it, every track it owns. Removing
    /// an id that is not registered changes nothing and still succeeds.
    pub fn delete_collection_inner(&mut self, collection_id: i64) -> (r: Result<(), AppError>)
        requires
            wf(old(self)@),
        ensures
            wf(final(self)@),
            final(self)@ == spec_delete_collection(old(self)@, collection_id),
            r is Ok,
    {
        let ghost m = old(self)@;
        let mut kept_colls: Vec<Collection> = Vec::new();
        let n = self.collections.len();
        let mut i: usize = 0;
        while i < n
            invariant
                i <= n,
                n == self.collections.len(),
                self == old(self),
                m == old(self)@,
                rows_view(kept_colls@) == m.collections.subrange(0, i as int).filter(
                    coll_not_id(collection_id),
                ),
            decreases n - i,
        {
            proof {
                reveal(Seq::filter);
                assert(m.collections.subrange(0, i + 1).drop_last() =~= m.collections.subrange(
                    0,
                    i as int,
                ));
                assert(m.collections.subrange(0, i + 1).last() == m.collections[i as int]);
            }
            if self.collections[i].id != collection_id {
                let d = self.collections[i].duplicate();
                let ghost dg = d;
                let ghost before = kept_colls@;
                kept_colls.push(d);
                proof {
                    lemma_rows_view_push(before, dg);
                }
            }
            i += 1;
        }
        proof {
            assert(m.collections.subrange(0, n as int) =~= m.collections);
        }
        let mut kept_tracks: Vec<crate::models::Track> = Vec::new();
        let tn = self.tracks.len();
        let mut j: usize = 0;
        while j < tn
            invariant
                j <= tn,
                tn == self.tracks.len(),
                self == old(self),
                m == old(self)@,
                rows_view(kept_tracks@) == m.tracks.subrange(0, j as int).filter(
                    track_not_of_collection(collection_id),
                ),
            decreases tn - j,
        {
            proof {
                reveal(Seq::filter);
                assert(m.tracks.subrange(0, j + 1).drop_last() =~= m.tracks.subrange(0, j as int));
                assert(m.tracks.subrange(0, j + 1).last() == m.tracks[j as int]);
            }
            if self.tracks[j].collection_id != collection_id {
                let d = self.tracks[j].duplicate();
                let ghost dg = d;
                let ghost before = kept_tracks@;
                kept_tracks.push(d);
                proof {
                    lemma_rows_view_push(before, dg);
                }
            }
            j += 1;
        }
        proof {
            assert(m.tracks.subrange(0, tn as int) =~= m.tracks);
        }
        self.collections = kept_colls;
        self.tracks = kept_tracks;
        proof {
            assert(self@ =~= spec_delete_collection(m, collection_id));
            lemma_wf_delete_collection(m, collection_id);
        }
        Ok(())
    }

    /// Remove all collections, artists, albums and tracks; settings are
    /// preserved.
    pub fn clear_all_data_inner(&mut self) -> (r: Result<(), AppError>)
        requires
            wf(old(self)@),
        ensures
            wf(final(self)@),
            final(self)@ == spec_clear(old(self)@),
            r is Ok,
    {
        self.collections = Vec::new();
        self.artists = Vec::new();
        self.albums = Vec::new();
        self.tracks = Vec::new();
        proof {
            assert(self@ =~= spec_clear(old(self)@));
        }
        Ok(())
    }


    /// The root path of one registered collection, for the caller's
    /// directory walk; not-found for an unknown id, with the id named
    /// in the message.
    pub fn collection_root_path(&self, collection_id: i64) -> (r: Result<String, AppError>)
        ensures
            ({
                let f = first_match_idx(self@.collections, crate::store::coll_by_id(collection_id));
                match r {
                    Ok(p) => f >= 0 && p@ == self@.collections[f].path,
                    Err(e) => f < 0 && e.kind() == ErrKind::NotFound && e.msg() == "Collection "@
                        + crate::strutil::i64_dec(collection_id as int) + " not found"@,
                }
            }),
    {
        match self.find_collection_by_id(collection_id) {
            Some(k) => {
                proof {
                    lemma_first_match_idx_props(
                        self@.collections,
                        crate::store::coll_by_id(collection_id),
                    );
                }
                Ok(self.collections[k].path.clone())
            },
            None => {
                let mut msg = String::from_str("Collection ");
                crate::strutil::append_i64_dec(&mut msg, collection_id);
                msg.append(" not found");
                proof {
                    let ghost want = "Collection "@ + crate::strutil::i64_dec(
                        collection_id as int,
                    ) + " not found"@;
                    assert(msg@ =~= want);
                }
                Err(AppError::NotFound(msg))
            },
        }
    }

    /// All registered collections, newest first (by creation timestamp
    /// descending).
    pub fn list_collections_inner(&self) -> (r: Result<Vec<Collection>, AppError>)
        ensures
            r matches Ok(v) && {
                &&& rows_view(v@) == sort_by_le(self@.collections, coll_order_le())
                &&& rows_view(v@).to_multiset() == self@.collections.to_multiset()
                &&& sorted_by(rows_view(v@), coll_order_le())
            },
    {
        let mut out: Vec<Collection> = Vec::new();
        let n = self.collections.len();
        let mut i: usize = 0;
        while i < n
            invariant
                i <= n,
                n == self.collections.len(),
                rows_view(out@) == self@.collections.subrange(0, i as int),
            decreases n - i,
        {
            let d = self.collections[i].duplicate();
            let ghost dg = d;
            let ghost before = out@;
            out.push(d);
            proof {
                lemma_rows_view_push(before, dg);
                assert(self@.collections.subrange(0, i + 1) =~= self@.collections.subrange(
                    0,
                    i as int,
                ).push(self@.collections[i as int]));
            }
            i += 1;
        }
        proof {
            assert(self@.collections.subrange(0, n as int) =~= self@.collections);
            lemma_sort_by_le_multiset(self@.collections, coll_order_le());
        }
        Ok(sort_collections(out))
    }
}

} // verus!
