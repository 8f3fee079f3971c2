//! Artist identity resolution and listing.
//!
//! An artist's natural key is its exact name (case- and
//! whitespace-sensitive). Resolution is find-or-create: a name already
//! stored yields the existing id and changes nothing; a new name is
//! inserted once, so the store never holds two artists with one name.

use vstd::prelude::*;
use vstd::string::*;
use crate::models::{AppError, Artist, ArtistV, ErrKind};
use crate::ordering::{lemma_sort_by_le_multiset, sort_by_le};
use crate::seqtools::{first_match_idx, lemma_first_match_idx_props};
use crate::sorts::{artist_order_le, sort_artists};
use crate::store::{
    artist_by_name, id_res_agrees, lemma_rows_view_push, lemma_wf_artist_push, LibModel, Library,
    rows_view, wf,
};
use vstd::relations::sorted_by;

verus! {

/// The artist row created for a fresh name.
pub open spec fn new_artist_v(id: i64, name: Seq<char>, now: Seq<char>) -> ArtistV {
    ArtistV { id, name, sort_name: None, musicbrainz_id: None, created_at: now }
}

/// What resolving an artist name does to the store: an exact-match hit
/// returns the stored id unchanged; a miss inserts a new row stamped
/// `now` (failing only when the id space is exhausted).
pub open spec fn spec_find_or_create_artist(m: LibModel, name: Seq<char>, now: Seq<char>) -> (
    LibModel,
    Result<i64, ErrKind>,
) {
    let f = first_match_idx(m.artists, artist_by_name(name));
    if f >= 0 {
        (m, Ok(m.artists[f].id))
    } else if m.next_artist_id == i64::MAX {
        (m, Err(ErrKind::Database))
    } else {
        (
            LibModel {
                artists: m.artists.push(new_artist_v(m.next_artist_id, name, now)),
                next_artist_id: (m.next_artist_id + 1) as i64,
                ..m
            },
            Ok(m.next_artist_id),
        )
    }
}

/// The relation `find_or_create_artist` establishes for the timestamp
/// it drew from the clock.
pub open spec fn find_or_create_artist_post(
    m0: LibModel,
    m1: LibModel,
    name: Seq<char>,
    now: Seq<char>,
    r: Result<i64, AppError>,
) -> bool {
    let (m2, out) = spec_find_or_create_artist(m0, name, now);
    m1 == m2 && id_res_agrees(r, out)
}

impl Library {
    /// Resolve an artist name to its id, inserting a row stamped `now`
    /// on a miss.
    pub fn find_or_create_artist_at(&mut self, name: &str, now: String) -> (r: Result<
        i64,
        AppError,
    >)
        requires
            wf(old(self)@),
        ensures
            wf(final(self)@),
            ({
                let (m2, out) = spec_find_or_create_artist(old(self)@, name@, now@);
                final(self)@ == m2 && id_res_agrees(r, out)
            }),
    {
        let ghost m = old(self)@;
        match self.find_artist_by_name(name) {
            Some(k) => {
                proof {
                    lemma_first_match_idx_props(m.artists, artist_by_name(name@));
                }
                Ok(self.artists[k].id)
            },
            None => {
                if self.next_artist_id == i64::MAX {
                    return Err(AppError::Database(String::from_str("id space exhausted")));
                }
                let id = self.next_artist_id;
                let a = Artist {
                    id,
                    name: String::from_str(name),
                    sort_name: None,
                    musicbrainz_id: None,
                    created_at: now,
                };
                let ghost ag = a;
                self.artists.push(a);
                self.next_artist_id = id + 1;
                proof {
                    lemma_rows_view_push(old(self).artists@, ag);
                    assert(ag@ == new_artist_v(id, name@, now@));
                    let (m2, out) = spec_find_or_create_artist(m, name@, now@);
                    assert(self@ =~= m2);
                    lemma_first_match_idx_props(m.artists, artist_by_name(name@));
                    lemma_wf_artist_push(m, ag@);
                }
                Ok(id)
            },
        }
    }

    /// Resolve an artist name to its id, stamping a new row with the
    /// current time on a miss.
    pub fn find_or_create_artist(&mut self, name: &str) -> (r: Result<i64, AppError>)
        requires
            wf(old(self)@),
        ensures
            wf(final(self)@),
            exists|now: Seq<char>|
                #[trigger] find_or_create_artist_post(old(self)@, final(self)@, name@, now, r),
    {
        let now = crate::clock::now_rfc3339();
        let ghost ts = now@;
        let r = self.find_or_create_artist_at(name, now);
        proof {
            assert(find_or_create_artist_post(old(self)@, self@, name@, ts, r));
        }
        r
    }

    /// All artists, sorted by name ascending.
    pub fn list_artists_inner(&self) -> (r: Result<Vec<Artist>, AppError>)
        ensures
            r matches Ok(v) && {
                &&& rows_view(v@) == sort_by_le(self@.artists, artist_order_le())
                &&& rows_view(v@).to_multiset() == self@.artists.to_multiset()
                &&& sorted_by(rows_view(v@), artist_order_le())
            },
    {
        let mut out: Vec<Artist> = Vec::new();
        let n = self.artists.len();
        let mut i: usize = 0;
        while i < n
            invariant
                i <= n,
                n == self.artists.len(),
                rows_view(out@) == self@.artists.subrange(0, i as int),
            decreases n - i,
        {
            let d = self.artists[i].duplicate();
            let ghost dg = d;
            let ghost before = out@;
            out.push(d);
            proof {
                lemma_rows_view_push(before, dg);
                assert(self@.artists.subrange(0, i + 1) =~= self@.artists.subrange(0, i as int).push(
                    self@.artists[i as int],
                ));
            }
            i += 1;
        }
        proof {
            assert(self@.artists.subrange(0, n as int) =~= self@.artists);
            lemma_sort_by_le_multiset(self@.artists, artist_order_le());
        }
        Ok(sort_artists(out))
    }
}

} // verus!
