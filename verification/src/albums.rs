//! Album identity resolution and listing.
//!
//! An album's natural key is its (title, artist id) pair; an album with
//! no artist matches only lookups that pass no artist, never as a
//! wildcard. Resolution is find-or-create, so the store never holds two
//! albums with one key.

use vstd::prelude::*;
use vstd::string::*;
use crate::models::{Album, AlbumV, AppError, ErrKind};
use crate::ordering::{lemma_sort_by_le_multiset, sort_by_le};
use crate::seqtools::{first_match_idx, lemma_first_match_idx_props};
use crate::sorts::{album_order_le, sort_albums};
use crate::store::{
    album_by_key, album_of_artist, has_artist_id, id_res_agrees, lemma_rows_view_push,
    lemma_wf_album_push, LibModel, Library, rows_view, wf,
};
use vstd::relations::sorted_by;

verus! {

/// The album row created for a fresh key.
pub open spec fn new_album_v(
    id: i64,
    title: Seq<char>,
    artist_id: Option<i64>,
    year: Option<i32>,
    now: Seq<char>,
) -> AlbumV {
    AlbumV {
        id,
        title,
        artist_id,
        year,
        genre: None,
        cover_path: None,
        musicbrainz_id: None,
        created_at: now,
    }
}

/// What resolving an album key does to the store: a hit on (title,
/// artist id) returns the stored id unchanged; a miss inserts a new row
/// carrying `year`, stamped `now`.
pub open spec fn spec_find_or_create_album(
    m: LibModel,
    title: Seq<char>,
    artist_id: Option<i64>,
    year: Option<i32>,
    now: Seq<char>,
) -> (LibModel, Result<i64, ErrKind>) {
    let f = first_match_idx(m.albums, album_by_key(title, artist_id));
    if f >= 0 {
        (m, Ok(m.albums[f].id))
    } else if m.next_album_id == i64::MAX {
        (m, Err(ErrKind::Database))
    } else {
        (
            LibModel {
                albums: m.albums.push(new_album_v(m.next_album_id, title, artist_id, year, now)),
                next_album_id: (m.next_album_id + 1) as i64,
                ..m
            },
            Ok(m.next_album_id),
        )
    }
}

/// The relation `find_or_create_album` establishes for the timestamp it
/// drew from the clock.
pub open spec fn find_or_create_album_post(
    m0: LibModel,
    m1: LibModel,
    title: Seq<char>,
    artist_id: Option<i64>,
    now: Seq<char>,
    r: Result<i64, AppError>,
) -> bool {
    let (m2, out) = spec_find_or_create_album(m0, title, artist_id, None, now);
    m1 == m2 && id_res_agrees(r, out)
}

impl Library {
    /// Resolve an album (title, artist id) key to its id, inserting a
    /// row carrying `year`, stamped `now`, on a miss.
    pub fn find_or_create_album_at(
        &mut self,
        title: &str,
        artist_id: Option<i64>,
        year: Option<i32>,
        now: String,
    ) -> (r: Result<i64, AppError>)
        requires
            wf(old(self)@),
            artist_id matches Some(aid) ==> has_artist_id(old(self)@, aid),
        ensures
            wf(final(self)@),
            ({
                let (m2, out) = spec_find_or_create_album(old(self)@, title@, artist_id, year, now@);
                final(self)@ == m2 && id_res_agrees(r, out)
            }),
    {
        let ghost m = old(self)@;
        match self.find_album_by_key(title, artist_id) {
            Some(k) => {
                proof {
                    lemma_first_match_idx_props(m.albums, album_by_key(title@, artist_id));
                }
                Ok(self.albums[k].id)
            },
            None => {
                if self.next_album_id == i64::MAX {
                    return Err(AppError::Database(String::from_str("id space exhausted")));
                }
                let id = self.next_album_id;
                let al = Album {
                    id,
                    title: String::from_str(title),
                    artist_id,
                    year,
                    genre: None,
                    cover_path: None,
                    musicbrainz_id: None,
                    created_at: now,
                };
                let ghost alg = al;
                self.albums.push(al);
                self.next_album_id = id + 1;
                proof {
                    lemma_rows_view_push(old(self).albums@, alg);
                    assert(alg@ == new_album_v(id, title@, artist_id, year, now@));
                    let (m2, out) = spec_find_or_create_album(m, title@, artist_id, year, now@);
                    assert(self@ =~= m2);
                    lemma_first_match_idx_props(m.albums, album_by_key(title@, artist_id));
                    lemma_wf_album_push(m, alg@);
                }
                Ok(id)
            },
        }
    }

    /// Resolve an album (title, artist id) key to its id, stamping a
    /// new row (with no year) with the current time on a miss.
    pub fn find_or_create_album(&mut self, title: &str, artist_id: Option<i64>) -> (r: Result<
        i64,
        AppError,
    >)
        requires
            wf(old(self)@),
            artist_id matches Some(aid) ==> has_artist_id(old(self)@, aid),
        ensures
            wf(final(self)@),
            exists|now: Seq<char>|
                #[trigger] find_or_create_album_post(
                    old(self)@,
                    final(self)@,
                    title@,
                    artist_id,
                    now,
                    r,
                ),
    {
        let now = crate::clock::now_rfc3339();
        let ghost ts = now@;
        let r = self.find_or_create_album_at(title, artist_id, None, now);
        proof {
            assert(find_or_create_album_post(old(self)@, self@, title@, artist_id, ts, r));
        }
        r
    }

    /// Albums: all of them sorted by title, or only those scoped to one
    /// artist, sorted by year (absent first) and then title.
    pub fn list_albums_inner(&self, artist_id: Option<i64>) -> (r: Result<Vec<Album>, AppError>)
        ensures
            r matches Ok(v) && (match artist_id {
                Some(aid) => {
                    let source = self@.albums.filter(album_of_artist(aid));
                    &&& rows_view(v@) == sort_by_le(source, album_order_le(true))
                    &&& rows_view(v@).to_multiset() == source.to_multiset()
                    &&& sorted_by(rows_view(v@), album_order_le(true))
                },
                None => {
                    &&& rows_view(v@) == sort_by_le(self@.albums, album_order_le(false))
                    &&& rows_view(v@).to_multiset() == self@.albums.to_multiset()
                    &&& sorted_by(rows_view(v@), album_order_le(false))
                },
            }),
    {
        let mut out: Vec<Album> = Vec::new();
        let n = self.albums.len();
        let mut i: usize = 0;
        match artist_id {
            Some(aid) => {
                while i < n
                    invariant
                        i <= n,
                        n == self.albums.len(),
                        rows_view(out@) == self@.albums.subrange(0, i as int).filter(
                            album_of_artist(aid),
                        ),
                    decreases n - i,
                {
                    proof {
                        reveal(Seq::filter);
                        assert(self@.albums.subrange(0, i + 1).drop_last() =~= self@.albums.subrange(
                            0,
                            i as int,
                        ));
                        assert(self@.albums.subrange(0, i + 1).last() == self@.albums[i as int]);
                    }
                    if crate::strutil::opt_i64_eq(self.albums[i].artist_id, Some(aid)) {
                        let d = self.albums[i].duplicate();
                        let ghost dg = d;
                        let ghost before = out@;
                        out.push(d);
                        proof {
                            lemma_rows_view_push(before, dg);
                        }
                    }
                    i += 1;
                }
                proof {
                    assert(self@.albums.subrange(0, n as int) =~= self@.albums);
                    lemma_sort_by_le_multiset(
                        self@.albums.filter(album_of_artist(aid)),
                        album_order_le(true),
                    );
                }
                return Ok(sort_albums(out, true));
            },
            None => {
                while i < n
                    invariant
                        i <= n,
                        n == self.albums.len(),
                        rows_view(out@) == self@.albums.subrange(0, i as int),
                    decreases n - i,
                {
                    let d = self.albums[i].duplicate();
                    let ghost dg = d;
                    let ghost before = out@;
                    out.push(d);
                    proof {
                        lemma_rows_view_push(before, dg);
                        assert(self@.albums.subrange(0, i + 1) =~= self@.albums.subrange(
                            0,
                            i as int,
                        ).push(self@.albums[i as int]));
                    }
                    i += 1;
                }
                proof {
                    assert(self@.albums.subrange(0, n as int) =~= self@.albums);
                    lemma_sort_by_le_multiset(self@.albums, album_order_le(false));
                }
                Ok(sort_albums(out, false))
            },
        }
    }
}

} // verus!
