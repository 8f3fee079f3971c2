//! The read-side aggregation layer: whole-library statistics and the
//! per-artist / per-album aggregate rows. Every aggregate tolerates
//! zero rows (it is then zero), and sums are exact: durations and sizes
//! are added in 128-bit arithmetic, which a sum of 64-bit values cannot
//! overflow.

use vstd::prelude::*;
use crate::models::{AlbumRow, AlbumRowV, AlbumV, AppError, ArtistRow, ArtistRowV, ArtistV,
    LibraryStats, Track, TrackV};
use crate::ordering::{lemma_sort_by_le_multiset, sort_by_le};
use crate::seqtools::{
    count_where, lemma_count_where_skip, lemma_sum_of_bound, lemma_sum_of_skip, sum_of,
};
use crate::sorts::{
    album_row_order_le, artist_row_order_le, sort_album_rows, sort_artist_rows,
};
use crate::store::{
    album_of_artist, LibModel, Library, rows_view, track_of_album, track_of_artist, wf,
};
use crate::tracks::artist_name_of;
use vstd::relations::sorted_by;

verus! {

/// A track's duration in milliseconds, zero when unknown.
pub open spec fn dur_of(t: TrackV) -> nat {
    match t.duration_ms {
        Some(d) => d as nat,
        None => 0,
    }
}

/// Duration, summed over every track.
pub open spec fn dur_fn() -> spec_fn(TrackV) -> nat {
    |t: TrackV| dur_of(t)
}

/// Duration, counted only for tracks satisfying `p`.
pub open spec fn dur_if(p: spec_fn(TrackV) -> bool) -> spec_fn(TrackV) -> nat {
    |t: TrackV|
        if p(t) {
            dur_of(t)
        } else {
            0
        }
}

/// File size, summed over every track.
pub open spec fn size_fn() -> spec_fn(TrackV) -> nat {
    |t: TrackV| t.file_size_bytes as nat
}

/// An artist's aggregate row: its album and track counts and the exact
/// sum of its tracks' durations (all zero when it has none).
pub open spec fn spec_artist_row(m: LibModel, a: ArtistV) -> ArtistRowV {
    ArtistRowV {
        id: a.id,
        name: a.name,
        sort_name: a.sort_name,
        album_count: count_where(m.albums, album_of_artist(a.id)) as usize,
        track_count: count_where(m.tracks, track_of_artist(a.id)) as usize,
        total_duration_ms: sum_of(m.tracks, dur_if(track_of_artist(a.id))) as u128,
    }
}

/// Every artist's aggregate row, in storage order.
pub open spec fn artist_rows_of(m: LibModel) -> Seq<ArtistRowV> {
    m.artists.map_values(|a: ArtistV| spec_artist_row(m, a))
}

/// An album's aggregate row: its artist's name, its track count and the
/// exact sums of its tracks' durations and sizes (all zero when it has
/// none).
pub open spec fn spec_album_row(m: LibModel, al: AlbumV) -> AlbumRowV {
    AlbumRowV {
        id: al.id,
        title: al.title,
        artist_name: artist_name_of(m, al.artist_id),
        year: al.year,
        genre: al.genre,
        track_count: count_where(m.tracks, track_of_album(al.id)) as usize,
        total_duration_ms: sum_of(m.tracks, dur_if(track_of_album(al.id))) as u128,
        total_size_bytes: sum_of(m.tracks, dur_size_if(track_of_album(al.id))) as u128,
    }
}

/// Every album's aggregate row, in storage order.
pub open spec fn album_rows_of(m: LibModel) -> Seq<AlbumRowV> {
    m.albums.map_values(|al: AlbumV| spec_album_row(m, al))
}

/// File size, counted only for tracks satisfying `p`.
pub open spec fn dur_size_if(p: spec_fn(TrackV) -> bool) -> spec_fn(TrackV) -> nat {
    |t: TrackV|
        if p(t) {
            t.file_size_bytes as nat
        } else {
            0
        }
}

/// What the library statistics report.
pub open spec fn stats_match(m: LibModel, st: LibraryStats) -> bool {
    &&& st.total_collections == m.collections.len()
    &&& st.total_artists == m.artists.len()
    &&& st.total_albums == m.albums.len()
    &&& st.total_tracks == m.tracks.len()
    &&& st.total_size_bytes as nat == sum_of(m.tracks, size_fn())
    &&& st.total_duration_ms as nat == sum_of(m.tracks, dur_fn())
}

/// A sum of per-track 64-bit quantities fits in 128 bits.
proof fn lemma_track_sum_fits(s: Seq<TrackV>, f: spec_fn(TrackV) -> nat)
    requires
        forall|i: int| 0 <= i < s.len() ==> #[trigger] f(s[i]) <= u64::MAX as nat,
        s.len() <= u64::MAX as nat,
    ensures
        sum_of(s, f) <= u128::MAX as nat,
{
    lemma_sum_of_bound(s, f, u64::MAX as nat);
    assert(s.len() * (u64::MAX as nat) <= (u64::MAX as nat) * (u64::MAX as nat))
        by (nonlinear_arith)
        requires
            s.len() <= u64::MAX as nat,
    ;
    assert((u64::MAX as nat) * (u64::MAX as nat) <= u128::MAX as nat) by (nonlinear_arith);
}

impl Library {
    /// Sum `f` (a per-track 64-bit quantity) over all tracks, exactly.
    fn sum_tracks(&self, mode: SumMode) -> (r: u128)
        ensures
            r as nat == sum_of(self@.tracks, mode.f()),
    {
        let ghost s = self@.tracks;
        let ghost f = mode.f();
        proof {
            assert(forall|i: int| 0 <= i < s.len() ==> #[trigger] f(s[i]) <= u64::MAX as nat);
            broadcast use vstd::std_specs::vec::axiom_spec_len;

            assert(vstd::std_specs::vec::spec_vec_len(&self.tracks) == self.tracks@.len());
            assert(s.len() == self.tracks@.len());
            assert(usize::MAX as nat <= u64::MAX as nat);
            assert(s.len() <= u64::MAX as nat);
            lemma_track_sum_fits(s, f);
            assert(s.skip(0) =~= s);
        }
        let n = self.tracks.len();
        let mut acc: u128 = 0;
        let mut i: usize = 0;
        while i < n
            invariant
                i <= n,
                n == self.tracks.len(),
                s == self@.tracks,
                f == mode.f(),
                sum_of(s, f) <= u128::MAX as nat,
                acc as nat + sum_of(s.skip(i as int), f) == sum_of(s, f),
            decreases n - i,
        {
            proof {
                lemma_sum_of_skip(s, f, i as int);
            }
            let t = &self.tracks[i];
            let v: u64 = match mode {
                SumMode::DurationAll => match t.duration_ms {
                    Some(d) => d,
                    None => 0,
                },
                SumMode::SizeAll => t.file_size_bytes,
                SumMode::DurationOfArtist(aid) => match (t.artist_id, t.duration_ms) {
                    (Some(a), Some(d)) => if a == aid {
                        d
                    } else {
                        0
                    },
                    _ => 0,
                },
                SumMode::DurationOfAlbum(aid) => match (t.album_id, t.duration_ms) {
                    (Some(a), Some(d)) => if a == aid {
                        d
                    } else {
                        0
                    },
                    _ => 0,
                },
                SumMode::SizeOfAlbum(aid) => match t.album_id {
                    Some(a) => if a == aid {
                        t.file_size_bytes
                    } else {
                        0
                    },
                    None => 0,
                },
            };
            proof {
                assert(v as nat == f(s[i as int]));
            }
            acc = acc + v as u128;
            i += 1;
        }
        proof {
            assert(s.skip(n as int) =~= Seq::<TrackV>::empty());
        }
        acc
    }

    /// Count the tracks satisfying the album predicate.
    fn count_tracks_of_album(&self, album_id: i64) -> (r: usize)
        ensures
            r as nat == count_where(self@.tracks, track_of_album(album_id)),
    {
        let ghost s = self@.tracks;
        let ghost p = track_of_album(album_id);
        proof {
            assert(s.skip(0) =~= s);
        }
        let n = self.tracks.len();
        let mut acc: usize = 0;
        let mut i: usize = 0;
        while i < n
            invariant
                i <= n,
                acc <= i,
                n == self.tracks.len(),
                s == self@.tracks,
                p == track_of_album(album_id),
                acc as nat + count_where(s.skip(i as int), p) == count_where(s, p),
            decreases n - i,
        {
            proof {
                lemma_count_where_skip(s, p, i as int);
            }
            if crate::strutil::opt_i64_eq(self.tracks[i].album_id, Some(album_id)) {
                acc = acc + 1;
            }
            i += 1;
        }
        proof {
            assert(s.skip(n as int) =~= Seq::<TrackV>::empty());
        }
        acc
    }

    /// Count the tracks satisfying the artist predicate.
    fn count_tracks_of_artist(&self, artist_id: i64) -> (r: usize)
        ensures
            r as nat == count_where(self@.tracks, track_of_artist(artist_id)),
    {
        let ghost s = self@.tracks;
        let ghost p = track_of_artist(artist_id);
        proof {
            assert(s.skip(0) =~= s);
        }
        let n = self.tracks.len();
        let mut acc: usize = 0;
        let mut i: usize = 0;
        while i < n
            invariant
                i <= n,
                acc <= i,
                n == self.tracks.len(),
                s == self@.tracks,
                p == track_of_artist(artist_id),
                acc as nat + count_where(s.skip(i as int), p) == count_where(s, p),
            decreases n - i,
        {
            proof {
                lemma_count_where_skip(s, p, i as int);
            }
            if crate::strutil::opt_i64_eq(self.tracks[i].artist_id, Some(artist_id)) {
                acc = acc + 1;
            }
            i += 1;
        }
        proof {
            assert(s.skip(n as int) =~= Seq::<TrackV>::empty());
        }
        acc
    }

    /// Count the albums scoped to one artist.
    fn count_albums_of_artist(&self, artist_id: i64) -> (r: usize)
        ensures
            r as nat == count_where(self@.albums, album_of_artist(artist_id)),
    {
        let ghost s = self@.albums;
        let ghost p = album_of_artist(artist_id);
        proof {
            assert(s.skip(0) =~= s);
        }
        let n = self.albums.len();
        let mut acc: usize = 0;
        let mut i: usize = 0;
        while i < n
            invariant
                i <= n,
                acc <= i,
                n == self.albums.len(),
                s == self@.albums,
                p == album_of_artist(artist_id),
                acc as nat + count_where(s.skip(i as int), p) == count_where(s, p),
            decreases n - i,
        {
            proof {
                lemma_count_where_skip(s, p, i as int);
            }
            if crate::strutil::opt_i64_eq(self.albums[i].artist_id, Some(artist_id)) {
                acc = acc + 1;
            }
            i += 1;
        }
        proof {
            assert(s.skip(n as int) =~= Seq::<AlbumV>::empty());
        }
        acc
    }

    /// Whole-library aggregates: row counts, total size and total
    /// duration, all zero on an empty store.
    pub fn get_library_stats_inner(&self) -> (r: Result<LibraryStats, AppError>)
        ensures
            r matches Ok(st) && stats_match(self@, st),
    {
        let st = LibraryStats {
            total_collections: self.collections.len(),
            total_artists: self.artists.len(),
            total_albums: self.albums.len(),
            total_tracks: self.tracks.len(),
            total_size_bytes: self.sum_tracks(SumMode::SizeAll),
            total_duration_ms: self.sum_tracks(SumMode::DurationAll),
        };
        Ok(st)
    }

    /// Per-artist aggregates, one row per artist, sorted by name
    /// ascending.
    pub fn list_artist_rows_inner(&self) -> (r: Result<Vec<ArtistRow>, AppError>)
        ensures
            r matches Ok(v) && {
                &&& rows_view(v@) == sort_by_le(artist_rows_of(self@), artist_row_order_le())
                &&& rows_view(v@).to_multiset() == artist_rows_of(self@).to_multiset()
                &&& sorted_by(rows_view(v@), artist_row_order_le())
            },
    {
        let mut out: Vec<ArtistRow> = Vec::new();
        let n = self.artists.len();
        let mut i: usize = 0;
        while i < n
            invariant
                i <= n,
                n == self.artists.len(),
                out@.len() == i,
                forall|j: int|
                    0 <= j < i ==> (#[trigger] out@[j])@ == spec_artist_row(
                        self@,
                        self@.artists[j],
                    ),
            decreases n - i,
        {
            let a = &self.artists[i];
            let row = ArtistRow {
                id: a.id,
                name: a.name.clone(),
                sort_name: crate::strutil::clone_opt_str(&a.sort_name),
                album_count: self.count_albums_of_artist(a.id),
                track_count: self.count_tracks_of_artist(a.id),
                total_duration_ms: self.sum_tracks(SumMode::DurationOfArtist(a.id)),
            };
            proof {
                assert(row@ == spec_artist_row(self@, self@.artists[i as int]));
            }
            out.push(row);
            i += 1;
        }
        proof {
            assert(rows_view(out@) =~= artist_rows_of(self@));
            lemma_sort_by_le_multiset(artist_rows_of(self@), artist_row_order_le());
        }
        Ok(sort_artist_rows(out))
    }

    /// Per-album aggregates, one row per album, sorted by title
    /// ascending.
    pub fn list_album_rows_inner(&self) -> (r: Result<Vec<AlbumRow>, AppError>)
        ensures
            r matches Ok(v) && {
                &&& rows_view(v@) == sort_by_le(album_rows_of(self@), album_row_order_le())
                &&& rows_view(v@).to_multiset() == album_rows_of(self@).to_multiset()
                &&& sorted_by(rows_view(v@), album_row_order_le())
            },
    {
        let mut out: Vec<AlbumRow> = Vec::new();
        let n = self.albums.len();
        let mut i: usize = 0;
        while i < n
            invariant
                i <= n,
                n == self.albums.len(),
                out@.len() == i,
                forall|j: int|
                    0 <= j < i ==> (#[trigger] out@[j])@ == spec_album_row(
                        self@,
                        self@.albums[j],
                    ),
            decreases n - i,
        {
            let al = &self.albums[i];
            let artist_name: Option<String> = match al.artist_id {
                Some(aid) => match self.find_artist_by_id(aid) {
                    Some(k) => {
                        proof {
                            crate::seqtools::lemma_first_match_idx_props(
                                self@.artists,
                                crate::store::artist_by_id(aid),
                            );
                        }
                        Some(self.artists[k].name.clone())
                    },
                    None => None,
                },
                None => None,
            };
            let row = AlbumRow {
                id: al.id,
                title: al.title.clone(),
                artist_name,
                year: al.year,
                genre: crate::strutil::clone_opt_str(&al.genre),
                track_count: self.count_tracks_of_album(al.id),
                total_duration_ms: self.sum_tracks(SumMode::DurationOfAlbum(al.id)),
                total_size_bytes: self.sum_tracks(SumMode::SizeOfAlbum(al.id)),
            };
            proof {
                assert(row@ == spec_album_row(self@, self@.albums[i as int]));
            }
            out.push(row);
            i += 1;
        }
        proof {
            assert(rows_view(out@) =~= album_rows_of(self@));
            lemma_sort_by_le_multiset(album_rows_of(self@), album_row_order_le());
        }
        Ok(sort_album_rows(out))
    }
}

/// Which per-track quantity `sum_tracks` adds up.
#[derive(Clone, Copy)]
pub enum SumMode {
    DurationAll,
    SizeAll,
    DurationOfArtist(i64),
    DurationOfAlbum(i64),
    SizeOfAlbum(i64),
}

impl SumMode {
    /// The summed quantity as a function of one track.
    pub open spec fn f(self) -> spec_fn(TrackV) -> nat {
        match self {
            SumMode::DurationAll => dur_fn(),
            SumMode::SizeAll => size_fn(),
            SumMode::DurationOfArtist(aid) => dur_if(track_of_artist(aid)),
            SumMode::DurationOfAlbum(aid) => dur_if(track_of_album(aid)),
            SumMode::SizeOfAlbum(aid) => dur_size_if(track_of_album(aid)),
        }
    }
}

} // verus!
