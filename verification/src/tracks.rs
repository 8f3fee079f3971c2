//! Track rows as callers see them: each track joined with its artist's
//! name and its album's title and cover path, plus the single-track and
//! whole-table reads.

use vstd::prelude::*;
use vstd::string::*;
use crate::models::{AppError, ErrKind, Track, TrackRow, TrackRowV, TrackV};
use crate::ordering::{lemma_sort_by_le_multiset, sort_by_le};
use crate::seqtools::{first_match_idx, lemma_first_match_idx_props};
use crate::sorts::{sort_track_rows, track_row_order_le};
use crate::store::{
    album_by_id, artist_by_id, LibModel, Library, res_agrees, rows_view, track_by_id,
    track_of_album, wf,
};
use crate::strutil::{append_i64_dec, i64_dec};
use vstd::relations::sorted_by;

verus! {

/// The joined artist name for an optional artist reference.
pub open spec fn artist_name_of(m: LibModel, artist_id: Option<i64>) -> Option<Seq<char>> {
    match artist_id {
        Some(aid) => {
            let f = first_match_idx(m.artists, artist_by_id(aid));
            if f >= 0 {
                Some(m.artists[f].name)
            } else {
                None
            }
        },
        None => None,
    }
}

/// The joined album title for an optional album reference.
pub open spec fn album_title_of(m: LibModel, album_id: Option<i64>) -> Option<Seq<char>> {
    match album_id {
        Some(aid) => {
            let f = first_match_idx(m.albums, album_by_id(aid));
            if f >= 0 {
                Some(m.albums[f].title)
            } else {
                None
            }
        },
        None => None,
    }
}

/// The joined album cover path for an optional album reference.
pub open spec fn album_cover_of(m: LibModel, album_id: Option<i64>) -> Option<Seq<char>> {
    match album_id {
        Some(aid) => {
            let f = first_match_idx(m.albums, album_by_id(aid));
            if f >= 0 {
                m.albums[f].cover_path
            } else {
                None
            }
        },
        None => None,
    }
}

/// A track joined with its artist's name and its album's title and
/// cover path.
pub open spec fn spec_track_row(m: LibModel, t: TrackV) -> TrackRowV {
    TrackRowV {
        id: t.id,
        collection_id: t.collection_id,
        album_id: t.album_id,
        artist_id: t.artist_id,
        title: t.title,
        track_number: t.track_number,
        disc_number: t.disc_number,
        duration_ms: t.duration_ms,
        file_path: t.file_path,
        file_size_bytes: t.file_size_bytes,
        file_format: t.file_format,
        bitrate_kbps: t.bitrate_kbps,
        sample_rate_hz: t.sample_rate_hz,
        lyrics: t.lyrics,
        created_at: t.created_at,
        updated_at: t.updated_at,
        genre: t.genre,
        album_artist: t.album_artist,
        composer: t.composer,
        bpm: t.bpm,
        comment: t.comment,
        comment_lang: t.comment_lang,
        year: t.year,
        lyrics_lang: t.lyrics_lang,
        track_total: t.track_total,
        disc_total: t.disc_total,
        artist_name: artist_name_of(m, t.artist_id),
        album_title: album_title_of(m, t.album_id),
        album_cover_path: album_cover_of(m, t.album_id),
    }
}

/// Every track's joined row, in storage order.
pub open spec fn track_rows_of(m: LibModel) -> Seq<TrackRowV> {
    m.tracks.map_values(|t: TrackV| spec_track_row(m, t))
}

/// One album's tracks' joined rows, in storage order.
pub open spec fn album_track_rows_of(m: LibModel, album_id: i64) -> Seq<TrackRowV> {
    m.tracks.filter(track_of_album(album_id)).map_values(|t: TrackV| spec_track_row(m, t))
}

/// Reading one track: its joined row, or not-found.
pub open spec fn spec_get_track(m: LibModel, track_id: i64) -> Result<TrackRowV, ErrKind> {
    let f = first_match_idx(m.tracks, track_by_id(track_id));
    if f >= 0 {
        Ok(spec_track_row(m, m.tracks[f]))
    } else {
        Err(ErrKind::NotFound)
    }
}

/// The message a missing track id is reported with.
pub open spec fn track_not_found_msg(track_id: i64) -> Seq<char> {
    "Track "@ + i64_dec(track_id as int) + " not found"@
}

impl Library {
    /// Build the joined row for one track.
    pub fn make_track_row(&self, t: &Track) -> (r: TrackRow)
        ensures
            r@ == spec_track_row(self@, t@),
    {
        let artist_name: Option<String> = match t.artist_id {
            Some(aid) => match self.find_artist_by_id(aid) {
                Some(k) => {
                    proof {
                        lemma_first_match_idx_props(self@.artists, artist_by_id(aid));
                    }
                    Some(self.artists[k].name.clone())
                },
                None => None,
            },
            None => None,
        };
        let album_title: Option<String> = match t.album_id {
            Some(aid) => match self.find_album_by_id(aid) {
                Some(k) => {
                    proof {
                        lemma_first_match_idx_props(self@.albums, album_by_id(aid));
                    }
                    Some(self.albums[k].title.clone())
                },
                None => None,
            },
            None => None,
        };
        let album_cover_path: Option<String> = match t.album_id {
            Some(aid) => match self.find_album_by_id(aid) {
                Some(k) => {
                    proof {
                        lemma_first_match_idx_props(self@.albums, album_by_id(aid));
                    }
                    crate::strutil::clone_opt_str(&self.albums[k].cover_path)
                },
                None => None,
            },
            None => None,
        };
        TrackRow {
            id: t.id,
            collection_id: t.collection_id,
            album_id: t.album_id,
            artist_id: t.artist_id,
            title: t.title.clone(),
            track_number: t.track_number,
            disc_number: t.disc_number,
            duration_ms: t.duration_ms,
            file_path: t.file_path.clone(),
            file_size_bytes: t.file_size_bytes,
            file_format: crate::strutil::clone_opt_str(&t.file_format),
            bitrate_kbps: t.bitrate_kbps,
            sample_rate_hz: t.sample_rate_hz,
            lyrics: crate::strutil::clone_opt_str(&t.lyrics),
            created_at: t.created_at.clone(),
            updated_at: t.updated_at.clone(),
            genre: crate::strutil::clone_opt_str(&t.genre),
            album_artist: crate::strutil::clone_opt_str(&t.album_artist),
            composer: crate::strutil::clone_opt_str(&t.composer),
            bpm: t.bpm,
            comment: crate::strutil::clone_opt_str(&t.comment),
            comment_lang: crate::strutil::clone_opt_str(&t.comment_lang),
            year: t.year,
            lyrics_lang: crate::strutil::clone_opt_str(&t.lyrics_lang),
            track_total: t.track_total,
            disc_total: t.disc_total,
            artist_name,
            album_title,
            album_cover_path,
        }
    }

    /// One track's joined row; not-found for an unknown id, with the id
    /// named in the message.
    pub fn get_track_inner(&self, track_id: i64) -> (r: Result<TrackRow, AppError>)
        ensures
            res_agrees(r, spec_get_track(self@, track_id)),
            r matches Err(e) ==> e.msg() == track_not_found_msg(track_id),
    {
        match self.find_track_by_id(track_id) {
            Some(k) => {
                proof {
                    lemma_first_match_idx_props(self@.tracks, track_by_id(track_id));
                }
                Ok(self.make_track_row(&self.tracks[k]))
            },
            None => {
                let mut msg = String::from_str("Track ");
                append_i64_dec(&mut msg, track_id);
                msg.append(" not found");
                proof {
                    assert(msg@ =~= track_not_found_msg(track_id));
                }
                Err(AppError::NotFound(msg))
            },
        }
    }

    /// All tracks, joined, sorted by title ascending.
    pub fn list_tracks_inner(&self) -> (r: Result<Vec<TrackRow>, AppError>)
        ensures
            r matches Ok(v) && {
                &&& rows_view(v@) == sort_by_le(track_rows_of(self@), track_row_order_le(false))
                &&& rows_view(v@).to_multiset() == track_rows_of(self@).to_multiset()
                &&& sorted_by(rows_view(v@), track_row_order_le(false))
            },
    {
        let mut out: Vec<TrackRow> = Vec::new();
        let n = self.tracks.len();
        let mut i: usize = 0;
        while i < n
            invariant
                i <= n,
                n == self.tracks.len(),
                out@.len() == i,
                forall|j: int|
                    0 <= j < i ==> (#[trigger] out@[j])@ == spec_track_row(
                        self@,
                        self@.tracks[j],
                    ),
            decreases n - i,
        {
            let row = self.make_track_row(&self.tracks[i]);
            out.push(row);
            i += 1;
        }
        proof {
            assert(rows_view(out@) =~= track_rows_of(self@));
            lemma_sort_by_le_multiset(track_rows_of(self@), track_row_order_le(false));
        }
        Ok(sort_track_rows(out, false))
    }

    /// The tracks of one album, joined, sorted by disc number (absent
    /// first) and then track number.
    pub fn list_tracks_by_album_inner(&self, album_id: i64) -> (r: Result<Vec<TrackRow>, AppError>)
        ensures
            r matches Ok(v) && {
                &&& rows_view(v@) == sort_by_le(
                    album_track_rows_of(self@, album_id),
                    track_row_order_le(true),
                )
                &&& rows_view(v@).to_multiset() == album_track_rows_of(
                    self@,
                    album_id,
                ).to_multiset()
                &&& sorted_by(rows_view(v@), track_row_order_le(true))
            },
    {
        let mut out: Vec<TrackRow> = Vec::new();
        let n = self.tracks.len();
        let mut i: usize = 0;
        while i < n
            invariant
                i <= n,
                n == self.tracks.len(),
                ({
                    let pref = self@.tracks.subrange(0, i as int).filter(track_of_album(album_id));
                    &&& out@.len() == pref.len()
                    &&& forall|j: int|
                        0 <= j < out@.len() ==> (#[trigger] out@[j])@ == spec_track_row(
                            self@,
                            pref[j],
                        )
                }),
            decreases n - i,
        {
            proof {
                reveal(Seq::filter);
                assert(self@.tracks.subrange(0, i + 1).drop_last() =~= self@.tracks.subrange(
                    0,
                    i as int,
                ));
                assert(self@.tracks.subrange(0, i + 1).last() == self@.tracks[i as int]);
            }
            if crate::strutil::opt_i64_eq(self.tracks[i].album_id, Some(album_id)) {
                let row = self.make_track_row(&self.tracks[i]);
                out.push(row);
            }
            i += 1;
        }
        proof {
            assert(self@.tracks.subrange(0, n as int) =~= self@.tracks);
            assert(rows_view(out@) =~= album_track_rows_of(self@, album_id));
            lemma_sort_by_le_multiset(album_track_rows_of(self@, album_id), track_row_order_le(true));
        }
        Ok(sort_track_rows(out, true))
    }
}

} // verus!
