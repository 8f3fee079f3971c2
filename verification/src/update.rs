//! Partial, user-driven track updates with tri-state association
//! fields: an absent artist name or album title leaves the existing
//! association untouched, an empty string clears it, and any other
//! string resolves-or-creates the entity and associates it.

use vstd::prelude::*;
use vstd::string::*;
use crate::albums::spec_find_or_create_album;
use crate::artists::spec_find_or_create_artist;
use crate::models::{
    AppError, ErrKind, Track, TrackRow, TrackRowV, TrackUpdateInput, TrackUpdateInputV, TrackV,
};
use crate::seqtools::{first_match_idx, lemma_first_match_idx_props};
use crate::store::{
    album_by_key, artist_by_name, has_album_id, has_artist_id, has_collection_id,
    lemma_rows_view_update, lemma_wf_track_update, LibModel, Library, res_agrees, track_by_id, wf,
};
use crate::strutil::{append_i64_dec, clone_opt_str};
use crate::tracks::{spec_track_row, track_not_found_msg};

verus! {

/// The artist-association step of an update: the store after it and the
/// artist id the track will carry.
pub open spec fn update_artist_step(
    m: LibModel,
    t0: TrackV,
    input: TrackUpdateInputV,
    now: Seq<char>,
) -> (LibModel, Option<i64>) {
    match input.artist_name {
        None => (m, t0.artist_id),
        Some(n) => {
            if n.len() == 0 {
                (m, None)
            } else {
                let (m1, r) = spec_find_or_create_artist(m, n, now);
                (m1, Some(r->Ok_0))
            }
        },
    }
}

/// The album-association step of an update, after the artist step; a
/// created album is scoped to the track's new artist.
pub open spec fn update_album_step(
    m1: LibModel,
    t0: TrackV,
    input: TrackUpdateInputV,
    artist_id: Option<i64>,
    now: Seq<char>,
) -> (LibModel, Option<i64>) {
    match input.album_title {
        None => (m1, t0.album_id),
        Some(t) => {
            if t.len() == 0 {
                (m1, None)
            } else {
                let (m2, r) = spec_find_or_create_album(m1, t, artist_id, None, now);
                (m2, Some(r->Ok_0))
            }
        },
    }
}

/// Whether the update would run out of ids; it then fails without
/// touching the store.
pub open spec fn update_would_exhaust(
    m: LibModel,
    t0: TrackV,
    input: TrackUpdateInputV,
    now: Seq<char>,
) -> bool {
    let artist_would = match input.artist_name {
        Some(n) => n.len() > 0 && first_match_idx(m.artists, artist_by_name(n)) < 0,
        None => false,
    };
    if artist_would && m.next_artist_id == i64::MAX {
        true
    } else {
        let (m1, artist_id) = update_artist_step(m, t0, input, now);
        let album_would = match input.album_title {
            Some(t) => t.len() > 0 && first_match_idx(m1.albums, album_by_key(t, artist_id)) < 0,
            None => false,
        };
        album_would && m1.next_album_id == i64::MAX
    }
}

/// The track row after the update: supplied fields replace the stored
/// ones, absent fields keep them, and the modification timestamp is
/// refreshed.
pub open spec fn updated_track_v(
    t0: TrackV,
    input: TrackUpdateInputV,
    artist_id: Option<i64>,
    album_id: Option<i64>,
    now: Seq<char>,
) -> TrackV {
    TrackV {
        title: match input.title {
            Some(x) => x,
            None => t0.title,
        },
        track_number: match input.track_number {
            Some(x) => Some(x),
            None => t0.track_number,
        },
        disc_number: match input.disc_number {
            Some(x) => Some(x),
            None => t0.disc_number,
        },
        lyrics: match input.lyrics {
            Some(x) => Some(x),
            None => t0.lyrics,
        },
        artist_id,
        album_id,
        updated_at: now,
        ..t0
    }
}

/// What updating a track does to the store: not-found for an unknown
/// id; otherwise the tri-state association fields are resolved, the row
/// is rewritten in place, and its joined row is returned.
pub open spec fn spec_update_track(
    m: LibModel,
    track_id: i64,
    input: TrackUpdateInputV,
    now: Seq<char>,
) -> (LibModel, Result<TrackRowV, ErrKind>) {
    let f = first_match_idx(m.tracks, track_by_id(track_id));
    if f < 0 {
        (m, Err(ErrKind::NotFound))
    } else if update_would_exhaust(m, m.tracks[f], input, now) {
        (m, Err(ErrKind::Database))
    } else {
        let t0 = m.tracks[f];
        let (m1, artist_id) = update_artist_step(m, t0, input, now);
        let (m2, album_id) = update_album_step(m1, t0, input, artist_id, now);
        let t1 = updated_track_v(t0, input, artist_id, album_id, now);
        let m3 = LibModel { tracks: m2.tracks.update(f, t1), ..m2 };
        (m3, Ok(spec_track_row(m3, t1)))
    }
}

/// The relation `update_track_inner` establishes for the timestamp it
/// drew from the clock.
pub open spec fn update_track_post(
    m0: LibModel,
    m1: LibModel,
    track_id: i64,
    input: TrackUpdateInputV,
    now: Seq<char>,
    r: Result<TrackRow, AppError>,
) -> bool {
    let (m2, out) = spec_update_track(m0, track_id, input, now);
    m1 == m2 && res_agrees(r, out)
}

impl Library {
    /// Update a track, stamping the rewritten row with `now`.
    #[verifier::rlimit(100)]
    pub fn update_track_at(&mut self, track_id: i64, input: TrackUpdateInput, now: String) -> (r:
        Result<TrackRow, AppError>)
        requires
            wf(old(self)@),
        ensures
            wf(final(self)@),
            ({
                let (m2, out) = spec_update_track(old(self)@, track_id, input@, now@);
                final(self)@ == m2 && res_agrees(r, out)
            }),
            r matches Err(e) ==> (e.kind() == ErrKind::NotFound ==> e.msg()
                == track_not_found_msg(track_id)),
    {
        let ghost m = old(self)@;
        let ghost nowv = now@;
        let f = match self.find_track_by_id(track_id) {
            Some(k) => k,
            None => {
                let mut msg = String::from_str("Track ");
                append_i64_dec(&mut msg, track_id);
                msg.append(" not found");
                proof {
                    assert(msg@ =~= track_not_found_msg(track_id));
                }
                return Err(AppError::NotFound(msg));
            },
        };
        proof {
            lemma_first_match_idx_props(m.tracks, track_by_id(track_id));
        }
        let ghost t0g = m.tracks[f as int];
        let t0_artist = self.tracks[f].artist_id;
        let t0_album = self.tracks[f].album_id;

        // Pre-check the id space so the update stays atomic.
        let mut artist_candidate: Option<i64> = t0_artist;
        match &input.artist_name {
            None => {},
            Some(n) => {
                if n.as_str().unicode_len() == 0 {
                    artist_candidate = None;
                } else {
                    match self.find_artist_by_name(n.as_str()) {
                        Some(k) => {
                            proof {
                                lemma_first_match_idx_props(m.artists, artist_by_name(n@));
                            }
                            artist_candidate = Some(self.artists[k].id);
                        },
                        None => {
                            if self.next_artist_id == i64::MAX {
                                return Err(
                                    AppError::Database(String::from_str("id space exhausted")),
                                );
                            }
                            artist_candidate = Some(self.next_artist_id);
                        },
                    }
                }
            },
        }
        let ghost step1 = update_artist_step(m, t0g, input@, nowv);
        proof {
            assert(artist_candidate == step1.1);
            assert(step1.0.albums == m.albums);
            assert(step1.0.next_album_id == m.next_album_id);
        }
        match &input.album_title {
            None => {},
            Some(t) => {
                if t.as_str().unicode_len() > 0 {
                    match self.find_album_by_key(t.as_str(), artist_candidate) {
                        Some(_) => {},
                        None => {
                            if self.next_album_id == i64::MAX {
                                return Err(
                                    AppError::Database(String::from_str("id space exhausted")),
                                );
                            }
                        },
                    }
                }
            },
        }
        proof {
            assert(!update_would_exhaust(m, t0g, input@, nowv));
        }

        // Resolve the new artist association.
        let new_artist_id: Option<i64> = match &input.artist_name {
            None => t0_artist,
            Some(n) => {
                if n.as_str().unicode_len() == 0 {
                    None
                } else {
                    match self.find_or_create_artist_at(n.as_str(), now.clone()) {
                        Ok(id) => Some(id),
                        Err(e) => {
                            proof {
                                assert(false);
                            }
                            return Err(e);
                        },
                    }
                }
            },
        };
        proof {
            assert(self@ == step1.0);
            assert(new_artist_id == step1.1);
            if new_artist_id is Some {
                let aid = new_artist_id->0;
                match input@.artist_name {
                    Some(n) => {
                        if n.len() > 0 {
                            lemma_first_match_idx_props(m.artists, artist_by_name(n));
                            let ff = first_match_idx(m.artists, artist_by_name(n));
                            if ff >= 0 {
                                assert(self@.artists[ff].id == aid);
                            } else {
                                assert(self@.artists[m.artists.len() as int].id == aid);
                            }
                        }
                    },
                    None => {
                        assert(aid == t0g.artist_id->0);
                        assert(has_artist_id(m, aid));
                        let j = choose|j: int|
                            0 <= j < m.artists.len() && (#[trigger] m.artists[j]).id == aid;
                        assert(self@.artists[j].id == aid);
                    },
                }
                assert(has_artist_id(self@, aid));
            }
        }

        // Resolve the new album association, scoped to the new artist.
        let new_album_id: Option<i64> = match &input.album_title {
            None => t0_album,
            Some(t) => {
                if t.as_str().unicode_len() == 0 {
                    None
                } else {
                    match self.find_or_create_album_at(t.as_str(), new_artist_id, None, now.clone())
                    {
                        Ok(id) => Some(id),
                        Err(e) => {
                            proof {
                                assert(false);
                            }
                            return Err(e);
                        },
                    }
                }
            },
        };
        let ghost step2 = update_album_step(step1.0, t0g, input@, new_artist_id, nowv);
        proof {
            assert(self@ == step2.0);
            assert(new_album_id == step2.1);
            if new_album_id is Some {
                let alid = new_album_id->0;
                match input@.album_title {
                    Some(t) => {
                        if t.len() > 0 {
                            lemma_first_match_idx_props(
                                step1.0.albums,
                                album_by_key(t, new_artist_id),
                            );
                            let ff = first_match_idx(step1.0.albums, album_by_key(t, new_artist_id));
                            if ff >= 0 {
                                assert(self@.albums[ff].id == alid);
                            } else {
                                assert(self@.albums[step1.0.albums.len() as int].id == alid);
                            }
                        }
                    },
                    None => {
                        assert(alid == t0g.album_id->0);
                        assert(has_album_id(m, alid));
                        let j = choose|j: int|
                            0 <= j < m.albums.len() && (#[trigger] m.albums[j]).id == alid;
                        assert(self@.albums[j].id == alid);
                    },
                }
                assert(has_album_id(self@, alid));
            }
            if new_artist_id is Some {
                assert(has_artist_id(self@, new_artist_id->0));
            }
        }
        let ghost m2 = step2.0;

        // Rewrite the row in place.
        let t0 = &self.tracks[f];
        let t1 = Track {
            id: t0.id,
            collection_id: t0.collection_id,
            album_id: new_album_id,
            artist_id: new_artist_id,
            title: match &input.title {
                Some(x) => x.clone(),
                None => t0.title.clone(),
            },
            track_number: match input.track_number {
                Some(x) => Some(x),
                None => t0.track_number,
            },
            disc_number: match input.disc_number {
                Some(x) => Some(x),
                None => t0.disc_number,
            },
            duration_ms: t0.duration_ms,
            file_path: t0.file_path.clone(),
            file_size_bytes: t0.file_size_bytes,
            file_format: clone_opt_str(&t0.file_format),
            bitrate_kbps: t0.bitrate_kbps,
            sample_rate_hz: t0.sample_rate_hz,
            lyrics: match &input.lyrics {
                Some(x) => Some(x.clone()),
                None => clone_opt_str(&t0.lyrics),
            },
            created_at: t0.created_at.clone(),
            updated_at: now,
            genre: clone_opt_str(&t0.genre),
            album_artist: clone_opt_str(&t0.album_artist),
            composer: clone_opt_str(&t0.composer),
            bpm: t0.bpm,
            comment: clone_opt_str(&t0.comment),
            comment_lang: clone_opt_str(&t0.comment_lang),
            year: t0.year,
            lyrics_lang: clone_opt_str(&t0.lyrics_lang),
            track_total: t0.track_total,
            disc_total: t0.disc_total,
        };
        let ghost t1g = t1;
        self.tracks[f] = t1;
        proof {
            lemma_rows_view_update(old(self).tracks@, f as int, t1g);
            assert(t1g@ == updated_track_v(t0g, input@, new_artist_id, new_album_id, nowv));
            let (mf, out) = spec_update_track(m, track_id, input@, nowv);
            assert(self@ =~= mf);
            assert(has_collection_id(m2, t1g@.collection_id));
            lemma_wf_track_update(m2, f as int, t1g@);
        }
        let row = self.make_track_row(&self.tracks[f]);
        Ok(row)
    }

    /// Update a track, stamping the rewritten row with the current
    /// time.
    pub fn update_track_inner(&mut self, track_id: i64, input: TrackUpdateInput) -> (r: Result<
        TrackRow,
        AppError,
    >)
        requires
            wf(old(self)@),
        ensures
            wf(final(self)@),
            exists|now: Seq<char>|
                #[trigger] update_track_post(old(self)@, final(self)@, track_id, input@, now, r),
    {
        let now = crate::clock::now_rfc3339();
        let ghost ts = now@;
        let ghost input_g = input;
        let r = self.update_track_at(track_id, input, now);
        proof {
            assert(update_track_post(old(self)@, self@, track_id, input_g@, ts, r));
        }
        r
    }
}

} // verus!
