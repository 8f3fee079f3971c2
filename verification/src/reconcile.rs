//! The track reconciler: one scanned file becomes one upsert of a track
//! row, after resolving its artist and album and deciding whether the
//! album still needs its cover art persisted.
//!
//! The whole step is atomic: it either performs the artist/album
//! resolution and the track upsert together, or fails leaving the store
//! unchanged. A track is keyed by its normalized absolute file path, so
//! re-scanning the same file updates the row (keeping its creation
//! timestamp) instead of duplicating it. An existing album cover is
//! never overwritten: a cover plan is handed back only when the album
//! has none.

use vstd::prelude::*;
use vstd::string::*;
use crate::albums::spec_find_or_create_album;
use crate::artists::spec_find_or_create_artist;
use crate::models::{AppError, CoverPlan, ErrKind, ExtractedTags, ExtractedTagsV, Track, TrackV};
use crate::paths::{ext_of, normalize_path, normalize_seps, path_extension, path_file_stem, stem_of};
use crate::seqtools::{first_match_idx, lemma_first_match_idx_props};
use crate::store::{
    album_by_id, album_by_key, artist_by_name, coll_by_id, has_album_id, has_artist_id,
    has_collection_id, lemma_rows_view_push, lemma_rows_view_update, lemma_wf_track_push,
    lemma_wf_track_update, LibModel, Library, track_by_path, wf,
};
use crate::strutil::clone_opt_str;

verus! {

/// The title a scanned file gets when its tags carry none: the file
/// name's stem, or a fixed fallback when even that is empty.
pub open spec fn fallback_title(path: Seq<char>) -> Seq<char> {
    let st = stem_of(path);
    if st.len() == 0 {
        "Unknown Track"@
    } else {
        st
    }
}

/// The title a scanned file is stored under.
pub open spec fn chosen_title(tags: ExtractedTagsV, path: Seq<char>) -> Seq<char> {
    match tags.title {
        Some(t) => t,
        None => fallback_title(path),
    }
}

/// The track row inserted for a path scanned for the first time.
pub open spec fn new_track_v(
    id: i64,
    collection_id: i64,
    album_id: Option<i64>,
    artist_id: Option<i64>,
    title: Seq<char>,
    tags: ExtractedTagsV,
    path: Seq<char>,
    size: u64,
    now: Seq<char>,
) -> TrackV {
    TrackV {
        id,
        collection_id,
        album_id,
        artist_id,
        title,
        track_number: tags.track_number,
        disc_number: tags.disc_number,
        duration_ms: tags.duration_ms,
        file_path: path,
        file_size_bytes: size,
        file_format: ext_of(path),
        bitrate_kbps: None,
        sample_rate_hz: None,
        lyrics: None,
        created_at: now,
        updated_at: now,
        genre: None,
        album_artist: None,
        composer: None,
        bpm: None,
        comment: None,
        comment_lang: None,
        year: None,
        lyrics_lang: None,
        track_total: None,
        disc_total: None,
    }
}

/// The track row after a re-scan of an already-stored path: the mutable
/// columns are refreshed, while the id, owning collection, path, format
/// and creation timestamp are kept.
pub open spec fn rescanned_track_v(
    t0: TrackV,
    album_id: Option<i64>,
    artist_id: Option<i64>,
    title: Seq<char>,
    tags: ExtractedTagsV,
    size: u64,
    now: Seq<char>,
) -> TrackV {
    TrackV {
        album_id,
        artist_id,
        title,
        track_number: tags.track_number,
        disc_number: tags.disc_number,
        duration_ms: tags.duration_ms,
        file_size_bytes: size,
        updated_at: now,
        ..t0
    }
}

/// The artist-resolution step of a scan: the store after it, and the
/// artist id the track will carry.
pub open spec fn scan_artist_step(m: LibModel, tags: ExtractedTagsV, now: Seq<char>) -> (
    LibModel,
    Option<i64>,
) {
    match tags.artist {
        Some(name) => {
            let (m1, r) = spec_find_or_create_artist(m, name, now);
            (m1, Some(r->Ok_0))
        },
        None => (m, None),
    }
}

/// The album-resolution step of a scan, after the artist step.
pub open spec fn scan_album_step(
    m1: LibModel,
    tags: ExtractedTagsV,
    artist_id: Option<i64>,
    now: Seq<char>,
) -> (LibModel, Option<i64>) {
    match tags.album {
        Some(title) => {
            let (m2, r) = spec_find_or_create_album(m1, title, artist_id, tags.year, now);
            (m2, Some(r->Ok_0))
        },
        None => (m1, None),
    }
}

/// Whether the scan step would run out of ids; it then fails without
/// touching the store.
pub open spec fn scan_would_exhaust(
    m: LibModel,
    tags: ExtractedTagsV,
    path: Seq<char>,
    now: Seq<char>,
) -> bool {
    let artist_would = match tags.artist {
        Some(n) => first_match_idx(m.artists, artist_by_name(n)) < 0,
        None => false,
    };
    if artist_would && m.next_artist_id == i64::MAX {
        true
    } else {
        let (m1, artist_id) = scan_artist_step(m, tags, now);
        let album_would = match tags.album {
            Some(t) => first_match_idx(m1.albums, album_by_key(t, artist_id)) < 0,
            None => false,
        };
        if album_would && m1.next_album_id == i64::MAX {
            true
        } else {
            let (m2, album_id) = scan_album_step(m1, tags, artist_id, now);
            first_match_idx(m2.tracks, track_by_path(path)) < 0 && m2.next_track_id == i64::MAX
        }
    }
}

/// Whether the scanned file's cover image is to be persisted: only when
/// the track resolved to an album, the tags carry a picture, and the
/// album has no cover yet (first writer wins).
pub open spec fn scan_cover_plan(
    m2: LibModel,
    album_id: Option<i64>,
    tags: ExtractedTagsV,
) -> Option<CoverPlan> {
    match (album_id, tags.picture) {
        (Some(alid), Some(pic)) => {
            let f = first_match_idx(m2.albums, album_by_id(alid));
            if f >= 0 && m2.albums[f].cover_path is None {
                Some(CoverPlan { album_id: alid, mime: pic.mime })
            } else {
                None
            }
        },
        _ => None,
    }
}

/// What reconciling one scanned file does to the store. The collection
/// must exist; the file's artist and album are resolved (created at
/// most once each); the track row keyed by the normalized path is
/// inserted or refreshed; and the returned plan says whether the
/// caller should persist cover art for the album.
pub open spec fn spec_process_track(
    m: LibModel,
    collection_id: i64,
    raw_path: Seq<char>,
    size: u64,
    tags: ExtractedTagsV,
    now: Seq<char>,
) -> (LibModel, Result<Option<CoverPlan>, ErrKind>) {
    let path = normalize_seps(raw_path);
    if first_match_idx(m.collections, coll_by_id(collection_id)) < 0 {
        (m, Err(ErrKind::Database))
    } else if scan_would_exhaust(m, tags, path, now) {
        (m, Err(ErrKind::Database))
    } else {
        let (m1, artist_id) = scan_artist_step(m, tags, now);
        let (m2, album_id) = scan_album_step(m1, tags, artist_id, now);
        let plan = scan_cover_plan(m2, album_id, tags);
        let title = chosen_title(tags, path);
        let f = first_match_idx(m2.tracks, track_by_path(path));
        let m3 = if f >= 0 {
            LibModel {
                tracks: m2.tracks.update(
                    f,
                    rescanned_track_v(m2.tracks[f], album_id, artist_id, title, tags, size, now),
                ),
                ..m2
            }
        } else {
            LibModel {
                tracks: m2.tracks.push(
                    new_track_v(
                        m2.next_track_id,
                        collection_id,
                        album_id,
                        artist_id,
                        title,
                        tags,
                        path,
                        size,
                        now,
                    ),
                ),
                next_track_id: (m2.next_track_id + 1) as i64,
                ..m2
            }
        };
        (m3, Ok(plan))
    }
}

/// Agreement between the executable result of a scan step and its spec
/// outcome.
pub open spec fn plan_res_agrees(
    r: Result<Option<CoverPlan>, AppError>,
    out: Result<Option<CoverPlan>, ErrKind>,
) -> bool {
    match (r, out) {
        (Ok(a), Ok(b)) => a == b,
        (Err(e), Err(k)) => e.kind() == k,
        _ => false,
    }
}

/// The relation `process_track` establishes for the timestamp it drew
/// from the clock.
pub open spec fn process_track_post(
    m0: LibModel,
    m1: LibModel,
    collection_id: i64,
    raw_path: Seq<char>,
    size: u64,
    tags: ExtractedTagsV,
    now: Seq<char>,
    r: Result<Option<CoverPlan>, AppError>,
) -> bool {
    let (m2, out) = spec_process_track(m0, collection_id, raw_path, size, tags, now);
    m1 == m2 && plan_res_agrees(r, out)
}

impl Library {
    /// Reconcile one scanned file into the store, stamping created or
    /// refreshed rows with `now`.
    #[verifier::rlimit(100)]
    pub fn process_track_at(
        &mut self,
        collection_id: i64,
        file_path: &str,
        file_size_bytes: u64,
        tags: &ExtractedTags,
        now: String,
    ) -> (r: Result<Option<CoverPlan>, AppError>)
        requires
            wf(old(self)@),
        ensures
            wf(final(self)@),
            ({
                let (m2, out) = spec_process_track(
                    old(self)@,
                    collection_id,
                    file_path@,
                    file_size_bytes,
                    tags@,
                    now@,
                );
                final(self)@ == m2 && plan_res_agrees(r, out)
            }),
    {
        let ghost m = old(self)@;
        let ghost nowv = now@;
        if self.find_collection_by_id(collection_id).is_none() {
            return Err(AppError::Database(String::from_str("collection does not exist")));
        }
        let norm = normalize_path(file_path);
        let ghost path = norm@;

        // Pre-check the id space so the step stays atomic: after this,
        // no resolution below can fail.
        let mut artist_candidate: Option<i64> = None;
        match &tags.artist {
            Some(name) => {
                match self.find_artist_by_name(name.as_str()) {
                    Some(k) => {
                        proof {
                            lemma_first_match_idx_props(m.artists, artist_by_name(name@));
                        }
                        artist_candidate = Some(self.artists[k].id);
                    },
                    None => {
                        if self.next_artist_id == i64::MAX {
                            return Err(
                                AppError::Database(String::from_str("id space exhausted")),
                            );
                        }
                        artist_candidate = Some(self.next_artist_id);
                    },
                }
            },
            None => {},
        }
        let ghost step1 = scan_artist_step(m, tags@, nowv);
        proof {
            assert(artist_candidate == step1.1);
            assert(step1.0.albums == m.albums);
            assert(step1.0.next_album_id == m.next_album_id);
        }
        match &tags.album {
            Some(title) => {
                match self.find_album_by_key(title.as_str(), artist_candidate) {
                    Some(_) => {},
                    None => {
                        if self.next_album_id == i64::MAX {
                            return Err(
                                AppError::Database(String::from_str("id space exhausted")),
                            );
                        }
                    },
                }
            },
            None => {},
        }
        let ghost step2 = scan_album_step(step1.0, tags@, artist_candidate, nowv);
        proof {
            assert(step2.0.tracks == m.tracks);
            assert(step2.0.next_track_id == m.next_track_id);
        }
        if self.find_track_by_path(norm.as_str()).is_none() && self.next_track_id == i64::MAX {
            return Err(AppError::Database(String::from_str("id space exhausted")));
        }
        proof {
            assert(!scan_would_exhaust(m, tags@, path, nowv));
        }

        // Resolve the artist.
        let artist_id: Option<i64> = match &tags.artist {
            Some(name) => {
                match self.find_or_create_artist_at(name.as_str(), now.clone()) {
                    Ok(id) => Some(id),
                    Err(e) => {
                        proof {
                            assert(false);
                        }
                        return Err(e);
                    },
                }
            },
            None => None,
        };
        proof {
            assert(self@ == step1.0);
            assert(artist_id == step1.1);
            if artist_id is Some {
                let aid = artist_id->0;
                match tags@.artist {
                    Some(n) => {
                        lemma_first_match_idx_props(m.artists, artist_by_name(n));
                        let f = first_match_idx(m.artists, artist_by_name(n));
                        if f >= 0 {
                            assert(self@.artists[f].id == aid);
                        } else {
                            assert(self@.artists[m.artists.len() as int].id == aid);
                        }
                    },
                    None => {},
                }
                assert(has_artist_id(self@, aid));
            }
        }

        // Resolve the album, scoped to the resolved artist.
        let album_id: Option<i64> = match &tags.album {
            Some(title) => {
                match self.find_or_create_album_at(title.as_str(), artist_id, tags.year, now.clone())
                {
                    Ok(id) => Some(id),
                    Err(e) => {
                        proof {
                            assert(false);
                        }
                        return Err(e);
                    },
                }
            },
            None => None,
        };
        proof {
            assert(self@ == step2.0);
            assert(album_id == step2.1);
            if album_id is Some {
                let alid = album_id->0;
                match tags@.album {
                    Some(t) => {
                        lemma_first_match_idx_props(step1.0.albums, album_by_key(t, artist_id));
                        let f = first_match_idx(step1.0.albums, album_by_key(t, artist_id));
                        if f >= 0 {
                            assert(self@.albums[f].id == alid);
                        } else {
                            assert(self@.albums[step1.0.albums.len() as int].id == alid);
                        }
                    },
                    None => {},
                }
                assert(has_album_id(self@, alid));
            }
            if artist_id is Some {
                assert(has_artist_id(self@, artist_id->0));
            }
        }
        let ghost m2 = step2.0;

        // Decide whether the album still needs its cover persisted.
        let plan: Option<CoverPlan> = match album_id {
            Some(alid) => {
                match &tags.picture {
                    Some(pic) => {
                        match self.find_album_by_id(alid) {
                            Some(k) => {
                                proof {
                                    lemma_first_match_idx_props(m2.albums, album_by_id(alid));
                                }
                                match &self.albums[k].cover_path {
                                    Some(_) => None,
                                    None => Some(CoverPlan { album_id: alid, mime: pic.mime }),
                                }
                            },
                            None => None,
                        }
                    },
                    None => None,
                }
            },
            None => None,
        };
        proof {
            assert(plan == scan_cover_plan(m2, album_id, tags@));
        }

        // The stored title: the tag title, else the file name's stem.
        let title: String = match &tags.title {
            Some(t) => t.clone(),
            None => {
                let st = path_file_stem(norm.as_str());
                if st.as_str().unicode_len() == 0 {
                    String::from_str("Unknown Track")
                } else {
                    st
                }
            },
        };
        proof {
            assert(title@ == chosen_title(tags@, path));
        }

        // Upsert the track row keyed by the normalized path.
        match self.find_track_by_path(norm.as_str()) {
            Some(k) => {
                proof {
                    lemma_first_match_idx_props(m2.tracks, track_by_path(path));
                }
                let t0 = &self.tracks[k];
                let t1 = Track {
                    id: t0.id,
                    collection_id: t0.collection_id,
                    album_id,
                    artist_id,
                    title,
                    track_number: tags.track_number,
                    disc_number: tags.disc_number,
                    duration_ms: tags.duration_ms,
                    file_path: t0.file_path.clone(),
                    file_size_bytes,
                    file_format: clone_opt_str(&t0.file_format),
                    bitrate_kbps: t0.bitrate_kbps,
                    sample_rate_hz: t0.sample_rate_hz,
                    lyrics: clone_opt_str(&t0.lyrics),
                    created_at: t0.created_at.clone(),
                    updated_at: now,
                    genre: clone_opt_str(&t0.genre),
                    album_artist: clone_opt_str(&t0.album_artist),
                    composer: clone_opt_str(&t0.composer),
                    bpm: t0.bpm,
                    comment: clone_opt_str(&t0.comment),
                    comment_lang: clone_opt_str(&t0.comment_lang),
                    year: t0.year,
                    lyrics_lang: clone_opt_str(&t0.lyrics_lang),
                    track_total: t0.track_total,
                    disc_total: t0.disc_total,
                };
                let ghost t1g = t1;
                self.tracks[k] = t1;
                proof {
                    lemma_rows_view_update(old(self).tracks@, k as int, t1g);
                    assert(t1g@ == rescanned_track_v(
                        m2.tracks[k as int],
                        album_id,
                        artist_id,
                        title@,
                        tags@,
                        file_size_bytes,
                        nowv,
                    ));
                    let (mf, out) = spec_process_track(
                        m,
                        collection_id,
                        file_path@,
                        file_size_bytes,
                        tags@,
                        nowv,
                    );
                    assert(self@ =~= mf);
                    assert(has_collection_id(m2, t1g@.collection_id));
                    lemma_wf_track_update(m2, k as int, t1g@);
                }
                Ok(plan)
            },
            None => {
                proof {
                    lemma_first_match_idx_props(m2.tracks, track_by_path(path));
                }
                let id = self.next_track_id;
                let fmt = path_extension(norm.as_str());
                let created = now.clone();
                let t = Track {
                    id,
                    collection_id,
                    album_id,
                    artist_id,
                    title,
                    track_number: tags.track_number,
                    disc_number: tags.disc_number,
                    duration_ms: tags.duration_ms,
                    file_path: norm,
                    file_size_bytes,
                    file_format: fmt,
                    bitrate_kbps: None,
                    sample_rate_hz: None,
                    lyrics: None,
                    created_at: created,
                    updated_at: now,
                    genre: None,
                    album_artist: None,
                    composer: None,
                    bpm: None,
                    comment: None,
                    comment_lang: None,
                    year: None,
                    lyrics_lang: None,
                    track_total: None,
                    disc_total: None,
                };
                let ghost tg = t;
                self.tracks.push(t);
                self.next_track_id = id + 1;
                proof {
                    lemma_rows_view_push(old(self).tracks@, tg);
                    assert(tg@ == new_track_v(
                        id,
                        collection_id,
                        album_id,
                        artist_id,
                        title@,
                        tags@,
                        path,
                        file_size_bytes,
                        nowv,
                    ));
                    let (mf, out) = spec_process_track(
                        m,
                        collection_id,
                        file_path@,
                        file_size_bytes,
                        tags@,
                        nowv,
                    );
                    assert(self@ =~= mf);
                    lemma_first_match_idx_props(m.collections, coll_by_id(collection_id));
                    assert(has_collection_id(m2, collection_id));
                    lemma_wf_track_push(m2, tg@);
                }
                Ok(plan)
            },
        }
    }

    /// Reconcile one scanned file, stamping rows with the current time.
    pub fn process_track(
        &mut self,
        collection_id: i64,
        file_path: &str,
        file_size_bytes: u64,
        tags: &ExtractedTags,
    ) -> (r: Result<Option<CoverPlan>, AppError>)
        requires
            wf(old(self)@),
        ensures
            wf(final(self)@),
            exists|now: Seq<char>|
                #[trigger] process_track_post(
                    old(self)@,
                    final(self)@,
                    collection_id,
                    file_path@,
                    file_size_bytes,
                    tags@,
                    now,
                    r,
                ),
    {
        let now = crate::clock::now_rfc3339();
        let ghost ts = now@;
        let r = self.process_track_at(collection_id, file_path, file_size_bytes, tags, now);
        proof {
            assert(process_track_post(
                old(self)@,
                self@,
                collection_id,
                file_path@,
                file_size_bytes,
                tags@,
                ts,
                r,
            ));
        }
        r
    }
}

} // verus!
