//! The library's laws, proved over the operations' transition
//! functions: identity resolution is stable (no duplicate artists or
//! albums), an unscoped album is distinct from any artist-scoped one,
//! collection registration upserts by path, re-scanning a file neither
//! duplicates rows nor disturbs creation timestamps, and a stored album
//! cover is never overwritten.

use vstd::prelude::*;
use crate::albums::spec_find_or_create_album;
use crate::artists::spec_find_or_create_artist;
use crate::collections::spec_add_collection;
use crate::covers::spec_set_album_cover;
use crate::models::{CollectionInputV, ExtractedTagsV};
use crate::paths::normalize_seps;
use crate::reconcile::{scan_album_step, scan_artist_step, scan_would_exhaust, spec_process_track};
use crate::seqtools::{
    first_match_idx, lemma_first_match_idx_props, lemma_first_match_idx_push,
    lemma_first_match_idx_same,
};
use crate::store::{
    album_by_id, album_by_key, artist_by_name, coll_by_id, coll_by_path, LibModel, track_by_path,
    wf,
};

verus! {

/// Resolving the same artist name twice gives the same id, and the
/// second resolution changes nothing: for every store and name, once a
/// resolution has succeeded, resolving again (at any later timestamp)
/// returns the identical id and leaves the store as it was.
pub proof fn lemma_artist_resolution_stable(
    m: LibModel,
    name: Seq<char>,
    now1: Seq<char>,
    now2: Seq<char>,
)
    ensures
        ({
            let (m1, r1) = spec_find_or_create_artist(m, name, now1);
            let (m2, r2) = spec_find_or_create_artist(m1, name, now2);
            r1 is Ok ==> m2 == m1 && r2 == r1
        }),
{
    let p = artist_by_name(name);
    let f = first_match_idx(m.artists, p);
    lemma_first_match_idx_props(m.artists, p);
    if f < 0 && m.next_artist_id != i64::MAX {
        let (m1, r1) = spec_find_or_create_artist(m, name, now1);
        let a = crate::artists::new_artist_v(m.next_artist_id, name, now1);
        lemma_first_match_idx_push(m.artists, p, a);
        assert(m1.artists[m.artists.len() as int] == a);
    }
}

/// Resolving the same album key twice gives the same id, and the second
/// resolution changes nothing, whatever year either resolution carried.
pub proof fn lemma_album_resolution_stable(
    m: LibModel,
    title: Seq<char>,
    artist_id: Option<i64>,
    year1: Option<i32>,
    year2: Option<i32>,
    now1: Seq<char>,
    now2: Seq<char>,
)
    ensures
        ({
            let (m1, r1) = spec_find_or_create_album(m, title, artist_id, year1, now1);
            let (m2, r2) = spec_find_or_create_album(m1, title, artist_id, year2, now2);
            r1 is Ok ==> m2 == m1 && r2 == r1
        }),
{
    let p = album_by_key(title, artist_id);
    let f = first_match_idx(m.albums, p);
    lemma_first_match_idx_props(m.albums, p);
    if f < 0 && m.next_album_id != i64::MAX {
        let (m1, r1) = spec_find_or_create_album(m, title, artist_id, year1, now1);
        let al = crate::albums::new_album_v(m.next_album_id, title, artist_id, year1, now1);
        lemma_first_match_idx_push(m.albums, p, al);
        assert(m1.albums[m.albums.len() as int] == al);
    }
}

/// An unscoped album is distinct from any artist-scoped album of the
/// same title: resolving (title, no artist) and then (title, some
/// artist) on the result yields two different ids.
pub proof fn lemma_album_unscoped_distinct(
    m: LibModel,
    title: Seq<char>,
    artist_id: i64,
    year1: Option<i32>,
    year2: Option<i32>,
    now1: Seq<char>,
    now2: Seq<char>,
)
    requires
        wf(m),
    ensures
        ({
            let (m1, r1) = spec_find_or_create_album(m, title, None, year1, now1);
            let (m2, r2) = spec_find_or_create_album(m1, title, Some(artist_id), year2, now2);
            r1 is Ok && r2 is Ok ==> r1->Ok_0 != r2->Ok_0
        }),
{
    let p_un = album_by_key(title, None);
    let p_sc = album_by_key(title, Some(artist_id));
    let (m1, r1) = spec_find_or_create_album(m, title, None, year1, now1);
    lemma_first_match_idx_props(m.albums, p_un);
    let f1 = first_match_idx(m.albums, p_un);
    // The id returned first belongs to a row of m1 whose artist_id is
    // absent; every id below m1's next free id is either that row's or
    // another row's.
    if r1 is Ok {
        let id1 = r1->Ok_0;
        let h: int = if f1 >= 0 {
            f1
        } else {
            m.albums.len() as int
        };
        if f1 < 0 {
            let al = crate::albums::new_album_v(m.next_album_id, title, None, year1, now1);
            assert(m1.albums[h] == al);
        }
        assert(0 <= h < m1.albums.len());
        assert(m1.albums[h].id == id1 && m1.albums[h].artist_id is None);
        // Second resolution.
        lemma_first_match_idx_props(m1.albums, p_sc);
        let f2 = first_match_idx(m1.albums, p_sc);
        if f2 >= 0 {
            // A found row carries Some(artist_id); were the ids equal,
            // the two rows would be one row, scoped and unscoped at
            // once.
            if m1.albums[f2].id == id1 {
                if f1 < 0 {
                    // m1 extends m by one fresh id; a row of m has id
                    // below m.next_album_id.
                    if f2 < m.albums.len() {
                        assert(m.albums[f2] == m1.albums[f2]);
                    }
                }
                if h != f2 {
                    if f1 >= 0 {
                        assert(m1.albums[h].id != m1.albums[f2].id);
                    } else {
                        assert(false);
                    }
                }
            }
        } else {
            // A created row gets the next free id, above every id in
            // m1, in particular above id1.
            if f1 >= 0 {
                assert(m1.albums[h].id < m1.next_album_id);
            }
        }
    }
}

/// Registering a collection at an already-registered (normalized) path
/// updates the label of the existing row instead of creating a second
/// one: the ids agree, the row count stays, and the row carries the new
/// label.
pub proof fn lemma_add_collection_upsert(
    m: LibModel,
    input1: CollectionInputV,
    input2: CollectionInputV,
    skip1: bool,
    ex1: bool,
    skip2: bool,
    ex2: bool,
    now1: Seq<char>,
    now2: Seq<char>,
)
    requires
        input1.path == input2.path,
    ensures
        ({
            let (m1, r1) = spec_add_collection(m, input1, skip1, ex1, now1);
            let (m2, r2) = spec_add_collection(m1, input2, skip2, ex2, now2);
            r1 is Ok && r2 is Ok ==> {
                &&& r2->Ok_0.id == r1->Ok_0.id
                &&& r2->Ok_0.label == input2.label
                &&& m2.collections.len() == m1.collections.len()
            }
        }),
{
    let norm = normalize_seps(input1.path);
    let p = coll_by_path(norm);
    let (m1, r1) = spec_add_collection(m, input1, skip1, ex1, now1);
    if r1 is Ok {
        let f1 = first_match_idx(m.collections, p);
        lemma_first_match_idx_props(m.collections, p);
        if f1 >= 0 {
            let c1 = r1->Ok_0;
            assert(m1.collections[f1] == c1);
            lemma_first_match_idx_same(m.collections, m1.collections, p, p);
        } else if m.next_collection_id != i64::MAX {
            let c = r1->Ok_0;
            lemma_first_match_idx_push(m.collections, p, c);
            assert(m1.collections[m.collections.len() as int] == c);
        }
    }
}

/// A scan step never touches existing album rows: every album of the
/// store before the step is unchanged (in particular, a cover path once
/// set stays exactly as it was).
pub proof fn lemma_scan_preserves_albums(
    m: LibModel,
    collection_id: i64,
    raw_path: Seq<char>,
    size: u64,
    tags: ExtractedTagsV,
    now: Seq<char>,
)
    ensures
        ({
            let (m1, r) = spec_process_track(m, collection_id, raw_path, size, tags, now);
            forall|i: int| 0 <= i < m.albums.len() ==> #[trigger] m1.albums[i] == m.albums[i]
        }),
{
}

/// A recorded album cover is first-writer-wins: once one cover path is
/// stored for an album, storing another is refused and the first stays.
pub proof fn lemma_cover_first_writer(
    m: LibModel,
    album_id: i64,
    path1: Seq<char>,
    path2: Seq<char>,
)
    ensures
        ({
            let (m1, applied1) = spec_set_album_cover(m, album_id, path1);
            let (m2, applied2) = spec_set_album_cover(m1, album_id, path2);
            applied1 ==> {
                &&& !applied2
                &&& m2 == m1
                &&& ({
                    let f = first_match_idx(m1.albums, album_by_id(album_id));
                    f >= 0 && m1.albums[f].cover_path == Some(path1)
                })
            }
        }),
{
    let p = album_by_id(album_id);
    let f = first_match_idx(m.albums, p);
    lemma_first_match_idx_props(m.albums, p);
    let (m1, applied1) = spec_set_album_cover(m, album_id, path1);
    if applied1 {
        lemma_first_match_idx_same(m.albums, m1.albums, p, p);
    }
}

/// Re-scanning the same file is idempotent: after one successful scan
/// of a file, scanning it again succeeds, creates no artist, album,
/// collection or track row, and leaves the track's identity and
/// creation timestamp untouched while refreshing its modification
/// timestamp.
pub proof fn lemma_scan_idempotent(
    m: LibModel,
    collection_id: i64,
    raw_path: Seq<char>,
    size: u64,
    tags: ExtractedTagsV,
    now1: Seq<char>,
    now2: Seq<char>,
)
    ensures
        ({
            let (m1, r1) = spec_process_track(m, collection_id, raw_path, size, tags, now1);
            let (m2, r2) = spec_process_track(m1, collection_id, raw_path, size, tags, now2);
            r1 is Ok ==> {
                &&& r2 is Ok
                &&& m2.artists.len() == m1.artists.len()
                &&& m2.albums.len() == m1.albums.len()
                &&& m2.tracks.len() == m1.tracks.len()
                &&& m2.collections == m1.collections
                &&& ({
                    let path = normalize_seps(raw_path);
                    let f = first_match_idx(m1.tracks, track_by_path(path));
                    &&& f >= 0
                    &&& first_match_idx(m2.tracks, track_by_path(path)) == f
                    &&& m2.tracks[f].id == m1.tracks[f].id
                    &&& m2.tracks[f].created_at == m1.tracks[f].created_at
                    &&& m2.tracks[f].updated_at == now2
                })
            }
        }),
{
    let path = normalize_seps(raw_path);
    let (m1, r1) = spec_process_track(m, collection_id, raw_path, size, tags, now1);
    if r1 is Ok {
        // First run, decomposed.
        let s1 = scan_artist_step(m, tags, now1);
        let s2 = scan_album_step(s1.0, tags, s1.1, now1);
        // The collection table is never touched.
        assert(m1.collections == m.collections);
        lemma_first_match_idx_same(
            m1.collections,
            m.collections,
            coll_by_id(collection_id),
            coll_by_id(collection_id),
        );

        // Second run's artist step finds what the first run resolved.
        match tags.artist {
            Some(n) => {
                let p = artist_by_name(n);
                let f = first_match_idx(m.artists, p);
                lemma_first_match_idx_props(m.artists, p);
                if f < 0 {
                    let a = crate::artists::new_artist_v(m.next_artist_id, n, now1);
                    lemma_first_match_idx_push(m.artists, p, a);
                    assert(s1.0.artists[m.artists.len() as int] == a);
                }
                assert(m1.artists == s1.0.artists);
                lemma_first_match_idx_same(m1.artists, s1.0.artists, p, p);
            },
            None => {},
        }
        let t1 = scan_artist_step(m1, tags, now2);
        assert(t1.0 == m1 && t1.1 == s1.1);

        // Second run's album step finds what the first run resolved.
        match tags.album {
            Some(ti) => {
                let p = album_by_key(ti, s1.1);
                let f = first_match_idx(s1.0.albums, p);
                lemma_first_match_idx_props(s1.0.albums, p);
                if f < 0 {
                    let al = crate::albums::new_album_v(
                        s1.0.next_album_id,
                        ti,
                        s1.1,
                        tags.year,
                        now1,
                    );
                    lemma_first_match_idx_push(s1.0.albums, p, al);
                    assert(s2.0.albums[s1.0.albums.len() as int] == al);
                }
                assert(m1.albums == s2.0.albums);
                lemma_first_match_idx_same(m1.albums, s2.0.albums, p, p);
            },
            None => {},
        }
        let t2 = scan_album_step(t1.0, tags, t1.1, now2);
        assert(t2.0 == m1 && t2.1 == s2.1);

        // Second run's track lookup hits the row the first run wrote.
        let tp = track_by_path(path);
        let f0 = first_match_idx(s2.0.tracks, tp);
        lemma_first_match_idx_props(s2.0.tracks, tp);
        if f0 >= 0 {
            let t1row = crate::reconcile::rescanned_track_v(
                s2.0.tracks[f0],
                s2.1,
                s1.1,
                crate::reconcile::chosen_title(tags, path),
                tags,
                size,
                now1,
            );
            assert(m1.tracks == s2.0.tracks.update(f0, t1row));
            assert(forall|i: int|
                0 <= i < m1.tracks.len() ==> (#[trigger] tp(m1.tracks[i])) == tp(s2.0.tracks[i]));
            lemma_first_match_idx_same(m1.tracks, s2.0.tracks, tp, tp);
            assert(first_match_idx(m1.tracks, tp) == f0);
        } else {
            let nt = crate::reconcile::new_track_v(
                s2.0.next_track_id,
                collection_id,
                s2.1,
                s1.1,
                crate::reconcile::chosen_title(tags, path),
                tags,
                path,
                size,
                now1,
            );
            lemma_first_match_idx_push(s2.0.tracks, tp, nt);
            assert(m1.tracks[s2.0.tracks.len() as int] == nt);
        }

        // Put the second run together.
        let (m2, r2) = spec_process_track(m1, collection_id, raw_path, size, tags, now2);
        assert(first_match_idx(m1.collections, coll_by_id(collection_id)) >= 0);
        assert(!scan_would_exhaust(m1, tags, path, now2));
        assert(r2 is Ok);
        let fm1 = first_match_idx(m1.tracks, tp);
        assert(fm1 >= 0);
        lemma_first_match_idx_props(m1.tracks, tp);
        let t2row = crate::reconcile::rescanned_track_v(
            m1.tracks[fm1],
            t2.1,
            t1.1,
            crate::reconcile::chosen_title(tags, path),
            tags,
            size,
            now2,
        );
        assert(m2.tracks == m1.tracks.update(fm1, t2row));
        assert(forall|i: int|
            0 <= i < m2.tracks.len() ==> (#[trigger] tp(m2.tracks[i])) == tp(m1.tracks[i]));
        lemma_first_match_idx_same(m2.tracks, m1.tracks, tp, tp);
        assert(m2.artists.len() == m1.artists.len());
        assert(m2.albums.len() == m1.albums.len());
        assert(m2.tracks.len() == m1.tracks.len());
        assert(m2.collections == m1.collections);
        assert(m2.tracks[fm1].id == m1.tracks[fm1].id);
        assert(m2.tracks[fm1].created_at == m1.tracks[fm1].created_at);
        assert(m2.tracks[fm1].updated_at == now2);
    }
}


// ── Whole-scan idempotence ──

/// One file of a scan, as the walker hands it to the reconciler.
pub struct ScanFile {
    pub path: Seq<char>,
    pub size: u64,
    pub tags: ExtractedTagsV,
}

/// The artist id a scan of these tags would attach, in store `m`.
pub open spec fn scan_aid(m: LibModel, tags: ExtractedTagsV) -> Option<i64> {
    match tags.artist {
        Some(n) => {
            let f = first_match_idx(m.artists, artist_by_name(n));
            if f >= 0 {
                Some(m.artists[f].id)
            } else {
                Some(m.next_artist_id)
            }
        },
        None => None,
    }
}

/// Every entity a file resolves to is already present in the store: its
/// collection, its artist (if tagged), its album under the artist the
/// tags resolve to (if tagged), and its track row under the normalized
/// path.
pub open spec fn file_ready(m: LibModel, collection_id: i64, f: ScanFile) -> bool {
    &&& first_match_idx(m.collections, coll_by_id(collection_id)) >= 0
    &&& (f.tags.artist matches Some(n) ==> first_match_idx(m.artists, artist_by_name(n)) >= 0)
    &&& (f.tags.album matches Some(t) ==> first_match_idx(
        m.albums,
        album_by_key(t, scan_aid(m, f.tags)),
    ) >= 0)
    &&& first_match_idx(m.tracks, track_by_path(normalize_seps(f.path))) >= 0
}

/// The store after reconciling a list of files in order.
pub open spec fn scan_files(
    m: LibModel,
    collection_id: i64,
    files: Seq<ScanFile>,
    now: Seq<char>,
) -> LibModel
    decreases files.len(),
{
    if files.len() <= 0 {
        m
    } else {
        let f = files.first();
        let m1 = spec_process_track(m, collection_id, f.path, f.size, f.tags, now).0;
        scan_files(m1, collection_id, files.drop_first(), now)
    }
}

/// Reconciling a file whose entities are all present succeeds, creates
/// no row at all, and leaves the file (and its entities) present.
pub proof fn lemma_ready_process_no_growth(
    m: LibModel,
    collection_id: i64,
    f: ScanFile,
    now: Seq<char>,
)
    requires
        file_ready(m, collection_id, f),
    ensures
        ({
            let (m1, r) = spec_process_track(m, collection_id, f.path, f.size, f.tags, now);
            &&& r is Ok
            &&& m1.collections == m.collections
            &&& m1.artists == m.artists
            &&& m1.albums == m.albums
            &&& m1.tracks.len() == m.tracks.len()
            &&& forall|i: int|
                0 <= i < m.tracks.len() ==> (#[trigger] m1.tracks[i]).id == m.tracks[i].id
                    && m1.tracks[i].file_path == m.tracks[i].file_path
                    && m1.tracks[i].created_at == m.tracks[i].created_at
        }),
{
    let path = normalize_seps(f.path);
    let s1 = scan_artist_step(m, f.tags, now);
    assert(s1.0 == m && s1.1 == scan_aid(m, f.tags));
    let s2 = scan_album_step(s1.0, f.tags, s1.1, now);
    assert(s2.0 == m);
    assert(!scan_would_exhaust(m, f.tags, path, now));
    lemma_first_match_idx_props(m.tracks, track_by_path(path));
}

/// A successful reconcile of any file keeps any ready file ready.
pub proof fn lemma_process_preserves_ready(
    m: LibModel,
    collection_id: i64,
    f: ScanFile,
    g: ScanFile,
    now: Seq<char>,
)
    requires
        file_ready(m, collection_id, g),
        ({
            let (m1, r) = spec_process_track(m, collection_id, f.path, f.size, f.tags, now);
            r is Ok
        }),
    ensures
        file_ready(
            spec_process_track(m, collection_id, f.path, f.size, f.tags, now).0,
            collection_id,
            g,
        ),
{
    let (m1, r) = spec_process_track(m, collection_id, f.path, f.size, f.tags, now);
    let s1 = scan_artist_step(m, f.tags, now);
    let s2 = scan_album_step(s1.0, f.tags, s1.1, now);
    // Artists are only ever appended: g's artist stays the first match,
    // so g's resolved artist id is stable.
    match g.tags.artist {
        Some(n) => {
            let p = artist_by_name(n);
            lemma_first_match_idx_props(m.artists, p);
            match f.tags.artist {
                Some(nf) => {
                    let pf = artist_by_name(nf);
                    if first_match_idx(m.artists, pf) < 0 && m.next_artist_id != i64::MAX {
                        let a = crate::artists::new_artist_v(m.next_artist_id, nf, now);
                        lemma_first_match_idx_push(m.artists, p, a);
                    }
                },
                None => {},
            }
            assert(m1.artists == s1.0.artists);
            lemma_first_match_idx_same(m1.artists, s1.0.artists, p, p);
        },
        None => {},
    }
    assert(scan_aid(m1, g.tags) == scan_aid(m, g.tags));
    // Albums are only ever appended.
    match g.tags.album {
        Some(t) => {
            let p = album_by_key(t, scan_aid(m, g.tags));
            lemma_first_match_idx_props(m.albums, p);
            assert(s1.0.albums == m.albums);
            match f.tags.album {
                Some(tf) => {
                    let pf = album_by_key(tf, s1.1);
                    if first_match_idx(s1.0.albums, pf) < 0 && s1.0.next_album_id != i64::MAX {
                        let al = crate::albums::new_album_v(
                            s1.0.next_album_id,
                            tf,
                            s1.1,
                            f.tags.year,
                            now,
                        );
                        lemma_first_match_idx_push(m.albums, p, al);
                    }
                },
                None => {},
            }
            assert(m1.albums == s2.0.albums);
            lemma_first_match_idx_same(m1.albums, s2.0.albums, p, p);
        },
        None => {},
    }
    // Tracks are appended or updated in place with their path kept.
    let pg = track_by_path(normalize_seps(g.path));
    lemma_first_match_idx_props(m.tracks, pg);
    let pf = track_by_path(normalize_seps(f.path));
    let ft = first_match_idx(s2.0.tracks, pf);
    lemma_first_match_idx_props(s2.0.tracks, pf);
    assert(s2.0.tracks == m.tracks);
    if ft >= 0 {
        assert(forall|i: int|
            0 <= i < m1.tracks.len() ==> (#[trigger] pg(m1.tracks[i])) == pg(m.tracks[i]));
        lemma_first_match_idx_same(m1.tracks, m.tracks, pg, pg);
    } else {
        let nt = crate::reconcile::new_track_v(
            s2.0.next_track_id,
            collection_id,
            s2.1,
            s1.1,
            crate::reconcile::chosen_title(f.tags, normalize_seps(f.path)),
            f.tags,
            normalize_seps(f.path),
            f.size,
            now,
        );
        lemma_first_match_idx_push(m.tracks, pg, nt);
    }
}

/// A successful reconcile of a file makes that file ready.
pub proof fn lemma_process_makes_ready(
    m: LibModel,
    collection_id: i64,
    f: ScanFile,
    now: Seq<char>,
)
    requires
        ({
            let (m1, r) = spec_process_track(m, collection_id, f.path, f.size, f.tags, now);
            r is Ok
        }),
    ensures
        file_ready(
            spec_process_track(m, collection_id, f.path, f.size, f.tags, now).0,
            collection_id,
            f,
        ),
{
    let (m1, r) = spec_process_track(m, collection_id, f.path, f.size, f.tags, now);
    let path = normalize_seps(f.path);
    let s1 = scan_artist_step(m, f.tags, now);
    let s2 = scan_album_step(s1.0, f.tags, s1.1, now);
    // The artist the file resolves to is present afterwards, and it is
    // what `scan_aid` picks.
    match f.tags.artist {
        Some(n) => {
            let p = artist_by_name(n);
            lemma_first_match_idx_props(m.artists, p);
            if first_match_idx(m.artists, p) < 0 {
                let a = crate::artists::new_artist_v(m.next_artist_id, n, now);
                lemma_first_match_idx_push(m.artists, p, a);
                assert(s1.0.artists[m.artists.len() as int] == a);
            }
            assert(m1.artists == s1.0.artists);
            lemma_first_match_idx_same(m1.artists, s1.0.artists, p, p);
            lemma_first_match_idx_props(m1.artists, p);
        },
        None => {},
    }
    assert(scan_aid(m1, f.tags) == s1.1);
    // The album likewise.
    match f.tags.album {
        Some(t) => {
            let p = album_by_key(t, s1.1);
            lemma_first_match_idx_props(s1.0.albums, p);
            if first_match_idx(s1.0.albums, p) < 0 {
                let al = crate::albums::new_album_v(s1.0.next_album_id, t, s1.1, f.tags.year, now);
                lemma_first_match_idx_push(s1.0.albums, p, al);
                assert(s2.0.albums[s1.0.albums.len() as int] == al);
            }
            assert(m1.albums == s2.0.albums);
            lemma_first_match_idx_same(m1.albums, s2.0.albums, p, p);
        },
        None => {},
    }
    // The track row keyed by the path exists afterwards.
    let tp = track_by_path(path);
    let ft = first_match_idx(s2.0.tracks, tp);
    lemma_first_match_idx_props(s2.0.tracks, tp);
    if ft >= 0 {
        let t1row = crate::reconcile::rescanned_track_v(
            s2.0.tracks[ft],
            s2.1,
            s1.1,
            crate::reconcile::chosen_title(f.tags, path),
            f.tags,
            f.size,
            now,
        );
        assert(m1.tracks == s2.0.tracks.update(ft, t1row));
        assert(forall|i: int|
            0 <= i < m1.tracks.len() ==> (#[trigger] tp(m1.tracks[i])) == tp(s2.0.tracks[i]));
        lemma_first_match_idx_same(m1.tracks, s2.0.tracks, tp, tp);
    } else {
        let nt = crate::reconcile::new_track_v(
            s2.0.next_track_id,
            collection_id,
            s2.1,
            s1.1,
            crate::reconcile::chosen_title(f.tags, path),
            f.tags,
            path,
            f.size,
            now,
        );
        lemma_first_match_idx_push(s2.0.tracks, tp, nt);
        assert(m1.tracks[s2.0.tracks.len() as int] == nt);
    }
}

/// A scan step keeps the store well formed.
pub proof fn lemma_process_preserves_wf(
    m: LibModel,
    collection_id: i64,
    f: ScanFile,
    now: Seq<char>,
)
    requires
        wf(m),
    ensures
        wf(spec_process_track(m, collection_id, f.path, f.size, f.tags, now).0),
{
    let path = normalize_seps(f.path);
    let (m1, r) = spec_process_track(m, collection_id, f.path, f.size, f.tags, now);
    if first_match_idx(m.collections, coll_by_id(collection_id)) >= 0 && !scan_would_exhaust(
        m,
        f.tags,
        path,
        now,
    ) {
        let s1 = scan_artist_step(m, f.tags, now);
        let s2 = scan_album_step(s1.0, f.tags, s1.1, now);
        // Artist step.
        match f.tags.artist {
            Some(n) => {
                let p = artist_by_name(n);
                lemma_first_match_idx_props(m.artists, p);
                if first_match_idx(m.artists, p) < 0 {
                    crate::store::lemma_wf_artist_push(
                        m,
                        crate::artists::new_artist_v(m.next_artist_id, n, now),
                    );
                }
            },
            None => {},
        }
        assert(wf(s1.0));
        // The artist the track will carry exists in s1.0.
        assert(s1.1 matches Some(aid) ==> crate::store::has_artist_id(s1.0, aid)) by {
            if s1.1 is Some {
                match f.tags.artist {
                    Some(n) => {
                        let p = artist_by_name(n);
                        lemma_first_match_idx_props(m.artists, p);
                        let ff = first_match_idx(m.artists, p);
                        if ff >= 0 {
                            assert(s1.0.artists[ff].id == s1.1->0);
                        } else {
                            assert(s1.0.artists[m.artists.len() as int].id == s1.1->0);
                        }
                    },
                    None => {},
                }
            }
        }
        // Album step.
        match f.tags.album {
            Some(t) => {
                let p = album_by_key(t, s1.1);
                lemma_first_match_idx_props(s1.0.albums, p);
                if first_match_idx(s1.0.albums, p) < 0 {
                    crate::store::lemma_wf_album_push(
                        s1.0,
                        crate::albums::new_album_v(s1.0.next_album_id, t, s1.1, f.tags.year, now),
                    );
                }
            },
            None => {},
        }
        assert(wf(s2.0));
        // The references the track row will carry exist in s2.0.
        assert(s1.1 matches Some(aid) ==> crate::store::has_artist_id(s2.0, aid)) by {
            if s1.1 is Some {
                let aid = s1.1->0;
                let j = choose|j: int|
                    0 <= j < s1.0.artists.len() && (#[trigger] s1.0.artists[j]).id == aid;
                assert(s2.0.artists[j].id == aid);
            }
        }
        assert(s2.1 matches Some(alid) ==> crate::store::has_album_id(s2.0, alid)) by {
            if s2.1 is Some {
                match f.tags.album {
                    Some(t) => {
                        let p = album_by_key(t, s1.1);
                        lemma_first_match_idx_props(s1.0.albums, p);
                        let ff = first_match_idx(s1.0.albums, p);
                        if ff >= 0 {
                            assert(s2.0.albums[ff].id == s2.1->0);
                        } else {
                            assert(s2.0.albums[s1.0.albums.len() as int].id == s2.1->0);
                        }
                    },
                    None => {},
                }
            }
        }
        assert(crate::store::has_collection_id(s2.0, collection_id)) by {
            lemma_first_match_idx_props(m.collections, coll_by_id(collection_id));
            let ff = first_match_idx(m.collections, coll_by_id(collection_id));
            assert(s2.0.collections[ff].id == collection_id);
        }
        // Track upsert.
        let tp = track_by_path(path);
        let ft = first_match_idx(s2.0.tracks, tp);
        lemma_first_match_idx_props(s2.0.tracks, tp);
        let title = crate::reconcile::chosen_title(f.tags, path);
        if ft >= 0 {
            let t1 = crate::reconcile::rescanned_track_v(
                s2.0.tracks[ft],
                s2.1,
                s1.1,
                title,
                f.tags,
                f.size,
                now,
            );
            assert(crate::store::has_collection_id(s2.0, t1.collection_id)) by {
                let j = choose|j: int|
                    0 <= j < s2.0.collections.len() && (#[trigger] s2.0.collections[j]).id
                        == s2.0.tracks[ft].collection_id;
                assert(s2.0.collections[j].id == t1.collection_id);
            }
            crate::store::lemma_wf_track_update(s2.0, ft, t1);
        } else {
            let nt = crate::reconcile::new_track_v(
                s2.0.next_track_id,
                collection_id,
                s2.1,
                s1.1,
                title,
                f.tags,
                path,
                f.size,
                now,
            );
            crate::store::lemma_wf_track_push(s2.0, nt);
        }
    }
}


/// Unconditional shape of one scan step: collections never change;
/// artist and album rows are only appended (with ids at or above the
/// old next free id); stored tracks keep their id, path and creation
/// timestamp; the next-id counters never decrease; a saturated counter
/// freezes its table; and a failed step changes nothing.
pub proof fn lemma_process_step_shape(
    m: LibModel,
    collection_id: i64,
    f: ScanFile,
    now: Seq<char>,
)
    ensures
        ({
            let (m1, r) = spec_process_track(m, collection_id, f.path, f.size, f.tags, now);
            &&& (r is Err ==> m1 == m)
            &&& m1.collections == m.collections
            &&& m.artists.len() <= m1.artists.len()
            &&& forall|i: int| 0 <= i < m.artists.len() ==> #[trigger] m1.artists[i] == m.artists[i]
            &&& forall|i: int|
                m.artists.len() <= i < m1.artists.len() ==> (#[trigger] m1.artists[i]).id
                    >= m.next_artist_id
            &&& m1.next_artist_id >= m.next_artist_id
            &&& (m.next_artist_id == i64::MAX ==> m1.artists == m.artists && m1.next_artist_id
                == i64::MAX)
            &&& m.albums.len() <= m1.albums.len()
            &&& forall|i: int| 0 <= i < m.albums.len() ==> #[trigger] m1.albums[i] == m.albums[i]
            &&& m1.next_album_id >= m.next_album_id
            &&& (m.next_album_id == i64::MAX ==> m1.albums == m.albums && m1.next_album_id
                == i64::MAX)
            &&& m.tracks.len() <= m1.tracks.len()
            &&& forall|i: int|
                0 <= i < m.tracks.len() ==> (#[trigger] m1.tracks[i]).id == m.tracks[i].id
                    && m1.tracks[i].file_path == m.tracks[i].file_path && m1.tracks[i].created_at
                    == m.tracks[i].created_at
            &&& m1.next_track_id >= m.next_track_id
            &&& (m.next_track_id == i64::MAX ==> m1.tracks.len() == m.tracks.len()
                && m1.next_track_id == i64::MAX)
        }),
{
    let path = normalize_seps(f.path);
    let (m1, r) = spec_process_track(m, collection_id, f.path, f.size, f.tags, now);
    if first_match_idx(m.collections, coll_by_id(collection_id)) >= 0 && !scan_would_exhaust(
        m,
        f.tags,
        path,
        now,
    ) {
        let s1 = scan_artist_step(m, f.tags, now);
        let s2 = scan_album_step(s1.0, f.tags, s1.1, now);
        // Artists: unchanged or one push of a fresh id; never a push
        // when the counter is saturated (the step would have failed).
        match f.tags.artist {
            Some(n) => {
                let p = artist_by_name(n);
                if first_match_idx(m.artists, p) < 0 {
                    assert(m.next_artist_id != i64::MAX);
                    let a = crate::artists::new_artist_v(m.next_artist_id, n, now);
                    assert(s1.0.artists == m.artists.push(a));
                    assert(s1.0.artists[m.artists.len() as int] == a);
                }
            },
            None => {},
        }
        // Albums likewise, on the store the artist step left.
        match f.tags.album {
            Some(t) => {
                let p = album_by_key(t, s1.1);
                if first_match_idx(s1.0.albums, p) < 0 {
                    assert(s1.0.next_album_id == m.next_album_id);
                    assert(m.next_album_id != i64::MAX);
                    let al = crate::albums::new_album_v(
                        s1.0.next_album_id,
                        t,
                        s1.1,
                        f.tags.year,
                        now,
                    );
                    assert(s2.0.albums == s1.0.albums.push(al));
                }
            },
            None => {},
        }
        // Tracks: refreshed in place (identity kept) or one push; never
        // a push when the counter is saturated.
        let tp = track_by_path(path);
        let ft = first_match_idx(s2.0.tracks, tp);
        lemma_first_match_idx_props(s2.0.tracks, tp);
        if ft < 0 {
            assert(s2.0.next_track_id == m.next_track_id);
            assert(m.next_track_id != i64::MAX);
        }
    }
}

/// The artist id a scan would attach, absent from the store's albums.
pub open spec fn artist_missing(m: LibModel, tags: ExtractedTagsV) -> bool {
    match tags.artist {
        Some(n) => first_match_idx(m.artists, artist_by_name(n)) < 0,
        None => false,
    }
}

/// The album key a scan would resolve, absent from the store.
pub open spec fn album_missing(m: LibModel, tags: ExtractedTagsV) -> bool {
    match tags.album {
        Some(t) => first_match_idx(m.albums, album_by_key(t, scan_aid(m, tags))) < 0,
        None => false,
    }
}

/// The track row a scan would refresh, absent from the store.
pub open spec fn track_missing(m: LibModel, raw_path: Seq<char>) -> bool {
    first_match_idx(m.tracks, track_by_path(normalize_seps(raw_path))) < 0
}

/// A file whose reconcile step must fail: its collection is not
/// registered, or a row it would have to create cannot be created
/// because that table's id space is saturated.
pub open spec fn scan_blocked(m: LibModel, collection_id: i64, f: ScanFile) -> bool {
    ||| first_match_idx(m.collections, coll_by_id(collection_id)) < 0
    ||| (artist_missing(m, f.tags) && m.next_artist_id == i64::MAX)
    ||| (album_missing(m, f.tags) && m.next_album_id == i64::MAX)
    ||| (track_missing(m, f.path) && m.next_track_id == i64::MAX)
}

/// A blocked file's step fails and changes nothing.
pub proof fn lemma_blocked_step_no_op(
    m: LibModel,
    collection_id: i64,
    f: ScanFile,
    now: Seq<char>,
)
    requires
        scan_blocked(m, collection_id, f),
    ensures
        ({
            let (m1, r) = spec_process_track(m, collection_id, f.path, f.size, f.tags, now);
            m1 == m && r is Err
        }),
{
    let path = normalize_seps(f.path);
    if first_match_idx(m.collections, coll_by_id(collection_id)) >= 0 {
        if artist_missing(m, f.tags) && m.next_artist_id == i64::MAX {
            assert(scan_would_exhaust(m, f.tags, path, now));
        } else {
            let s1 = scan_artist_step(m, f.tags, now);
            assert(s1.1 == scan_aid(m, f.tags));
            assert(s1.0.albums == m.albums && s1.0.next_album_id == m.next_album_id);
            let s2 = scan_album_step(s1.0, f.tags, s1.1, now);
            assert(s2.0.tracks == m.tracks && s2.0.next_track_id == m.next_track_id);
            assert(scan_would_exhaust(m, f.tags, path, now));
        }
    }
}

/// A failed step leaves the store unchanged and the file blocked.
pub proof fn lemma_step_err_blocked(
    m: LibModel,
    collection_id: i64,
    f: ScanFile,
    now: Seq<char>,
)
    ensures
        ({
            let (m1, r) = spec_process_track(m, collection_id, f.path, f.size, f.tags, now);
            r is Err ==> m1 == m && scan_blocked(m, collection_id, f)
        }),
{
    let path = normalize_seps(f.path);
    let (m1, r) = spec_process_track(m, collection_id, f.path, f.size, f.tags, now);
    if r is Err && first_match_idx(m.collections, coll_by_id(collection_id)) >= 0 {
        if artist_missing(m, f.tags) && m.next_artist_id == i64::MAX {
            assert(scan_blocked(m, collection_id, f));
        } else {
            let s1 = scan_artist_step(m, f.tags, now);
            assert(s1.1 == scan_aid(m, f.tags));
            assert(s1.0.albums == m.albums && s1.0.next_album_id == m.next_album_id);
            let s2 = scan_album_step(s1.0, f.tags, s1.1, now);
            assert(s2.0.tracks == m.tracks && s2.0.next_track_id == m.next_track_id);
        }
    }
}

/// Any step of a well-formed store keeps a blocked file blocked: a
/// saturated table is frozen, and — for the album key — every artist id
/// the file could resolve to later is either the one it resolves to now
/// or a fresh id no stored album can reference.
pub proof fn lemma_step_preserves_blocked(
    m: LibModel,
    collection_id: i64,
    f: ScanFile,
    g: ScanFile,
    now: Seq<char>,
)
    requires
        wf(m),
        scan_blocked(m, collection_id, g),
    ensures
        scan_blocked(
            spec_process_track(m, collection_id, f.path, f.size, f.tags, now).0,
            collection_id,
            g,
        ),
{
    let (m1, r) = spec_process_track(m, collection_id, f.path, f.size, f.tags, now);
    lemma_process_step_shape(m, collection_id, f, now);
    if r is Err {
        assert(m1 == m);
    } else if first_match_idx(m.collections, coll_by_id(collection_id)) < 0 {
        assert(false);
    } else if artist_missing(m, g.tags) && m.next_artist_id == i64::MAX {
        assert(m1.artists == m.artists && m1.next_artist_id == i64::MAX);
        assert(artist_missing(m1, g.tags));
    } else if album_missing(m, g.tags) && m.next_album_id == i64::MAX {
        assert(m1.albums == m.albums && m1.next_album_id == i64::MAX);
        // The key the file resolves to in m1 is either the key it
        // resolved to in m (absent), or carries a fresh artist id no
        // album of m references (well-formedness bounds album
        // references below the old next free id).
        assert(album_missing(m1, g.tags)) by {
            match g.tags.album {
                Some(t) => {
                    let aid1 = scan_aid(m1, g.tags);
                    let p1 = album_by_key(t, aid1);
                    lemma_first_match_idx_props(m1.albums, p1);
                    let ff = first_match_idx(m1.albums, p1);
                    if ff >= 0 {
                        let al = m1.albums[ff];
                        assert(al == m.albums[ff]);
                        assert(al.title == t && al.artist_id == aid1);
                        if aid1 == scan_aid(m, g.tags) {
                            lemma_first_match_idx_props(
                                m.albums,
                                album_by_key(t, scan_aid(m, g.tags)),
                            );
                            assert(!(album_by_key(t, scan_aid(m, g.tags)))(al));
                            assert(false);
                        } else {
                            // The resolved id drifted: g's artist was
                            // absent in m, so both the old and the new
                            // candidate are at or above m's next free
                            // artist id, which no album of m reaches.
                            match g.tags.artist {
                                Some(n) => {
                                    let pn = artist_by_name(n);
                                    lemma_first_match_idx_props(m.artists, pn);
                                    lemma_first_match_idx_props(m1.artists, pn);
                                    let fn1 = first_match_idx(m1.artists, pn);
                                    if first_match_idx(m.artists, pn) >= 0 {
                                        let fo = first_match_idx(m.artists, pn);
                                        assert(m1.artists[fo] == m.artists[fo]);
                                        crate::seqtools::lemma_first_match_idx_unique(
                                            m1.artists,
                                            pn,
                                            fo,
                                        );
                                        assert(false);
                                    }
                                    // g's artist is absent in m; the id
                                    // m1 resolves is >= m.next_artist_id.
                                    let cand: i64 = if fn1 >= 0 {
                                        m1.artists[fn1].id
                                    } else {
                                        m1.next_artist_id
                                    };
                                    assert(aid1 == Some(cand));
                                    if fn1 >= 0 {
                                        if fn1 < m.artists.len() {
                                            assert(m1.artists[fn1] == m.artists[fn1]);
                                            assert(false);
                                        }
                                        assert(cand >= m.next_artist_id);
                                    } else {
                                        assert(cand >= m.next_artist_id);
                                    }
                                    // But the found album references it,
                                    // and album references of m sit
                                    // below m.next_artist_id.
                                    assert(crate::store::has_artist_id(m, cand));
                                    let j = choose|j: int|
                                        0 <= j < m.artists.len() && (#[trigger] m.artists[j]).id
                                            == cand;
                                    assert(m.artists[j].id < m.next_artist_id);
                                    assert(false);
                                },
                                None => {
                                    assert(aid1 == scan_aid(m, g.tags));
                                    assert(false);
                                },
                            }
                        }
                    }
                },
                None => {},
            }
        }
    } else {
        assert(track_missing(m, g.path) && m.next_track_id == i64::MAX);
        assert(m1.tracks.len() == m.tracks.len() && m1.next_track_id == i64::MAX);
        assert(track_missing(m1, g.path)) by {
            let tp = track_by_path(normalize_seps(g.path));
            assert(forall|i: int|
                0 <= i < m1.tracks.len() ==> (#[trigger] tp(m1.tracks[i])) == tp(m.tracks[i]));
            lemma_first_match_idx_same(m1.tracks, m.tracks, tp, tp);
        }
    }
}


/// A file is settled in a store when its entities all exist (a re-scan
/// refreshes in place) or its step is bound to fail without a trace.
pub open spec fn ready_or_blocked(m: LibModel, collection_id: i64, f: ScanFile) -> bool {
    file_ready(m, collection_id, f) || scan_blocked(m, collection_id, f)
}

/// Any scan step of a well-formed store keeps a settled file settled.
pub proof fn lemma_step_preserves_settled(
    m: LibModel,
    collection_id: i64,
    f: ScanFile,
    g: ScanFile,
    now: Seq<char>,
)
    requires
        wf(m),
        ready_or_blocked(m, collection_id, g),
    ensures
        ready_or_blocked(
            spec_process_track(m, collection_id, f.path, f.size, f.tags, now).0,
            collection_id,
            g,
        ),
{
    let (m1, r) = spec_process_track(m, collection_id, f.path, f.size, f.tags, now);
    if r is Err {
        lemma_step_err_blocked(m, collection_id, f, now);
    } else if file_ready(m, collection_id, g) {
        lemma_process_preserves_ready(m, collection_id, f, g, now);
    } else {
        lemma_step_preserves_blocked(m, collection_id, f, g, now);
    }
}

/// A whole scan keeps the store well formed.
pub proof fn lemma_scan_files_wf(
    m: LibModel,
    collection_id: i64,
    files: Seq<ScanFile>,
    now: Seq<char>,
)
    requires
        wf(m),
    ensures
        wf(scan_files(m, collection_id, files, now)),
    decreases files.len(),
{
    if files.len() > 0 {
        let f = files.first();
        lemma_process_preserves_wf(m, collection_id, f, now);
        let m1 = spec_process_track(m, collection_id, f.path, f.size, f.tags, now).0;
        lemma_scan_files_wf(m1, collection_id, files.drop_first(), now);
    }
}

/// A whole scan of a well-formed store keeps a settled file settled.
pub proof fn lemma_scan_files_preserve_settled(
    m: LibModel,
    collection_id: i64,
    files: Seq<ScanFile>,
    g: ScanFile,
    now: Seq<char>,
)
    requires
        wf(m),
        ready_or_blocked(m, collection_id, g),
    ensures
        ready_or_blocked(scan_files(m, collection_id, files, now), collection_id, g),
    decreases files.len(),
{
    if files.len() > 0 {
        let f = files.first();
        lemma_step_preserves_settled(m, collection_id, f, g, now);
        lemma_process_preserves_wf(m, collection_id, f, now);
        let m1 = spec_process_track(m, collection_id, f.path, f.size, f.tags, now).0;
        lemma_scan_files_preserve_settled(m1, collection_id, files.drop_first(), g, now);
    }
}

/// After one scan of a file list over a well-formed store, every file
/// of the list is settled: its step either did its work or is bound to
/// keep failing without a trace.
pub proof fn lemma_scan_settles_files(
    m: LibModel,
    collection_id: i64,
    files: Seq<ScanFile>,
    now: Seq<char>,
)
    requires
        wf(m),
    ensures
        forall|i: int|
            0 <= i < files.len() ==> ready_or_blocked(
                scan_files(m, collection_id, files, now),
                collection_id,
                #[trigger] files[i],
            ),
    decreases files.len(),
{
    if files.len() > 0 {
        let f = files.first();
        let (m1, r) = spec_process_track(m, collection_id, f.path, f.size, f.tags, now);
        let d = files.drop_first();
        if r is Ok {
            lemma_process_makes_ready(m, collection_id, f, now);
        } else {
            lemma_step_err_blocked(m, collection_id, f, now);
        }
        lemma_process_preserves_wf(m, collection_id, f, now);
        lemma_scan_files_preserve_settled(m1, collection_id, d, f, now);
        lemma_scan_settles_files(m1, collection_id, d, now);
        assert(forall|i: int| 0 <= i < d.len() ==> #[trigger] d[i] == files[i + 1]);
        assert forall|i: int| 0 <= i < files.len() implies ready_or_blocked(
            scan_files(m, collection_id, files, now),
            collection_id,
            #[trigger] files[i],
        ) by {
            if i > 0 {
                assert(d[i - 1] == files[i]);
            }
        }
    }
}

/// Scanning a list of settled files creates nothing: the collection,
/// artist and album tables are untouched, the track count stays, and
/// every track keeps its id, path and creation timestamp.
pub proof fn lemma_scan_settled_files_no_growth(
    m: LibModel,
    collection_id: i64,
    files: Seq<ScanFile>,
    now: Seq<char>,
)
    requires
        wf(m),
        forall|i: int|
            0 <= i < files.len() ==> ready_or_blocked(m, collection_id, #[trigger] files[i]),
    ensures
        ({
            let m2 = scan_files(m, collection_id, files, now);
            &&& m2.collections == m.collections
            &&& m2.artists == m.artists
            &&& m2.albums == m.albums
            &&& m2.tracks.len() == m.tracks.len()
            &&& forall|i: int|
                0 <= i < m.tracks.len() ==> (#[trigger] m2.tracks[i]).id == m.tracks[i].id
                    && m2.tracks[i].file_path == m.tracks[i].file_path
                    && m2.tracks[i].created_at == m.tracks[i].created_at
        }),
    decreases files.len(),
{
    if files.len() > 0 {
        let f = files.first();
        let (m1, r) = spec_process_track(m, collection_id, f.path, f.size, f.tags, now);
        let d = files.drop_first();
        if file_ready(m, collection_id, f) {
            lemma_ready_process_no_growth(m, collection_id, f, now);
        } else {
            lemma_blocked_step_no_op(m, collection_id, f, now);
        }
        lemma_process_preserves_wf(m, collection_id, f, now);
        assert forall|i: int| 0 <= i < d.len() implies ready_or_blocked(
            m1,
            collection_id,
            #[trigger] d[i],
        ) by {
            assert(d[i] == files[i + 1]);
            lemma_step_preserves_settled(m, collection_id, f, files[i + 1], now);
        }
        lemma_scan_settled_files_no_growth(m1, collection_id, d, now);
    }
}

/// Re-scanning a collection is idempotent, whatever each file's step
/// did: after one pass over a file list, a second pass over the same
/// list adds no collection, artist, album or track row, and every
/// track keeps its id, path and creation timestamp. (A step that
/// failed in the first pass — an unregistered collection, or a
/// saturated id counter — fails identically in the second and leaves
/// no trace.)
pub proof fn lemma_collection_scan_idempotent(
    m: LibModel,
    collection_id: i64,
    files: Seq<ScanFile>,
    now1: Seq<char>,
    now2: Seq<char>,
)
    requires
        wf(m),
    ensures
        ({
            let ma = scan_files(m, collection_id, files, now1);
            let mb = scan_files(ma, collection_id, files, now2);
            &&& mb.collections == ma.collections
            &&& mb.artists == ma.artists
            &&& mb.albums == ma.albums
            &&& mb.tracks.len() == ma.tracks.len()
            &&& forall|i: int|
                0 <= i < ma.tracks.len() ==> (#[trigger] mb.tracks[i]).id == ma.tracks[i].id
                    && mb.tracks[i].file_path == ma.tracks[i].file_path
                    && mb.tracks[i].created_at == ma.tracks[i].created_at
        }),
{
    let ma = scan_files(m, collection_id, files, now1);
    lemma_scan_files_wf(m, collection_id, files, now1);
    lemma_scan_settles_files(m, collection_id, files, now1);
    lemma_scan_settled_files_no_growth(ma, collection_id, files, now2);
}

} // verus!

