//! The library store: an in-memory relational model of collections,
//! artists, albums, tracks and settings, with the well-formedness
//! invariant every operation preserves — unique ids below the next free
//! id, unique natural keys, and referential consistency between the
//! linked entity types.

use vstd::prelude::*;
use crate::models::{
    Album, AlbumV, AppError, Artist, ArtistV, Collection, CollectionV, ErrKind, Setting, SettingV,
    Track, TrackV,
};

verus! {

/// The mathematical view of the store.
#[verifier::ext_equal]
pub struct LibModel {
    pub collections: Seq<CollectionV>,
    pub artists: Seq<ArtistV>,
    pub albums: Seq<AlbumV>,
    pub tracks: Seq<TrackV>,
    pub settings: Seq<SettingV>,
    pub next_collection_id: i64,
    pub next_artist_id: i64,
    pub next_album_id: i64,
    pub next_track_id: i64,
}

/// The views of a sequence of rows.
pub open spec fn rows_view<T: View>(s: Seq<T>) -> Seq<T::V> {
    s.map_values(|x: T| x@)
}

/// A push of a row is a push of its view.
pub proof fn lemma_rows_view_push<T: View>(s: Seq<T>, x: T)
    ensures
        rows_view(s.push(x)) == rows_view(s).push(x@),
{
    assert(rows_view(s.push(x)) =~= rows_view(s).push(x@));
}

/// An in-place update of a row is an update of its view.
pub proof fn lemma_rows_view_update<T: View>(s: Seq<T>, i: int, x: T)
    requires
        0 <= i < s.len(),
    ensures
        rows_view(s.update(i, x)) == rows_view(s).update(i, x@),
{
    assert(rows_view(s.update(i, x)) =~= rows_view(s).update(i, x@));
}

// ── Key predicates ──

pub open spec fn coll_by_path(path: Seq<char>) -> spec_fn(CollectionV) -> bool {
    |c: CollectionV| c.path == path
}

pub open spec fn coll_by_id(id: i64) -> spec_fn(CollectionV) -> bool {
    |c: CollectionV| c.id == id
}

pub open spec fn artist_by_name(name: Seq<char>) -> spec_fn(ArtistV) -> bool {
    |a: ArtistV| a.name == name
}

pub open spec fn artist_by_id(id: i64) -> spec_fn(ArtistV) -> bool {
    |a: ArtistV| a.id == id
}

pub open spec fn album_by_key(title: Seq<char>, artist_id: Option<i64>) -> spec_fn(
    AlbumV,
) -> bool {
    |a: AlbumV| a.title == title && a.artist_id == artist_id
}

pub open spec fn album_by_id(id: i64) -> spec_fn(AlbumV) -> bool {
    |a: AlbumV| a.id == id
}

pub open spec fn track_by_path(path: Seq<char>) -> spec_fn(TrackV) -> bool {
    |t: TrackV| t.file_path == path
}

pub open spec fn track_by_id(id: i64) -> spec_fn(TrackV) -> bool {
    |t: TrackV| t.id == id
}

pub open spec fn track_of_album(album_id: i64) -> spec_fn(TrackV) -> bool {
    |t: TrackV| t.album_id == Some(album_id)
}

pub open spec fn track_of_artist(artist_id: i64) -> spec_fn(TrackV) -> bool {
    |t: TrackV| t.artist_id == Some(artist_id)
}

pub open spec fn album_of_artist(artist_id: i64) -> spec_fn(AlbumV) -> bool {
    |a: AlbumV| a.artist_id == Some(artist_id)
}

pub open spec fn setting_by_key(key: Seq<char>) -> spec_fn(SettingV) -> bool {
    |s: SettingV| s.key == key
}

// ── Existence of referenced entities ──

pub open spec fn has_collection_id(m: LibModel, id: i64) -> bool {
    exists|k: int| 0 <= k < m.collections.len() && (#[trigger] m.collections[k]).id == id
}

pub open spec fn has_artist_id(m: LibModel, id: i64) -> bool {
    exists|k: int| 0 <= k < m.artists.len() && (#[trigger] m.artists[k]).id == id
}

pub open spec fn has_album_id(m: LibModel, id: i64) -> bool {
    exists|k: int| 0 <= k < m.albums.len() && (#[trigger] m.albums[k]).id == id
}

// ── Well-formedness ──

pub open spec fn collections_wf(m: LibModel) -> bool {
    &&& forall|i: int|
        0 <= i < m.collections.len() ==> 1 <= (#[trigger] m.collections[i]).id
            < m.next_collection_id
    &&& forall|i: int, j: int|
        0 <= i < j < m.collections.len() ==> (#[trigger] m.collections[i]).id != (
        #[trigger] m.collections[j]).id
    &&& forall|i: int, j: int|
        0 <= i < j < m.collections.len() ==> (#[trigger] m.collections[i]).path != (
        #[trigger] m.collections[j]).path
}

pub open spec fn artists_wf(m: LibModel) -> bool {
    &&& forall|i: int|
        0 <= i < m.artists.len() ==> 1 <= (#[trigger] m.artists[i]).id < m.next_artist_id
    &&& forall|i: int, j: int|
        0 <= i < j < m.artists.len() ==> (#[trigger] m.artists[i]).id != (
        #[trigger] m.artists[j]).id
    &&& forall|i: int, j: int|
        0 <= i < j < m.artists.len() ==> (#[trigger] m.artists[i]).name != (
        #[trigger] m.artists[j]).name
}

pub open spec fn albums_wf(m: LibModel) -> bool {
    &&& forall|i: int|
        0 <= i < m.albums.len() ==> 1 <= (#[trigger] m.albums[i]).id < m.next_album_id
    &&& forall|i: int, j: int|
        0 <= i < j < m.albums.len() ==> (#[trigger] m.albums[i]).id != (#[trigger] m.albums[j]).id
    &&& forall|i: int, j: int|
        0 <= i < j < m.albums.len() ==> !((#[trigger] m.albums[i]).title == (
        #[trigger] m.albums[j]).title && m.albums[i].artist_id == m.albums[j].artist_id)
    &&& forall|i: int|
        0 <= i < m.albums.len() ==> ((#[trigger] m.albums[i]).artist_id is Some ==> has_artist_id(
            m,
            m.albums[i].artist_id->0,
        ))
}

pub open spec fn tracks_wf(m: LibModel) -> bool {
    &&& forall|i: int|
        0 <= i < m.tracks.len() ==> 1 <= (#[trigger] m.tracks[i]).id < m.next_track_id
    &&& forall|i: int, j: int|
        0 <= i < j < m.tracks.len() ==> (#[trigger] m.tracks[i]).id != (#[trigger] m.tracks[j]).id
    &&& forall|i: int, j: int|
        0 <= i < j < m.tracks.len() ==> (#[trigger] m.tracks[i]).file_path != (
        #[trigger] m.tracks[j]).file_path
    &&& forall|i: int|
        0 <= i < m.tracks.len() ==> has_collection_id(m, (#[trigger] m.tracks[i]).collection_id)
    &&& forall|i: int|
        0 <= i < m.tracks.len() ==> ((#[trigger] m.tracks[i]).artist_id is Some ==> has_artist_id(
            m,
            m.tracks[i].artist_id->0,
        ))
    &&& forall|i: int|
        0 <= i < m.tracks.len() ==> ((#[trigger] m.tracks[i]).album_id is Some ==> has_album_id(
            m,
            m.tracks[i].album_id->0,
        ))
}

pub open spec fn settings_wf(m: LibModel) -> bool {
    forall|i: int, j: int|
        0 <= i < j < m.settings.len() ==> (#[trigger] m.settings[i]).key != (
        #[trigger] m.settings[j]).key
}

/// The store invariant: ids are unique, positive and below the next
/// free id of their table; natural keys (collection path, artist name,
/// album (title, artist id), track file path, setting key) are unique;
/// and every reference from a track or album points at an existing row.
pub open spec fn wf(m: LibModel) -> bool {
    &&& collections_wf(m)
    &&& artists_wf(m)
    &&& albums_wf(m)
    &&& tracks_wf(m)
    &&& settings_wf(m)
    &&& m.next_collection_id >= 1
    &&& m.next_artist_id >= 1
    &&& m.next_album_id >= 1
    &&& m.next_track_id >= 1
}


// ── Filter predicates used by deletion ──

pub open spec fn coll_not_id(cid: i64) -> spec_fn(CollectionV) -> bool {
    |c: CollectionV| c.id != cid
}

pub open spec fn track_not_of_collection(cid: i64) -> spec_fn(TrackV) -> bool {
    |t: TrackV| t.collection_id != cid
}

// ── Result agreement between executable values and spec outcomes ──

pub open spec fn res_agrees<T: View>(r: Result<T, AppError>, out: Result<T::V, ErrKind>) -> bool {
    match (r, out) {
        (Ok(v), Ok(w)) => v@ == w,
        (Err(e), Err(k)) => e.kind() == k,
        _ => false,
    }
}

pub open spec fn id_res_agrees(r: Result<i64, AppError>, out: Result<i64, ErrKind>) -> bool {
    match (r, out) {
        (Ok(v), Ok(w)) => v == w,
        (Err(e), Err(k)) => e.kind() == k,
        _ => false,
    }
}

// ── Preservation of well-formedness under the store's mutations ──

/// Changing one collection row without touching its id or path keeps
/// the store well formed.
pub proof fn lemma_wf_collection_update(m: LibModel, k: int, c1: CollectionV)
    requires
        wf(m),
        0 <= k < m.collections.len(),
        c1.id == m.collections[k].id,
        c1.path == m.collections[k].path,
    ensures
        wf(LibModel { collections: m.collections.update(k, c1), ..m }),
{
    let m2 = LibModel { collections: m.collections.update(k, c1), ..m };
    assert forall|i: int| 0 <= i < m2.tracks.len() implies has_collection_id(
        m2,
        (#[trigger] m2.tracks[i]).collection_id,
    ) by {
        let j = choose|j: int|
            0 <= j < m.collections.len() && (#[trigger] m.collections[j]).id
                == m.tracks[i].collection_id;
        assert(m2.collections[j].id == m.tracks[i].collection_id);
    }
    assert forall|i: int| 0 <= i < m2.albums.len() implies ((#[trigger] m2.albums[i]).artist_id
        is Some ==> has_artist_id(m2, m2.albums[i].artist_id->0)) by {
        assert(m2.albums[i] == m.albums[i]);
    }
}

/// Registering a new collection with a fresh id and a path no existing
/// collection has keeps the store well formed.
pub proof fn lemma_wf_collection_push(m: LibModel, c: CollectionV)
    requires
        wf(m),
        c.id == m.next_collection_id,
        m.next_collection_id < i64::MAX,
        forall|i: int| 0 <= i < m.collections.len() ==> (#[trigger] m.collections[i]).path != c.path,
    ensures
        wf(
            LibModel {
                collections: m.collections.push(c),
                next_collection_id: (m.next_collection_id + 1) as i64,
                ..m
            },
        ),
{
    let m2 = LibModel {
        collections: m.collections.push(c),
        next_collection_id: (m.next_collection_id + 1) as i64,
        ..m
    };
    assert(forall|i: int|
        0 <= i < m.collections.len() ==> m2.collections[i] == #[trigger] m.collections[i]);
    assert(m2.collections[m.collections.len() as int] == c);
    assert forall|i: int| 0 <= i < m2.tracks.len() implies has_collection_id(
        m2,
        (#[trigger] m2.tracks[i]).collection_id,
    ) by {
        let j = choose|j: int|
            0 <= j < m.collections.len() && (#[trigger] m.collections[j]).id
                == m.tracks[i].collection_id;
        assert(m2.collections[j].id == m.tracks[i].collection_id);
    }
}

/// Creating an artist with a fresh id and a name no existing artist has
/// keeps the store well formed.
pub proof fn lemma_wf_artist_push(m: LibModel, a: ArtistV)
    requires
        wf(m),
        a.id == m.next_artist_id,
        m.next_artist_id < i64::MAX,
        forall|i: int| 0 <= i < m.artists.len() ==> (#[trigger] m.artists[i]).name != a.name,
    ensures
        wf(
            LibModel {
                artists: m.artists.push(a),
                next_artist_id: (m.next_artist_id + 1) as i64,
                ..m
            },
        ),
{
    let m2 = LibModel {
        artists: m.artists.push(a),
        next_artist_id: (m.next_artist_id + 1) as i64,
        ..m
    };
    assert(forall|i: int| 0 <= i < m.artists.len() ==> m2.artists[i] == #[trigger] m.artists[i]);
    assert forall|i: int| 0 <= i < m2.albums.len() implies ((#[trigger] m2.albums[i]).artist_id
        is Some ==> has_artist_id(m2, m2.albums[i].artist_id->0)) by {
        if m.albums[i].artist_id is Some {
            let j = choose|j: int|
                0 <= j < m.artists.len() && (#[trigger] m.artists[j]).id
                    == m.albums[i].artist_id->0;
            assert(m2.artists[j].id == m.albums[i].artist_id->0);
        }
    }
    assert forall|i: int| 0 <= i < m2.tracks.len() implies ((#[trigger] m2.tracks[i]).artist_id
        is Some ==> has_artist_id(m2, m2.tracks[i].artist_id->0)) by {
        if m.tracks[i].artist_id is Some {
            let j = choose|j: int|
                0 <= j < m.artists.len() && (#[trigger] m.artists[j]).id
                    == m.tracks[i].artist_id->0;
            assert(m2.artists[j].id == m.tracks[i].artist_id->0);
        }
    }
}

/// Creating an album with a fresh id, a key no existing album has, and
/// an existing artist reference (if any) keeps the store well formed.
pub proof fn lemma_wf_album_push(m: LibModel, al: AlbumV)
    requires
        wf(m),
        al.id == m.next_album_id,
        m.next_album_id < i64::MAX,
        forall|i: int|
            0 <= i < m.albums.len() ==> !((#[trigger] m.albums[i]).title == al.title
                && m.albums[i].artist_id == al.artist_id),
        al.artist_id is Some ==> has_artist_id(m, al.artist_id->0),
    ensures
        wf(
            LibModel {
                albums: m.albums.push(al),
                next_album_id: (m.next_album_id + 1) as i64,
                ..m
            },
        ),
{
    let m2 = LibModel {
        albums: m.albums.push(al),
        next_album_id: (m.next_album_id + 1) as i64,
        ..m
    };
    assert(forall|i: int| 0 <= i < m.albums.len() ==> m2.albums[i] == #[trigger] m.albums[i]);
    assert(m2.albums[m.albums.len() as int] == al);
    assert forall|i: int| 0 <= i < m2.tracks.len() implies ((#[trigger] m2.tracks[i]).album_id
        is Some ==> has_album_id(m2, m2.tracks[i].album_id->0)) by {
        if m.tracks[i].album_id is Some {
            let j = choose|j: int|
                0 <= j < m.albums.len() && (#[trigger] m.albums[j]).id == m.tracks[i].album_id->0;
            assert(m2.albums[j].id == m.tracks[i].album_id->0);
        }
    }
}

/// Changing one album row without touching its id, key or artist
/// reference keeps the store well formed.
pub proof fn lemma_wf_album_update(m: LibModel, k: int, al1: AlbumV)
    requires
        wf(m),
        0 <= k < m.albums.len(),
        al1.id == m.albums[k].id,
        al1.title == m.albums[k].title,
        al1.artist_id == m.albums[k].artist_id,
    ensures
        wf(LibModel { albums: m.albums.update(k, al1), ..m }),
{
    let m2 = LibModel { albums: m.albums.update(k, al1), ..m };
    assert forall|i: int| 0 <= i < m2.albums.len() implies ((#[trigger] m2.albums[i]).artist_id
        is Some ==> has_artist_id(m2, m2.albums[i].artist_id->0)) by {
        assert(m2.albums[i].artist_id == m.albums[i].artist_id);
    }
    assert forall|i: int| 0 <= i < m2.tracks.len() implies ((#[trigger] m2.tracks[i]).album_id
        is Some ==> has_album_id(m2, m2.tracks[i].album_id->0)) by {
        if m.tracks[i].album_id is Some {
            let j = choose|j: int|
                0 <= j < m.albums.len() && (#[trigger] m.albums[j]).id == m.tracks[i].album_id->0;
            assert(m2.albums[j].id == m.tracks[i].album_id->0);
        }
    }
}

/// Creating a track with a fresh id, a path no existing track has, and
/// existing references keeps the store well formed.
pub proof fn lemma_wf_track_push(m: LibModel, t: TrackV)
    requires
        wf(m),
        t.id == m.next_track_id,
        m.next_track_id < i64::MAX,
        forall|i: int| 0 <= i < m.tracks.len() ==> (#[trigger] m.tracks[i]).file_path != t.file_path,
        has_collection_id(m, t.collection_id),
        t.artist_id is Some ==> has_artist_id(m, t.artist_id->0),
        t.album_id is Some ==> has_album_id(m, t.album_id->0),
    ensures
        wf(
            LibModel {
                tracks: m.tracks.push(t),
                next_track_id: (m.next_track_id + 1) as i64,
                ..m
            },
        ),
{
    let m2 = LibModel {
        tracks: m.tracks.push(t),
        next_track_id: (m.next_track_id + 1) as i64,
        ..m
    };
    assert(forall|i: int| 0 <= i < m.tracks.len() ==> m2.tracks[i] == #[trigger] m.tracks[i]);
    assert(m2.tracks[m.tracks.len() as int] == t);
}

/// Changing one track row without touching its id or path, with
/// existing references, keeps the store well formed.
pub proof fn lemma_wf_track_update(m: LibModel, k: int, t1: TrackV)
    requires
        wf(m),
        0 <= k < m.tracks.len(),
        t1.id == m.tracks[k].id,
        t1.file_path == m.tracks[k].file_path,
        has_collection_id(m, t1.collection_id),
        t1.artist_id is Some ==> has_artist_id(m, t1.artist_id->0),
        t1.album_id is Some ==> has_album_id(m, t1.album_id->0),
    ensures
        wf(LibModel { tracks: m.tracks.update(k, t1), ..m }),
{
    let m2 = LibModel { tracks: m.tracks.update(k, t1), ..m };
    assert forall|i: int| 0 <= i < m2.tracks.len() implies has_collection_id(
        m2,
        (#[trigger] m2.tracks[i]).collection_id,
    ) && ((m2.tracks[i]).artist_id is Some ==> has_artist_id(m2, m2.tracks[i].artist_id->0)) && ((
    m2.tracks[i]).album_id is Some ==> has_album_id(m2, m2.tracks[i].album_id->0)) by {
        if i != k {
            assert(m2.tracks[i] == m.tracks[i]);
        }
    }
}

/// Storing a new setting under a fresh key keeps the store well formed.
pub proof fn lemma_wf_setting_push(m: LibModel, st: SettingV)
    requires
        wf(m),
        forall|i: int| 0 <= i < m.settings.len() ==> (#[trigger] m.settings[i]).key != st.key,
    ensures
        wf(LibModel { settings: m.settings.push(st), ..m }),
{
    let m2 = LibModel { settings: m.settings.push(st), ..m };
    assert(forall|i: int| 0 <= i < m.settings.len() ==> m2.settings[i] == #[trigger] m.settings[i]);
}

/// Overwriting a setting's value keeps the store well formed.
pub proof fn lemma_wf_setting_update(m: LibModel, k: int, st1: SettingV)
    requires
        wf(m),
        0 <= k < m.settings.len(),
        st1.key == m.settings[k].key,
    ensures
        wf(LibModel { settings: m.settings.update(k, st1), ..m }),
{
    let m2 = LibModel { settings: m.settings.update(k, st1), ..m };
    assert(forall|i: int|
        0 <= i < m2.settings.len() ==> (#[trigger] m2.settings[i]).key == m.settings[i].key);
}

/// Filtering keeps pairwise-distinct keys distinct.
pub proof fn lemma_filter_distinct<T, K>(s: Seq<T>, p: spec_fn(T) -> bool, key: spec_fn(T) -> K)
    requires
        forall|i: int, j: int| 0 <= i < j < s.len() ==> key(s[i]) != key(s[j]),
    ensures
        forall|i: int, j: int|
            0 <= i < j < s.filter(p).len() ==> key(#[trigger] s.filter(p)[i]) != key(
                #[trigger] s.filter(p)[j],
            ),
    decreases s.len(),
{
    reveal(Seq::filter);
    if s.len() > 0 {
        let d = s.drop_last();
        assert(forall|i: int| 0 <= i < d.len() ==> #[trigger] d[i] == s[i]);
        lemma_filter_distinct(d, p, key);
        crate::seqtools::lemma_filter_is_subset(d, p);
        let fl = s.filter(p);
        let dl = d.filter(p);
        if p(s.last()) {
            assert(fl =~= dl.push(s.last()));
            assert forall|i: int, j: int| 0 <= i < j < fl.len() implies key(#[trigger] fl[i])
                != key(#[trigger] fl[j]) by {
                if j == fl.len() - 1 {
                    let j0 = choose|j0: int| 0 <= j0 < d.len() && d[j0] == dl[i];
                    assert(key(s[j0]) != key(s[s.len() - 1]));
                } else {
                    assert(fl[i] == dl[i] && fl[j] == dl[j]);
                }
            }
        } else {
            assert(fl =~= dl);
        }
    }
}

/// Deleting a collection together with its tracks keeps the store well
/// formed.
pub proof fn lemma_wf_delete_collection(m: LibModel, cid: i64)
    requires
        wf(m),
    ensures
        wf(
            LibModel {
                collections: m.collections.filter(coll_not_id(cid)),
                tracks: m.tracks.filter(track_not_of_collection(cid)),
                ..m
            },
        ),
{
    broadcast use vstd::seq_lib::group_filter_ensures;

    let m2 = LibModel {
        collections: m.collections.filter(coll_not_id(cid)),
        tracks: m.tracks.filter(track_not_of_collection(cid)),
        ..m
    };
    crate::seqtools::lemma_filter_is_subset(m.collections, coll_not_id(cid));
    crate::seqtools::lemma_filter_is_subset(m.tracks, track_not_of_collection(cid));
    lemma_filter_distinct(m.collections, coll_not_id(cid), |c: CollectionV| c.id);
    lemma_filter_distinct(m.collections, coll_not_id(cid), |c: CollectionV| c.path);
    lemma_filter_distinct(m.tracks, track_not_of_collection(cid), |t: TrackV| t.id);
    lemma_filter_distinct(m.tracks, track_not_of_collection(cid), |t: TrackV| t.file_path);
    assert forall|i: int| 0 <= i < m2.collections.len() implies 1 <= (
    #[trigger] m2.collections[i]).id < m2.next_collection_id by {
        let j = choose|j: int| 0 <= j < m.collections.len() && m.collections[j] == m2.collections[i];
        assert(1 <= m.collections[j].id < m.next_collection_id);
    }
    assert forall|i: int| 0 <= i < m2.tracks.len() implies {
        let t = #[trigger] m2.tracks[i];
        &&& 1 <= t.id < m2.next_track_id
        &&& has_collection_id(m2, t.collection_id)
        &&& (t.artist_id is Some ==> has_artist_id(m2, t.artist_id->0))
        &&& (t.album_id is Some ==> has_album_id(m2, t.album_id->0))
    } by {
        let t = m2.tracks[i];
        let j = choose|j: int| 0 <= j < m.tracks.len() && m.tracks[j] == t;
        assert(1 <= m.tracks[j].id < m.next_track_id);
        assert((track_not_of_collection(cid))(t));
        let kc = choose|kc: int|
            0 <= kc < m.collections.len() && (#[trigger] m.collections[kc]).id == t.collection_id;
        assert((coll_not_id(cid))(m.collections[kc]));
        assert(m.collections.filter(coll_not_id(cid)).contains(m.collections[kc]));
        let kc2 = choose|kc2: int|
            0 <= kc2 < m2.collections.len() && m2.collections[kc2] == m.collections[kc];
        assert(m2.collections[kc2].id == t.collection_id);
    }
}

// ── The executable store ──

/// The library store. The scan pipeline and the query layer operate on
/// this; persistence and I/O live with the caller.
#[derive(Debug)]
pub struct Library {
    pub collections: Vec<Collection>,
    pub artists: Vec<Artist>,
    pub albums: Vec<Album>,
    pub tracks: Vec<Track>,
    pub settings: Vec<Setting>,
    pub next_collection_id: i64,
    pub next_artist_id: i64,
    pub next_album_id: i64,
    pub next_track_id: i64,
}

impl View for Library {
    type V = LibModel;

    open spec fn view(&self) -> LibModel {
        LibModel {
            collections: rows_view(self.collections@),
            artists: rows_view(self.artists@),
            albums: rows_view(self.albums@),
            tracks: rows_view(self.tracks@),
            settings: rows_view(self.settings@),
            next_collection_id: self.next_collection_id,
            next_artist_id: self.next_artist_id,
            next_album_id: self.next_album_id,
            next_track_id: self.next_track_id,
        }
    }
}

/// The empty store.
pub open spec fn empty_model() -> LibModel {
    LibModel {
        collections: Seq::empty(),
        artists: Seq::empty(),
        albums: Seq::empty(),
        tracks: Seq::empty(),
        settings: Seq::empty(),
        next_collection_id: 1,
        next_artist_id: 1,
        next_album_id: 1,
        next_track_id: 1,
    }
}

impl Library {
    /// A fresh, empty store.
    pub fn new() -> (r: Library)
        ensures
            r@ == empty_model(),
            wf(r@),
    {
        let r = Library {
            collections: Vec::new(),
            artists: Vec::new(),
            albums: Vec::new(),
            tracks: Vec::new(),
            settings: Vec::new(),
            next_collection_id: 1,
            next_artist_id: 1,
            next_album_id: 1,
            next_track_id: 1,
        };
        proof {
            assert(r@ =~= empty_model());
        }
        r
    }
}

} // verus!
