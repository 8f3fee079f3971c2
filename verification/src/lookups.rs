//! First-match lookups over the store's tables, each specified against
//! `first_match_idx` so that the operations' transition functions and
//! the executable code agree on which row a key resolves to.

use vstd::prelude::*;
use crate::models::{AlbumV, ArtistV, CollectionV, SettingV, TrackV};
use crate::seqtools::{first_match_idx, lemma_first_match_idx_props, lemma_first_match_idx_unique};
use crate::store::{
    album_by_id, album_by_key, artist_by_id, artist_by_name, coll_by_id, coll_by_path, Library,
    setting_by_key, track_by_id, track_by_path, track_of_album, track_of_artist,
};
use crate::strutil::{opt_i64_eq, str_eq};

verus! {

/// The result of an index lookup agrees with the first-match index.
pub open spec fn idx_agrees<T>(r: Option<usize>, s: Seq<T>, p: spec_fn(T) -> bool) -> bool {
    match r {
        Some(k) => first_match_idx(s, p) == k as int,
        None => first_match_idx(s, p) == -1,
    }
}

impl Library {
    /// Index of the collection registered at exactly this path.
    pub fn find_collection_by_path(&self, path: &str) -> (r: Option<usize>)
        ensures
            idx_agrees(r, self@.collections, coll_by_path(path@)),
    {
        let ghost p = coll_by_path(path@);
        let n = self.collections.len();
        let mut i: usize = 0;
        while i < n
            invariant
                p == coll_by_path(path@),
                i <= n,
                n == self.collections.len(),
                forall|j: int| 0 <= j < i ==> !p(self@.collections[j]),
            decreases n - i,
        {
            if str_eq(self.collections[i].path.as_str(), path) {
                proof {
                    lemma_first_match_idx_unique(self@.collections, p, i as int);
                }
                return Some(i);
            }
            i += 1;
        }
        proof {
            lemma_first_match_idx_props(self@.collections, p);
        }
        None
    }

    /// Index of the collection with this id.
    pub fn find_collection_by_id(&self, id: i64) -> (r: Option<usize>)
        ensures
            idx_agrees(r, self@.collections, coll_by_id(id)),
    {
        let ghost p = coll_by_id(id);
        let n = self.collections.len();
        let mut i: usize = 0;
        while i < n
            invariant
                p == coll_by_id(id),
                i <= n,
                n == self.collections.len(),
                forall|j: int| 0 <= j < i ==> !p(self@.collections[j]),
            decreases n - i,
        {
            if self.collections[i].id == id {
                proof {
                    lemma_first_match_idx_unique(self@.collections, p, i as int);
                }
                return Some(i);
            }
            i += 1;
        }
        proof {
            lemma_first_match_idx_props(self@.collections, p);
        }
        None
    }

    /// Index of the artist with exactly this name.
    pub fn find_artist_by_name(&self, name: &str) -> (r: Option<usize>)
        ensures
            idx_agrees(r, self@.artists, artist_by_name(name@)),
    {
        let ghost p = artist_by_name(name@);
        let n = self.artists.len();
        let mut i: usize = 0;
        while i < n
            invariant
                p == artist_by_name(name@),
                i <= n,
                n == self.artists.len(),
                forall|j: int| 0 <= j < i ==> !p(self@.artists[j]),
            decreases n - i,
        {
            if str_eq(self.artists[i].name.as_str(), name) {
                proof {
                    lemma_first_match_idx_unique(self@.artists, p, i as int);
                }
                return Some(i);
            }
            i += 1;
        }
        proof {
            lemma_first_match_idx_props(self@.artists, p);
        }
        None
    }

    /// Index of the artist with this id.
    pub fn find_artist_by_id(&self, id: i64) -> (r: Option<usize>)
        ensures
            idx_agrees(r, self@.artists, artist_by_id(id)),
    {
        let ghost p = artist_by_id(id);
        let n = self.artists.len();
        let mut i: usize = 0;
        while i < n
            invariant
                p == artist_by_id(id),
                i <= n,
                n == self.artists.len(),
                forall|j: int| 0 <= j < i ==> !p(self@.artists[j]),
            decreases n - i,
        {
            if self.artists[i].id == id {
                proof {
                    lemma_first_match_idx_unique(self@.artists, p, i as int);
                }
                return Some(i);
            }
            i += 1;
        }
        proof {
            lemma_first_match_idx_props(self@.artists, p);
        }
        None
    }

    /// Index of the album with this (title, artist id) key; an absent
    /// artist id matches only albums with an absent artist id.
    pub fn find_album_by_key(&self, title: &str, artist_id: Option<i64>) -> (r: Option<usize>)
        ensures
            idx_agrees(r, self@.albums, album_by_key(title@, artist_id)),
    {
        let ghost p = album_by_key(title@, artist_id);
        let n = self.albums.len();
        let mut i: usize = 0;
        while i < n
            invariant
                p == album_by_key(title@, artist_id),
                i <= n,
                n == self.albums.len(),
                forall|j: int| 0 <= j < i ==> !p(self@.albums[j]),
            decreases n - i,
        {
            if str_eq(self.albums[i].title.as_str(), title) && opt_i64_eq(
                self.albums[i].artist_id,
                artist_id,
            ) {
                proof {
                    lemma_first_match_idx_unique(self@.albums, p, i as int);
                }
                return Some(i);
            }
            i += 1;
        }
        proof {
            lemma_first_match_idx_props(self@.albums, p);
        }
        None
    }

    /// Index of the album with this id.
    pub fn find_album_by_id(&self, id: i64) -> (r: Option<usize>)
        ensures
            idx_agrees(r, self@.albums, album_by_id(id)),
    {
        let ghost p = album_by_id(id);
        let n = self.albums.len();
        let mut i: usize = 0;
        while i < n
            invariant
                p == album_by_id(id),
                i <= n,
                n == self.albums.len(),
                forall|j: int| 0 <= j < i ==> !p(self@.albums[j]),
            decreases n - i,
        {
            if self.albums[i].id == id {
                proof {
                    lemma_first_match_idx_unique(self@.albums, p, i as int);
                }
                return Some(i);
            }
            i += 1;
        }
        proof {
            lemma_first_match_idx_props(self@.albums, p);
        }
        None
    }

    /// Index of the track stored under exactly this file path.
    pub fn find_track_by_path(&self, path: &str) -> (r: Option<usize>)
        ensures
            idx_agrees(r, self@.tracks, track_by_path(path@)),
    {
        let ghost p = track_by_path(path@);
        let n = self.tracks.len();
        let mut i: usize = 0;
        while i < n
            invariant
                p == track_by_path(path@),
                i <= n,
                n == self.tracks.len(),
                forall|j: int| 0 <= j < i ==> !p(self@.tracks[j]),
            decreases n - i,
        {
            if str_eq(self.tracks[i].file_path.as_str(), path) {
                proof {
                    lemma_first_match_idx_unique(self@.tracks, p, i as int);
                }
                return Some(i);
            }
            i += 1;
        }
        proof {
            lemma_first_match_idx_props(self@.tracks, p);
        }
        None
    }

    /// Index of the track with this id.
    pub fn find_track_by_id(&self, id: i64) -> (r: Option<usize>)
        ensures
            idx_agrees(r, self@.tracks, track_by_id(id)),
    {
        let ghost p = track_by_id(id);
        let n = self.tracks.len();
        let mut i: usize = 0;
        while i < n
            invariant
                p == track_by_id(id),
                i <= n,
                n == self.tracks.len(),
                forall|j: int| 0 <= j < i ==> !p(self@.tracks[j]),
            decreases n - i,
        {
            if self.tracks[i].id == id {
                proof {
                    lemma_first_match_idx_unique(self@.tracks, p, i as int);
                }
                return Some(i);
            }
            i += 1;
        }
        proof {
            lemma_first_match_idx_props(self@.tracks, p);
        }
        None
    }

    /// Index of the first track belonging to this album.
    pub fn find_first_track_of_album(&self, album_id: i64) -> (r: Option<usize>)
        ensures
            idx_agrees(r, self@.tracks, track_of_album(album_id)),
    {
        let ghost p = track_of_album(album_id);
        let n = self.tracks.len();
        let mut i: usize = 0;
        while i < n
            invariant
                p == track_of_album(album_id),
                i <= n,
                n == self.tracks.len(),
                forall|j: int| 0 <= j < i ==> !p(self@.tracks[j]),
            decreases n - i,
        {
            if opt_i64_eq(self.tracks[i].album_id, Some(album_id)) {
                proof {
                    lemma_first_match_idx_unique(self@.tracks, p, i as int);
                }
                return Some(i);
            }
            i += 1;
        }
        proof {
            lemma_first_match_idx_props(self@.tracks, p);
        }
        None
    }

    /// Index of the first track credited to this artist.
    pub fn find_first_track_of_artist(&self, artist_id: i64) -> (r: Option<usize>)
        ensures
            idx_agrees(r, self@.tracks, track_of_artist(artist_id)),
    {
        let ghost p = track_of_artist(artist_id);
        let n = self.tracks.len();
        let mut i: usize = 0;
        while i < n
            invariant
                p == track_of_artist(artist_id),
                i <= n,
                n == self.tracks.len(),
                forall|j: int| 0 <= j < i ==> !p(self@.tracks[j]),
            decreases n - i,
        {
            if opt_i64_eq(self.tracks[i].artist_id, Some(artist_id)) {
                proof {
                    lemma_first_match_idx_unique(self@.tracks, p, i as int);
                }
                return Some(i);
            }
            i += 1;
        }
        proof {
            lemma_first_match_idx_props(self@.tracks, p);
        }
        None
    }

    /// Index of the setting stored under this key.
    pub fn find_setting_by_key(&self, key: &str) -> (r: Option<usize>)
        ensures
            idx_agrees(r, self@.settings, setting_by_key(key@)),
    {
        let ghost p = setting_by_key(key@);
        let n = self.settings.len();
        let mut i: usize = 0;
        while i < n
            invariant
                p == setting_by_key(key@),
                i <= n,
                n == self.settings.len(),
                forall|j: int| 0 <= j < i ==> !p(self@.settings[j]),
            decreases n - i,
        {
            if str_eq(self.settings[i].key.as_str(), key) {
                proof {
                    lemma_first_match_idx_unique(self@.settings, p, i as int);
                }
                return Some(i);
            }
            i += 1;
        }
        proof {
            lemma_first_match_idx_props(self@.settings, p);
        }
        None
    }
}

} // verus!
