//! The query layer's orderings: collections newest first, artists,
//! settings and albums by their textual keys, album tracks by position.

use chant::models::{CollectionInput, ExtractedTags};
use chant::store::Library;

fn add_music_collection(lib: &mut Library) -> i64 {
    lib.add_collection_inner(
        CollectionInput { path: "/music".to_string(), label: None },
        true,
        true,
    )
    .unwrap()
    .id
}

#[test]
fn test_list_artists_sorted_by_name() {
    let mut lib = Library::new();
    lib.find_or_create_artist("b artist").unwrap();
    lib.find_or_create_artist("a artist").unwrap();
    let artists = lib.list_artists_inner().unwrap();
    assert_eq!(artists.len(), 2);
    assert_eq!(artists[0].name, "a artist");
    assert_eq!(artists[1].name, "b artist");

    let rows = lib.list_artist_rows_inner().unwrap();
    assert_eq!(rows[0].name, "a artist");
    assert_eq!(rows[1].name, "b artist");
}

#[test]
fn test_list_collections_newest_first() {
    let mut lib = Library::new();
    lib.add_collection_at(
        CollectionInput { path: "/older".to_string(), label: None },
        true,
        true,
        "2024-01-01T00:00:00+00:00".to_string(),
    )
    .unwrap();
    lib.add_collection_at(
        CollectionInput { path: "/newer".to_string(), label: None },
        true,
        true,
        "2025-01-01T00:00:00+00:00".to_string(),
    )
    .unwrap();
    let all = lib.list_collections_inner().unwrap();
    assert_eq!(all.len(), 2);
    assert_eq!(all[0].path, "/newer");
    assert_eq!(all[1].path, "/older");
}

#[test]
fn test_list_albums_sorted_by_title() {
    let mut lib = Library::new();
    lib.find_or_create_album("b album", None).unwrap();
    lib.find_or_create_album("a album", None).unwrap();
    let albums = lib.list_albums_inner(None).unwrap();
    assert_eq!(albums[0].title, "a album");
    assert_eq!(albums[1].title, "b album");

    let rows = lib.list_album_rows_inner().unwrap();
    assert_eq!(rows[0].title, "a album");
    assert_eq!(rows[1].title, "b album");
}

#[test]
fn test_artist_albums_sorted_by_year_then_title() {
    let mut lib = Library::new();
    let aid = lib.find_or_create_artist("A").unwrap();
    lib.find_or_create_album_at("late", Some(aid), Some(2001), "t".to_string()).unwrap();
    lib.find_or_create_album_at("early", Some(aid), Some(1999), "t".to_string()).unwrap();
    lib.find_or_create_album_at("undated", Some(aid), None, "t".to_string()).unwrap();
    let albums = lib.list_albums_inner(Some(aid)).unwrap();
    assert_eq!(albums.len(), 3);
    assert_eq!(albums[0].title, "undated");
    assert_eq!(albums[1].title, "early");
    assert_eq!(albums[2].title, "late");
}

#[test]
fn test_list_tracks_sorted_by_title() {
    let mut lib = Library::new();
    let col_id = add_music_collection(&mut lib);
    let tags_b = ExtractedTags { title: Some("b song".to_string()), ..Default::default() };
    let tags_a = ExtractedTags { title: Some("a song".to_string()), ..Default::default() };
    lib.process_track(col_id, "/music/1.mp3", 1, &tags_b).unwrap();
    lib.process_track(col_id, "/music/2.mp3", 1, &tags_a).unwrap();
    let tracks = lib.list_tracks_inner().unwrap();
    assert_eq!(tracks[0].title, "a song");
    assert_eq!(tracks[1].title, "b song");
}

#[test]
fn test_album_tracks_sorted_by_disc_then_track() {
    let mut lib = Library::new();
    let col_id = add_music_collection(&mut lib);
    let mk = |title: &str, disc: i32, track: i32| ExtractedTags {
        title: Some(title.to_string()),
        album: Some("One Album".to_string()),
        disc_number: Some(disc),
        track_number: Some(track),
        ..Default::default()
    };
    lib.process_track(col_id, "/music/x.mp3", 1, &mk("second", 1, 2)).unwrap();
    lib.process_track(col_id, "/music/y.mp3", 1, &mk("first", 1, 1)).unwrap();
    lib.process_track(col_id, "/music/z.mp3", 1, &mk("third", 2, 1)).unwrap();
    let album_id = lib.list_albums_inner(None).unwrap()[0].id;
    let rows = lib.list_tracks_by_album_inner(album_id).unwrap();
    assert_eq!(rows.len(), 3);
    assert_eq!(rows[0].title, "first");
    assert_eq!(rows[1].title, "second");
    assert_eq!(rows[2].title, "third");
}

#[test]
fn test_settings_sorted_by_key() {
    let mut lib = Library::new();
    lib.set_setting_inner("z_key", "1").unwrap();
    lib.set_setting_inner("a_key", "2").unwrap();
    let all = lib.get_all_settings_inner().unwrap();
    assert_eq!(all[0].key, "a_key");
    assert_eq!(all[1].key, "z_key");
}
