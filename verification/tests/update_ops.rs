//! Track updates (the tri-state association fields), artist and album
//! resolution, and the listing and aggregate reads.

use chant::models::{AppError, CollectionInput, ExtractedTags, TrackUpdateInput};
use chant::store::Library;

fn abs_test_path(suffix: &str) -> String {
    format!("/music{}", suffix)
}

fn add_test_collection(lib: &mut Library, suffix: &str) -> i64 {
    lib.add_collection_inner(
        CollectionInput { path: abs_test_path(suffix), label: None },
        true,
        true,
    )
    .unwrap()
    .id
}

/// Helper: insert a bare track and return its id.
fn insert_bare_track(lib: &mut Library, col_id: i64, title: &str, path: &str) -> i64 {
    let tags = ExtractedTags { title: Some(title.to_string()), ..Default::default() };
    lib.process_track(col_id, path, 1000, &tags).unwrap();
    lib.tracks.last().unwrap().id
}

#[test]
fn test_list_tracks_empty() {
    let lib = Library::new();
    let result = lib.list_tracks_inner().unwrap();
    assert!(result.is_empty());
}

#[test]
fn test_get_track_not_found() {
    let lib = Library::new();
    let result = lib.get_track_inner(999);
    assert!(result.is_err());
    match result.unwrap_err() {
        AppError::NotFound(msg) => assert!(msg.contains("999")),
        other => panic!("Expected NotFound, got {:?}", other),
    }
}

#[test]
fn test_track_not_found_message_exact() {
    let lib = Library::new();
    match lib.get_track_inner(999).unwrap_err() {
        AppError::NotFound(msg) => assert_eq!(msg, "Track 999 not found"),
        other => panic!("Expected NotFound, got {:?}", other),
    }
}

#[test]
fn test_update_track() {
    let mut lib = Library::new();
    let col_id = add_test_collection(&mut lib, "");
    let tags = ExtractedTags { title: Some("Original Title".to_string()), ..Default::default() };
    lib.process_track(col_id, "/music/track.mp3", 1000, &tags).unwrap();

    let tracks = lib.list_tracks_inner().unwrap();
    let track_id = tracks[0].id;

    let updated = lib
        .update_track_inner(
            track_id,
            TrackUpdateInput {
                title: Some("New Title".to_string()),
                track_number: Some(5),
                disc_number: None,
                lyrics: None,
                artist_name: None,
                album_title: None,
                ..Default::default()
            },
        )
        .unwrap();

    assert_eq!(updated.title, "New Title");
    assert_eq!(updated.track_number, Some(5));
}

#[test]
fn test_update_track_creates_new_artist() {
    let mut lib = Library::new();
    let col_id = add_test_collection(&mut lib, "");
    let track_id = insert_bare_track(&mut lib, col_id, "Song", "/music/song.mp3");

    let updated = lib
        .update_track_inner(
            track_id,
            TrackUpdateInput {
                title: None,
                track_number: None,
                disc_number: None,
                lyrics: None,
                artist_name: Some("New Artist".to_string()),
                album_title: None,
                ..Default::default()
            },
        )
        .unwrap();

    assert_eq!(updated.artist_name, Some("New Artist".to_string()));

    let artists = lib.list_artists_inner().unwrap();
    assert_eq!(artists.len(), 1);
    assert_eq!(artists[0].name, "New Artist");
}

#[test]
fn test_update_track_reuses_existing_artist() {
    let mut lib = Library::new();
    lib.find_or_create_artist("Existing Artist").unwrap();

    let col_id = add_test_collection(&mut lib, "");
    let track_id = insert_bare_track(&mut lib, col_id, "Song", "/music/song.mp3");

    lib.update_track_inner(
        track_id,
        TrackUpdateInput {
            title: None,
            track_number: None,
            disc_number: None,
            lyrics: None,
            artist_name: Some("Existing Artist".to_string()),
            album_title: None,
            ..Default::default()
        },
    )
    .unwrap();

    let artists = lib.list_artists_inner().unwrap();
    assert_eq!(artists.len(), 1);
}

#[test]
fn test_update_track_clears_artist_with_empty_string() {
    let mut lib = Library::new();
    let col_id = add_test_collection(&mut lib, "");
    let tags = ExtractedTags {
        title: Some("Song".to_string()),
        artist: Some("Artist".to_string()),
        ..Default::default()
    };
    lib.process_track(col_id, "/music/s.mp3", 1000, &tags).unwrap();
    let track_id = lib.tracks.last().unwrap().id;
    assert!(lib.tracks.last().unwrap().artist_id.is_some());

    let updated = lib
        .update_track_inner(
            track_id,
            TrackUpdateInput {
                title: None,
                track_number: None,
                disc_number: None,
                lyrics: None,
                artist_name: Some("".to_string()),
                album_title: None,
                ..Default::default()
            },
        )
        .unwrap();

    assert_eq!(updated.artist_id, None);
    assert_eq!(updated.artist_name, None);
}

#[test]
fn test_update_track_creates_new_album() {
    let mut lib = Library::new();
    let col_id = add_test_collection(&mut lib, "");
    let track_id = insert_bare_track(&mut lib, col_id, "Song", "/music/song.mp3");

    let updated = lib
        .update_track_inner(
            track_id,
            TrackUpdateInput {
                title: None,
                track_number: None,
                disc_number: None,
                lyrics: None,
                artist_name: None,
                album_title: Some("New Album".to_string()),
                ..Default::default()
            },
        )
        .unwrap();

    assert_eq!(updated.album_title, Some("New Album".to_string()));

    let albums = lib.list_albums_inner(None).unwrap();
    assert_eq!(albums.len(), 1);
    assert_eq!(albums[0].title, "New Album");
}

#[test]
fn test_update_track_artist_and_album_together() {
    let mut lib = Library::new();
    let col_id = add_test_collection(&mut lib, "");
    let track_id = insert_bare_track(&mut lib, col_id, "Song", "/music/song.mp3");

    let updated = lib
        .update_track_inner(
            track_id,
            TrackUpdateInput {
                title: None,
                track_number: None,
                disc_number: None,
                lyrics: None,
                artist_name: Some("Band".to_string()),
                album_title: Some("Debut".to_string()),
                ..Default::default()
            },
        )
        .unwrap();

    assert_eq!(updated.artist_name, Some("Band".to_string()));
    assert_eq!(updated.album_title, Some("Debut".to_string()));

    let albums = lib.list_albums_inner(None).unwrap();
    assert_eq!(albums.len(), 1);
    let artists = lib.list_artists_inner().unwrap();
    assert_eq!(artists.len(), 1);
    assert_eq!(albums[0].artist_id, Some(artists[0].id));
}

#[test]
fn test_update_track_clears_album_with_empty_string() {
    let mut lib = Library::new();
    let col_id = add_test_collection(&mut lib, "");
    let tags = ExtractedTags {
        title: Some("Song".to_string()),
        album: Some("Album".to_string()),
        ..Default::default()
    };
    lib.process_track(col_id, "/music/s.mp3", 1000, &tags).unwrap();
    let track_id = lib.tracks.last().unwrap().id;
    assert!(lib.tracks.last().unwrap().album_id.is_some());

    let updated = lib
        .update_track_inner(
            track_id,
            TrackUpdateInput {
                title: None,
                track_number: None,
                disc_number: None,
                lyrics: None,
                artist_name: None,
                album_title: Some("".to_string()),
                ..Default::default()
            },
        )
        .unwrap();

    assert_eq!(updated.album_id, None);
    assert_eq!(updated.album_title, None);
}

#[test]
fn test_find_or_create_artist_idempotent() {
    let mut lib = Library::new();
    let id1 = lib.find_or_create_artist("Same Artist").unwrap();
    let id2 = lib.find_or_create_artist("Same Artist").unwrap();
    assert_eq!(id1, id2);
    let artists = lib.list_artists_inner().unwrap();
    assert_eq!(artists.len(), 1);
}

#[test]
fn test_find_or_create_album_idempotent() {
    let mut lib = Library::new();
    let artist_id = lib.find_or_create_artist("A").unwrap();
    let id1 = lib.find_or_create_album("Same Album", Some(artist_id)).unwrap();
    let id2 = lib.find_or_create_album("Same Album", Some(artist_id)).unwrap();
    assert_eq!(id1, id2);
    assert_eq!(lib.list_albums_inner(None).unwrap().len(), 1);
}

#[test]
fn test_unscoped_album_distinct_from_scoped() {
    let mut lib = Library::new();
    let artist_id = lib.find_or_create_artist("A").unwrap();
    let unscoped = lib.find_or_create_album("Same Title", None).unwrap();
    let scoped = lib.find_or_create_album("Same Title", Some(artist_id)).unwrap();
    assert_ne!(unscoped, scoped);
    assert_eq!(lib.list_albums_inner(None).unwrap().len(), 2);
}

#[test]
fn test_list_artists_empty() {
    let lib = Library::new();
    let result = lib.list_artists_inner().unwrap();
    assert!(result.is_empty());
}

#[test]
fn test_list_albums_empty() {
    let lib = Library::new();
    let result = lib.list_albums_inner(None).unwrap();
    assert!(result.is_empty());
}

#[test]
fn test_list_artists_after_insert() {
    let mut lib = Library::new();
    lib.find_or_create_artist("Artist A").unwrap();

    let artists = lib.list_artists_inner().unwrap();
    assert_eq!(artists.len(), 1);
    assert_eq!(artists[0].name, "Artist A");
}

#[test]
fn test_list_albums_after_insert() {
    let mut lib = Library::new();
    lib.find_or_create_album("Album X", None).unwrap();

    let albums = lib.list_albums_inner(None).unwrap();
    assert_eq!(albums.len(), 1);
    assert_eq!(albums[0].title, "Album X");
}

#[test]
fn test_list_albums_by_artist() {
    let mut lib = Library::new();
    let artist_id = lib.find_or_create_artist("Artist A").unwrap();
    lib.find_or_create_album("Album by A", Some(artist_id)).unwrap();
    lib.find_or_create_album("Album no artist", None).unwrap();

    let filtered = lib.list_albums_inner(Some(artist_id)).unwrap();
    assert_eq!(filtered.len(), 1);
    assert_eq!(filtered[0].title, "Album by A");
}

#[test]
fn test_list_artist_rows_empty() {
    let lib = Library::new();
    let result = lib.list_artist_rows_inner().unwrap();
    assert!(result.is_empty());
}

#[test]
fn test_list_artist_rows_aggregates() {
    let mut lib = Library::new();
    let artist_id = lib.find_or_create_artist("Artist A").unwrap();
    let album1_id = lib.find_or_create_album("Album 1", Some(artist_id)).unwrap();
    let _album2_id = lib.find_or_create_album("Album 2", Some(artist_id)).unwrap();
    let col_id = add_test_collection(&mut lib, "");

    // 3 tracks for this artist: 2 in album 1, 1 with no album; 120 s each.
    for (i, album) in [(1, Some("Album 1")), (2, Some("Album 1")), (3, None)] {
        let tags = ExtractedTags {
            title: Some(format!("Track {}", i)),
            artist: Some("Artist A".to_string()),
            album: album.map(|a| a.to_string()),
            duration_ms: Some(120_000),
            ..Default::default()
        };
        lib.process_track(col_id, &format!("/music/track{}.mp3", i), 1000, &tags).unwrap();
    }
    assert_eq!(lib.tracks[0].album_id, Some(album1_id));

    let rows = lib.list_artist_rows_inner().unwrap();
    assert_eq!(rows.len(), 1);
    assert_eq!(rows[0].name, "Artist A");
    assert_eq!(rows[0].album_count, 2);
    assert_eq!(rows[0].track_count, 3);
    assert_eq!(rows[0].total_duration_ms, 360_000);
}

#[test]
fn test_list_album_rows_empty() {
    let lib = Library::new();
    let result = lib.list_album_rows_inner().unwrap();
    assert!(result.is_empty());
}

#[test]
fn test_list_album_rows_aggregates() {
    let mut lib = Library::new();
    let artist_id = lib.find_or_create_artist("Artist B").unwrap();
    lib.find_or_create_album("Album X", Some(artist_id)).unwrap();
    // Year and genre sit directly on the stored row.
    lib.albums[0].year = Some(2020);
    lib.albums[0].genre = Some("Rock".to_string());

    let col_id = add_test_collection(&mut lib, "");

    // 2 tracks in this album, 200.5 s and 5000 bytes each.
    for i in 1..=2 {
        let tags = ExtractedTags {
            title: Some(format!("Track {}", i)),
            artist: Some("Artist B".to_string()),
            album: Some("Album X".to_string()),
            duration_ms: Some(200_500),
            ..Default::default()
        };
        lib.process_track(col_id, &format!("/music/track{}.mp3", i), 5000, &tags).unwrap();
    }

    let rows = lib.list_album_rows_inner().unwrap();
    assert_eq!(rows.len(), 1);
    assert_eq!(rows[0].title, "Album X");
    assert_eq!(rows[0].artist_name, Some("Artist B".to_string()));
    assert_eq!(rows[0].year, Some(2020));
    assert_eq!(rows[0].genre, Some("Rock".to_string()));
    assert_eq!(rows[0].track_count, 2);
    assert_eq!(rows[0].total_duration_ms, 401_000);
    assert_eq!(rows[0].total_size_bytes, 10_000);
}

#[test]
fn test_library_stats_empty() {
    let lib = Library::new();
    let stats = lib.get_library_stats_inner().unwrap();
    assert_eq!(stats.total_collections, 0);
    assert_eq!(stats.total_artists, 0);
    assert_eq!(stats.total_albums, 0);
    assert_eq!(stats.total_tracks, 0);
    assert_eq!(stats.total_size_bytes, 0);
    assert_eq!(stats.total_duration_ms, 0);
}

#[test]
fn test_library_stats_after_inserts() {
    let mut lib = Library::new();
    let col_id = add_test_collection(&mut lib, "");
    lib.find_or_create_artist("Artist").unwrap();
    lib.find_or_create_album("Album", None).unwrap();

    let tags = ExtractedTags {
        title: Some("Track".to_string()),
        duration_ms: Some(180_500),
        ..Default::default()
    };
    lib.process_track(col_id, "/music/track.mp3", 5000, &tags).unwrap();

    let stats = lib.get_library_stats_inner().unwrap();
    assert_eq!(stats.total_collections, 1);
    assert_eq!(stats.total_artists, 1);
    assert_eq!(stats.total_albums, 1);
    assert_eq!(stats.total_tracks, 1);
    assert_eq!(stats.total_size_bytes, 5000);
    assert_eq!(stats.total_duration_ms, 180_500);
}
