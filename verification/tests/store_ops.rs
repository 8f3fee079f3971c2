//! Collection registration, settings, clearing and the debug dump.

use chant::models::{AppError, CollectionInput};
use chant::store::Library;

fn abs_test_path(suffix: &str) -> String {
    format!("/music{}", suffix)
}

#[test]
fn test_list_collections_empty() {
    let lib = Library::new();
    let result = lib.list_collections_inner().unwrap();
    assert!(result.is_empty());
}

#[test]
fn test_add_and_list_collection() {
    let mut lib = Library::new();
    let path = abs_test_path("/library");
    let input = CollectionInput { path: path.clone(), label: Some("My Music".to_string()) };
    let col = lib.add_collection_inner(input, true, true).unwrap();
    assert_eq!(col.path, path);
    assert_eq!(col.label, Some("My Music".to_string()));

    let all = lib.list_collections_inner().unwrap();
    assert_eq!(all.len(), 1);
    assert_eq!(all[0].id, col.id);
}

#[test]
fn test_add_collection_rejects_relative_path() {
    let mut lib = Library::new();
    let input = CollectionInput { path: "relative/path".to_string(), label: None };
    let result = lib.add_collection_inner(input, true, true);
    assert!(result.is_err());
    match result.unwrap_err() {
        AppError::InvalidInput(msg) => assert!(msg.contains("absolute")),
        other => panic!("Expected InvalidInput, got {:?}", other),
    }
}

#[test]
fn test_add_collection_missing_path_rejected() {
    let mut lib = Library::new();
    let input = CollectionInput { path: "/music/gone".to_string(), label: None };
    let result = lib.add_collection_inner(input, false, false);
    match result.unwrap_err() {
        AppError::InvalidInput(msg) => assert!(msg.contains("does not exist")),
        other => panic!("Expected InvalidInput, got {:?}", other),
    }
}

#[test]
fn test_add_collection_duplicate_path_upserts() {
    let mut lib = Library::new();
    let path = abs_test_path("/library");
    let input1 = CollectionInput { path: path.clone(), label: Some("Label 1".to_string()) };
    let col1 = lib.add_collection_inner(input1, true, true).unwrap();

    let input2 = CollectionInput { path: path.clone(), label: Some("Label 2".to_string()) };
    let col2 = lib.add_collection_inner(input2, true, true).unwrap();

    assert_eq!(col1.id, col2.id);
    assert_eq!(col2.label, Some("Label 2".to_string()));

    let all = lib.list_collections_inner().unwrap();
    assert_eq!(all.len(), 1);
}

#[test]
fn test_delete_collection() {
    let mut lib = Library::new();
    let path = abs_test_path("/library");
    let input = CollectionInput { path, label: None };
    let col = lib.add_collection_inner(input, true, true).unwrap();
    lib.delete_collection_inner(col.id).unwrap();

    let all = lib.list_collections_inner().unwrap();
    assert!(all.is_empty());
}

#[test]
fn test_get_setting_missing() {
    let lib = Library::new();
    let result = lib.get_setting_inner("nonexistent").unwrap();
    assert!(result.is_none());
}

#[test]
fn test_set_and_get_setting() {
    let mut lib = Library::new();
    lib.set_setting_inner("theme", "dark").unwrap();
    let val = lib.get_setting_inner("theme").unwrap();
    assert_eq!(val, Some("dark".to_string()));
}

#[test]
fn test_set_setting_overwrites() {
    let mut lib = Library::new();
    lib.set_setting_inner("theme", "dark").unwrap();
    lib.set_setting_inner("theme", "light").unwrap();
    let val = lib.get_setting_inner("theme").unwrap();
    assert_eq!(val, Some("light".to_string()));
}

#[test]
fn test_get_all_settings() {
    let mut lib = Library::new();
    lib.set_setting_inner("a_key", "val1").unwrap();
    lib.set_setting_inner("b_key", "val2").unwrap();
    let all = lib.get_all_settings_inner().unwrap();
    assert_eq!(all.len(), 2);
    assert_eq!(all[0].key, "a_key");
    assert_eq!(all[1].key, "b_key");
}

#[test]
fn test_debug_query_table_rejects_invalid() {
    let lib = Library::new();
    let result = lib.debug_query_table_inner("users");
    assert!(result.is_err());
    match result.unwrap_err() {
        AppError::InvalidInput(msg) => assert!(msg.contains("users")),
        other => panic!("Expected InvalidInput, got {:?}", other),
    }
}

#[test]
fn test_debug_query_table_allowed() {
    let lib = Library::new();
    let result = lib.debug_query_table_inner("collections").unwrap();
    assert!(result.is_empty());
}

#[test]
fn test_debug_query_table_renders_rows() {
    let mut lib = Library::new();
    lib.find_or_create_artist("Dump Artist").unwrap();
    let rows = lib.debug_query_table_inner("artists").unwrap();
    assert_eq!(rows.len(), 1);
    let row = &rows[0];
    assert_eq!(row[0], ("id".to_string(), "1".to_string()));
    assert_eq!(row[1], ("name".to_string(), "Dump Artist".to_string()));
    assert_eq!(row[2], ("sort_name".to_string(), "NULL".to_string()));
}

#[test]
fn test_clear_all_data() {
    let mut lib = Library::new();
    let artist_id = lib.find_or_create_artist("Artist X").unwrap();
    let _album_id = lib.find_or_create_album("Album X", Some(artist_id)).unwrap();
    let col = lib
        .add_collection_inner(
            CollectionInput { path: "/music".to_string(), label: Some("Test".to_string()) },
            true,
            true,
        )
        .unwrap();
    let tags = chant::models::ExtractedTags {
        title: Some("Track X".to_string()),
        artist: Some("Artist X".to_string()),
        album: Some("Album X".to_string()),
        ..Default::default()
    };
    lib.process_track(col.id, "/music/track.mp3", 1000, &tags).unwrap();

    lib.clear_all_data_inner().unwrap();

    let artists = lib.list_artists_inner().unwrap();
    let albums = lib.list_albums_inner(None).unwrap();
    let collections = lib.list_collections_inner().unwrap();
    let tracks = lib.list_tracks_inner().unwrap();

    assert!(artists.is_empty(), "artists should be empty after clear");
    assert!(albums.is_empty(), "albums should be empty after clear");
    assert!(collections.is_empty(), "collections should be empty after clear");
    assert!(tracks.is_empty(), "tracks should be empty after clear");
}

#[test]
fn test_clear_preserves_settings() {
    let mut lib = Library::new();
    lib.set_setting_inner("theme", "dark").unwrap();
    let col = lib
        .add_collection_inner(
            CollectionInput { path: "/music".to_string(), label: None },
            true,
            true,
        )
        .unwrap();
    let tags = chant::models::ExtractedTags::default();
    lib.process_track(col.id, "/music/a.mp3", 10, &tags).unwrap();

    lib.clear_all_data_inner().unwrap();

    assert!(lib.list_tracks_inner().unwrap().is_empty());
    assert_eq!(lib.get_setting_inner("theme").unwrap(), Some("dark".to_string()));
}

#[test]
fn test_artist_id_space_exhaustion_reported() {
    let mut lib = Library::new();
    lib.next_artist_id = i64::MAX;
    match lib.find_or_create_artist("Anyone").unwrap_err() {
        AppError::Database(_) => {},
        other => panic!("Expected Database, got {:?}", other),
    }
    assert!(lib.list_artists_inner().unwrap().is_empty());
}
