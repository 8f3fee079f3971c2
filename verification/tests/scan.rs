//! The scan pipeline at the store level: reconciling files, idempotent
//! re-scans, cover-art policy, and the one-file end-to-end scenario.

use chant::models::{AppError, CollectionInput, ExtractedTags, Picture, PictureMime};
use chant::store::Library;

fn add_music_collection(lib: &mut Library) -> i64 {
    lib.add_collection_inner(
        CollectionInput { path: "/music".to_string(), label: None },
        true,
        true,
    )
    .unwrap()
    .id
}

fn png_fixture_bytes() -> Vec<u8> {
    vec![
        0x89, 0x50, 0x4E, 0x47, 0x0D, 0x0A, 0x1A, 0x0A, 0x00, 0x00, 0x00, 0x0D, 0x49, 0x48, 0x44,
        0x52, 0x00, 0x00, 0x00, 0x01, 0x00, 0x00, 0x00, 0x01, 0x08, 0x02, 0x00, 0x00, 0x00, 0x90,
        0x77, 0x53, 0xDE, 0x00, 0x00, 0x00, 0x0C, 0x49, 0x44, 0x41, 0x54, 0x08, 0xD7, 0x63, 0xF8,
        0xCF, 0xC0, 0x00, 0x00, 0x00, 0x02, 0x00, 0x01, 0xE2, 0x21, 0xBC, 0x33, 0x00, 0x00, 0x00,
        0x00, 0x49, 0x45, 0x4E, 0x44, 0xAE, 0x42, 0x60, 0x82,
    ]
}

#[test]
fn test_process_track_unknown_collection_fails() {
    let mut lib = Library::new();
    let tags = ExtractedTags::default();
    match lib.process_track(42, "/music/a.mp3", 10, &tags).unwrap_err() {
        AppError::Database(_) => {},
        other => panic!("Expected Database, got {:?}", other),
    }
    assert!(lib.list_tracks_inner().unwrap().is_empty());
}

#[test]
fn test_process_track_title_falls_back_to_stem() {
    let mut lib = Library::new();
    let col_id = add_music_collection(&mut lib);
    let tags = ExtractedTags::default();
    lib.process_track(col_id, "/music/My Song.mp3", 10, &tags).unwrap();
    let tracks = lib.list_tracks_inner().unwrap();
    assert_eq!(tracks[0].title, "My Song");
    assert_eq!(tracks[0].file_format, Some("mp3".to_string()));
}

#[test]
fn test_process_track_title_unknown_when_no_stem() {
    let mut lib = Library::new();
    let col_id = add_music_collection(&mut lib);
    let tags = ExtractedTags::default();
    lib.process_track(col_id, "/music/nested/", 10, &tags).unwrap();
    let tracks = lib.list_tracks_inner().unwrap();
    assert_eq!(tracks[0].title, "Unknown Track");
}

#[test]
fn test_process_track_normalizes_separators() {
    let mut lib = Library::new();
    let col_id = add_music_collection(&mut lib);
    let tags = ExtractedTags { title: Some("One".to_string()), ..Default::default() };
    lib.process_track(col_id, "C:\\music\\one.mp3", 10, &tags).unwrap();
    let tracks = lib.list_tracks_inner().unwrap();
    assert_eq!(tracks[0].file_path, "C:/music/one.mp3");

    // The same file under native separators is recognized as the same
    // track.
    lib.process_track(col_id, "C:/music/one.mp3", 11, &tags).unwrap();
    assert_eq!(lib.list_tracks_inner().unwrap().len(), 1);
}

#[test]
fn test_rescan_is_idempotent() {
    let mut lib = Library::new();
    let col_id = add_music_collection(&mut lib);
    let tags = ExtractedTags {
        title: Some("Test Track".to_string()),
        artist: Some("Test Artist".to_string()),
        album: Some("Test Album".to_string()),
        track_number: Some(1),
        duration_ms: Some(60_000),
        ..Default::default()
    };
    lib.process_track_at(col_id, "/music/t.mp3", 10, &tags, "2024-01-01T00:00:00+00:00".to_string())
        .unwrap();
    let first = lib.get_track_inner(lib.tracks[0].id).unwrap();

    lib.process_track_at(col_id, "/music/t.mp3", 10, &tags, "2024-02-02T00:00:00+00:00".to_string())
        .unwrap();

    assert_eq!(lib.list_artists_inner().unwrap().len(), 1);
    assert_eq!(lib.list_albums_inner(None).unwrap().len(), 1);
    let tracks = lib.list_tracks_inner().unwrap();
    assert_eq!(tracks.len(), 1);
    assert_eq!(tracks[0].id, first.id);
    assert_eq!(tracks[0].created_at, "2024-01-01T00:00:00+00:00");
    assert_eq!(tracks[0].updated_at, "2024-02-02T00:00:00+00:00");
}

#[test]
fn test_cover_first_writer_wins() {
    let mut lib = Library::new();
    let col_id = add_music_collection(&mut lib);
    let art1 = vec![1u8, 2, 3];
    let art2 = vec![9u8, 9, 9];
    let tags1 = ExtractedTags {
        title: Some("One".to_string()),
        album: Some("Shared".to_string()),
        picture: Some(Picture { bytes: art1.clone(), mime: Some(PictureMime::Png) }),
        ..Default::default()
    };
    let plan1 = lib.process_track(col_id, "/music/one.mp3", 10, &tags1).unwrap();
    let plan1 = plan1.expect("first file should yield a cover plan");
    let name = chant::covers::cover_file_name(plan1.album_id, plan1.mime);
    assert_eq!(name, format!("{}.png", plan1.album_id));
    assert!(lib.set_album_cover(plan1.album_id, format!("/covers/{}", name)));

    // A second file of the same album with different art yields no
    // plan: the first cover stays.
    let tags2 = ExtractedTags {
        title: Some("Two".to_string()),
        album: Some("Shared".to_string()),
        picture: Some(Picture { bytes: art2, mime: Some(PictureMime::Png) }),
        ..Default::default()
    };
    let plan2 = lib.process_track(col_id, "/music/two.mp3", 10, &tags2).unwrap();
    assert!(plan2.is_none(), "second file must not replace the cover");
    let albums = lib.list_albums_inner(None).unwrap();
    assert_eq!(albums.len(), 1);
    assert_eq!(albums[0].cover_path, Some(format!("/covers/{}.png", plan1.album_id)));

    // Recording another path for the same album is refused too.
    assert!(!lib.set_album_cover(plan1.album_id, "/covers/other.png".to_string()));
    assert_eq!(
        lib.list_albums_inner(None).unwrap()[0].cover_path,
        Some(format!("/covers/{}.png", plan1.album_id))
    );
}

#[test]
fn test_scan_single_tagged_file_scenario() {
    let mut lib = Library::new();
    // Register /music, skipping the existence check.
    let col = lib
        .add_collection_inner(
            CollectionInput { path: "/music".to_string(), label: None },
            true,
            true,
        )
        .unwrap();
    let png = png_fixture_bytes();
    let tags = ExtractedTags {
        title: Some("Test Track".to_string()),
        artist: Some("Test Artist".to_string()),
        album: Some("Test Album".to_string()),
        track_number: Some(1),
        picture: Some(Picture { bytes: png.clone(), mime: Some(PictureMime::Png) }),
        ..Default::default()
    };
    let plan = lib.process_track(col.id, "/music/test.mp3", 1251, &tags).unwrap();

    let tracks = lib.list_tracks_inner().unwrap();
    assert_eq!(tracks.len(), 1);
    assert_eq!(tracks[0].title, "Test Track");
    assert_eq!(tracks[0].artist_name, Some("Test Artist".to_string()));
    assert_eq!(tracks[0].album_title, Some("Test Album".to_string()));
    assert_eq!(tracks[0].track_number, Some(1));

    let artists = lib.list_artists_inner().unwrap();
    assert_eq!(artists.len(), 1);
    assert_eq!(artists[0].name, "Test Artist");

    let albums = lib.list_albums_inner(None).unwrap();
    assert_eq!(albums.len(), 1);
    assert_eq!(albums[0].title, "Test Album");

    // The cover is to be written once, under the album's id, and its
    // bytes are exactly the embedded PNG (the caller writes them).
    let plan = plan.expect("the album needs its cover");
    assert_eq!(plan.album_id, albums[0].id);
    let name = chant::covers::cover_file_name(plan.album_id, plan.mime);
    assert_eq!(name, format!("{}.png", albums[0].id));
    assert_eq!(tags.picture.as_ref().unwrap().bytes, png);
    assert!(lib.set_album_cover(plan.album_id, format!("/covers/{}", name)));
    assert_eq!(
        lib.list_albums_inner(None).unwrap()[0].cover_path,
        Some(format!("/covers/{}.png", albums[0].id))
    );
}

#[test]
fn test_list_tracks_by_album() {
    let mut lib = Library::new();
    let col_id = add_music_collection(&mut lib);
    let tags_a = ExtractedTags {
        title: Some("A".to_string()),
        album: Some("First".to_string()),
        ..Default::default()
    };
    let tags_b = ExtractedTags {
        title: Some("B".to_string()),
        album: Some("Second".to_string()),
        ..Default::default()
    };
    lib.process_track(col_id, "/music/a.mp3", 1, &tags_a).unwrap();
    lib.process_track(col_id, "/music/b.mp3", 1, &tags_b).unwrap();

    let albums = lib.list_albums_inner(None).unwrap();
    let first_id = albums.iter().find(|al| al.title == "First").unwrap().id;
    let rows = lib.list_tracks_by_album_inner(first_id).unwrap();
    assert_eq!(rows.len(), 1);
    assert_eq!(rows[0].title, "A");
}

#[test]
fn test_delete_collection_cascades_to_tracks() {
    let mut lib = Library::new();
    let col_a = lib
        .add_collection_inner(
            CollectionInput { path: "/music".to_string(), label: None },
            true,
            true,
        )
        .unwrap();
    let col_b = lib
        .add_collection_inner(
            CollectionInput { path: "/other".to_string(), label: None },
            true,
            true,
        )
        .unwrap();
    let tags = ExtractedTags::default();
    lib.process_track(col_a.id, "/music/a.mp3", 1, &tags).unwrap();
    lib.process_track(col_b.id, "/other/b.mp3", 1, &tags).unwrap();

    lib.delete_collection_inner(col_a.id).unwrap();

    let tracks = lib.list_tracks_inner().unwrap();
    assert_eq!(tracks.len(), 1);
    assert_eq!(tracks[0].file_path, "/other/b.mp3");
    assert_eq!(lib.list_collections_inner().unwrap().len(), 1);
}

#[test]
fn test_first_track_lookups() {
    let mut lib = Library::new();
    let col_id = add_music_collection(&mut lib);
    let tags = ExtractedTags {
        title: Some("T".to_string()),
        artist: Some("Ar".to_string()),
        album: Some("Al".to_string()),
        ..Default::default()
    };
    lib.process_track(col_id, "/music/t.mp3", 1, &tags).unwrap();
    let track = &lib.list_tracks_inner().unwrap()[0];
    assert_eq!(lib.first_track_id_for_album(track.album_id.unwrap()), Some(track.id));
    assert_eq!(lib.first_track_id_for_artist(track.artist_id.unwrap()), Some(track.id));
    assert_eq!(lib.first_track_id_for_album(99), None);
    assert_eq!(lib.track_file_path(track.id).unwrap(), "/music/t.mp3");
    assert!(lib.track_file_path(777).is_err());
    assert_eq!(lib.collection_root_path(col_id).unwrap(), "/music");
    match lib.collection_root_path(555).unwrap_err() {
        AppError::NotFound(msg) => assert_eq!(msg, "Collection 555 not found"),
        other => panic!("Expected NotFound, got {:?}", other),
    }
}

#[test]
fn test_rescan_collection_idempotent() {
    let mut lib = Library::new();
    let col_id = add_music_collection(&mut lib);
    let mk = |title: &str, track: i32| ExtractedTags {
        title: Some(title.to_string()),
        artist: Some("Shared Artist".to_string()),
        album: Some("Shared Album".to_string()),
        track_number: Some(track),
        duration_ms: Some(30_000),
        ..Default::default()
    };
    let first_pass = "2024-01-01T00:00:00+00:00".to_string();
    let second_pass = "2024-03-03T00:00:00+00:00".to_string();
    lib.process_track_at(col_id, "/music/a.mp3", 10, &mk("A", 1), first_pass.clone()).unwrap();
    lib.process_track_at(col_id, "/music/b.mp3", 11, &mk("B", 2), first_pass.clone()).unwrap();
    assert_eq!(lib.list_artists_inner().unwrap().len(), 1);
    assert_eq!(lib.list_albums_inner(None).unwrap().len(), 1);
    assert_eq!(lib.list_tracks_inner().unwrap().len(), 2);

    lib.process_track_at(col_id, "/music/a.mp3", 10, &mk("A", 1), second_pass.clone()).unwrap();
    lib.process_track_at(col_id, "/music/b.mp3", 11, &mk("B", 2), second_pass.clone()).unwrap();
    assert_eq!(lib.list_artists_inner().unwrap().len(), 1);
    assert_eq!(lib.list_albums_inner(None).unwrap().len(), 1);
    let tracks = lib.list_tracks_inner().unwrap();
    assert_eq!(tracks.len(), 2);
    for t in &tracks {
        assert_eq!(t.created_at, first_pass);
        assert_eq!(t.updated_at, second_pass);
    }
}
