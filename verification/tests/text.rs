//! Path handling, decimal rendering, and the cover-art packaging that
//! goes through the base64 encoder.

use chant::covers::{cover_art_from_picture, cover_file_name};
use chant::models::{Picture, PictureMime};
use chant::paths::{is_absolute_path, is_audio_path, path_extension, path_file_stem};
use chant::strutil::{i64_to_dec_string, u64_to_dec_string};

#[test]
fn test_is_absolute_path_rules() {
    assert!(is_absolute_path("/music"));
    assert!(is_absolute_path("\\share\\x"));
    assert!(is_absolute_path("C:/music"));
    assert!(is_absolute_path("c:\\music"));
    assert!(!is_absolute_path("relative/path"));
    assert!(!is_absolute_path("C:"));
    assert!(!is_absolute_path(""));
}

#[test]
fn test_audio_extension_allow_list() {
    assert!(is_audio_path("/music/a.mp3"));
    assert!(is_audio_path("/music/a.MP3"));
    assert!(is_audio_path("/music/a.FlAc"));
    assert!(is_audio_path("/music/a.m4a"));
    assert!(is_audio_path("/music/a.wav"));
    assert!(is_audio_path("/music/a.ogg"));
    assert!(is_audio_path("/music/a.opus"));
    assert!(is_audio_path("/music/a.wma"));
    assert!(!is_audio_path("/music/a.txt"));
    assert!(!is_audio_path("/music/mp3"));
    assert!(!is_audio_path("/music/a."));
    assert!(!is_audio_path("/music/.mp3"));
}

#[test]
fn test_stem_and_extension() {
    assert_eq!(path_file_stem("/music/My Song.mp3"), "My Song");
    assert_eq!(path_file_stem("/music/noext"), "noext");
    assert_eq!(path_file_stem("/music/.hidden"), ".hidden");
    assert_eq!(path_file_stem("/music/a.b.c"), "a.b");
    assert_eq!(path_extension("/music/My Song.mp3"), Some("mp3".to_string()));
    assert_eq!(path_extension("/music/track.FLAC"), Some("FLAC".to_string()));
    assert_eq!(path_extension("/music/noext"), None);
    assert_eq!(path_extension("/music/.hidden"), None);
}

#[test]
fn test_decimal_rendering() {
    assert_eq!(i64_to_dec_string(0), "0");
    assert_eq!(i64_to_dec_string(907), "907");
    assert_eq!(i64_to_dec_string(-123), "-123");
    assert_eq!(i64_to_dec_string(i64::MIN), "-9223372036854775808");
    assert_eq!(u64_to_dec_string(18446744073709551615), "18446744073709551615");
}

#[test]
fn test_cover_file_name_shapes() {
    assert_eq!(cover_file_name(7, Some(PictureMime::Png)), "7.png");
    assert_eq!(cover_file_name(12, Some(PictureMime::Gif)), "12.jpg");
    assert_eq!(cover_file_name(3, None), "3.jpg");
}

#[test]
fn test_cover_art_base64_exact() {
    // "Man" is the classic base64 example: its encoding is "TWFu".
    let pic = Picture { bytes: vec![77, 97, 110], mime: Some(PictureMime::Png) };
    let art = cover_art_from_picture(&pic);
    assert_eq!(art.data, "TWFu");
    assert_eq!(art.mime_type, "image/png");
}

#[test]
fn test_cover_art_padding_and_default_mime() {
    let pic = Picture { bytes: vec![77, 97], mime: None };
    let art = cover_art_from_picture(&pic);
    assert_eq!(art.data, "TWE=");
    assert_eq!(art.mime_type, "image/jpeg");

    let pic2 = Picture { bytes: vec![0x89, 0x50, 0x4E, 0x47], mime: Some(PictureMime::Tiff) };
    let art2 = cover_art_from_picture(&pic2);
    // Cross-check against the encoder the caller would use.
    let expected = base64::Engine::encode(&base64::engine::general_purpose::STANDARD, [
        0x89u8, 0x50, 0x4E, 0x47,
    ]);
    assert_eq!(art2.data, expected);
    assert_eq!(art2.mime_type, "image/tiff");
}
