//! The data model: rows of the library's relational store, the inputs
//! that operations take, and the error type shared by every operation.
//!
//! Each executable type has a ghost counterpart (`...V`) holding the
//! mathematical view of its fields; contracts are stated over those.

use vstd::prelude::*;

verus! {

/// Spec-level view of an `Option<String>`.
pub open spec fn str_opt_view(o: Option<String>) -> Option<Seq<char>> {
    match o {
        Some(s) => Some(s@),
        None => None,
    }
}

// ── Collections ──

/// A registered root directory of audio files.
#[derive(Debug, Clone)]
pub struct Collection {
    pub id: i64,
    pub path: String,
    pub label: Option<String>,
    pub created_at: String,
}

pub struct CollectionV {
    pub id: i64,
    pub path: Seq<char>,
    pub label: Option<Seq<char>>,
    pub created_at: Seq<char>,
}

impl View for Collection {
    type V = CollectionV;

    open spec fn view(&self) -> CollectionV {
        CollectionV {
            id: self.id,
            path: self.path@,
            label: str_opt_view(self.label),
            created_at: self.created_at@,
        }
    }
}

/// Input for registering a collection.
#[derive(Debug, Clone)]
pub struct CollectionInput {
    pub path: String,
    pub label: Option<String>,
}

pub struct CollectionInputV {
    pub path: Seq<char>,
    pub label: Option<Seq<char>>,
}

impl View for CollectionInput {
    type V = CollectionInputV;

    open spec fn view(&self) -> CollectionInputV {
        CollectionInputV { path: self.path@, label: str_opt_view(self.label) }
    }
}

// ── Artists ──

/// A distinct performer name; the name is the natural key.
#[derive(Debug, Clone)]
pub struct Artist {
    pub id: i64,
    pub name: String,
    pub sort_name: Option<String>,
    pub musicbrainz_id: Option<String>,
    pub created_at: String,
}

pub struct ArtistV {
    pub id: i64,
    pub name: Seq<char>,
    pub sort_name: Option<Seq<char>>,
    pub musicbrainz_id: Option<Seq<char>>,
    pub created_at: Seq<char>,
}

impl View for Artist {
    type V = ArtistV;

    open spec fn view(&self) -> ArtistV {
        ArtistV {
            id: self.id,
            name: self.name@,
            sort_name: str_opt_view(self.sort_name),
            musicbrainz_id: str_opt_view(self.musicbrainz_id),
            created_at: self.created_at@,
        }
    }
}

// ── Albums ──

/// A release, optionally scoped to an artist; (title, artist id) is the
/// natural key, where an unscoped album (artist id absent) is distinct
/// from any artist-scoped album of the same title.
#[derive(Debug, Clone)]
pub struct Album {
    pub id: i64,
    pub title: String,
    pub artist_id: Option<i64>,
    pub year: Option<i32>,
    pub genre: Option<String>,
    pub cover_path: Option<String>,
    pub musicbrainz_id: Option<String>,
    pub created_at: String,
}

pub struct AlbumV {
    pub id: i64,
    pub title: Seq<char>,
    pub artist_id: Option<i64>,
    pub year: Option<i32>,
    pub genre: Option<Seq<char>>,
    pub cover_path: Option<Seq<char>>,
    pub musicbrainz_id: Option<Seq<char>>,
    pub created_at: Seq<char>,
}

impl View for Album {
    type V = AlbumV;

    open spec fn view(&self) -> AlbumV {
        AlbumV {
            id: self.id,
            title: self.title@,
            artist_id: self.artist_id,
            year: self.year,
            genre: str_opt_view(self.genre),
            cover_path: str_opt_view(self.cover_path),
            musicbrainz_id: str_opt_view(self.musicbrainz_id),
            created_at: self.created_at@,
        }
    }
}

// ── Tracks ──

/// One audio file; the absolute, separator-normalized file path is the
/// track's identity. Durations are kept in whole milliseconds.
#[derive(Debug, Clone, Default)]
pub struct Track {
    pub id: i64,
    pub collection_id: i64,
    pub album_id: Option<i64>,
    pub artist_id: Option<i64>,
    pub title: String,
    pub track_number: Option<i32>,
    pub disc_number: Option<i32>,
    pub duration_ms: Option<u64>,
    pub file_path: String,
    pub file_size_bytes: u64,
    pub file_format: Option<String>,
    pub bitrate_kbps: Option<i32>,
    pub sample_rate_hz: Option<i32>,
    pub lyrics: Option<String>,
    pub created_at: String,
    pub updated_at: String,
    pub genre: Option<String>,
    pub album_artist: Option<String>,
    pub composer: Option<String>,
    pub bpm: Option<i32>,
    pub comment: Option<String>,
    pub comment_lang: Option<String>,
    pub year: Option<i32>,
    pub lyrics_lang: Option<String>,
    pub track_total: Option<i32>,
    pub disc_total: Option<i32>,
}

pub struct TrackV {
    pub id: i64,
    pub collection_id: i64,
    pub album_id: Option<i64>,
    pub artist_id: Option<i64>,
    pub title: Seq<char>,
    pub track_number: Option<i32>,
    pub disc_number: Option<i32>,
    pub duration_ms: Option<u64>,
    pub file_path: Seq<char>,
    pub file_size_bytes: u64,
    pub file_format: Option<Seq<char>>,
    pub bitrate_kbps: Option<i32>,
    pub sample_rate_hz: Option<i32>,
    pub lyrics: Option<Seq<char>>,
    pub created_at: Seq<char>,
    pub updated_at: Seq<char>,
    pub genre: Option<Seq<char>>,
    pub album_artist: Option<Seq<char>>,
    pub composer: Option<Seq<char>>,
    pub bpm: Option<i32>,
    pub comment: Option<Seq<char>>,
    pub comment_lang: Option<Seq<char>>,
    pub year: Option<i32>,
    pub lyrics_lang: Option<Seq<char>>,
    pub track_total: Option<i32>,
    pub disc_total: Option<i32>,
}

impl View for Track {
    type V = TrackV;

    open spec fn view(&self) -> TrackV {
        TrackV {
            id: self.id,
            collection_id: self.collection_id,
            album_id: self.album_id,
            artist_id: self.artist_id,
            title: self.title@,
            track_number: self.track_number,
            disc_number: self.disc_number,
            duration_ms: self.duration_ms,
            file_path: self.file_path@,
            file_size_bytes: self.file_size_bytes,
            file_format: str_opt_view(self.file_format),
            bitrate_kbps: self.bitrate_kbps,
            sample_rate_hz: self.sample_rate_hz,
            lyrics: str_opt_view(self.lyrics),
            created_at: self.created_at@,
            updated_at: self.updated_at@,
            genre: str_opt_view(self.genre),
            album_artist: str_opt_view(self.album_artist),
            composer: str_opt_view(self.composer),
            bpm: self.bpm,
            comment: str_opt_view(self.comment),
            comment_lang: str_opt_view(self.comment_lang),
            year: self.year,
            lyrics_lang: str_opt_view(self.lyrics_lang),
            track_total: self.track_total,
            disc_total: self.disc_total,
        }
    }
}

// ── Settings ──

/// Opaque key-value pair; the key is unique.
#[derive(Debug, Clone)]
pub struct Setting {
    pub key: String,
    pub value: String,
}

pub struct SettingV {
    pub key: Seq<char>,
    pub value: Seq<char>,
}

impl View for Setting {
    type V = SettingV;

    open spec fn view(&self) -> SettingV {
        SettingV { key: self.key@, value: self.value@ }
    }
}

// ── Track update input ──

/// Partial update of one track. For `artist_name` and `album_title` the
/// value is tri-state: absent leaves the association unchanged, an empty
/// string clears it, any other string resolves-or-creates the entity and
/// associates it. The extended tag fields are part of the interface but
/// not user-editable through this operation: the update leaves those
/// columns unchanged whatever they carry.
#[derive(Debug, Clone, Default)]
pub struct TrackUpdateInput {
    pub title: Option<String>,
    pub track_number: Option<i32>,
    pub disc_number: Option<i32>,
    pub lyrics: Option<String>,
    pub artist_name: Option<String>,
    pub album_title: Option<String>,
    pub genre: Option<String>,
    pub album_artist: Option<String>,
    pub composer: Option<String>,
    pub bpm: Option<i32>,
    pub comment: Option<String>,
    pub comment_lang: Option<String>,
    pub year: Option<i32>,
    pub lyrics_lang: Option<String>,
    pub track_total: Option<i32>,
    pub disc_total: Option<i32>,
}

pub struct TrackUpdateInputV {
    pub title: Option<Seq<char>>,
    pub track_number: Option<i32>,
    pub disc_number: Option<i32>,
    pub lyrics: Option<Seq<char>>,
    pub artist_name: Option<Seq<char>>,
    pub album_title: Option<Seq<char>>,
    pub genre: Option<Seq<char>>,
    pub album_artist: Option<Seq<char>>,
    pub composer: Option<Seq<char>>,
    pub bpm: Option<i32>,
    pub comment: Option<Seq<char>>,
    pub comment_lang: Option<Seq<char>>,
    pub year: Option<i32>,
    pub lyrics_lang: Option<Seq<char>>,
    pub track_total: Option<i32>,
    pub disc_total: Option<i32>,
}

impl View for TrackUpdateInput {
    type V = TrackUpdateInputV;

    open spec fn view(&self) -> TrackUpdateInputV {
        TrackUpdateInputV {
            title: str_opt_view(self.title),
            track_number: self.track_number,
            disc_number: self.disc_number,
            lyrics: str_opt_view(self.lyrics),
            artist_name: str_opt_view(self.artist_name),
            album_title: str_opt_view(self.album_title),
            genre: str_opt_view(self.genre),
            album_artist: str_opt_view(self.album_artist),
            composer: str_opt_view(self.composer),
            bpm: self.bpm,
            comment: str_opt_view(self.comment),
            comment_lang: str_opt_view(self.comment_lang),
            year: self.year,
            lyrics_lang: str_opt_view(self.lyrics_lang),
            track_total: self.track_total,
            disc_total: self.disc_total,
        }
    }
}

// ── Extracted tags ──

/// Image kinds an embedded picture may declare.
#[derive(Debug, Clone, Copy, PartialEq, Eq, Structural)]
pub enum PictureMime {
    Png,
    Bmp,
    Gif,
    Tiff,
    Other,
}

/// An embedded picture: raw bytes plus the declared image kind, if any.
#[derive(Debug, Clone)]
pub struct Picture {
    pub bytes: Vec<u8>,
    pub mime: Option<PictureMime>,
}

pub struct PictureV {
    pub bytes: Seq<u8>,
    pub mime: Option<PictureMime>,
}

impl View for Picture {
    type V = PictureV;

    open spec fn view(&self) -> PictureV {
        PictureV { bytes: self.bytes@, mime: self.mime }
    }
}

/// Spec-level view of an `Option<Picture>`.
pub open spec fn picture_opt_view(o: Option<Picture>) -> Option<PictureV> {
    match o {
        Some(p) => Some(p@),
        None => None,
    }
}

/// Best-effort metadata read from one audio file. Every field is
/// independently optional: a failed probe yields all fields absent, a
/// failed tag read may still carry the duration.
#[derive(Debug, Clone, Default)]
pub struct ExtractedTags {
    pub title: Option<String>,
    pub artist: Option<String>,
    pub album: Option<String>,
    pub year: Option<i32>,
    pub track_number: Option<i32>,
    pub disc_number: Option<i32>,
    pub duration_ms: Option<u64>,
    pub picture: Option<Picture>,
}

pub struct ExtractedTagsV {
    pub title: Option<Seq<char>>,
    pub artist: Option<Seq<char>>,
    pub album: Option<Seq<char>>,
    pub year: Option<i32>,
    pub track_number: Option<i32>,
    pub disc_number: Option<i32>,
    pub duration_ms: Option<u64>,
    pub picture: Option<PictureV>,
}

impl View for ExtractedTags {
    type V = ExtractedTagsV;

    open spec fn view(&self) -> ExtractedTagsV {
        ExtractedTagsV {
            title: str_opt_view(self.title),
            artist: str_opt_view(self.artist),
            album: str_opt_view(self.album),
            year: self.year,
            track_number: self.track_number,
            disc_number: self.disc_number,
            duration_ms: self.duration_ms,
            picture: picture_opt_view(self.picture),
        }
    }
}

/// Instruction to persist an album's cover image: which album it is for
/// and the image kind the file name's extension is derived from.
#[derive(Debug, Clone, Copy, PartialEq, Eq, Structural)]
pub struct CoverPlan {
    pub album_id: i64,
    pub mime: Option<PictureMime>,
}

// ── Joined and aggregate rows ──

/// A track joined with its artist's name and its album's title and
/// cover path, for display.
#[derive(Debug, Clone)]
pub struct TrackRow {
    pub id: i64,
    pub collection_id: i64,
    pub album_id: Option<i64>,
    pub artist_id: Option<i64>,
    pub title: String,
    pub track_number: Option<i32>,
    pub disc_number: Option<i32>,
    pub duration_ms: Option<u64>,
    pub file_path: String,
    pub file_size_bytes: u64,
    pub file_format: Option<String>,
    pub bitrate_kbps: Option<i32>,
    pub sample_rate_hz: Option<i32>,
    pub lyrics: Option<String>,
    pub created_at: String,
    pub updated_at: String,
    pub genre: Option<String>,
    pub album_artist: Option<String>,
    pub composer: Option<String>,
    pub bpm: Option<i32>,
    pub comment: Option<String>,
    pub comment_lang: Option<String>,
    pub year: Option<i32>,
    pub lyrics_lang: Option<String>,
    pub track_total: Option<i32>,
    pub disc_total: Option<i32>,
    pub artist_name: Option<String>,
    pub album_title: Option<String>,
    pub album_cover_path: Option<String>,
}

pub struct TrackRowV {
    pub id: i64,
    pub collection_id: i64,
    pub album_id: Option<i64>,
    pub artist_id: Option<i64>,
    pub title: Seq<char>,
    pub track_number: Option<i32>,
    pub disc_number: Option<i32>,
    pub duration_ms: Option<u64>,
    pub file_path: Seq<char>,
    pub file_size_bytes: u64,
    pub file_format: Option<Seq<char>>,
    pub bitrate_kbps: Option<i32>,
    pub sample_rate_hz: Option<i32>,
    pub lyrics: Option<Seq<char>>,
    pub created_at: Seq<char>,
    pub updated_at: Seq<char>,
    pub genre: Option<Seq<char>>,
    pub album_artist: Option<Seq<char>>,
    pub composer: Option<Seq<char>>,
    pub bpm: Option<i32>,
    pub comment: Option<Seq<char>>,
    pub comment_lang: Option<Seq<char>>,
    pub year: Option<i32>,
    pub lyrics_lang: Option<Seq<char>>,
    pub track_total: Option<i32>,
    pub disc_total: Option<i32>,
    pub artist_name: Option<Seq<char>>,
    pub album_title: Option<Seq<char>>,
    pub album_cover_path: Option<Seq<char>>,
}

impl View for TrackRow {
    type V = TrackRowV;

    open spec fn view(&self) -> TrackRowV {
        TrackRowV {
            id: self.id,
            collection_id: self.collection_id,
            album_id: self.album_id,
            artist_id: self.artist_id,
            title: self.title@,
            track_number: self.track_number,
            disc_number: self.disc_number,
            duration_ms: self.duration_ms,
            file_path: self.file_path@,
            file_size_bytes: self.file_size_bytes,
            file_format: str_opt_view(self.file_format),
            bitrate_kbps: self.bitrate_kbps,
            sample_rate_hz: self.sample_rate_hz,
            lyrics: str_opt_view(self.lyrics),
            created_at: self.created_at@,
            updated_at: self.updated_at@,
            genre: str_opt_view(self.genre),
            album_artist: str_opt_view(self.album_artist),
            composer: str_opt_view(self.composer),
            bpm: self.bpm,
            comment: str_opt_view(self.comment),
            comment_lang: str_opt_view(self.comment_lang),
            year: self.year,
            lyrics_lang: str_opt_view(self.lyrics_lang),
            track_total: self.track_total,
            disc_total: self.disc_total,
            artist_name: str_opt_view(self.artist_name),
            album_title: str_opt_view(self.album_title),
            album_cover_path: str_opt_view(self.album_cover_path),
        }
    }
}

/// An artist with album/track counts and summed duration.
#[derive(Debug, Clone)]
pub struct ArtistRow {
    pub id: i64,
    pub name: String,
    pub sort_name: Option<String>,
    pub album_count: usize,
    pub track_count: usize,
    pub total_duration_ms: u128,
}

pub struct ArtistRowV {
    pub id: i64,
    pub name: Seq<char>,
    pub sort_name: Option<Seq<char>>,
    pub album_count: usize,
    pub track_count: usize,
    pub total_duration_ms: u128,
}

impl View for ArtistRow {
    type V = ArtistRowV;

    open spec fn view(&self) -> ArtistRowV {
        ArtistRowV {
            id: self.id,
            name: self.name@,
            sort_name: str_opt_view(self.sort_name),
            album_count: self.album_count,
            track_count: self.track_count,
            total_duration_ms: self.total_duration_ms,
        }
    }
}

/// An album with its artist's name, track count and summed
/// duration/size.
#[derive(Debug, Clone)]
pub struct AlbumRow {
    pub id: i64,
    pub title: String,
    pub artist_name: Option<String>,
    pub year: Option<i32>,
    pub genre: Option<String>,
    pub track_count: usize,
    pub total_duration_ms: u128,
    pub total_size_bytes: u128,
}

pub struct AlbumRowV {
    pub id: i64,
    pub title: Seq<char>,
    pub artist_name: Option<Seq<char>>,
    pub year: Option<i32>,
    pub genre: Option<Seq<char>>,
    pub track_count: usize,
    pub total_duration_ms: u128,
    pub total_size_bytes: u128,
}

impl View for AlbumRow {
    type V = AlbumRowV;

    open spec fn view(&self) -> AlbumRowV {
        AlbumRowV {
            id: self.id,
            title: self.title@,
            artist_name: str_opt_view(self.artist_name),
            year: self.year,
            genre: str_opt_view(self.genre),
            track_count: self.track_count,
            total_duration_ms: self.total_duration_ms,
            total_size_bytes: self.total_size_bytes,
        }
    }
}

/// Whole-library aggregates; all zero on an empty store.
#[derive(Debug, Clone, PartialEq, Eq, Structural)]
pub struct LibraryStats {
    pub total_collections: usize,
    pub total_artists: usize,
    pub total_albums: usize,
    pub total_tracks: usize,
    pub total_size_bytes: u128,
    pub total_duration_ms: u128,
}

/// Cover art handed back to a caller: base64-encoded image data plus
/// its MIME type.
#[derive(Debug, Clone)]
pub struct CoverArt {
    pub data: String,
    pub mime_type: String,
}

/// One extra tag frame attached to a track.
#[derive(Debug, Clone)]
pub struct ExtraTag {
    pub frame_id: String,
    pub value: String,
}

// ── Errors ──

/// The error kinds the library distinguishes, as a plain tag for use in
/// specifications.
#[derive(Debug, Clone, Copy, PartialEq, Eq, Structural)]
pub enum ErrKind {
    Database,
    NotFound,
    InvalidInput,
    Io,
    Serialization,
}

/// The error type of every operation; each variant carries a
/// human-readable message.
#[derive(Debug, Clone)]
pub enum AppError {
    Database(String),
    NotFound(String),
    InvalidInput(String),
    Io(String),
    Serialization(String),
}

impl AppError {
    /// The kind tag of this error.
    pub open spec fn kind(&self) -> ErrKind {
        match self {
            AppError::Database(_) => ErrKind::Database,
            AppError::NotFound(_) => ErrKind::NotFound,
            AppError::InvalidInput(_) => ErrKind::InvalidInput,
            AppError::Io(_) => ErrKind::Io,
            AppError::Serialization(_) => ErrKind::Serialization,
        }
    }

    /// The view of this error's message.
    pub open spec fn msg(&self) -> Seq<char> {
        match self {
            AppError::Database(s) => s@,
            AppError::NotFound(s) => s@,
            AppError::InvalidInput(s) => s@,
            AppError::Io(s) => s@,
            AppError::Serialization(s) => s@,
        }
    }

    /// The message carried by this error, for display by a caller.
    pub fn message(self) -> (r: String)
        ensures
            r@ == self.msg(),
    {
        match self {
            AppError::Database(s) => s,
            AppError::NotFound(s) => s,
            AppError::InvalidInput(s) => s,
            AppError::Io(s) => s,
            AppError::Serialization(s) => s,
        }
    }
}


// ── Field-wise copies (contracts speak of views, so these are the
// clones verified code uses) ──

impl Collection {
    /// A copy with the same view.
    pub fn duplicate(&self) -> (r: Collection)
        ensures
            r@ == self@,
    {
        Collection {
            id: self.id,
            path: self.path.clone(),
            label: crate::strutil::clone_opt_str(&self.label),
            created_at: self.created_at.clone(),
        }
    }
}

impl Artist {
    /// A copy with the same view.
    pub fn duplicate(&self) -> (r: Artist)
        ensures
            r@ == self@,
    {
        Artist {
            id: self.id,
            name: self.name.clone(),
            sort_name: crate::strutil::clone_opt_str(&self.sort_name),
            musicbrainz_id: crate::strutil::clone_opt_str(&self.musicbrainz_id),
            created_at: self.created_at.clone(),
        }
    }
}

impl Album {
    /// A copy with the same view.
    pub fn duplicate(&self) -> (r: Album)
        ensures
            r@ == self@,
    {
        Album {
            id: self.id,
            title: self.title.clone(),
            artist_id: self.artist_id,
            year: self.year,
            genre: crate::strutil::clone_opt_str(&self.genre),
            cover_path: crate::strutil::clone_opt_str(&self.cover_path),
            musicbrainz_id: crate::strutil::clone_opt_str(&self.musicbrainz_id),
            created_at: self.created_at.clone(),
        }
    }
}

impl Track {
    /// A copy with the same view.
    pub fn duplicate(&self) -> (r: Track)
        ensures
            r@ == self@,
    {
        Track {
            id: self.id,
            collection_id: self.collection_id,
            album_id: self.album_id,
            artist_id: self.artist_id,
            title: self.title.clone(),
            track_number: self.track_number,
            disc_number: self.disc_number,
            duration_ms: self.duration_ms,
            file_path: self.file_path.clone(),
            file_size_bytes: self.file_size_bytes,
            file_format: crate::strutil::clone_opt_str(&self.file_format),
            bitrate_kbps: self.bitrate_kbps,
            sample_rate_hz: self.sample_rate_hz,
            lyrics: crate::strutil::clone_opt_str(&self.lyrics),
            created_at: self.created_at.clone(),
            updated_at: self.updated_at.clone(),
            genre: crate::strutil::clone_opt_str(&self.genre),
            album_artist: crate::strutil::clone_opt_str(&self.album_artist),
            composer: crate::strutil::clone_opt_str(&self.composer),
            bpm: self.bpm,
            comment: crate::strutil::clone_opt_str(&self.comment),
            comment_lang: crate::strutil::clone_opt_str(&self.comment_lang),
            year: self.year,
            lyrics_lang: crate::strutil::clone_opt_str(&self.lyrics_lang),
            track_total: self.track_total,
            disc_total: self.disc_total,
        }
    }
}

impl Setting {
    /// A copy with the same view.
    pub fn duplicate(&self) -> (r: Setting)
        ensures
            r@ == self@,
    {
        Setting { key: self.key.clone(), value: self.value.clone() }
    }
}

} // verus!
