//! Cover art: deciding the deterministic file name an album's cover is
//! written under, recording the written path (first writer wins), and
//! packaging embedded picture bytes for a caller as base64 data with a
//! MIME type. Writing the image file itself is the caller's I/O.

use vstd::prelude::*;
use vstd::string::*;
use crate::models::{AlbumV, AppError, CoverArt, Picture, PictureMime};
use crate::seqtools::{first_match_idx, lemma_first_match_idx_props};
use crate::store::{
    album_by_id, lemma_rows_view_update, lemma_wf_album_update, LibModel, Library, track_of_album,
    track_of_artist, wf,
};
use crate::strutil::{append_i64_dec, i64_dec};
use crate::tracks::track_not_found_msg;

verus! {

/// The base64 rendering of a byte sequence, as base64's standard padded
/// alphabet produces it.
pub uninterp spec fn base64_of(b: Seq<u8>) -> Seq<char>;

/// Relies on base64's `Engine::encode` with the standard padded engine:
/// the result is a function of the bytes alone, four characters for
/// every three-byte group (the last group padded).
#[verifier::external_body]
fn encode_base64(b: &Vec<u8>) -> (r: String)
    requires
        b@.len() * 4 <= usize::MAX as nat,
    ensures
        r@ == base64_of(b@),
        r@.len() == 4 * ((b@.len() + 2) / 3),
{
    base64::Engine::encode(&base64::engine::general_purpose::STANDARD, b.as_slice())
}

/// The MIME type reported for an embedded picture: the kinds the
/// library distinguishes, with JPEG for everything else.
pub open spec fn mime_type_str(m: Option<PictureMime>) -> Seq<char> {
    match m {
        Some(PictureMime::Png) => "image/png"@,
        Some(PictureMime::Bmp) => "image/bmp"@,
        Some(PictureMime::Gif) => "image/gif"@,
        Some(PictureMime::Tiff) => "image/tiff"@,
        _ => "image/jpeg"@,
    }
}

/// The file extension an extracted cover is written under: `png` for a
/// declared PNG, `jpg` for everything else.
pub open spec fn cover_ext(m: Option<PictureMime>) -> Seq<char> {
    match m {
        Some(PictureMime::Png) => "png"@,
        _ => "jpg"@,
    }
}

/// The deterministic file name an album's cover is written under:
/// `<album id>.<extension>`.
pub open spec fn spec_cover_file_name(album_id: i64, m: Option<PictureMime>) -> Seq<char> {
    i64_dec(album_id as int) + "."@ + cover_ext(m)
}

/// Package an embedded picture for a caller: its bytes base64-encoded,
/// with the MIME type the tag declared (JPEG when unrecognized).
pub fn cover_art_from_picture(pic: &Picture) -> (r: CoverArt)
    requires
        pic.bytes@.len() * 4 <= usize::MAX as nat,
    ensures
        r.data@ == base64_of(pic@.bytes),
        r.mime_type@ == mime_type_str(pic@.mime),
{
    let data = encode_base64(&pic.bytes);
    let mime: &'static str = match pic.mime {
        Some(PictureMime::Png) => "image/png",
        Some(PictureMime::Bmp) => "image/bmp",
        Some(PictureMime::Gif) => "image/gif",
        Some(PictureMime::Tiff) => "image/tiff",
        _ => "image/jpeg",
    };
    CoverArt { data, mime_type: String::from_str(mime) }
}

/// The file name an album's cover is written under.
pub fn cover_file_name(album_id: i64, mime: Option<PictureMime>) -> (r: String)
    ensures
        r@ == spec_cover_file_name(album_id, mime),
{
    let mut s = String::new();
    append_i64_dec(&mut s, album_id);
    s.append(".");
    let ext: &'static str = match mime {
        Some(PictureMime::Png) => "png",
        _ => "jpg",
    };
    s.append(ext);
    proof {
        assert(s@ =~= spec_cover_file_name(album_id, mime));
    }
    s
}

/// What recording a written cover does to the store: the album's cover
/// path is set only if the album exists and has none yet; an existing
/// cover path is never overwritten.
pub open spec fn spec_set_album_cover(m: LibModel, album_id: i64, cover_path: Seq<char>) -> (
    LibModel,
    bool,
) {
    let f = first_match_idx(m.albums, album_by_id(album_id));
    if f >= 0 && m.albums[f].cover_path is None {
        (
            LibModel {
                albums: m.albums.update(f, AlbumV { cover_path: Some(cover_path), ..m.albums[f] }),
                ..m
            },
            true,
        )
    } else {
        (m, false)
    }
}

impl Library {
    /// Record that an album's cover was written to `cover_path`. The
    /// path is stored only if the album exists and has no cover yet;
    /// the result says whether it was stored.
    pub fn set_album_cover(&mut self, album_id: i64, cover_path: String) -> (r: bool)
        requires
            wf(old(self)@),
        ensures
            wf(final(self)@),
            ({
                let (m2, applied) = spec_set_album_cover(old(self)@, album_id, cover_path@);
                final(self)@ == m2 && r == applied
            }),
    {
        let ghost m = old(self)@;
        match self.find_album_by_id(album_id) {
            Some(k) => {
                proof {
                    lemma_first_match_idx_props(m.albums, album_by_id(album_id));
                }
                let has_cover = match &self.albums[k].cover_path {
                    Some(_) => true,
                    None => false,
                };
                if has_cover {
                    return false;
                }
                let al0 = &self.albums[k];
                let al1 = crate::models::Album {
                    id: al0.id,
                    title: al0.title.clone(),
                    artist_id: al0.artist_id,
                    year: al0.year,
                    genre: crate::strutil::clone_opt_str(&al0.genre),
                    cover_path: Some(cover_path),
                    musicbrainz_id: crate::strutil::clone_opt_str(&al0.musicbrainz_id),
                    created_at: al0.created_at.clone(),
                };
                let ghost al1g = al1;
                self.albums[k] = al1;
                proof {
                    lemma_rows_view_update(old(self).albums@, k as int, al1g);
                    assert(self@ =~= spec_set_album_cover(m, album_id, cover_path@).0);
                    lemma_wf_album_update(m, k as int, al1g@);
                }
                true
            },
            None => false,
        }
    }

    /// The stored file path of one track, for re-reading its embedded
    /// art; not-found for an unknown id.
    pub fn track_file_path(&self, track_id: i64) -> (r: Result<String, AppError>)
        ensures
            ({
                let f = first_match_idx(self@.tracks, crate::store::track_by_id(track_id));
                match r {
                    Ok(p) => f >= 0 && p@ == self@.tracks[f].file_path,
                    Err(e) => f < 0 && e.kind() == crate::models::ErrKind::NotFound && e.msg()
                        == track_not_found_msg(track_id),
                }
            }),
    {
        match self.find_track_by_id(track_id) {
            Some(k) => {
                proof {
                    lemma_first_match_idx_props(
                        self@.tracks,
                        crate::store::track_by_id(track_id),
                    );
                }
                Ok(self.tracks[k].file_path.clone())
            },
            None => {
                let mut msg = String::from_str("Track ");
                append_i64_dec(&mut msg, track_id);
                msg.append(" not found");
                proof {
                    assert(msg@ =~= track_not_found_msg(track_id));
                }
                Err(AppError::NotFound(msg))
            },
        }
    }

    /// The id of the first stored track belonging to an album, if any.
    pub fn first_track_id_for_album(&self, album_id: i64) -> (r: Option<i64>)
        ensures
            ({
                let f = first_match_idx(self@.tracks, track_of_album(album_id));
                match r {
                    Some(id) => f >= 0 && id == self@.tracks[f].id,
                    None => f < 0,
                }
            }),
    {
        match self.find_first_track_of_album(album_id) {
            Some(k) => {
                proof {
                    lemma_first_match_idx_props(self@.tracks, track_of_album(album_id));
                }
                Some(self.tracks[k].id)
            },
            None => None,
        }
    }

    /// The id of the first stored track credited to an artist, if any.
    pub fn first_track_id_for_artist(&self, artist_id: i64) -> (r: Option<i64>)
        ensures
            ({
                let f = first_match_idx(self@.tracks, track_of_artist(artist_id));
                match r {
                    Some(id) => f >= 0 && id == self@.tracks[f].id,
                    None => f < 0,
                }
            }),
    {
        match self.find_first_track_of_artist(artist_id) {
            Some(k) => {
                proof {
                    lemma_first_match_idx_props(self@.tracks, track_of_artist(artist_id));
                }
                Some(self.tracks[k].id)
            },
            None => None,
        }
    }
}

} // verus!
