//! The debug-only table dump: rows of one store table rendered as
//! column-name/value string pairs, restricted to a fixed allow list of
//! table names and capped at 500 rows.

use vstd::prelude::*;
use vstd::string::*;
use crate::models::{
    Album, AlbumV, AppError, Artist, ArtistV, Collection, CollectionV, ErrKind, Setting, SettingV,
    str_opt_view, Track, TrackV,
};
use crate::store::{LibModel, Library};
use crate::strutil::{i64_dec, i64_to_dec_string, str_eq, u64_dec, u64_to_dec_string};

verus! {

/// The table names the debug dump accepts.
pub open spec fn debug_allowed(name: Seq<char>) -> bool {
    ||| name == "collections"@
    ||| name == "artists"@
    ||| name == "albums"@
    ||| name == "tracks"@
    ||| name == "settings"@
}

/// An optional string rendered for display.
pub open spec fn opt_str_render(o: Option<Seq<char>>) -> Seq<char> {
    match o {
        Some(s) => s,
        None => "NULL"@,
    }
}

/// An optional 32-bit number rendered for display.
pub open spec fn opt_i32_render(o: Option<i32>) -> Seq<char> {
    match o {
        Some(x) => i64_dec(x as int),
        None => "NULL"@,
    }
}

/// An optional 64-bit count rendered for display.
pub open spec fn opt_u64_render(o: Option<u64>) -> Seq<char> {
    match o {
        Some(x) => u64_dec(x as nat),
        None => "NULL"@,
    }
}

/// An optional id rendered for display.
pub open spec fn opt_i64_render(o: Option<i64>) -> Seq<char> {
    match o {
        Some(x) => i64_dec(x as int),
        None => "NULL"@,
    }
}

/// A rendered row matches its specification pair for pair.
pub open spec fn row_matches(row: Seq<(String, String)>, spec_row: Seq<(Seq<char>, Seq<char>)>) -> bool {
    &&& row.len() == spec_row.len()
    &&& forall|j: int|
        0 <= j < row.len() ==> (#[trigger] row[j]).0@ == spec_row[j].0 && row[j].1@ == spec_row[j].1
}

pub open spec fn collection_debug_row(c: CollectionV) -> Seq<(Seq<char>, Seq<char>)> {
    seq![
        ("id"@, i64_dec(c.id as int)),
        ("path"@, c.path),
        ("label"@, opt_str_render(c.label)),
        ("created_at"@, c.created_at),
    ]
}

pub open spec fn artist_debug_row(a: ArtistV) -> Seq<(Seq<char>, Seq<char>)> {
    seq![
        ("id"@, i64_dec(a.id as int)),
        ("name"@, a.name),
        ("sort_name"@, opt_str_render(a.sort_name)),
        ("musicbrainz_id"@, opt_str_render(a.musicbrainz_id)),
        ("created_at"@, a.created_at),
    ]
}

pub open spec fn album_debug_row(al: AlbumV) -> Seq<(Seq<char>, Seq<char>)> {
    seq![
        ("id"@, i64_dec(al.id as int)),
        ("title"@, al.title),
        ("artist_id"@, opt_i64_render(al.artist_id)),
        ("year"@, opt_i32_render(al.year)),
        ("genre"@, opt_str_render(al.genre)),
        ("cover_path"@, opt_str_render(al.cover_path)),
        ("musicbrainz_id"@, opt_str_render(al.musicbrainz_id)),
        ("created_at"@, al.created_at),
    ]
}

pub open spec fn track_debug_row(t: TrackV) -> Seq<(Seq<char>, Seq<char>)> {
    seq![
        ("id"@, i64_dec(t.id as int)),
        ("collection_id"@, i64_dec(t.collection_id as int)),
        ("album_id"@, opt_i64_render(t.album_id)),
        ("artist_id"@, opt_i64_render(t.artist_id)),
        ("title"@, t.title),
        ("track_number"@, opt_i32_render(t.track_number)),
        ("disc_number"@, opt_i32_render(t.disc_number)),
        ("duration_ms"@, opt_u64_render(t.duration_ms)),
        ("file_path"@, t.file_path),
        ("file_size_bytes"@, u64_dec(t.file_size_bytes as nat)),
        ("file_format"@, opt_str_render(t.file_format)),
        ("bitrate_kbps"@, opt_i32_render(t.bitrate_kbps)),
        ("sample_rate_hz"@, opt_i32_render(t.sample_rate_hz)),
        ("lyrics"@, opt_str_render(t.lyrics)),
        ("created_at"@, t.created_at),
        ("updated_at"@, t.updated_at),
        ("genre"@, opt_str_render(t.genre)),
        ("album_artist"@, opt_str_render(t.album_artist)),
        ("composer"@, opt_str_render(t.composer)),
        ("bpm"@, opt_i32_render(t.bpm)),
        ("comment"@, opt_str_render(t.comment)),
        ("comment_lang"@, opt_str_render(t.comment_lang)),
        ("year"@, opt_i32_render(t.year)),
        ("lyrics_lang"@, opt_str_render(t.lyrics_lang)),
        ("track_total"@, opt_i32_render(t.track_total)),
        ("disc_total"@, opt_i32_render(t.disc_total)),
    ]
}

pub open spec fn setting_debug_row(s: SettingV) -> Seq<(Seq<char>, Seq<char>)> {
    seq![("key"@, s.key), ("value"@, s.value)]
}

/// The row cap of the dump.
pub open spec fn capped(n: nat) -> nat {
    if n < 500 {
        n
    } else {
        500
    }
}

/// What a successful dump holds for each table.
pub open spec fn debug_rows_match(
    m: LibModel,
    name: Seq<char>,
    v: Seq<Vec<(String, String)>>,
) -> bool {
    if name == "collections"@ {
        &&& v.len() == capped(m.collections.len())
        &&& forall|i: int|
            0 <= i < v.len() ==> row_matches((#[trigger] v[i])@, collection_debug_row(
                m.collections[i],
            ))
    } else if name == "artists"@ {
        &&& v.len() == capped(m.artists.len())
        &&& forall|i: int|
            0 <= i < v.len() ==> row_matches((#[trigger] v[i])@, artist_debug_row(m.artists[i]))
    } else if name == "albums"@ {
        &&& v.len() == capped(m.albums.len())
        &&& forall|i: int|
            0 <= i < v.len() ==> row_matches((#[trigger] v[i])@, album_debug_row(m.albums[i]))
    } else if name == "tracks"@ {
        &&& v.len() == capped(m.tracks.len())
        &&& forall|i: int|
            0 <= i < v.len() ==> row_matches((#[trigger] v[i])@, track_debug_row(m.tracks[i]))
    } else if name == "settings"@ {
        &&& v.len() == capped(m.settings.len())
        &&& forall|i: int|
            0 <= i < v.len() ==> row_matches((#[trigger] v[i])@, setting_debug_row(m.settings[i]))
    } else {
        false
    }
}

/// Render an optional string for display.
fn render_opt_str(o: &Option<String>) -> (r: String)
    ensures
        r@ == opt_str_render(str_opt_view(*o)),
{
    match o {
        Some(s) => s.clone(),
        None => String::from_str("NULL"),
    }
}

/// Render an optional 32-bit number for display.
fn render_opt_i32(o: Option<i32>) -> (r: String)
    ensures
        r@ == opt_i32_render(o),
{
    match o {
        Some(x) => i64_to_dec_string(x as i64),
        None => String::from_str("NULL"),
    }
}

/// Render an optional 64-bit count for display.
fn render_opt_u64(o: Option<u64>) -> (r: String)
    ensures
        r@ == opt_u64_render(o),
{
    match o {
        Some(x) => u64_to_dec_string(x),
        None => String::from_str("NULL"),
    }
}

/// Render an optional id for display.
fn render_opt_i64(o: Option<i64>) -> (r: String)
    ensures
        r@ == opt_i64_render(o),
{
    match o {
        Some(x) => i64_to_dec_string(x),
        None => String::from_str("NULL"),
    }
}

fn collection_debug(c: &Collection) -> (r: Vec<(String, String)>)
    ensures
        row_matches(r@, collection_debug_row(c@)),
{
    let mut row: Vec<(String, String)> = Vec::new();
    row.push((String::from_str("id"), i64_to_dec_string(c.id)));
    row.push((String::from_str("path"), c.path.clone()));
    row.push((String::from_str("label"), render_opt_str(&c.label)));
    row.push((String::from_str("created_at"), c.created_at.clone()));
    row
}

fn artist_debug(a: &Artist) -> (r: Vec<(String, String)>)
    ensures
        row_matches(r@, artist_debug_row(a@)),
{
    let mut row: Vec<(String, String)> = Vec::new();
    row.push((String::from_str("id"), i64_to_dec_string(a.id)));
    row.push((String::from_str("name"), a.name.clone()));
    row.push((String::from_str("sort_name"), render_opt_str(&a.sort_name)));
    row.push((String::from_str("musicbrainz_id"), render_opt_str(&a.musicbrainz_id)));
    row.push((String::from_str("created_at"), a.created_at.clone()));
    row
}

fn album_debug(al: &Album) -> (r: Vec<(String, String)>)
    ensures
        row_matches(r@, album_debug_row(al@)),
{
    let mut row: Vec<(String, String)> = Vec::new();
    row.push((String::from_str("id"), i64_to_dec_string(al.id)));
    row.push((String::from_str("title"), al.title.clone()));
    row.push((String::from_str("artist_id"), render_opt_i64(al.artist_id)));
    row.push((String::from_str("year"), render_opt_i32(al.year)));
    row.push((String::from_str("genre"), render_opt_str(&al.genre)));
    row.push((String::from_str("cover_path"), render_opt_str(&al.cover_path)));
    row.push((String::from_str("musicbrainz_id"), render_opt_str(&al.musicbrainz_id)));
    row.push((String::from_str("created_at"), al.created_at.clone()));
    row
}

fn track_debug(t: &Track) -> (r: Vec<(String, String)>)
    ensures
        row_matches(r@, track_debug_row(t@)),
{
    let mut row: Vec<(String, String)> = Vec::new();
    row.push((String::from_str("id"), i64_to_dec_string(t.id)));
    row.push((String::from_str("collection_id"), i64_to_dec_string(t.collection_id)));
    row.push((String::from_str("album_id"), render_opt_i64(t.album_id)));
    row.push((String::from_str("artist_id"), render_opt_i64(t.artist_id)));
    row.push((String::from_str("title"), t.title.clone()));
    row.push((String::from_str("track_number"), render_opt_i32(t.track_number)));
    row.push((String::from_str("disc_number"), render_opt_i32(t.disc_number)));
    row.push((String::from_str("duration_ms"), render_opt_u64(t.duration_ms)));
    row.push((String::from_str("file_path"), t.file_path.clone()));
    row.push((String::from_str("file_size_bytes"), u64_to_dec_string(t.file_size_bytes)));
    row.push((String::from_str("file_format"), render_opt_str(&t.file_format)));
    row.push((String::from_str("bitrate_kbps"), render_opt_i32(t.bitrate_kbps)));
    row.push((String::from_str("sample_rate_hz"), render_opt_i32(t.sample_rate_hz)));
    row.push((String::from_str("lyrics"), render_opt_str(&t.lyrics)));
    row.push((String::from_str("created_at"), t.created_at.clone()));
    row.push((String::from_str("updated_at"), t.updated_at.clone()));
    row.push((String::from_str("genre"), render_opt_str(&t.genre)));
    row.push((String::from_str("album_artist"), render_opt_str(&t.album_artist)));
    row.push((String::from_str("composer"), render_opt_str(&t.composer)));
    row.push((String::from_str("bpm"), render_opt_i32(t.bpm)));
    row.push((String::from_str("comment"), render_opt_str(&t.comment)));
    row.push((String::from_str("comment_lang"), render_opt_str(&t.comment_lang)));
    row.push((String::from_str("year"), render_opt_i32(t.year)));
    row.push((String::from_str("lyrics_lang"), render_opt_str(&t.lyrics_lang)));
    row.push((String::from_str("track_total"), render_opt_i32(t.track_total)));
    row.push((String::from_str("disc_total"), render_opt_i32(t.disc_total)));
    row
}

fn setting_debug(s: &Setting) -> (r: Vec<(String, String)>)
    ensures
        row_matches(r@, setting_debug_row(s@)),
{
    let mut row: Vec<(String, String)> = Vec::new();
    row.push((String::from_str("key"), s.key.clone()));
    row.push((String::from_str("value"), s.value.clone()));
    row
}

impl Library {
    /// Dump one table's rows as column-name/value pairs, for debugging.
    /// Only the five store tables are allowed; the dump is capped at
    /// 500 rows.
    pub fn debug_query_table_inner(&self, table_name: &str) -> (r: Result<
        Vec<Vec<(String, String)>>,
        AppError,
    >)
        ensures
            match r {
                Ok(v) => debug_allowed(table_name@) && debug_rows_match(self@, table_name@, v@),
                Err(e) => !debug_allowed(table_name@) && e.kind() == ErrKind::InvalidInput
                    && e.msg() == "Table '"@ + table_name@ + "' is not in the allowlist"@,
            },
    {
        if str_eq(table_name, "collections") {
            let mut out: Vec<Vec<(String, String)>> = Vec::new();
            let n = self.collections.len();
            let limit: usize = if n < 500 {
                n
            } else {
                500
            };
            let mut i: usize = 0;
            while i < limit
                invariant
                    i <= limit,
                    limit == capped(self@.collections.len()),
                    limit <= self.collections.len(),
                    out@.len() == i,
                    forall|j: int|
                        0 <= j < i ==> row_matches(
                            (#[trigger] out@[j])@,
                            collection_debug_row(self@.collections[j]),
                        ),
                decreases limit - i,
            {
                out.push(collection_debug(&self.collections[i]));
                i += 1;
            }
            Ok(out)
        } else if str_eq(table_name, "artists") {
            let mut out: Vec<Vec<(String, String)>> = Vec::new();
            let n = self.artists.len();
            let limit: usize = if n < 500 {
                n
            } else {
                500
            };
            let mut i: usize = 0;
            while i < limit
                invariant
                    i <= limit,
                    limit == capped(self@.artists.len()),
                    limit <= self.artists.len(),
                    out@.len() == i,
                    forall|j: int|
                        0 <= j < i ==> row_matches(
                            (#[trigger] out@[j])@,
                            artist_debug_row(self@.artists[j]),
                        ),
                decreases limit - i,
            {
                out.push(artist_debug(&self.artists[i]));
                i += 1;
            }
            Ok(out)
        } else if str_eq(table_name, "albums") {
            let mut out: Vec<Vec<(String, String)>> = Vec::new();
            let n = self.albums.len();
            let limit: usize = if n < 500 {
                n
            } else {
                500
            };
            let mut i: usize = 0;
            while i < limit
                invariant
                    i <= limit,
                    limit == capped(self@.albums.len()),
                    limit <= self.albums.len(),
                    out@.len() == i,
                    forall|j: int|
                        0 <= j < i ==> row_matches(
                            (#[trigger] out@[j])@,
                            album_debug_row(self@.albums[j]),
                        ),
                decreases limit - i,
            {
                out.push(album_debug(&self.albums[i]));
                i += 1;
            }
            Ok(out)
        } else if str_eq(table_name, "tracks") {
            let mut out: Vec<Vec<(String, String)>> = Vec::new();
            let n = self.tracks.len();
            let limit: usize = if n < 500 {
                n
            } else {
                500
            };
            let mut i: usize = 0;
            while i < limit
                invariant
                    i <= limit,
                    limit == capped(self@.tracks.len()),
                    limit <= self.tracks.len(),
                    out@.len() == i,
                    forall|j: int|
                        0 <= j < i ==> row_matches(
                            (#[trigger] out@[j])@,
                            track_debug_row(self@.tracks[j]),
                        ),
                decreases limit - i,
            {
                out.push(track_debug(&self.tracks[i]));
                i += 1;
            }
            Ok(out)
        } else if str_eq(table_name, "settings") {
            let mut out: Vec<Vec<(String, String)>> = Vec::new();
            let n = self.settings.len();
            let limit: usize = if n < 500 {
                n
            } else {
                500
            };
            let mut i: usize = 0;
            while i < limit
                invariant
                    i <= limit,
                    limit == capped(self@.settings.len()),
                    limit <= self.settings.len(),
                    out@.len() == i,
                    forall|j: int|
                        0 <= j < i ==> row_matches(
                            (#[trigger] out@[j])@,
                            setting_debug_row(self@.settings[j]),
                        ),
                decreases limit - i,
            {
                out.push(setting_debug(&self.settings[i]));
                i += 1;
            }
            Ok(out)
        } else {
            let mut msg = String::from_str("Table '");
            msg.append(table_name);
            msg.append("' is not in the allowlist");
            proof {
                let ghost want = "Table '"@ + table_name@ + "' is not in the allowlist"@;
                assert(msg@ =~= want);
            }
            Err(AppError::InvalidInput(msg))
        }
    }
}

} // verus!
