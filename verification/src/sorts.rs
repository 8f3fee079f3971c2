//! Sorted views for the query layer: each listing is returned in the
//! order callers expect — collections newest first, artists and
//! settings by their key, albums by title (or year then title within an
//! artist), tracks by title (or disc then track number within an
//! album). Each sort is an insertion sort proved equal to the
//! `sort_by_le` specification.

use vstd::prelude::*;
use vstd::relations::sorted_by;
use crate::models::{
    Album, AlbumRow, AlbumRowV, AlbumV, Artist, ArtistRow, ArtistRowV, ArtistV, Collection,
    CollectionV, Setting, SettingV, TrackRow, TrackRowV,
};
use crate::ordering::{
    lemma_insert_sorted_at, lemma_insert_sorted_sorted, lemma_lex_le_total, lemma_lex_le_trans,
    lex_le, opt_i32_le, opt_i32_le_exec, opt_i32_lt, opt_i32_lt_exec, sort_by_le, str_lex_le,
};
use crate::store::rows_view;

verus! {

// ── The orders the query layer uses ──

/// Collections: newest first, by creation timestamp descending.
pub open spec fn coll_order_le() -> spec_fn(CollectionV, CollectionV) -> bool {
    |a: CollectionV, b: CollectionV| lex_le(b.created_at, a.created_at)
}

/// Artists: by name ascending.
pub open spec fn artist_order_le() -> spec_fn(ArtistV, ArtistV) -> bool {
    |a: ArtistV, b: ArtistV| lex_le(a.name, b.name)
}

/// Artist aggregate rows: by name ascending.
pub open spec fn artist_row_order_le() -> spec_fn(ArtistRowV, ArtistRowV) -> bool {
    |a: ArtistRowV, b: ArtistRowV| lex_le(a.name, b.name)
}

/// Albums: by title ascending, or — within one artist — by year (absent
/// first) and then title.
pub open spec fn album_order_le(by_year: bool) -> spec_fn(AlbumV, AlbumV) -> bool {
    |a: AlbumV, b: AlbumV|
        if by_year {
            opt_i32_lt(a.year, b.year) || (a.year == b.year && lex_le(a.title, b.title))
        } else {
            lex_le(a.title, b.title)
        }
}

/// Album aggregate rows: by title ascending.
pub open spec fn album_row_order_le() -> spec_fn(AlbumRowV, AlbumRowV) -> bool {
    |a: AlbumRowV, b: AlbumRowV| lex_le(a.title, b.title)
}

/// Track rows: by title ascending, or — within one album — by disc
/// number (absent first) and then track number.
pub open spec fn track_row_order_le(by_position: bool) -> spec_fn(TrackRowV, TrackRowV) -> bool {
    |a: TrackRowV, b: TrackRowV|
        if by_position {
            opt_i32_lt(a.disc_number, b.disc_number) || (a.disc_number == b.disc_number
                && opt_i32_le(a.track_number, b.track_number))
        } else {
            lex_le(a.title, b.title)
        }
}

/// Settings: by key ascending.
pub open spec fn setting_order_le() -> spec_fn(SettingV, SettingV) -> bool {
    |a: SettingV, b: SettingV| lex_le(a.key, b.key)
}

/// The collection order is total and transitive.
pub proof fn coll_order_le_props()
    ensures
        forall|a: CollectionV, b: CollectionV|
            #[trigger] (coll_order_le())(a, b) || (coll_order_le())(b, a),
        forall|a: CollectionV, b: CollectionV, c: CollectionV|
            #[trigger] (coll_order_le())(a, b) && #[trigger] (coll_order_le())(b, c) ==> (
            coll_order_le())(a, c),
{
    let le = coll_order_le();
    assert forall|a: CollectionV, b: CollectionV| #[trigger] le(a, b) || le(b, a) by {
        lemma_lex_le_total(b.created_at, a.created_at);
    }
    assert forall|a: CollectionV, b: CollectionV, c: CollectionV|
        #[trigger] le(a, b) && #[trigger] le(b, c) implies le(a, c) by {
        lemma_lex_le_trans(c.created_at, b.created_at, a.created_at);
    }
}

/// The artist order is total and transitive.
pub proof fn artist_order_le_props()
    ensures
        forall|a: ArtistV, b: ArtistV| #[trigger] (artist_order_le())(a, b) || (artist_order_le())(b, a),
        forall|a: ArtistV, b: ArtistV, c: ArtistV|
            #[trigger] (artist_order_le())(a, b) && #[trigger] (artist_order_le())(b, c) ==> (artist_order_le())(a, c),
{
    let le = artist_order_le();
    assert forall|a: ArtistV, b: ArtistV| #[trigger] le(a, b) || le(b, a) by {
        lemma_lex_le_total(a.name, b.name);
    }
    assert forall|a: ArtistV, b: ArtistV, c: ArtistV| #[trigger] le(a, b) && #[trigger] le(b, c) implies le(
        a,
        c,
    ) by {
        lemma_lex_le_trans(a.name, b.name, c.name);
    }
}

/// The artist-row order is total and transitive.
pub proof fn artist_row_order_le_props()
    ensures
        forall|a: ArtistRowV, b: ArtistRowV| #[trigger] (artist_row_order_le())(a, b) || (artist_row_order_le())(b, a),
        forall|a: ArtistRowV, b: ArtistRowV, c: ArtistRowV|
            #[trigger] (artist_row_order_le())(a, b) && #[trigger] (artist_row_order_le())(b, c) ==> (artist_row_order_le())(a, c),
{
    let le = artist_row_order_le();
    assert forall|a: ArtistRowV, b: ArtistRowV| #[trigger] le(a, b) || le(b, a) by {
        lemma_lex_le_total(a.name, b.name);
    }
    assert forall|a: ArtistRowV, b: ArtistRowV, c: ArtistRowV| #[trigger] le(a, b) && #[trigger] le(b, c) implies le(
        a,
        c,
    ) by {
        lemma_lex_le_trans(a.name, b.name, c.name);
    }
}

/// The album-row order is total and transitive.
pub proof fn album_row_order_le_props()
    ensures
        forall|a: AlbumRowV, b: AlbumRowV| #[trigger] (album_row_order_le())(a, b) || (album_row_order_le())(b, a),
        forall|a: AlbumRowV, b: AlbumRowV, c: AlbumRowV|
            #[trigger] (album_row_order_le())(a, b) && #[trigger] (album_row_order_le())(b, c) ==> (album_row_order_le())(a, c),
{
    let le = album_row_order_le();
    assert forall|a: AlbumRowV, b: AlbumRowV| #[trigger] le(a, b) || le(b, a) by {
        lemma_lex_le_total(a.title, b.title);
    }
    assert forall|a: AlbumRowV, b: AlbumRowV, c: AlbumRowV| #[trigger] le(a, b) && #[trigger] le(b, c) implies le(
        a,
        c,
    ) by {
        lemma_lex_le_trans(a.title, b.title, c.title);
    }
}

/// The setting order is total and transitive.
pub proof fn setting_order_le_props()
    ensures
        forall|a: SettingV, b: SettingV| #[trigger] (setting_order_le())(a, b) || (setting_order_le())(b, a),
        forall|a: SettingV, b: SettingV, c: SettingV|
            #[trigger] (setting_order_le())(a, b) && #[trigger] (setting_order_le())(b, c) ==> (setting_order_le())(a, c),
{
    let le = setting_order_le();
    assert forall|a: SettingV, b: SettingV| #[trigger] le(a, b) || le(b, a) by {
        lemma_lex_le_total(a.key, b.key);
    }
    assert forall|a: SettingV, b: SettingV, c: SettingV| #[trigger] le(a, b) && #[trigger] le(b, c) implies le(
        a,
        c,
    ) by {
        lemma_lex_le_trans(a.key, b.key, c.key);
    }
}

/// Either album order is total and transitive.
pub proof fn album_order_le_props(by_year: bool)
    ensures
        forall|a: AlbumV, b: AlbumV|
            #[trigger] (album_order_le(by_year))(a, b) || (album_order_le(by_year))(b, a),
        forall|a: AlbumV, b: AlbumV, c: AlbumV|
            #[trigger] (album_order_le(by_year))(a, b) && #[trigger] (album_order_le(by_year))(b, c) ==> (album_order_le(
            by_year))(a, c),
{
    let le = album_order_le(by_year);
    assert forall|a: AlbumV, b: AlbumV| #[trigger] le(a, b) || le(b, a) by {
        lemma_lex_le_total(a.title, b.title);
    }
    assert forall|a: AlbumV, b: AlbumV, c: AlbumV| #[trigger] le(a, b) && #[trigger] le(b, c) implies le(
        a,
        c,
    ) by {
        if by_year {
            if a.year == b.year && b.year == c.year {
                lemma_lex_le_trans(a.title, b.title, c.title);
            }
        } else {
            lemma_lex_le_trans(a.title, b.title, c.title);
        }
    }
}

/// Either track-row order is total and transitive.
pub proof fn track_row_order_le_props(by_position: bool)
    ensures
        forall|a: TrackRowV, b: TrackRowV|
            #[trigger] (track_row_order_le(by_position))(a, b) || (track_row_order_le(by_position))(b, a),
        forall|a: TrackRowV, b: TrackRowV, c: TrackRowV|
            #[trigger] (track_row_order_le(by_position))(a, b) && #[trigger] (track_row_order_le(by_position))(b, c) ==> (track_row_order_le(
            by_position))(a, c),
{
    let le = track_row_order_le(by_position);
    assert forall|a: TrackRowV, b: TrackRowV| #[trigger] le(a, b) || le(b, a) by {
        lemma_lex_le_total(a.title, b.title);
    }
    assert forall|a: TrackRowV, b: TrackRowV, c: TrackRowV| #[trigger] le(a, b) && #[trigger] le(b, c) implies le(
        a,
        c,
    ) by {
        if by_position {
            if a.disc_number == b.disc_number && b.disc_number == c.disc_number {
                // numeric track order is transitive by arithmetic
            }
        } else {
            lemma_lex_le_trans(a.title, b.title, c.title);
        }
    }
}

/// Insertion index for `x` in the sorted `out`.
fn collection_insertion_point(out: &Vec<Collection>, x: &Collection) -> (j: usize)
    ensures
        j <= out.len(),
        forall|k: int| 0 <= k < j ==> (coll_order_le())(rows_view(out@)[k], x@),
        j < out.len() ==> !(coll_order_le())(rows_view(out@)[j as int], x@),
{
    let ghost le = coll_order_le();
    let n = out.len();
    let mut j: usize = 0;
    while j < n
        invariant
            le == coll_order_le(),
            j <= n,
            n == out.len(),
            forall|k: int| 0 <= k < j ==> le(rows_view(out@)[k], x@),
        decreases n - j,
    {
        if !(str_lex_le(x.created_at.as_str(), out[j].created_at.as_str())) {
            return j;
        }
        j += 1;
    }
    j
}

/// Sort the rows; the result is exactly the specification-level
/// insertion sort of the input under the order above.
pub fn sort_collections(v: Vec<Collection>) -> (r: Vec<Collection>)
    ensures
        rows_view(r@) == sort_by_le(rows_view(v@), coll_order_le()),
        sorted_by(rows_view(r@), coll_order_le()),
{
    let ghost le = coll_order_le();
    let ghost src = rows_view(v@);
    let n = v.len();
    let mut rest = v;
    let mut out: Vec<Collection> = Vec::new();
    let mut i: usize = 0;
    proof {
        assert(src.subrange(0, 0) =~= Seq::<CollectionV>::empty());
        assert(src.subrange(0, n as int) =~= src);
    }
    while i < n
        invariant
            le == coll_order_le(),
            src.len() == n,
            i + rest.len() == n,
            i <= n,
            rows_view(rest@) == src.subrange(i as int, n as int),
            rows_view(out@) == sort_by_le(src.subrange(0, i as int), le),
            sorted_by(rows_view(out@), le),
        decreases n - i,
    {
        let ghost pre = rest@;
        let x = rest.remove(0);
        proof {
            assert(x@ == rows_view(pre)[0]);
            assert(x@ == src[i as int]);
            assert forall|k: int| 0 <= k < rest@.len() implies #[trigger] rows_view(rest@)[k]
                == src[i + 1 + k] by {
                assert(rest@[k] == pre[k + 1]);
                assert(rows_view(pre)[k + 1] == src.subrange(i as int, n as int)[k + 1]);
            }
            assert(rows_view(rest@) =~= src.subrange(i + 1, n as int));
        }
        let j = collection_insertion_point(&out, &x);
        let ghost before = rows_view(out@);
        out.insert(j, x);
        proof {
            coll_order_le_props();
            assert(rows_view(out@) =~= before.insert(j as int, x@));
            lemma_insert_sorted_at(before, le, x@, j as int);
            lemma_insert_sorted_sorted(before, le, x@);
            assert(src.subrange(0, i + 1).drop_last() =~= src.subrange(0, i as int));
            assert(src.subrange(0, i + 1).last() == src[i as int]);
        }
        i += 1;
    }
    proof {
        assert(src.subrange(0, n as int) =~= src);
    }
    out
}

/// Insertion index for `x` in the sorted `out`.
fn artist_insertion_point(out: &Vec<Artist>, x: &Artist) -> (j: usize)
    ensures
        j <= out.len(),
        forall|k: int| 0 <= k < j ==> (artist_order_le())(rows_view(out@)[k], x@),
        j < out.len() ==> !(artist_order_le())(rows_view(out@)[j as int], x@),
{
    let ghost le = artist_order_le();
    let n = out.len();
    let mut j: usize = 0;
    while j < n
        invariant
            le == artist_order_le(),
            j <= n,
            n == out.len(),
            forall|k: int| 0 <= k < j ==> le(rows_view(out@)[k], x@),
        decreases n - j,
    {
        if !(str_lex_le(out[j].name.as_str(), x.name.as_str())) {
            return j;
        }
        j += 1;
    }
    j
}

/// Sort the rows; the result is exactly the specification-level
/// insertion sort of the input under the order above.
pub fn sort_artists(v: Vec<Artist>) -> (r: Vec<Artist>)
    ensures
        rows_view(r@) == sort_by_le(rows_view(v@), artist_order_le()),
        sorted_by(rows_view(r@), artist_order_le()),
{
    let ghost le = artist_order_le();
    let ghost src = rows_view(v@);
    let n = v.len();
    let mut rest = v;
    let mut out: Vec<Artist> = Vec::new();
    let mut i: usize = 0;
    proof {
        assert(src.subrange(0, 0) =~= Seq::<ArtistV>::empty());
        assert(src.subrange(0, n as int) =~= src);
    }
    while i < n
        invariant
            le == artist_order_le(),
            src.len() == n,
            i + rest.len() == n,
            i <= n,
            rows_view(rest@) == src.subrange(i as int, n as int),
            rows_view(out@) == sort_by_le(src.subrange(0, i as int), le),
            sorted_by(rows_view(out@), le),
        decreases n - i,
    {
        let ghost pre = rest@;
        let x = rest.remove(0);
        proof {
            assert(x@ == rows_view(pre)[0]);
            assert(x@ == src[i as int]);
            assert forall|k: int| 0 <= k < rest@.len() implies #[trigger] rows_view(rest@)[k]
                == src[i + 1 + k] by {
                assert(rest@[k] == pre[k + 1]);
                assert(rows_view(pre)[k + 1] == src.subrange(i as int, n as int)[k + 1]);
            }
            assert(rows_view(rest@) =~= src.subrange(i + 1, n as int));
        }
        let j = artist_insertion_point(&out, &x);
        let ghost before = rows_view(out@);
        out.insert(j, x);
        proof {
            artist_order_le_props();
            assert(rows_view(out@) =~= before.insert(j as int, x@));
            lemma_insert_sorted_at(before, le, x@, j as int);
            lemma_insert_sorted_sorted(before, le, x@);
            assert(src.subrange(0, i + 1).drop_last() =~= src.subrange(0, i as int));
            assert(src.subrange(0, i + 1).last() == src[i as int]);
        }
        i += 1;
    }
    proof {
        assert(src.subrange(0, n as int) =~= src);
    }
    out
}

/// Insertion index for `x` in the sorted `out`.
fn artist_row_insertion_point(out: &Vec<ArtistRow>, x: &ArtistRow) -> (j: usize)
    ensures
        j <= out.len(),
        forall|k: int| 0 <= k < j ==> (artist_row_order_le())(rows_view(out@)[k], x@),
        j < out.len() ==> !(artist_row_order_le())(rows_view(out@)[j as int], x@),
{
    let ghost le = artist_row_order_le();
    let n = out.len();
    let mut j: usize = 0;
    while j < n
        invariant
            le == artist_row_order_le(),
            j <= n,
            n == out.len(),
            forall|k: int| 0 <= k < j ==> le(rows_view(out@)[k], x@),
        decreases n - j,
    {
        if !(str_lex_le(out[j].name.as_str(), x.name.as_str())) {
            return j;
        }
        j += 1;
    }
    j
}

/// Sort the rows; the result is exactly the specification-level
/// insertion sort of the input under the order above.
pub fn sort_artist_rows(v: Vec<ArtistRow>) -> (r: Vec<ArtistRow>)
    ensures
        rows_view(r@) == sort_by_le(rows_view(v@), artist_row_order_le()),
        sorted_by(rows_view(r@), artist_row_order_le()),
{
    let ghost le = artist_row_order_le();
    let ghost src = rows_view(v@);
    let n = v.len();
    let mut rest = v;
    let mut out: Vec<ArtistRow> = Vec::new();
    let mut i: usize = 0;
    proof {
        assert(src.subrange(0, 0) =~= Seq::<ArtistRowV>::empty());
        assert(src.subrange(0, n as int) =~= src);
    }
    while i < n
        invariant
            le == artist_row_order_le(),
            src.len() == n,
            i + rest.len() == n,
            i <= n,
            rows_view(rest@) == src.subrange(i as int, n as int),
            rows_view(out@) == sort_by_le(src.subrange(0, i as int), le),
            sorted_by(rows_view(out@), le),
        decreases n - i,
    {
        let ghost pre = rest@;
        let x = rest.remove(0);
        proof {
            assert(x@ == rows_view(pre)[0]);
            assert(x@ == src[i as int]);
            assert forall|k: int| 0 <= k < rest@.len() implies #[trigger] rows_view(rest@)[k]
                == src[i + 1 + k] by {
                assert(rest@[k] == pre[k + 1]);
                assert(rows_view(pre)[k + 1] == src.subrange(i as int, n as int)[k + 1]);
            }
            assert(rows_view(rest@) =~= src.subrange(i + 1, n as int));
        }
        let j = artist_row_insertion_point(&out, &x);
        let ghost before = rows_view(out@);
        out.insert(j, x);
        proof {
            artist_row_order_le_props();
            assert(rows_view(out@) =~= before.insert(j as int, x@));
            lemma_insert_sorted_at(before, le, x@, j as int);
            lemma_insert_sorted_sorted(before, le, x@);
            assert(src.subrange(0, i + 1).drop_last() =~= src.subrange(0, i as int));
            assert(src.subrange(0, i + 1).last() == src[i as int]);
        }
        i += 1;
    }
    proof {
        assert(src.subrange(0, n as int) =~= src);
    }
    out
}

/// Insertion index for `x` in the sorted `out`.
fn album_insertion_point(out: &Vec<Album>, x: &Album, by_year: bool) -> (j: usize)
    ensures
        j <= out.len(),
        forall|k: int| 0 <= k < j ==> (album_order_le(by_year))(rows_view(out@)[k], x@),
        j < out.len() ==> !(album_order_le(by_year))(rows_view(out@)[j as int], x@),
{
    let ghost le = album_order_le(by_year);
    let n = out.len();
    let mut j: usize = 0;
    while j < n
        invariant
            le == album_order_le(by_year),
            j <= n,
            n == out.len(),
            forall|k: int| 0 <= k < j ==> le(rows_view(out@)[k], x@),
        decreases n - j,
    {
        if !(album_le_exec(by_year, &out[j], x)) {
            return j;
        }
        j += 1;
    }
    j
}

/// Sort the rows; the result is exactly the specification-level
/// insertion sort of the input under the order above.
pub fn sort_albums(v: Vec<Album>, by_year: bool) -> (r: Vec<Album>)
    ensures
        rows_view(r@) == sort_by_le(rows_view(v@), album_order_le(by_year)),
        sorted_by(rows_view(r@), album_order_le(by_year)),
{
    let ghost le = album_order_le(by_year);
    let ghost src = rows_view(v@);
    let n = v.len();
    let mut rest = v;
    let mut out: Vec<Album> = Vec::new();
    let mut i: usize = 0;
    proof {
        assert(src.subrange(0, 0) =~= Seq::<AlbumV>::empty());
        assert(src.subrange(0, n as int) =~= src);
    }
    while i < n
        invariant
            le == album_order_le(by_year),
            src.len() == n,
            i + rest.len() == n,
            i <= n,
            rows_view(rest@) == src.subrange(i as int, n as int),
            rows_view(out@) == sort_by_le(src.subrange(0, i as int), le),
            sorted_by(rows_view(out@), le),
        decreases n - i,
    {
        let ghost pre = rest@;
        let x = rest.remove(0);
        proof {
            assert(x@ == rows_view(pre)[0]);
            assert(x@ == src[i as int]);
            assert forall|k: int| 0 <= k < rest@.len() implies #[trigger] rows_view(rest@)[k]
                == src[i + 1 + k] by {
                assert(rest@[k] == pre[k + 1]);
                assert(rows_view(pre)[k + 1] == src.subrange(i as int, n as int)[k + 1]);
            }
            assert(rows_view(rest@) =~= src.subrange(i + 1, n as int));
        }
        let j = album_insertion_point(&out, &x, by_year);
        let ghost before = rows_view(out@);
        out.insert(j, x);
        proof {
            album_order_le_props(by_year);
            assert(rows_view(out@) =~= before.insert(j as int, x@));
            lemma_insert_sorted_at(before, le, x@, j as int);
            lemma_insert_sorted_sorted(before, le, x@);
            assert(src.subrange(0, i + 1).drop_last() =~= src.subrange(0, i as int));
            assert(src.subrange(0, i + 1).last() == src[i as int]);
        }
        i += 1;
    }
    proof {
        assert(src.subrange(0, n as int) =~= src);
    }
    out
}

/// Insertion index for `x` in the sorted `out`.
fn album_row_insertion_point(out: &Vec<AlbumRow>, x: &AlbumRow) -> (j: usize)
    ensures
        j <= out.len(),
        forall|k: int| 0 <= k < j ==> (album_row_order_le())(rows_view(out@)[k], x@),
        j < out.len() ==> !(album_row_order_le())(rows_view(out@)[j as int], x@),
{
    let ghost le = album_row_order_le();
    let n = out.len();
    let mut j: usize = 0;
    while j < n
        invariant
            le == album_row_order_le(),
            j <= n,
            n == out.len(),
            forall|k: int| 0 <= k < j ==> le(rows_view(out@)[k], x@),
        decreases n - j,
    {
        if !(str_lex_le(out[j].title.as_str(), x.title.as_str())) {
            return j;
        }
        j += 1;
    }
    j
}

/// Sort the rows; the result is exactly the specification-level
/// insertion sort of the input under the order above.
pub fn sort_album_rows(v: Vec<AlbumRow>) -> (r: Vec<AlbumRow>)
    ensures
        rows_view(r@) == sort_by_le(rows_view(v@), album_row_order_le()),
        sorted_by(rows_view(r@), album_row_order_le()),
{
    let ghost le = album_row_order_le();
    let ghost src = rows_view(v@);
    let n = v.len();
    let mut rest = v;
    let mut out: Vec<AlbumRow> = Vec::new();
    let mut i: usize = 0;
    proof {
        assert(src.subrange(0, 0) =~= Seq::<AlbumRowV>::empty());
        assert(src.subrange(0, n as int) =~= src);
    }
    while i < n
        invariant
            le == album_row_order_le(),
            src.len() == n,
            i + rest.len() == n,
            i <= n,
            rows_view(rest@) == src.subrange(i as int, n as int),
            rows_view(out@) == sort_by_le(src.subrange(0, i as int), le),
            sorted_by(rows_view(out@), le),
        decreases n - i,
    {
        let ghost pre = rest@;
        let x = rest.remove(0);
        proof {
            assert(x@ == rows_view(pre)[0]);
            assert(x@ == src[i as int]);
            assert forall|k: int| 0 <= k < rest@.len() implies #[trigger] rows_view(rest@)[k]
                == src[i + 1 + k] by {
                assert(rest@[k] == pre[k + 1]);
                assert(rows_view(pre)[k + 1] == src.subrange(i as int, n as int)[k + 1]);
            }
            assert(rows_view(rest@) =~= src.subrange(i + 1, n as int));
        }
        let j = album_row_insertion_point(&out, &x);
        let ghost before = rows_view(out@);
        out.insert(j, x);
        proof {
            album_row_order_le_props();
            assert(rows_view(out@) =~= before.insert(j as int, x@));
            lemma_insert_sorted_at(before, le, x@, j as int);
            lemma_insert_sorted_sorted(before, le, x@);
            assert(src.subrange(0, i + 1).drop_last() =~= src.subrange(0, i as int));
            assert(src.subrange(0, i + 1).last() == src[i as int]);
        }
        i += 1;
    }
    proof {
        assert(src.subrange(0, n as int) =~= src);
    }
    out
}

/// Insertion index for `x` in the sorted `out`.
fn track_row_insertion_point(out: &Vec<TrackRow>, x: &TrackRow, by_position: bool) -> (j: usize)
    ensures
        j <= out.len(),
        forall|k: int| 0 <= k < j ==> (track_row_order_le(by_position))(rows_view(out@)[k], x@),
        j < out.len() ==> !(track_row_order_le(by_position))(rows_view(out@)[j as int], x@),
{
    let ghost le = track_row_order_le(by_position);
    let n = out.len();
    let mut j: usize = 0;
    while j < n
        invariant
            le == track_row_order_le(by_position),
            j <= n,
            n == out.len(),
            forall|k: int| 0 <= k < j ==> le(rows_view(out@)[k], x@),
        decreases n - j,
    {
        if !(track_row_le_exec(by_position, &out[j], x)) {
            return j;
        }
        j += 1;
    }
    j
}

/// Sort the rows; the result is exactly the specification-level
/// insertion sort of the input under the order above.
pub fn sort_track_rows(v: Vec<TrackRow>, by_position: bool) -> (r: Vec<TrackRow>)
    ensures
        rows_view(r@) == sort_by_le(rows_view(v@), track_row_order_le(by_position)),
        sorted_by(rows_view(r@), track_row_order_le(by_position)),
{
    let ghost le = track_row_order_le(by_position);
    let ghost src = rows_view(v@);
    let n = v.len();
    let mut rest = v;
    let mut out: Vec<TrackRow> = Vec::new();
    let mut i: usize = 0;
    proof {
        assert(src.subrange(0, 0) =~= Seq::<TrackRowV>::empty());
        assert(src.subrange(0, n as int) =~= src);
    }
    while i < n
        invariant
            le == track_row_order_le(by_position),
            src.len() == n,
            i + rest.len() == n,
            i <= n,
            rows_view(rest@) == src.subrange(i as int, n as int),
            rows_view(out@) == sort_by_le(src.subrange(0, i as int), le),
            sorted_by(rows_view(out@), le),
        decreases n - i,
    {
        let ghost pre = rest@;
        let x = rest.remove(0);
        proof {
            assert(x@ == rows_view(pre)[0]);
            assert(x@ == src[i as int]);
            assert forall|k: int| 0 <= k < rest@.len() implies #[trigger] rows_view(rest@)[k]
                == src[i + 1 + k] by {
                assert(rest@[k] == pre[k + 1]);
                assert(rows_view(pre)[k + 1] == src.subrange(i as int, n as int)[k + 1]);
            }
            assert(rows_view(rest@) =~= src.subrange(i + 1, n as int));
        }
        let j = track_row_insertion_point(&out, &x, by_position);
        let ghost before = rows_view(out@);
        out.insert(j, x);
        proof {
            track_row_order_le_props(by_position);
            assert(rows_view(out@) =~= before.insert(j as int, x@));
            lemma_insert_sorted_at(before, le, x@, j as int);
            lemma_insert_sorted_sorted(before, le, x@);
            assert(src.subrange(0, i + 1).drop_last() =~= src.subrange(0, i as int));
            assert(src.subrange(0, i + 1).last() == src[i as int]);
        }
        i += 1;
    }
    proof {
        assert(src.subrange(0, n as int) =~= src);
    }
    out
}

/// Insertion index for `x` in the sorted `out`.
fn setting_insertion_point(out: &Vec<Setting>, x: &Setting) -> (j: usize)
    ensures
        j <= out.len(),
        forall|k: int| 0 <= k < j ==> (setting_order_le())(rows_view(out@)[k], x@),
        j < out.len() ==> !(setting_order_le())(rows_view(out@)[j as int], x@),
{
    let ghost le = setting_order_le();
    let n = out.len();
    let mut j: usize = 0;
    while j < n
        invariant
            le == setting_order_le(),
            j <= n,
            n == out.len(),
            forall|k: int| 0 <= k < j ==> le(rows_view(out@)[k], x@),
        decreases n - j,
    {
        if !(str_lex_le(out[j].key.as_str(), x.key.as_str())) {
            return j;
        }
        j += 1;
    }
    j
}

/// Sort the rows; the result is exactly the specification-level
/// insertion sort of the input under the order above.
pub fn sort_settings(v: Vec<Setting>) -> (r: Vec<Setting>)
    ensures
        rows_view(r@) == sort_by_le(rows_view(v@), setting_order_le()),
        sorted_by(rows_view(r@), setting_order_le()),
{
    let ghost le = setting_order_le();
    let ghost src = rows_view(v@);
    let n = v.len();
    let mut rest = v;
    let mut out: Vec<Setting> = Vec::new();
    let mut i: usize = 0;
    proof {
        assert(src.subrange(0, 0) =~= Seq::<SettingV>::empty());
        assert(src.subrange(0, n as int) =~= src);
    }
    while i < n
        invariant
            le == setting_order_le(),
            src.len() == n,
            i + rest.len() == n,
            i <= n,
            rows_view(rest@) == src.subrange(i as int, n as int),
            rows_view(out@) == sort_by_le(src.subrange(0, i as int), le),
            sorted_by(rows_view(out@), le),
        decreases n - i,
    {
        let ghost pre = rest@;
        let x = rest.remove(0);
        proof {
            assert(x@ == rows_view(pre)[0]);
            assert(x@ == src[i as int]);
            assert forall|k: int| 0 <= k < rest@.len() implies #[trigger] rows_view(rest@)[k]
                == src[i + 1 + k] by {
                assert(rest@[k] == pre[k + 1]);
                assert(rows_view(pre)[k + 1] == src.subrange(i as int, n as int)[k + 1]);
            }
            assert(rows_view(rest@) =~= src.subrange(i + 1, n as int));
        }
        let j = setting_insertion_point(&out, &x);
        let ghost before = rows_view(out@);
        out.insert(j, x);
        proof {
            setting_order_le_props();
            assert(rows_view(out@) =~= before.insert(j as int, x@));
            lemma_insert_sorted_at(before, le, x@, j as int);
            lemma_insert_sorted_sorted(before, le, x@);
            assert(src.subrange(0, i + 1).drop_last() =~= src.subrange(0, i as int));
            assert(src.subrange(0, i + 1).last() == src[i as int]);
        }
        i += 1;
    }
    proof {
        assert(src.subrange(0, n as int) =~= src);
    }
    out
}

/// Executable album comparison under either order.
fn album_le_exec(by_year: bool, a: &Album, b: &Album) -> (r: bool)
    ensures
        r == (album_order_le(by_year))(a@, b@),
{
    if by_year {
        if opt_i32_lt_exec(a.year, b.year) {
            true
        } else {
            let same_year = match (a.year, b.year) {
                (None, None) => true,
                (Some(x), Some(y)) => x == y,
                _ => false,
            };
            same_year && str_lex_le(a.title.as_str(), b.title.as_str())
        }
    } else {
        str_lex_le(a.title.as_str(), b.title.as_str())
    }
}

/// Executable track-row comparison under either order.
fn track_row_le_exec(by_position: bool, a: &TrackRow, b: &TrackRow) -> (r: bool)
    ensures
        r == (track_row_order_le(by_position))(a@, b@),
{
    if by_position {
        if opt_i32_lt_exec(a.disc_number, b.disc_number) {
            true
        } else {
            let same_disc = match (a.disc_number, b.disc_number) {
                (None, None) => true,
                (Some(x), Some(y)) => x == y,
                _ => false,
            };
            same_disc && opt_i32_le_exec(a.track_number, b.track_number)
        }
    } else {
        str_lex_le(a.title.as_str(), b.title.as_str())
    }
}

} // verus!
