//! Path handling as the library defines it, on plain strings: separator
//! normalization, the absoluteness rule, file name / stem / extension
//! extraction, and the audio-extension allow list.
//!
//! Both `/` and `\` count as separators when a path is picked apart. A
//! path is absolute when it starts with a separator or with a drive
//! letter, a colon and a separator.

use vstd::prelude::*;
use vstd::string::*;
use crate::seqtools::{
    last_match_idx, lemma_last_match_idx_props, lemma_last_match_idx_unique,
};

verus! {

/// Backslashes become forward slashes; nothing else changes.
pub open spec fn normalize_seps(s: Seq<char>) -> Seq<char> {
    s.map_values(
        |c: char|
            if c == '\\' {
                '/'
            } else {
                c
            },
    )
}

/// Relies on str::replace with a one-character pattern and a
/// one-character replacement: every backslash is replaced by a forward
/// slash and every other character is kept.
#[verifier::external_body]
pub fn normalize_path(s: &str) -> (r: String)
    ensures
        r@ == normalize_seps(s@),
{
    s.replace('\\', "/")
}

/// A path separator.
pub open spec fn path_sep() -> spec_fn(char) -> bool {
    |c: char| c == '/' || c == '\\'
}

/// A dot.
pub open spec fn dot_char() -> spec_fn(char) -> bool {
    |c: char| c == '.'
}

/// An ASCII letter.
pub open spec fn is_ascii_letter(c: char) -> bool {
    ('a' <= c && c <= 'z') || ('A' <= c && c <= 'Z')
}

/// The library's absoluteness rule: the path starts with a separator,
/// or with an ASCII drive letter, a colon and a separator. The rule is
/// deliberately platform-independent — both rooted POSIX paths and
/// drive-letter paths are accepted on every platform, where a
/// platform-native check would accept different shapes on different
/// targets.
pub open spec fn spec_is_absolute(s: Seq<char>) -> bool {
    s.len() > 0 && ((path_sep())(s[0]) || (s.len() >= 3 && is_ascii_letter(s[0]) && s[1] == ':'
        && (path_sep())(s[2])))
}

/// The final path component: everything after the last separator, or
/// the whole path if it has none.
pub open spec fn file_name_of(s: Seq<char>) -> Seq<char> {
    s.subrange(last_match_idx(s, path_sep()) + 1, s.len() as int)
}

/// The extension: what follows the last dot of the file name, unless
/// that dot is the name's first character or the name has none.
pub open spec fn ext_of(s: Seq<char>) -> Option<Seq<char>> {
    let name = file_name_of(s);
    let d = last_match_idx(name, dot_char());
    if d <= 0 {
        None
    } else {
        Some(name.subrange(d + 1, name.len() as int))
    }
}

/// The stem: the file name up to the last dot, or the whole name if the
/// dot is its first character or absent.
pub open spec fn stem_of(s: Seq<char>) -> Seq<char> {
    let name = file_name_of(s);
    let d = last_match_idx(name, dot_char());
    if d <= 0 {
        name
    } else {
        name.subrange(0, d)
    }
}

/// Whether the path is absolute under the library's rule.
pub fn is_absolute_path(s: &str) -> (r: bool)
    ensures
        r == spec_is_absolute(s@),
{
    let n = s.unicode_len();
    if n == 0 {
        return false;
    }
    let c0 = s.get_char(0);
    if c0 == '/' || c0 == '\\' {
        return true;
    }
    if n >= 3 {
        let c1 = s.get_char(1);
        let c2 = s.get_char(2);
        let letter = ('a' <= c0 && c0 <= 'z') || ('A' <= c0 && c0 <= 'Z');
        return letter && c1 == ':' && (c2 == '/' || c2 == '\\');
    }
    false
}

/// Index just past the last separator of `s`, i.e. where the file name
/// starts.
fn file_name_start(s: &str) -> (r: usize)
    ensures
        r == last_match_idx(s@, path_sep()) + 1,
        r <= s@.len(),
{
    let ghost p = path_sep();
    let n = s.unicode_len();
    let mut i: usize = n;
    while i > 0
        invariant
            p == path_sep(),
            i <= n,
            n == s@.len(),
            forall|j: int| i <= j < n ==> !p(s@[j]),
        decreases i,
    {
        let c = s.get_char(i - 1);
        if c == '/' || c == '\\' {
            proof {
                lemma_last_match_idx_unique(s@, p, i - 1);
            }
            return i;
        }
        i -= 1;
    }
    proof {
        lemma_last_match_idx_props(s@, p);
    }
    0
}

/// Index of the last dot of `s` at or after `from`, or `None`.
fn last_dot_from(s: &str, from: usize) -> (r: Option<usize>)
    requires
        from <= s@.len(),
    ensures
        match r {
            Some(k) => from <= k && last_match_idx(s@.subrange(from as int, s@.len() as int), dot_char())
                == k - from,
            None => last_match_idx(s@.subrange(from as int, s@.len() as int), dot_char()) == -1,
        },
{
    let ghost p = dot_char();
    let ghost sub = s@.subrange(from as int, s@.len() as int);
    let n = s.unicode_len();
    let mut i: usize = n;
    while i > from
        invariant
            p == dot_char(),
            sub == s@.subrange(from as int, s@.len() as int),
            from <= i <= n,
            n == s@.len(),
            forall|j: int| i - from <= j < sub.len() ==> !p(sub[j]),
        decreases i,
    {
        let c = s.get_char(i - 1);
        proof {
            assert(sub[i - 1 - from as int] == s@[i - 1]);
        }
        if c == '.' {
            proof {
                lemma_last_match_idx_unique(sub, p, i - 1 - from as int);
            }
            return Some(i - 1);
        }
        i -= 1;
    }
    proof {
        lemma_last_match_idx_props(sub, p);
    }
    None
}

/// The stem of the path's file name, used as the fallback track title.
pub fn path_file_stem(s: &str) -> (r: String)
    ensures
        r@ == stem_of(s@),
{
    let start = file_name_start(s);
    let n = s.unicode_len();
    let ghost name = file_name_of(s@);
    proof {
        assert(name =~= s@.subrange(start as int, n as int));
        lemma_last_match_idx_props(name, dot_char());
    }
    let stem_end: usize = match last_dot_from(s, start) {
        Some(k) => {
            if k == start {
                n
            } else {
                k
            }
        },
        None => n,
    };
    let sub = s.substring_char(start, stem_end);
    proof {
        let d = last_match_idx(name, dot_char());
        if d <= 0 {
            assert(sub@ =~= name);
        } else {
            assert(sub@ =~= name.subrange(0, d));
        }
    }
    String::from_str(sub)
}

/// The extension of the path's file name, with its case preserved.
pub fn path_extension(s: &str) -> (r: Option<String>)
    ensures
        match r {
            Some(e) => ext_of(s@) == Some(e@),
            None => ext_of(s@) is None,
        },
{
    let start = file_name_start(s);
    let n = s.unicode_len();
    let ghost name = file_name_of(s@);
    proof {
        assert(name =~= s@.subrange(start as int, n as int));
        lemma_last_match_idx_props(name, dot_char());
    }
    match last_dot_from(s, start) {
        Some(k) => {
            if k == start {
                None
            } else {
                let e = s.substring_char(k + 1, n);
                proof {
                    let d = last_match_idx(name, dot_char());
                    assert(e@ =~= name.subrange(d + 1, name.len() as int));
                }
                Some(String::from_str(e))
            }
        },
        None => None,
    }
}

/// Lower-casing of a single character: ASCII letters are folded, every
/// other character is kept.
pub open spec fn lower_char(c: char) -> char {
    if c == 'A' {
        'a'
    } else if c == 'B' {
        'b'
    } else if c == 'C' {
        'c'
    } else if c == 'D' {
        'd'
    } else if c == 'E' {
        'e'
    } else if c == 'F' {
        'f'
    } else if c == 'G' {
        'g'
    } else if c == 'H' {
        'h'
    } else if c == 'I' {
        'i'
    } else if c == 'J' {
        'j'
    } else if c == 'K' {
        'k'
    } else if c == 'L' {
        'l'
    } else if c == 'M' {
        'm'
    } else if c == 'N' {
        'n'
    } else if c == 'O' {
        'o'
    } else if c == 'P' {
        'p'
    } else if c == 'Q' {
        'q'
    } else if c == 'R' {
        'r'
    } else if c == 'S' {
        's'
    } else if c == 'T' {
        't'
    } else if c == 'U' {
        'u'
    } else if c == 'V' {
        'v'
    } else if c == 'W' {
        'w'
    } else if c == 'X' {
        'x'
    } else if c == 'Y' {
        'y'
    } else if c == 'Z' {
        'z'
    } else {
        c
    }
}

/// ASCII lower-casing of a character sequence.
pub open spec fn lower_seq(s: Seq<char>) -> Seq<char> {
    s.map_values(|c: char| lower_char(c))
}

/// Executable ASCII lower-casing of one character.
pub fn to_lower_char(c: char) -> (r: char)
    ensures
        r == lower_char(c),
{
    match c {
        'A' => 'a',
        'B' => 'b',
        'C' => 'c',
        'D' => 'd',
        'E' => 'e',
        'F' => 'f',
        'G' => 'g',
        'H' => 'h',
        'I' => 'i',
        'J' => 'j',
        'K' => 'k',
        'L' => 'l',
        'M' => 'm',
        'N' => 'n',
        'O' => 'o',
        'P' => 'p',
        'Q' => 'q',
        'R' => 'r',
        'S' => 's',
        'T' => 't',
        'U' => 'u',
        'V' => 'v',
        'W' => 'w',
        'X' => 'x',
        'Y' => 'y',
        'Z' => 'z',
        _ => c,
    }
}

/// Whether `a`, lower-cased, equals `b`.
pub fn eq_lower(a: &str, b: &str) -> (r: bool)
    ensures
        r == (lower_seq(a@) == b@),
{
    let na = a.unicode_len();
    let nb = b.unicode_len();
    if na != nb {
        proof {
            assert(lower_seq(a@).len() == a@.len());
        }
        return false;
    }
    let mut i: usize = 0;
    while i < na
        invariant
            i <= na,
            na == a@.len(),
            na == b@.len(),
            forall|j: int| 0 <= j < i ==> lower_seq(a@)[j] == b@[j],
        decreases na - i,
    {
        let ca = to_lower_char(a.get_char(i));
        let cb = b.get_char(i);
        if ca != cb {
            proof {
                assert(lower_seq(a@)[i as int] != b@[i as int]);
            }
            return false;
        }
        i += 1;
    }
    proof {
        assert(lower_seq(a@) =~= b@);
    }
    true
}

/// The audio-file extensions the scan accepts, compared after ASCII
/// lower-casing.
pub open spec fn is_audio_ext(e: Seq<char>) -> bool {
    ||| lower_seq(e) == "mp3"@
    ||| lower_seq(e) == "m4a"@
    ||| lower_seq(e) == "flac"@
    ||| lower_seq(e) == "wav"@
    ||| lower_seq(e) == "ogg"@
    ||| lower_seq(e) == "opus"@
    ||| lower_seq(e) == "wma"@
}

/// Whether a path names an audio file the scan should take: its
/// extension, lower-cased, is on the allow list.
pub open spec fn spec_is_audio_path(s: Seq<char>) -> bool {
    match ext_of(s) {
        Some(e) => is_audio_ext(e),
        None => false,
    }
}

/// Executable audio-path test.
pub fn is_audio_path(s: &str) -> (r: bool)
    ensures
        r == spec_is_audio_path(s@),
{
    match path_extension(s) {
        Some(e) => {
            let es = e.as_str();
            eq_lower(es, "mp3") || eq_lower(es, "m4a") || eq_lower(es, "flac") || eq_lower(
                es,
                "wav",
            ) || eq_lower(es, "ogg") || eq_lower(es, "opus") || eq_lower(es, "wma")
        },
        None => false,
    }
}

} // verus!
