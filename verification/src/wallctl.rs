use vstd::prelude::*;
use crate::error::AppError;
use crate::palette::str_eq;

verus! {

/// How a wallpaper image is laid out on the desktop.
#[derive(Clone, Copy, PartialEq, Eq, Structural, Debug)]
pub enum WallMode {
    Center,
    Crop,
    Fit,
    Span,
    Stretch,
    Tile,
}

/// The layout mode a mode string selects; anything unrecognized falls
/// back to `Crop`.
pub open spec fn spec_parse_wall_mode(s: Seq<char>) -> WallMode {
    if s == "span"@ {
        WallMode::Span
    } else if s == "fit"@ {
        WallMode::Fit
    } else if s == "center"@ {
        WallMode::Center
    } else {
        WallMode::Crop
    }
}

/// Parses a wallpaper layout mode string.
pub fn parse_wall_mode(s: &str) -> (r: WallMode)
    ensures
        r == spec_parse_wall_mode(s@),
{
    if str_eq(s, "span") {
        WallMode::Span
    } else if str_eq(s, "fit") {
        WallMode::Fit
    } else if str_eq(s, "center") {
        WallMode::Center
    } else {
        WallMode::Crop
    }
}

/// Relies on wallpaper::get: asks the desktop for the current wallpaper
/// path.  The answer depends on the environment; nothing more is
/// promised.
#[verifier::external_body]
fn os_get_wallpaper() -> Result<String, String> {
    wallpaper::get().map_err(|e| e.to_string())
}

/// Relies on wallpaper::set_from_path: asks the desktop to use the file
/// at `path` as wallpaper.
#[verifier::external_body]
fn os_set_wallpaper(path: &str) -> Result<(), String> {
    wallpaper::set_from_path(path).map_err(|e| e.to_string())
}

/// Relies on wallpaper::set_mode: asks the desktop for a layout mode.
#[verifier::external_body]
fn os_set_mode(mode: WallMode) -> Result<(), String> {
    wallpaper::set_mode(match mode {
        WallMode::Center => wallpaper::Mode::Center,
        WallMode::Crop => wallpaper::Mode::Crop,
        WallMode::Fit => wallpaper::Mode::Fit,
        WallMode::Span => wallpaper::Mode::Span,
        WallMode::Stretch => wallpaper::Mode::Stretch,
        WallMode::Tile => wallpaper::Mode::Tile,
    }).map_err(|e| e.to_string())
}

/// Maps a desktop-call outcome to the crate's error type: success passes
/// through, and a failure text is wrapped as a `Wallpaper` error behind
/// the given prefix.
pub fn wall_result(r: Result<(), String>, prefix: &str) -> (out: Result<(), AppError>)
    ensures
        r is Ok <==> out is Ok,
        r matches Err(e) ==> out matches Err(AppError::Wallpaper(m)) && m@ == prefix@ + e@,
{
    match r {
        Ok(()) => Ok(()),
        Err(e) => {
            let mut m = String::new();
            m.append(prefix);
            m.append(e.as_str());
            Err(AppError::Wallpaper(m))
        },
    }
}

/// Maps a desktop-query outcome to the crate's error type: the path
/// passes through untouched, and a failure text is wrapped as a
/// `Wallpaper` error behind the given prefix.
pub fn wall_result_path(r: Result<String, String>, prefix: &str) -> (out: Result<String, AppError>)
    ensures
        r is Ok <==> out is Ok,
        r matches Ok(p) ==> out matches Ok(q) && q == p,
        r matches Err(e) ==> out matches Err(AppError::Wallpaper(m)) && m@ == prefix@ + e@,
{
    match r {
        Ok(p) => Ok(p),
        Err(e) => {
            let mut m = String::new();
            m.append(prefix);
            m.append(e.as_str());
            Err(AppError::Wallpaper(m))
        },
    }
}

/// The current desktop wallpaper path, or a `Wallpaper` error carrying
/// the desktop's failure text behind the fixed prefix.
pub fn get_current() -> (r: Result<String, AppError>)
    ensures
        r is Err ==> r matches Err(AppError::Wallpaper(_)),
{
    wall_result_path(os_get_wallpaper(), "Failed to get wallpaper: ")
}

/// Sets the desktop wallpaper to the file at `path`; whatever the
/// desktop reports, any failure surfaces as a `Wallpaper` error.
pub fn set_from_path(path: &str) -> (r: Result<(), AppError>)
    ensures
        r is Err ==> r matches Err(AppError::Wallpaper(_)),
{
    wall_result(os_set_wallpaper(path), "Failed to set wallpaper: ")
}

/// Sets the desktop wallpaper layout mode.
pub fn set_mode(mode: WallMode) -> (r: Result<(), AppError>)
    ensures
        r is Err ==> r matches Err(AppError::Wallpaper(_)),
{
    wall_result(os_set_mode(mode), "Failed to set wallpaper mode: ")
}

/// The sequence with every leading and trailing `q` removed.
pub open spec fn spec_trim_char(s: Seq<char>, q: char) -> Seq<char>
    decreases s.len(),
{
    if s.len() == 0 {
        s
    } else if s.first() == q {
        spec_trim_char(s.drop_first(), q)
    } else if s.last() == q {
        spec_trim_char(s.drop_last(), q)
    } else {
        s
    }
}

/// Trimming one character keeps exactly the span between the first and
/// last positions holding something else.
proof fn lemma_trim_char_range(s: Seq<char>, q: char, i: int, j: int)
    requires
        0 <= i <= j <= s.len(),
        forall|k: int| 0 <= k < i ==> #[trigger] s[k] == q,
        forall|k: int| j <= k < s.len() ==> #[trigger] s[k] == q,
        i < j ==> s[i] != q && s[j - 1] != q,
    ensures
        spec_trim_char(s, q) == s.subrange(i, j),
    decreases s.len(),
{
    if s.len() == 0 {
        assert(spec_trim_char(s, q) =~= s.subrange(0, 0));
    } else if s.first() == q {
        if i == j {
            let tail = s.drop_first();
            assert(forall|k: int| 0 <= k < tail.len() ==> #[trigger] tail[k] == q);
            lemma_trim_char_range(tail, q, 0, 0);
            assert(s.subrange(i, j) =~= tail.subrange(0, 0));
        } else {
            assert(i >= 1);
            let tail = s.drop_first();
            assert(forall|k: int| 0 <= k < i - 1 ==> #[trigger] tail[k] == q);
            assert(forall|k: int| j - 1 <= k < tail.len() ==> #[trigger] tail[k] == q);
            lemma_trim_char_range(tail, q, i - 1, j - 1);
            assert(s.subrange(i, j) =~= tail.subrange(i - 1, j - 1));
        }
    } else if s.last() == q {
        assert(i < j);
        assert(j <= s.len() - 1);
        let head = s.drop_last();
        assert(forall|k: int| 0 <= k < i ==> #[trigger] head[k] == q);
        assert(forall|k: int| j <= k < head.len() ==> #[trigger] head[k] == q);
        lemma_trim_char_range(head, q, i, j);
        assert(s.subrange(i, j) =~= head.subrange(i, j));
    } else {
        assert(i == 0);
        assert(j == s.len());
        assert(spec_trim_char(s, q) =~= s.subrange(0, s.len() as int));
    }
}

/// The slice of `s` with every leading and trailing `q` removed.
pub fn trim_char(s: &str, q: char) -> (r: &str)
    ensures
        r@ == spec_trim_char(s@, q),
{
    let n = s.unicode_len();
    let mut i: usize = 0;
    while i < n && s.get_char(i) == q
        invariant
            0 <= i <= n,
            n == s@.len(),
            forall|k: int| 0 <= k < i ==> #[trigger] s@[k] == q,
        decreases n - i,
    {
        i = i + 1;
    }
    let mut j: usize = n;
    while j > i && s.get_char(j - 1) == q
        invariant
            i <= j <= n,
            n == s@.len(),
            forall|k: int| 0 <= k < i ==> #[trigger] s@[k] == q,
            forall|k: int| j <= k < n ==> #[trigger] s@[k] == q,
        decreases j,
    {
        j = j - 1;
    }
    proof {
        lemma_trim_char_range(s@, q, i as int, j as int);
    }
    s.substring_char(i, j)
}

/// The sequence with a leading `file://` scheme removed, if one is
/// there.
pub open spec fn spec_strip_scheme(s: Seq<char>) -> Seq<char> {
    if s.len() >= 7 && s.subrange(0, 7) == "file://"@ {
        s.subrange(7, s.len() as int)
    } else {
        s
    }
}

/// The slice of `s` without its leading `file://` scheme, if one is
/// there.
pub fn strip_scheme(s: &str) -> (r: &str)
    ensures
        r@ == spec_strip_scheme(s@),
{
    let scheme = "file://";
    proof {
        reveal_strlit("file://");
    }
    let n = s.unicode_len();
    if n < 7 {
        return s;
    }
    let mut k: usize = 0;
    while k < 7 && s.get_char(k) == scheme.get_char(k)
        invariant
            0 <= k <= 7,
            n == s@.len(),
            n >= 7,
            scheme@ == "file://"@,
            scheme@.len() == 7,
            forall|t: int| 0 <= t < k ==> s@[t] == #[trigger] scheme@[t],
        decreases 7 - k,
    {
        k = k + 1;
    }
    if k == 7 {
        proof {
            assert(s@.subrange(0, 7) =~= "file://"@);
        }
        s.substring_char(7, n)
    } else {
        proof {
            assert(s@[k as int] != "file://"@[k as int]);
            assert(s@.subrange(0, 7) != "file://"@);
        }
        s
    }
}

/// Cleans a desktop-reported wallpaper URI into a plain path: outer
/// whitespace, then outer single quotes, then outer double quotes are
/// trimmed, and a leading `file://` scheme is dropped.
pub fn clean_wallpaper_uri(s: &str) -> (r: String)
    ensures
        r@ == spec_strip_scheme(
            spec_trim_char(spec_trim_char(crate::models::spec_trim(s@), '\''), '"'),
        ),
{
    let t = crate::models::trim_str(s);
    let t = trim_char(t, '\'');
    let t = trim_char(t, '"');
    let t = strip_scheme(t);
    t.to_owned()
}

} // verus!
