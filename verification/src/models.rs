use vstd::prelude::*;

verus! {

/// Which hosted image service a direct-prompt request targets.
#[derive(Clone, Copy, PartialEq, Eq, Structural, Debug)]
pub enum AiProvider {
    Pollinations,
    OpenAi,
}

/// One generation request: style tags in order, scheme tags in order, an
/// optional free-form prompt for the hosted-API mode, the provider for
/// that mode, and the exact output size in pixels.
pub struct GenerationRequest {
    pub styles: Vec<String>,
    pub schemes: Vec<String>,
    pub custom_prompt: Option<String>,
    pub provider: AiProvider,
    pub target_width: u32,
    pub target_height: u32,
}

/// What a finished generation reports back to the caller.
pub struct GenerationResult {
    pub image_path: String,
    pub original_width: u32,
    pub original_height: u32,
    pub final_width: u32,
    pub final_height: u32,
    pub was_upscaled: bool,
}

/// Persisted application settings.
pub struct AppSettings {
    pub ai_provider: String,
    pub openai_api_key: Option<String>,
    pub save_directory: Option<String>,
    pub upscale_enabled: bool,
    pub upscale_factor: u32,
}

impl Default for AppSettings {
    /// The out-of-the-box settings.
    fn default() -> (r: AppSettings)
        ensures
            r.ai_provider@ == "pollinations"@,
            r.openai_api_key is None,
            r.save_directory is None,
            r.upscale_enabled,
            r.upscale_factor == 4,
    {
        AppSettings {
            ai_provider: String::from_str("pollinations"),
            openai_api_key: None,
            save_directory: None,
            upscale_enabled: true,
            upscale_factor: 4,
        }
    }
}

/// Unicode whitespace, as the prompt trimmer strips it: the White_Space
/// characters (controls, the spaces from no-break to ideographic, and
/// the line and paragraph separators).
pub open spec fn spec_is_space(c: char) -> bool {
    let u = c as u32;
    ||| (0x09 <= u && u <= 0x0D)
    ||| u == 0x20
    ||| u == 0x85
    ||| u == 0xA0
    ||| u == 0x1680
    ||| (0x2000 <= u && u <= 0x200A)
    ||| u == 0x2028
    ||| u == 0x2029
    ||| u == 0x202F
    ||| u == 0x205F
    ||| u == 0x3000
}

/// The sequence with leading and trailing whitespace removed.
pub open spec fn spec_trim(s: Seq<char>) -> Seq<char>
    decreases s.len(),
{
    if s.len() == 0 {
        s
    } else if spec_is_space(s.first()) {
        spec_trim(s.drop_first())
    } else if spec_is_space(s.last()) {
        spec_trim(s.drop_last())
    } else {
        s
    }
}

/// Trimming keeps exactly the characters between the first and last
/// non-space positions.
proof fn lemma_trim_range(s: Seq<char>, i: int, j: int)
    requires
        0 <= i <= j <= s.len(),
        forall|k: int| 0 <= k < i ==> spec_is_space(#[trigger] s[k]),
        forall|k: int| j <= k < s.len() ==> spec_is_space(#[trigger] s[k]),
        i < j ==> !spec_is_space(s[i]) && !spec_is_space(s[j - 1]),
    ensures
        spec_trim(s) == s.subrange(i, j),
    decreases s.len(),
{
    if s.len() == 0 {
        assert(spec_trim(s) =~= s.subrange(0, 0));
    } else if spec_is_space(s.first()) {
        if i == j {
            // Only spaces remain on both sides; the whole text is blank.
            assert(i == 0 || spec_is_space(s[0]));
            let tail = s.drop_first();
            assert(forall|k: int| 0 <= k < tail.len() ==> spec_is_space(#[trigger] tail[k]));
            lemma_trim_range(tail, 0, 0);
            assert(s.subrange(i, j) =~= tail.subrange(0, 0));
        } else {
            assert(i >= 1);
            let tail = s.drop_first();
            assert(forall|k: int| 0 <= k < i - 1 ==> spec_is_space(#[trigger] tail[k]));
            assert(forall|k: int| j - 1 <= k < tail.len() ==> spec_is_space(#[trigger] tail[k]));
            lemma_trim_range(tail, i - 1, j - 1);
            assert(s.subrange(i, j) =~= tail.subrange(i - 1, j - 1));
        }
    } else if spec_is_space(s.last()) {
        assert(i < j);
        assert(j <= s.len() - 1);
        let head = s.drop_last();
        assert(forall|k: int| 0 <= k < i ==> spec_is_space(#[trigger] head[k]));
        assert(forall|k: int| j <= k < head.len() ==> spec_is_space(#[trigger] head[k]));
        lemma_trim_range(head, i, j);
        assert(s.subrange(i, j) =~= head.subrange(i, j));
    } else {
        assert(i == 0);
        assert(j == s.len());
        assert(spec_trim(s) =~= s.subrange(0, s.len() as int));
    }
}

/// Whether `c` is Unicode whitespace.
pub fn is_space_char(c: char) -> (r: bool)
    ensures
        r == spec_is_space(c),
{
    let u = c as u32;
    (0x09 <= u && u <= 0x0D) || u == 0x20 || u == 0x85 || u == 0xA0 || u == 0x1680 || (0x2000 <= u
        && u <= 0x200A) || u == 0x2028 || u == 0x2029 || u == 0x202F || u == 0x205F || u == 0x3000
}

/// The slice of `s` with leading and trailing whitespace removed.
pub fn trim_str(s: &str) -> (r: &str)
    ensures
        r@ == spec_trim(s@),
{
    let n = s.unicode_len();
    let mut i: usize = 0;
    while i < n && is_space_char(s.get_char(i))
        invariant
            0 <= i <= n,
            n == s@.len(),
            forall|k: int| 0 <= k < i ==> spec_is_space(#[trigger] s@[k]),
        decreases n - i,
    {
        i = i + 1;
    }
    let mut j: usize = n;
    while j > i && is_space_char(s.get_char(j - 1))
        invariant
            i <= j <= n,
            n == s@.len(),
            forall|k: int| 0 <= k < i ==> spec_is_space(#[trigger] s@[k]),
            forall|k: int| j <= k < n ==> spec_is_space(#[trigger] s@[k]),
        decreases j,
    {
        j = j - 1;
    }
    proof {
        lemma_trim_range(s@, i as int, j as int);
    }
    s.substring_char(i, j)
}

/// The fixed quality clause appended to every hosted-API prompt.
pub open spec fn spec_quality_suffix() -> Seq<char> {
    "masterpiece, best quality, ultra-detailed, sharp focus, desktop wallpaper, no text, no watermark, no logo, no signature"@
}

/// The prompt handed to a hosted image API: the trimmed free-form text
/// when one is given and non-blank, a stock description otherwise, each
/// followed by the fixed quality clause.
pub open spec fn spec_build_prompt(custom: Option<Seq<char>>) -> Seq<char> {
    match custom {
        Some(t) => if spec_trim(t).len() > 0 {
            spec_trim(t) + ", "@ + spec_quality_suffix()
        } else {
            "A beautiful abstract desktop wallpaper, "@ + spec_quality_suffix()
        },
        None => "A beautiful abstract desktop wallpaper, "@ + spec_quality_suffix(),
    }
}

/// Builds the prompt for the direct-prompt (hosted API) mode.
pub fn build_prompt(custom: Option<&str>) -> (r: String)
    ensures
        custom matches Some(t) ==> r@ == spec_build_prompt(Some(t@)),
        custom is None ==> r@ == spec_build_prompt(None),
{
    let mut s = String::new();
    match custom {
        Some(text) => {
            let trimmed = trim_str(text);
            if trimmed.unicode_len() > 0 {
                s.append(trimmed);
                s.append(", ");
                s.append(
                    "masterpiece, best quality, ultra-detailed, sharp focus, desktop wallpaper, no text, no watermark, no logo, no signature",
                );
                proof {
                    assert(s@ =~= spec_build_prompt(Some(text@)));
                }
            } else {
                s.append("A beautiful abstract desktop wallpaper, ");
                s.append(
                    "masterpiece, best quality, ultra-detailed, sharp focus, desktop wallpaper, no text, no watermark, no logo, no signature",
                );
                proof {
                    assert(s@ =~= spec_build_prompt(Some(text@)));
                }
            }
        },
        None => {
            s.append("A beautiful abstract desktop wallpaper, ");
            s.append(
                "masterpiece, best quality, ultra-detailed, sharp focus, desktop wallpaper, no text, no watermark, no logo, no signature",
            );
            proof {
                assert(s@ =~= spec_build_prompt(None));
            }
        },
    }
    s
}

/// The image size the hosted API is asked for, as a function of the
/// target aspect ratio: wide targets (ratio above 1.4) get the landscape
/// size, tall ones (ratio below 0.7) the portrait size, the rest the
/// square.
pub open spec fn spec_nearest_dalle_size(w: u32, h: u32) -> Seq<char> {
    if 10 * w > 14 * h {
        "1792x1024"@
    } else if 10 * w < 7 * h {
        "1024x1792"@
    } else {
        "1024x1024"@
    }
}

/// Picks the hosted-API image size nearest the target aspect ratio.
pub fn nearest_dalle_size(w: u32, h: u32) -> (r: String)
    ensures
        r@ == spec_nearest_dalle_size(w, h),
{
    let wr: u64 = 10 * (w as u64);
    let hr: u64 = h as u64;
    if wr > 14 * hr {
        String::from_str("1792x1024")
    } else if wr < 7 * hr {
        String::from_str("1024x1792")
    } else {
        String::from_str("1024x1024")
    }
}

/// Caps one axis of a hosted-provider request at the service's
/// per-axis limit of 2048 pixels.
pub fn cap_provider_axis(v: u32) -> (r: u32)
    ensures
        r == if v > 2048 { 2048u32 } else { v },
{
    if v > 2048 {
        2048
    } else {
        v
    }
}

/// The output file name the upscaler writes beside its input:
/// the input's stem with an `_upscaled.png` suffix.
pub fn upscaled_file_name(stem: &str) -> (r: String)
    ensures
        r@ == stem@ + "_upscaled.png"@,
{
    let mut s = String::new();
    s.append(stem);
    s.append("_upscaled.png");
    proof {
        assert(s@ =~= stem@ + "_upscaled.png"@);
    }
    s
}

} // verus!
