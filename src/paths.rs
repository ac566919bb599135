use vstd::prelude::*;
use vstd::string::StrSliceExecFns;
use vstd::string::StringExecFns;

verus! {

/// What `str::to_lowercase` makes of a string.
pub uninterp spec fn lower_of(s: Seq<char>) -> Seq<char>;

/// Relies on str::to_lowercase: Unicode lower-casing, which depends on the
/// characters alone.
#[verifier::external_body]
pub(crate) fn to_lowercase(s: &str) -> (r: String)
    ensures
        r@ == lower_of(s@),
{
    s.to_lowercase()
}

/// Every backslash replaced by a forward slash.
pub open spec fn forward_slashes(s: Seq<char>) -> Seq<char> {
    Seq::new(s.len(), |i: int| if s[i] == '\\' { '/' } else { s[i] })
}

/// Index just past the last `.`, or `0` when there is none.
pub open spec fn ext_start(s: Seq<char>) -> int
    decreases s.len(),
{
    if s.len() == 0 {
        0
    } else if s.last() == '.' {
        s.len() as int
    } else {
        ext_start(s.drop_last())
    }
}

/// The text after the last `.`, or the whole text when there is none.
pub open spec fn extension_of(s: Seq<char>) -> Seq<char> {
    s.subrange(ext_start(s), s.len() as int)
}

pub proof fn lemma_ext_start_bounds(s: Seq<char>)
    ensures
        0 <= ext_start(s) <= s.len(),
    decreases s.len(),
{
    if s.len() > 0 && s.last() != '.' {
        lemma_ext_start_bounds(s.drop_last());
    }
}

/// Codec and rate (sample rate for PCM, bitrate otherwise) for an already
/// lower-cased extension; unknown extensions fall back to AAC.
pub open spec fn encoding_spec(ext: Seq<char>) -> (Seq<char>, Seq<char>) {
    if ext == "wav"@ {
        ("pcm_s16le"@, "44100"@)
    } else if ext == "mp3"@ {
        ("libmp3lame"@, "192k"@)
    } else if ext == "m4a"@ || ext == "aac"@ {
        ("aac"@, "192k"@)
    } else if ext == "ogg"@ {
        ("libvorbis"@, "192k"@)
    } else if ext == "flac"@ {
        ("flac"@, "0"@)
    } else if ext == "opus"@ {
        ("libopus"@, "128k"@)
    } else {
        ("aac"@, "192k"@)
    }
}

/// Replaces every backslash by a forward slash.
pub fn forward_slashed(s: &str) -> (r: String)
    ensures
        r@ == forward_slashes(s@),
{
    let n = s.unicode_len();
    let mut out = String::new();
    let mut i: usize = 0;
    while i < n
        invariant
            n == s@.len(),
            i <= n,
            out@ == forward_slashes(s@).subrange(0, i as int),
        decreases n - i,
    {
        let c = s.get_char(i);
        if c == '\\' {
            out.append("/");
            proof {
                reveal_strlit("/");
            }
        } else {
            out.append(s.substring_char(i, i + 1));
        }
        assert(out@ =~= forward_slashes(s@).subrange(0, i + 1));
        i = i + 1;
    }
    assert(forward_slashes(s@).subrange(0, n as int) =~= forward_slashes(s@));
    out
}

/// Both paths with forward slashes only.
pub fn normalize_path(video_path: &str, output_path: &str) -> (r: (String, String))
    ensures
        r.0@ == forward_slashes(video_path@),
        r.1@ == forward_slashes(output_path@),
{
    (forward_slashed(video_path), forward_slashed(output_path))
}

/// Position just past the last `.` of `s`, or `0`.
pub fn extension_start(s: &str) -> (r: usize)
    ensures
        r == ext_start(s@),
{
    let mut j: usize = s.unicode_len();
    proof {
        assert(s@.subrange(0, j as int) =~= s@);
    }
    while j > 0 && s.get_char(j - 1) != '.'
        invariant
            j <= s@.len(),
            ext_start(s@) == ext_start(s@.subrange(0, j as int)),
        decreases j,
    {
        proof {
            assert(s@.subrange(0, j as int).drop_last() =~= s@.subrange(0, j - 1));
        }
        j = j - 1;
    }
    j
}

/// The text after the last `.` of a path, or the whole path.
pub fn extension(path: &str) -> (r: &str)
    ensures
        r@ == extension_of(path@),
{
    proof {
        lemma_ext_start_bounds(path@);
    }
    let start = extension_start(path);
    path.substring_char(start, path.unicode_len())
}

/// Codec and rate for an already lower-cased extension.
pub fn encoding_params_for(ext: &str) -> (r: (&'static str, &'static str))
    ensures
        r.0@ == encoding_spec(ext@).0,
        r.1@ == encoding_spec(ext@).1,
{
    let e = String::from_str(ext);
    if e == String::from_str("wav") {
        ("pcm_s16le", "44100")
    } else if e == String::from_str("mp3") {
        ("libmp3lame", "192k")
    } else if e == String::from_str("m4a") || e == String::from_str("aac") {
        ("aac", "192k")
    } else if e == String::from_str("ogg") {
        ("libvorbis", "192k")
    } else if e == String::from_str("flac") {
        ("flac", "0")
    } else if e == String::from_str("opus") {
        ("libopus", "128k")
    } else {
        ("aac", "192k")
    }
}

/// Codec and rate for an output path, chosen by its extension without regard
/// to case.
pub fn get_audio_encoding_params(output_path: &str) -> (r: (&'static str, &'static str))
    ensures
        r.0@ == encoding_spec(lower_of(extension_of(output_path@))).0,
        r.1@ == encoding_spec(lower_of(extension_of(output_path@))).1,
{
    let ext = extension(output_path);
    let lower = to_lowercase(ext);
    encoding_params_for(lower.as_str())
}

} // verus!
