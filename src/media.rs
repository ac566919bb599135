use crate::paths::{ext_start, forward_slashed, forward_slashes};
use vstd::prelude::*;
use vstd::string::StrSliceExecFns;
use vstd::string::StringExecFns;

verus! {

/// The transcoder flag that carries the rate for a codec: the sample rate
/// for PCM, nothing for lossless FLAC, the bitrate otherwise.
pub open spec fn rate_flag_spec(codec: Seq<char>) -> Option<Seq<char>> {
    if codec == "pcm_s16le"@ {
        Some("-ar"@)
    } else if codec == "flac"@ {
        None
    } else {
        Some("-b:a"@)
    }
}

/// One line of a concat list naming a file.
pub open spec fn file_line(path: Seq<char>) -> Seq<char> {
    "file '"@ + forward_slashes(path) + "'\n"@
}

/// A concat list naming each file in turn.
pub open spec fn concat_list_spec(paths: Seq<Seq<char>>) -> Seq<char>
    decreases paths.len(),
{
    if paths.len() == 0 {
        Seq::empty()
    } else {
        concat_list_spec(paths.drop_last()) + file_line(paths.last())
    }
}

/// The three lines of a concat list that cut one scene out of a file.
pub open spec fn scene_lines(path: Seq<char>, start: Seq<char>, end: Seq<char>) -> Seq<char> {
    file_line(path) + "inpoint "@ + start + "\n"@ + "outpoint "@ + end + "\n"@
}

/// A concat list of scenes of one file, each given by its start and end text.
pub open spec fn scene_list_spec(path: Seq<char>, bounds: Seq<(Seq<char>, Seq<char>)>) -> Seq<char>
    decreases bounds.len(),
{
    if bounds.len() == 0 {
        Seq::empty()
    } else {
        scene_list_spec(path, bounds.drop_last()) + scene_lines(
            path,
            bounds.last().0,
            bounds.last().1,
        )
    }
}

pub open spec fn views_of(v: Seq<String>) -> Seq<Seq<char>> {
    v.map_values(|s: String| s@)
}

pub open spec fn pair_views_of(v: Seq<(String, String)>) -> Seq<(Seq<char>, Seq<char>)> {
    v.map_values(|p: (String, String)| (p.0@, p.1@))
}

/// The flag under which the rate goes to the transcoder for `codec`, if any.
pub fn rate_flag(codec: &str) -> (r: Option<&'static str>)
    ensures
        r is Some <==> rate_flag_spec(codec@) is Some,
        r is Some ==> r->0@ == rate_flag_spec(codec@)->0,
{
    let c = String::from_str(codec);
    if c == String::from_str("pcm_s16le") {
        Some("-ar")
    } else if c == String::from_str("flac") {
        None
    } else {
        Some("-b:a")
    }
}

/// The fallback output path used when the first one cannot be replaced:
/// `_1` inserted before the last extension. `None` when the path has no `.`.
pub fn suffixed_output_path(path: &str) -> (r: Option<String>)
    ensures
        ext_start(path@) == 0 ==> r is None,
        ext_start(path@) > 0 ==> r is Some && r->0@ == path@.subrange(0, ext_start(path@) - 1)
            + "_1."@ + path@.subrange(ext_start(path@), path@.len() as int),
{
    proof {
        crate::paths::lemma_ext_start_bounds(path@);
    }
    let start = crate::paths::extension_start(path);
    if start == 0 {
        None
    } else {
        let n = path.unicode_len();
        let mut out = String::from_str(path.substring_char(0, start - 1));
        out.append("_1.");
        out.append(path.substring_char(start, n));
        Some(out)
    }
}

fn push_file_line(out: &mut String, path: &str)
    ensures
        final(out)@ == old(out)@ + file_line(path@),
{
    out.append("file '");
    let p = forward_slashed(path);
    out.append(p.as_str());
    out.append("'\n");
    assert(final(out)@ =~= old(out)@ + file_line(path@));
}

/// The concat list that joins the given files in order.
pub fn concat_list(paths: &Vec<String>) -> (r: String)
    ensures
        r@ == concat_list_spec(views_of(paths@)),
{
    let mut out = String::new();
    let mut i: usize = 0;
    while i < paths.len()
        invariant
            i <= paths.len(),
            out@ == concat_list_spec(views_of(paths@.subrange(0, i as int))),
        decreases paths.len() - i,
    {
        push_file_line(&mut out, paths[i].as_str());
        proof {
            let next = views_of(paths@.subrange(0, i + 1));
            assert(next.drop_last() =~= views_of(paths@.subrange(0, i as int)));
        }
        i = i + 1;
    }
    assert(paths@.subrange(0, paths@.len() as int) =~= paths@);
    out
}

/// The concat list that cuts the given scenes out of one file, in order.
pub fn scene_list(path: &str, bounds: &Vec<(String, String)>) -> (r: String)
    ensures
        r@ == scene_list_spec(path@, pair_views_of(bounds@)),
{
    let mut out = String::new();
    let mut i: usize = 0;
    while i < bounds.len()
        invariant
            i <= bounds.len(),
            out@ == scene_list_spec(path@, pair_views_of(bounds@.subrange(0, i as int))),
        decreases bounds.len() - i,
    {
        let ghost before = out@;
        push_file_line(&mut out, path);
        out.append("inpoint ");
        out.append(bounds[i].0.as_str());
        out.append("\n");
        out.append("outpoint ");
        out.append(bounds[i].1.as_str());
        out.append("\n");
        proof {
            let next = pair_views_of(bounds@.subrange(0, i + 1));
            assert(next.drop_last() =~= pair_views_of(bounds@.subrange(0, i as int)));
            assert(out@ =~= before + scene_lines(path@, bounds@[i as int].0@, bounds@[i as int].1@));
        }
        i = i + 1;
    }
    assert(bounds@.subrange(0, bounds@.len() as int) =~= bounds@);
    out
}

/// Transcoder arguments that write the audio of `input` to `output` with the
/// given codec and rate. With `trim`, given as start and duration texts, only
/// that stretch is kept.
pub open spec fn audio_args_spec(
    input: Seq<char>,
    output: Seq<char>,
    codec: Seq<char>,
    rate: Seq<char>,
    trim: Option<(Seq<char>, Seq<char>)>,
) -> Seq<Seq<char>> {
    let head = match trim {
        Some(t) => seq!["-y"@, "-ss"@, t.0, "-i"@, input, "-t"@, t.1, "-vn"@, "-c:a"@],
        None => seq!["-y"@, "-i"@, input, "-vn"@, "-acodec"@],
    };
    let rate_part = match rate_flag_spec(codec) {
        Some(flag) => seq![flag, rate],
        None => Seq::empty(),
    };
    head + seq![codec] + rate_part + seq![output]
}

fn push_text(v: &mut Vec<String>, s: &str)
    ensures
        views_of(final(v)@) == views_of(old(v)@).push(s@),
{
    v.push(String::from_str(s));
    assert(views_of(final(v)@) =~= views_of(old(v)@).push(s@));
}

/// Builds the transcoder arguments for extracting (or, with `trim`,
/// cutting) the audio of a file.
pub fn audio_args(
    input: &str,
    output: &str,
    codec: &str,
    rate: &str,
    trim: Option<(&str, &str)>,
) -> (r: Vec<String>)
    ensures
        views_of(r@) == audio_args_spec(
            input@,
            output@,
            codec@,
            rate@,
            match trim {
                Some(t) => Some((t.0@, t.1@)),
                None => None,
            },
        ),
{
    let mut args: Vec<String> = Vec::new();
    assert(views_of(args@) =~= Seq::<Seq<char>>::empty());
    push_text(&mut args, "-y");
    match trim {
        Some((start, duration)) => {
            push_text(&mut args, "-ss");
            push_text(&mut args, start);
            push_text(&mut args, "-i");
            push_text(&mut args, input);
            push_text(&mut args, "-t");
            push_text(&mut args, duration);
            push_text(&mut args, "-vn");
            push_text(&mut args, "-c:a");
        },
        None => {
            push_text(&mut args, "-i");
            push_text(&mut args, input);
            push_text(&mut args, "-vn");
            push_text(&mut args, "-acodec");
        },
    }
    let ghost head = views_of(args@);
    push_text(&mut args, codec);
    let ghost with_codec = views_of(args@);
    match rate_flag(codec) {
        Some(flag) => {
            push_text(&mut args, flag);
            push_text(&mut args, rate);
        },
        None => {},
    }
    let ghost with_rate = views_of(args@);
    push_text(&mut args, output);
    proof {
        let tr = match trim {
            Some(t) => Some((t.0@, t.1@)),
            None => None,
        };
        let want_head = match tr {
            Some(t) => seq!["-y"@, "-ss"@, t.0, "-i"@, input@, "-t"@, t.1, "-vn"@, "-c:a"@],
            None => seq!["-y"@, "-i"@, input@, "-vn"@, "-acodec"@],
        };
        assert(head =~= want_head);
        let rate_part = match rate_flag_spec(codec@) {
            Some(flag) => seq![flag, rate@],
            None => Seq::<Seq<char>>::empty(),
        };
        assert(with_rate =~= head + seq![codec@] + rate_part);
        assert(views_of(args@) =~= head + seq![codec@] + rate_part + seq![output@]);
    }
    args
}

} // verus!
