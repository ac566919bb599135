use the_search_thing::encode::base64_bytes;
use the_search_thing::filetype::{file_type_if_known, file_types_for, get_file_type_with_extension, label_of};
use the_search_thing::batch::{normalize_extension, EntryClass, ScanRules, TextBatch, Visit};
use the_search_thing::media::{audio_args, concat_list, rate_flag, scene_list, suffixed_output_path};
use the_search_thing::paths::{encoding_params_for, extension, forward_slashed, get_audio_encoding_params, normalize_path};

#[test]
fn paths_use_forward_slashes() {
    let (a, b) = normalize_path("C:\\videos\\clip.mp4", "out\\sub/clip.wav");
    assert_eq!(a, "C:/videos/clip.mp4");
    assert_eq!(b, "out/sub/clip.wav");
    assert_eq!(forward_slashed("no-slashes"), "no-slashes");
    assert_eq!(forward_slashed(""), "");
}

#[test]
fn extension_is_text_after_last_dot() {
    assert_eq!(extension("a/b.c/track.tar.gz"), "gz");
    assert_eq!(extension("noext"), "noext");
    assert_eq!(extension("trailing."), "");
}

#[test]
fn encoding_params_by_extension() {
    assert_eq!(encoding_params_for("wav"), ("pcm_s16le", "44100"));
    assert_eq!(encoding_params_for("mp3"), ("libmp3lame", "192k"));
    assert_eq!(encoding_params_for("m4a"), ("aac", "192k"));
    assert_eq!(encoding_params_for("aac"), ("aac", "192k"));
    assert_eq!(encoding_params_for("ogg"), ("libvorbis", "192k"));
    assert_eq!(encoding_params_for("flac"), ("flac", "0"));
    assert_eq!(encoding_params_for("opus"), ("libopus", "128k"));
    assert_eq!(encoding_params_for("WAV"), ("aac", "192k"));
    assert_eq!(encoding_params_for("xyz"), ("aac", "192k"));
}

#[test]
fn encoding_params_ignore_case() {
    assert_eq!(get_audio_encoding_params("out/Song.WAV"), ("pcm_s16le", "44100"));
    assert_eq!(get_audio_encoding_params("take.Flac"), ("flac", "0"));
    assert_eq!(get_audio_encoding_params("a.b.opus"), ("libopus", "128k"));
    assert_eq!(get_audio_encoding_params("mp3"), ("libmp3lame", "192k"));
    assert_eq!(get_audio_encoding_params("clip"), ("aac", "192k"));
}

#[test]
fn rate_flag_by_codec() {
    assert_eq!(rate_flag("pcm_s16le"), Some("-ar"));
    assert_eq!(rate_flag("flac"), None);
    assert_eq!(rate_flag("libmp3lame"), Some("-b:a"));
}

#[test]
fn fallback_output_path() {
    assert_eq!(suffixed_output_path("dir/out.mp3"), Some("dir/out_1.mp3".to_string()));
    assert_eq!(suffixed_output_path("a.b.wav"), Some("a.b_1.wav".to_string()));
    assert_eq!(suffixed_output_path("out"), None);
}

#[test]
fn concat_list_names_each_file() {
    let list = concat_list(&vec!["a\\b.mp4".to_string(), "c.mp4".to_string()]);
    assert_eq!(list, "file 'a/b.mp4'\nfile 'c.mp4'\n");
    assert_eq!(concat_list(&vec![]), "");
}

#[test]
fn scene_list_cuts_each_scene() {
    let list = scene_list("v\\x.mp4", &vec![("1.5".to_string(), "3".to_string()), ("10".to_string(), "12.25".to_string())]);
    assert_eq!(list, "file 'v/x.mp4'\ninpoint 1.5\noutpoint 3\nfile 'v/x.mp4'\ninpoint 10\noutpoint 12.25\n");
}

#[test]
fn extensions_are_normalised() {
    assert_eq!(normalize_extension("TXT"), ".txt");
    assert_eq!(normalize_extension(".Md"), ".md");
    assert_eq!(normalize_extension(""), ".");
}

#[test]
fn entries_are_classified() {
    let rules = ScanRules::new(
        &vec!["txt".to_string(), ".RS".to_string()],
        &vec!["log".to_string()],
        &vec!["README.txt".to_string(), "".to_string()],
    );
    assert_eq!(rules.classify(Some("readme.TXT"), Some("TXT")), EntryClass::IgnoredName);
    assert_eq!(rules.classify(Some("notes.txt"), Some("txt")), EntryClass::Text);
    assert_eq!(rules.classify(Some("main.rs"), Some("rs")), EntryClass::Text);
    assert_eq!(rules.classify(Some("run.LOG"), Some("LOG")), EntryClass::IgnoredExt);
    assert_eq!(rules.classify(Some("image.png"), Some("png")), EntryClass::NotText);
    assert_eq!(rules.classify(Some("Makefile"), None), EntryClass::NotText);
    assert_eq!(rules.classify(Some(""), None), EntryClass::NotText);
}

#[test]
fn batch_stops_when_full_and_counts() {
    let mut b = TextBatch::new(1, 2);
    assert_eq!(b.visit(0, false, EntryClass::NotText), Visit::Next);
    assert_eq!(b.visit(1, false, EntryClass::NotText), Visit::Next);
    assert_eq!(b.visit(2, true, EntryClass::IgnoredExt), Visit::Next);
    assert_eq!(b.visit(3, true, EntryClass::Text), Visit::Read);
    assert!(!b.add_read(Some(("a.txt".to_string(), "A".to_string()))));
    assert_eq!(b.visit(4, true, EntryClass::NotText), Visit::Next);
    assert_eq!(b.visit(5, true, EntryClass::Text), Visit::Read);
    assert!(!b.add_read(None));
    assert_eq!(b.visit(6, true, EntryClass::Text), Visit::Read);
    assert!(b.add_read(Some(("b.txt".to_string(), "B".to_string()))));
    let (items, next, done, scanned, skipped) = b.into_parts(false);
    assert_eq!(items, vec![("a.txt".to_string(), "A".to_string()), ("b.txt".to_string(), "B".to_string())]);
    assert_eq!((next, done, scanned, skipped), (7, false, 5, 2));
}

#[test]
fn empty_batch_size_stops_at_first_entry_that_checks_size() {
    let mut b = TextBatch::new(0, 0);
    assert_eq!(b.visit(0, true, EntryClass::IgnoredName), Visit::Next);
    assert_eq!(b.visit(1, true, EntryClass::IgnoredExt), Visit::Next);
    assert_eq!(b.visit(2, false, EntryClass::NotText), Visit::Stop);
    let (items, next, done, scanned, skipped) = b.into_parts(false);
    assert!(items.is_empty());
    assert_eq!((next, done, scanned, skipped), (3, false, 2, 2));
}

#[test]
fn file_type_label_prefers_first_media_type() {
    let types = vec![
        (vec!["image/png".to_string(), "image/x-png".to_string()], "Portable Network Graphics".to_string()),
        (vec![], "Other".to_string()),
    ];
    assert_eq!(label_of(&types), Some("image/png".to_string()));
    assert_eq!(label_of(&vec![(vec![], "Plain".to_string())]), Some("Plain".to_string()));
    assert_eq!(label_of(&vec![]), None);
}

#[test]
fn file_type_by_extension() {
    assert_eq!(get_file_type_with_extension("pictures/photo.png"), "image/png");
    assert!(!file_types_for("pictures/photo.png").is_empty());
    assert!(file_types_for("archive.qqzzxxnotreal").is_empty());
    assert_eq!(file_type_if_known("pictures/photo.png"), Some("image/png".to_string()));
    assert_eq!(file_type_if_known("archive.qqzzxxnotreal"), None);
}

#[test]
fn bytes_encode_as_padded_base64() {
    assert_eq!(base64_bytes(&b"Man".to_vec()), "TWFu");
    assert_eq!(base64_bytes(&b"Ma".to_vec()), "TWE=");
    assert_eq!(base64_bytes(&vec![0xff]), "/w==");
    assert_eq!(base64_bytes(&vec![]), "");
}

fn strings(v: &[&str]) -> Vec<String> {
    v.iter().map(|s| s.to_string()).collect()
}

#[test]
fn extraction_arguments() {
    assert_eq!(
        audio_args("in/v.mp4", "out/a.mp3", "libmp3lame", "192k", None),
        strings(&["-y", "-i", "in/v.mp4", "-vn", "-acodec", "libmp3lame", "-b:a", "192k", "out/a.mp3"])
    );
    assert_eq!(
        audio_args("v.mp4", "a.wav", "pcm_s16le", "44100", None),
        strings(&["-y", "-i", "v.mp4", "-vn", "-acodec", "pcm_s16le", "-ar", "44100", "a.wav"])
    );
    assert_eq!(
        audio_args("v.mp4", "a.flac", "flac", "0", None),
        strings(&["-y", "-i", "v.mp4", "-vn", "-acodec", "flac", "a.flac"])
    );
}

#[test]
fn trimming_arguments() {
    assert_eq!(
        audio_args("s.wav", "t.ogg", "libvorbis", "192k", Some(("1.5", "2"))),
        strings(&["-y", "-ss", "1.5", "-i", "s.wav", "-t", "2", "-vn", "-c:a", "libvorbis", "-b:a", "192k", "t.ogg"])
    );
}
