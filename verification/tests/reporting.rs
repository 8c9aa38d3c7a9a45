use id3::{Tag, TagLike};
use path_tagger::entry::{conclude, has_mp3_extension, plan_entry, tag_entry, Options, Pending, Plan};
use path_tagger::fields::ExtractedFields;
use path_tagger::report::{header, verdict_failed, verdict_ok};

fn airbag() -> ExtractedFields {
    ExtractedFields {
        artist: "Radiohead".to_string(),
        album: "OK Computer".to_string(),
        track: 1,
        title: "Airbag".to_string(),
    }
}

fn options(dry_run: bool) -> Options {
    Options { dry_run, path: ".".to_string() }
}

#[test]
fn options_default_to_writing_in_the_current_directory() {
    assert_eq!(Options::default(), Options { dry_run: false, path: ".".to_string() });
}

#[test]
fn header_is_the_path_and_a_colon() {
    assert_eq!(header("/music/a/b/1 - t.mp3"), "/music/a/b/1 - t.mp3: ");
    assert_eq!(header(""), ": ");
}

#[test]
fn ok_is_green() {
    assert_eq!(verdict_ok(), "\u{1b}[32mok\u{1b}[0m");
}

#[test]
fn failed_is_red_with_the_reason_in_brackets() {
    assert_eq!(verdict_failed("incompatible path"), "\u{1b}[31mfailed\u{1b}[0m (incompatible path)");
    assert_eq!(verdict_failed(""), "\u{1b}[31mfailed\u{1b}[0m ()");
}

#[test]
fn extension_is_mp3_in_lower_case() {
    assert!(has_mp3_extension("/music/a/b/1 - t.mp3"));
    assert!(has_mp3_extension("/music/loose.mp3"));
    assert!(has_mp3_extension("b.mp3"));
    assert!(has_mp3_extension("/a/..mp3"));
    assert!(has_mp3_extension("/a/b.tar.mp3"));
    assert!(!has_mp3_extension("/music/loose.MP3"));
    assert!(!has_mp3_extension("/music/loose.Mp3"));
    assert!(!has_mp3_extension("/music/loose.mp3x"));
    assert!(!has_mp3_extension("/music/loose.ogg"));
    assert!(!has_mp3_extension("/music/loose"));
    assert!(!has_mp3_extension("/music/mp3"));
    assert!(!has_mp3_extension("/music/xmp3"));
    assert!(!has_mp3_extension(""));
}

#[test]
fn a_file_named_by_the_extension_alone_has_none() {
    assert!(!has_mp3_extension("/music/.mp3"));
    assert!(!has_mp3_extension(".mp3"));
    assert_eq!(std::path::Path::new("/music/.mp3").extension(), None);
    assert!(std::path::Path::new("/a/..mp3").extension().is_some());
}

#[test]
fn entry_that_could_not_be_read_is_skipped() {
    assert_eq!(plan_entry(None), Plan::Skip);
}

#[test]
fn other_files_are_skipped_without_a_word() {
    assert_eq!(plan_entry(Some("/music/Radiohead/OK Computer/cover.jpg")), Plan::Skip);
    assert_eq!(plan_entry(Some("/music/Radiohead/OK Computer")), Plan::Skip);
    assert_eq!(plan_entry(Some("/music/Radiohead/OK Computer/01 - Airbag.MP3")), Plan::Skip);
    assert_eq!(plan_entry(Some("/music/Radiohead/OK Computer/01 - Airbag.flac")), Plan::Skip);
    assert_eq!(plan_entry(Some("/")), Plan::Skip);
}

#[test]
fn matching_file_is_tagged() {
    assert_eq!(
        plan_entry(Some("/music/Radiohead/OK Computer/01 - Airbag.mp3")),
        Plan::Tag {
            header: "/music/Radiohead/OK Computer/01 - Airbag.mp3: ".to_string(),
            fields: airbag(),
        }
    );
}

#[test]
fn loose_file_is_reported_as_incompatible() {
    assert_eq!(
        plan_entry(Some("/music/loose.mp3")),
        Plan::Reject {
            header: "/music/loose.mp3: ".to_string(),
            verdict: "\u{1b}[31mfailed\u{1b}[0m (incompatible path)".to_string(),
        }
    );
}

#[test]
fn large_track_is_reported_as_incompatible() {
    assert_eq!(
        plan_entry(Some("/a/b/4294967296 - t.mp3")),
        Plan::Reject {
            header: "/a/b/4294967296 - t.mp3: ".to_string(),
            verdict: "\u{1b}[31mfailed\u{1b}[0m (incompatible path)".to_string(),
        }
    );
}

#[test]
fn unreadable_entries_do_not_disturb_their_siblings() {
    let entries = [
        None,
        Some("/music/Radiohead/OK Computer/01 - Airbag.mp3"),
        None,
        Some("/music/loose.mp3"),
        Some("/music/notes.txt"),
    ];
    let plans: Vec<Plan> = entries.iter().map(|entry| plan_entry(*entry)).collect();
    assert_eq!(plans[0], Plan::Skip);
    assert!(matches!(plans[1], Plan::Tag { .. }));
    assert_eq!(plans[2], Plan::Skip);
    assert!(matches!(plans[3], Plan::Reject { .. }));
    assert_eq!(plans[4], Plan::Skip);
    assert_eq!(plans[1], plan_entry(Some("/music/Radiohead/OK Computer/01 - Airbag.mp3")));
}

#[test]
fn dry_run_writes_nothing_and_says_ok() {
    match tag_entry(None, &airbag(), &options(true)) {
        Pending::Done { verdict } => assert_eq!(verdict, "\u{1b}[32mok\u{1b}[0m"),
        Pending::Write { .. } => panic!("a dry run hands out no tag"),
    }
    let mut read = Tag::new();
    read.set_artist("Somebody");
    assert!(matches!(tag_entry(Some(read), &airbag(), &options(true)), Pending::Done { .. }));
}

#[test]
fn run_hands_out_the_tag_to_write() {
    match tag_entry(None, &airbag(), &options(false)) {
        Pending::Write { tag } => {
            assert_eq!(tag.artist(), Some("Radiohead"));
            assert_eq!(tag.album_artist(), Some("Radiohead"));
            assert_eq!(tag.album(), Some("OK Computer"));
            assert_eq!(tag.title(), Some("Airbag"));
            assert_eq!(tag.track(), Some(1));
            assert_eq!(tag.frames().count(), 5);
        }
        Pending::Done { .. } => panic!("a run hands out the tag"),
    }
}

#[test]
fn run_writes_into_the_tag_that_was_read() {
    let mut read = Tag::new();
    read.set_genre("Rock");
    read.set_artist("Somebody");
    match tag_entry(Some(read), &airbag(), &options(false)) {
        Pending::Write { tag } => {
            assert_eq!(tag.genre(), Some("Rock"));
            assert_eq!(tag.artist(), Some("Radiohead"));
            assert_eq!(tag.frames().count(), 6);
        }
        Pending::Done { .. } => panic!("a run hands out the tag"),
    }
}

#[test]
fn conclude_says_ok_after_a_write() {
    assert_eq!(conclude(Ok(())), "\u{1b}[32mok\u{1b}[0m");
}

#[test]
fn conclude_gives_the_reason_of_a_failed_write() {
    assert_eq!(
        conclude(Err("IO: Permission denied (os error 13)".to_string())),
        "\u{1b}[31mfailed\u{1b}[0m (IO: Permission denied (os error 13))"
    );
}

#[test]
fn dry_run_shows_what_a_run_shows() {
    let path = "/music/Radiohead/OK Computer/01 - Airbag.mp3";
    let mut lines = Vec::new();
    for dry_run in [true, false] {
        let line = match plan_entry(Some(path)) {
            Plan::Skip => String::new(),
            Plan::Reject { header, verdict } => format!("{header}{verdict}"),
            Plan::Tag { header, fields } => {
                let verdict = match tag_entry(None, &fields, &options(dry_run)) {
                    Pending::Done { verdict } => verdict,
                    Pending::Write { .. } => conclude(Ok(())),
                };
                format!("{header}{verdict}")
            }
        };
        lines.push(line);
    }
    assert_eq!(lines[0], lines[1]);
    assert_eq!(lines[0], "/music/Radiohead/OK Computer/01 - Airbag.mp3: \u{1b}[32mok\u{1b}[0m");
}
