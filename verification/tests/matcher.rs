use path_tagger::digits::{is_digit_char, parse_digits};
use path_tagger::fields::{ExtractedFields, MatchError};
use path_tagger::matcher::{has_mp3_suffix, match_path};
use path_tagger::text::chars_of;

fn fields(artist: &str, album: &str, track: u32, title: &str) -> ExtractedFields {
    ExtractedFields {
        artist: artist.to_string(),
        album: album.to_string(),
        track,
        title: title.to_string(),
    }
}

#[test]
fn matches_artist_album_track_title() {
    assert_eq!(
        match_path("/music/Radiohead/OK Computer/01 - Airbag.mp3"),
        Ok(fields("Radiohead", "OK Computer", 1, "Airbag"))
    );
}

#[test]
fn matches_without_anything_before_the_artist() {
    assert_eq!(match_path("A/B/7 - T.mp3"), Ok(fields("A", "B", 7, "T")));
}

#[test]
fn ignores_directories_above_the_artist() {
    assert_eq!(match_path("a/b/c/1 - d.mp3"), Ok(fields("b", "c", 1, "d")));
    assert_eq!(
        match_path("/srv/media/x/y/z/Artist/Album/12 - Song.mp3"),
        Ok(fields("Artist", "Album", 12, "Song"))
    );
}

#[test]
fn rejects_a_file_without_directories() {
    assert_eq!(match_path("/music/loose.mp3"), Err(MatchError::IncompatiblePath));
    assert_eq!(match_path("loose.mp3"), Err(MatchError::IncompatiblePath));
}

#[test]
fn rejects_paths_without_the_structure() {
    assert_eq!(match_path("foo/bar.mp3"), Err(MatchError::IncompatiblePath));
    assert_eq!(match_path("a/1.mp3"), Err(MatchError::IncompatiblePath));
    assert_eq!(match_path("a/1 - t.mp3"), Err(MatchError::IncompatiblePath));
    assert_eq!(match_path(""), Err(MatchError::IncompatiblePath));
    assert_eq!(match_path(".mp3"), Err(MatchError::IncompatiblePath));
    assert_eq!(match_path("///"), Err(MatchError::IncompatiblePath));
}

#[test]
fn rejects_an_empty_artist_or_album() {
    assert_eq!(match_path("/b/1 - t.mp3"), Err(MatchError::IncompatiblePath));
    assert_eq!(match_path("a//1 - t.mp3"), Err(MatchError::IncompatiblePath));
}

#[test]
fn rejects_a_missing_or_malformed_track() {
    assert_eq!(match_path("a/b/ - t.mp3"), Err(MatchError::IncompatiblePath));
    assert_eq!(match_path("a/b/x1 - t.mp3"), Err(MatchError::IncompatiblePath));
    assert_eq!(match_path("a/b/1x - t.mp3"), Err(MatchError::IncompatiblePath));
    assert_eq!(match_path("a/b/1-t.mp3"), Err(MatchError::IncompatiblePath));
    assert_eq!(match_path("a/b/1 -t.mp3"), Err(MatchError::IncompatiblePath));
    assert_eq!(match_path("a/b/1- t.mp3"), Err(MatchError::IncompatiblePath));
    assert_eq!(match_path("a/b/1  - t.mp3"), Err(MatchError::IncompatiblePath));
    assert_eq!(match_path("a/b/-1 - t.mp3"), Err(MatchError::IncompatiblePath));
    assert_eq!(match_path("a/b/+1 - t.mp3"), Err(MatchError::IncompatiblePath));
}

#[test]
fn rejects_digits_that_are_not_ascii() {
    assert_eq!(match_path("a/b/\u{661} - t.mp3"), Err(MatchError::IncompatiblePath));
}

#[test]
fn rejects_an_empty_title() {
    assert_eq!(match_path("a/b/1 - .mp3"), Err(MatchError::IncompatiblePath));
}

#[test]
fn rejects_another_extension() {
    assert_eq!(match_path("a/b/1 - t.MP3"), Err(MatchError::IncompatiblePath));
    assert_eq!(match_path("a/b/1 - t.mp4"), Err(MatchError::IncompatiblePath));
    assert_eq!(match_path("a/b/1 - t.mp3 "), Err(MatchError::IncompatiblePath));
    assert_eq!(match_path("a/b/1 - t.ogg"), Err(MatchError::IncompatiblePath));
}

#[test]
fn wants_a_dot_before_the_extension() {
    assert_eq!(match_path("a/b/1 - txmp3"), Err(MatchError::IncompatiblePath));
}

#[test]
fn track_counts_without_leading_zeros() {
    assert_eq!(match_path("a/b/007 - t.mp3"), Ok(fields("a", "b", 7, "t")));
    assert_eq!(match_path("a/b/00 - t.mp3"), Ok(fields("a", "b", 0, "t")));
    assert_eq!(match_path("a/b/0000000000000123 - t.mp3"), Ok(fields("a", "b", 123, "t")));
}

#[test]
fn track_fits_in_32_bits_or_the_path_is_rejected() {
    assert_eq!(
        match_path("a/b/4294967295 - t.mp3"),
        Ok(fields("a", "b", 4294967295, "t"))
    );
    assert_eq!(match_path("a/b/4294967296 - t.mp3"), Err(MatchError::IncompatiblePath));
    assert_eq!(
        match_path("a/b/99999999999999999999999 - t.mp3"),
        Err(MatchError::IncompatiblePath)
    );
}

#[test]
fn title_runs_up_to_the_last_extension() {
    assert_eq!(match_path("a/b/1 - t.mp3.mp3"), Ok(fields("a", "b", 1, "t.mp3")));
    assert_eq!(
        match_path("a/b/1 - Mr. Jones - live.mp3"),
        Ok(fields("a", "b", 1, "Mr. Jones - live"))
    );
    assert_eq!(match_path("a/b/1 -  .mp3"), Ok(fields("a", "b", 1, " ")));
    assert_eq!(match_path("a/b/1 - x\ny.mp3"), Ok(fields("a", "b", 1, "x\ny")));
}

#[test]
fn title_may_hold_a_separator() {
    assert_eq!(match_path("a/b/1 - x/y.mp3"), Ok(fields("a", "b", 1, "x/y")));
}

#[test]
fn leftmost_match_counts() {
    assert_eq!(
        match_path("x/y/1 - z/A/B/2 - T.mp3"),
        Ok(fields("x", "y", 1, "z/A/B/2 - T"))
    );
    assert_eq!(
        match_path("/music/A/1 - x/2 - T.mp3"),
        Ok(fields("music", "A", 1, "x/2 - T"))
    );
}

#[test]
fn later_match_counts_where_no_earlier_one_is() {
    assert_eq!(match_path("x/y/z/A/B/2 - T.mp3"), Ok(fields("A", "B", 2, "T")));
    assert_eq!(match_path("x//1 - z/A/B/2 - T.mp3"), Ok(fields("A", "B", 2, "T")));
    assert_eq!(match_path("1 - a/2 - b/3 - c.mp3"), Ok(fields("1 - a", "2 - b", 3, "c")));
}

#[test]
fn large_track_in_the_leftmost_match_rejects_the_path() {
    assert_eq!(
        match_path("a/b/99999999999 - x/c/d/2 - t.mp3"),
        Err(MatchError::IncompatiblePath)
    );
}

#[test]
fn names_may_hold_any_characters_but_the_separator() {
    assert_eq!(
        match_path("/m/Bj\u{f6}rk/Homog\u{e9}nic/03 - J\u{f3}ga.mp3"),
        Ok(fields("Bj\u{f6}rk", "Homog\u{e9}nic", 3, "J\u{f3}ga"))
    );
    assert_eq!(
        match_path("/m/ a b /x - 2/3 - \u{1f3b5}.mp3"),
        Ok(fields(" a b ", "x - 2", 3, "\u{1f3b5}"))
    );
}

#[test]
fn backslash_is_no_separator() {
    assert_eq!(match_path("a\\b\\1 - t.mp3"), Err(MatchError::IncompatiblePath));
    assert_eq!(match_path("x/a\\b/1 - t.mp3"), Ok(fields("x", "a\\b", 1, "t")));
}

#[test]
fn matching_twice_gives_the_same() {
    let path = "/music/Radiohead/OK Computer/02 - Paranoid Android.mp3";
    assert_eq!(match_path(path), match_path(path));
}

#[test]
fn error_message_names_the_path() {
    assert_eq!(MatchError::IncompatiblePath.message(), "incompatible path");
}

#[test]
fn digits_are_the_ten_ascii_ones() {
    for c in '0'..='9' {
        assert!(is_digit_char(c));
    }
    assert!(!is_digit_char('/'));
    assert!(!is_digit_char(':'));
    assert!(!is_digit_char('a'));
    assert!(!is_digit_char('\u{661}'));
}

#[test]
fn parse_digits_reads_a_range() {
    let chars = chars_of("ab0123456789cd");
    assert_eq!(parse_digits(&chars, 2, 12), Some(123456789));
    assert_eq!(parse_digits(&chars, 2, 2), Some(0));
    assert_eq!(parse_digits(&chars, 5, 6), Some(3));
    assert_eq!(parse_digits(&chars, 3, 12), Some(123456789));
}

#[test]
fn parse_digits_wants_digits_only() {
    let chars = chars_of("12a4 5-6");
    assert_eq!(parse_digits(&chars, 0, 2), Some(12));
    assert_eq!(parse_digits(&chars, 0, 3), None);
    assert_eq!(parse_digits(&chars, 2, 3), None);
    assert_eq!(parse_digits(&chars, 3, 5), None);
    assert_eq!(parse_digits(&chars, 5, 8), None);
    assert_eq!(parse_digits(&chars_of("\u{661}"), 0, 1), None);
}

#[test]
fn parse_digits_stops_at_32_bits() {
    assert_eq!(parse_digits(&chars_of("4294967295"), 0, 10), Some(u32::MAX));
    assert_eq!(parse_digits(&chars_of("4294967296"), 0, 10), None);
    assert_eq!(parse_digits(&chars_of("4294967300"), 0, 10), None);
    assert_eq!(parse_digits(&chars_of("42949672950"), 0, 11), None);
    assert_eq!(parse_digits(&chars_of("00004294967295"), 0, 14), Some(u32::MAX));
}

#[test]
fn chars_of_gives_characters_not_bytes() {
    assert_eq!(chars_of("a\u{e9}\u{1f3b5}/"), vec!['a', '\u{e9}', '\u{1f3b5}', '/']);
    assert_eq!(chars_of(""), Vec::<char>::new());
}

#[test]
fn mp3_suffix_is_lower_case_with_a_dot() {
    assert!(has_mp3_suffix(&chars_of("x.mp3")));
    assert!(has_mp3_suffix(&chars_of(".mp3")));
    assert!(!has_mp3_suffix(&chars_of("xmp3")));
    assert!(!has_mp3_suffix(&chars_of("x.Mp3")));
    assert!(!has_mp3_suffix(&chars_of("mp3")));
    assert!(!has_mp3_suffix(&chars_of("")));
}
