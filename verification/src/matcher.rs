//! Takes a path apart into artist, album, track number and title.
//!
//! A path matches when it ends in `<artist>/<album>/<track> - <title>.mp3`:
//! artist and album are non-empty and hold no `/`, the track is one or more
//! of the digits `0` to `9`, and the title is non-empty. The separator is
//! always `/`, whatever the platform; nothing is normalised. A title may
//! hold any character, `/` included, so a path can match in more than one
//! place; the match that begins leftmost is the one that counts.

use vstd::prelude::*;
use crate::digits::{all_digits, digits_value, is_digit, is_digit_char, parse_digits};
use crate::fields::{ExtractedFields, FieldsView, MatchError};
use crate::text::chars_of;

verus! {

/// The four places at which a path is cut.
pub struct Split {
    /// Index of the artist's first character.
    pub start: int,
    /// Index of the `/` between artist and album.
    pub first_slash: int,
    /// Index of the `/` between album and track number.
    pub second_slash: int,
    /// Index of the space that begins `" - "`, right after the track number.
    pub gap: int,
}

/// Whether `s` ends in `.mp3`.
pub open spec fn ends_with_mp3(s: Seq<char>) -> bool {
    &&& s.len() >= 4
    &&& s[s.len() - 4] == '.'
    &&& s[s.len() - 3] == 'm'
    &&& s[s.len() - 2] == 'p'
    &&& s[s.len() - 1] == '3'
}

/// Whether `s[from..to]` holds no `/`.
pub open spec fn no_slash(s: Seq<char>, from: int, to: int) -> bool {
    forall|x: int| from <= x < to ==> #[trigger] s[x] != '/'
}

/// Whether `s[from..to]` holds decimal digits only.
pub open spec fn digits_in(s: Seq<char>, from: int, to: int) -> bool {
    forall|x: int| from <= x < to ==> is_digit(#[trigger] s[x])
}

/// Whether cutting `s` at `p` gives an artist, an album, a track number and
/// a title, with `.mp3` at the end.
pub open spec fn is_split(s: Seq<char>, p: Split) -> bool {
    &&& 0 <= p.start < p.first_slash
    &&& p.first_slash + 1 < p.second_slash
    &&& p.second_slash + 1 < p.gap
    &&& p.gap + 7 < s.len()
    &&& no_slash(s, p.start, p.first_slash)
    &&& s[p.first_slash] == '/'
    &&& no_slash(s, p.first_slash + 1, p.second_slash)
    &&& s[p.second_slash] == '/'
    &&& digits_in(s, p.second_slash + 1, p.gap)
    &&& s[p.gap] == ' '
    &&& s[p.gap + 1] == '-'
    &&& s[p.gap + 2] == ' '
    &&& ends_with_mp3(s)
}

/// Whether `p` is the split of `s` that begins leftmost.
pub open spec fn is_leftmost(s: Seq<char>, p: Split) -> bool {
    &&& is_split(s, p)
    &&& forall|q: Split| #[trigger] is_split(s, q) ==> p.start <= q.start
}

/// The digits of the track number that `p` cuts out of `s`.
pub open spec fn track_digits(s: Seq<char>, p: Split) -> Seq<char> {
    s.subrange(p.second_slash + 1, p.gap)
}

/// The fields that `p` cuts out of `s`.
pub open spec fn fields_at(s: Seq<char>, p: Split) -> FieldsView {
    FieldsView {
        artist: s.subrange(p.start, p.first_slash),
        album: s.subrange(p.first_slash + 1, p.second_slash),
        track: digits_value(track_digits(s, p)) as u32,
        title: s.subrange(p.gap + 3, s.len() - 4),
    }
}

/// What matching the path `s` gives: the fields of its leftmost split, when
/// there is one and its track number fits in 32 bits.
pub open spec fn match_of(s: Seq<char>) -> Result<FieldsView, MatchError> {
    if exists|p: Split| is_leftmost(s, p) {
        let p = choose|p: Split| is_leftmost(s, p);
        if digits_value(track_digits(s, p)) <= u32::MAX {
            Ok(fields_at(s, p))
        } else {
            Err(MatchError::IncompatiblePath)
        }
    } else {
        Err(MatchError::IncompatiblePath)
    }
}

/// Two splits of a path that begin at the same place are the same split.
pub proof fn lemma_split_by_start(s: Seq<char>, p: Split, q: Split)
    requires
        is_split(s, p),
        is_split(s, q),
        p.start == q.start,
    ensures
        p == q,
{
    assert(p.first_slash == q.first_slash) by {
        if p.first_slash < q.first_slash {
            assert(s[p.first_slash] != '/');
        } else if q.first_slash < p.first_slash {
            assert(s[q.first_slash] != '/');
        }
    }
    assert(p.second_slash == q.second_slash) by {
        if p.second_slash < q.second_slash {
            assert(s[p.second_slash] != '/');
        } else if q.second_slash < p.second_slash {
            assert(s[q.second_slash] != '/');
        }
    }
    assert(p.gap == q.gap) by {
        if p.gap < q.gap {
            assert(is_digit(s[p.gap]));
        } else if q.gap < p.gap {
            assert(is_digit(s[q.gap]));
        }
    }
}

/// A path has at most one leftmost split, and `match_of` goes by it.
pub proof fn lemma_match_of_leftmost(s: Seq<char>, p: Split)
    requires
        is_leftmost(s, p),
    ensures
        digits_value(track_digits(s, p)) <= u32::MAX ==> match_of(s) == Ok::<
            FieldsView,
            MatchError,
        >(fields_at(s, p)),
        digits_value(track_digits(s, p)) > u32::MAX ==> match_of(s) == Err::<
            FieldsView,
            MatchError,
        >(MatchError::IncompatiblePath),
{
    let q = choose|q: Split| is_leftmost(s, q);
    assert(is_split(s, p) && is_split(s, q));
    lemma_split_by_start(s, p, q);
}

/// The path that the five parts spell: `prefix`, then
/// `<artist>/<album>/<digits> - <title>.mp3`.
pub open spec fn path_of(
    prefix: Seq<char>,
    artist: Seq<char>,
    album: Seq<char>,
    digits: Seq<char>,
    title: Seq<char>,
) -> Seq<char> {
    prefix + artist + seq!['/'] + album + seq!['/'] + digits + seq![' ', '-', ' '] + title
        + seq!['.', 'm', 'p', '3']
}

/// Whether `s` is non-empty and holds no `/`.
pub open spec fn is_name(s: Seq<char>) -> bool {
    s.len() > 0 && no_slash(s, 0, s.len() as int)
}

/// A path that is built from an artist, an album, a track number and a title
/// gives back exactly these, whatever stands before the artist, as long as
/// no split of the path begins in what stands before and the number fits in
/// 32 bits. The title may be any non-empty text.
pub proof fn lemma_built_path_matches(
    prefix: Seq<char>,
    artist: Seq<char>,
    album: Seq<char>,
    digits: Seq<char>,
    title: Seq<char>,
)
    requires
        is_name(artist),
        is_name(album),
        digits.len() > 0,
        all_digits(digits),
        title.len() > 0,
        digits_value(digits) <= u32::MAX,
        forall|q: Split| #[trigger]
            is_split(path_of(prefix, artist, album, digits, title), q) ==> prefix.len()
                <= q.start,
    ensures
        match_of(path_of(prefix, artist, album, digits, title)) == Ok::<FieldsView, MatchError>(
            FieldsView { artist, album, track: digits_value(digits) as u32, title },
        ),
{
    let s = path_of(prefix, artist, album, digits, title);
    let start = prefix.len() as int;
    let first_slash = start + artist.len();
    let second_slash = first_slash + 1 + album.len();
    let gap = second_slash + 1 + digits.len();
    let p = Split { start, first_slash, second_slash, gap };
    assert(s.len() == gap + 3 + title.len() + 4);
    assert forall|x: int| start <= x < first_slash implies s[x] == artist[x - start] by {}
    assert forall|x: int| first_slash < x < second_slash implies s[x] == album[x - first_slash
        - 1] by {}
    assert forall|x: int| second_slash < x < gap implies s[x] == digits[x - second_slash
        - 1] by {}
    assert forall|x: int| gap + 3 <= x < s.len() - 4 implies s[x] == title[x - gap - 3] by {}
    assert(s[first_slash] == '/');
    assert(s[second_slash] == '/');
    assert(s[gap] == ' ' && s[gap + 1] == '-' && s[gap + 2] == ' ');
    assert(ends_with_mp3(s));
    assert(is_split(s, p));
    assert(is_leftmost(s, p));
    assert(s.subrange(start, first_slash) =~= artist);
    assert(s.subrange(first_slash + 1, second_slash) =~= album);
    assert(track_digits(s, p) =~= digits);
    assert(s.subrange(gap + 3, s.len() - 4) =~= title);
    lemma_match_of_leftmost(s, p);
}

/// Whether `s` holds a space, a hyphen and a space in a row.
pub open spec fn holds_gap(s: Seq<char>) -> bool {
    exists|i: int|
        0 <= i && i + 2 < s.len() && #[trigger] s[i] == ' ' && s[i + 1] == '-' && s[i + 2] == ' '
}

/// A path that is built from an artist, an album, a track number and a title
/// gives back exactly these, where the directories above the artist end in
/// `/` or are not there at all, nothing before the track number holds
/// `" - "`, and the number fits in 32 bits.
pub proof fn lemma_plain_path_matches(
    prefix: Seq<char>,
    artist: Seq<char>,
    album: Seq<char>,
    digits: Seq<char>,
    title: Seq<char>,
)
    requires
        prefix.len() == 0 || prefix.last() == '/',
        is_name(artist),
        is_name(album),
        digits.len() > 0,
        all_digits(digits),
        title.len() > 0,
        digits_value(digits) <= u32::MAX,
        !holds_gap(prefix + artist + seq!['/'] + album),
    ensures
        match_of(path_of(prefix, artist, album, digits, title)) == Ok::<FieldsView, MatchError>(
            FieldsView { artist, album, track: digits_value(digits) as u32, title },
        ),
{
    let s = path_of(prefix, artist, album, digits, title);
    let head = prefix + artist + seq!['/'] + album;
    let first_slash = prefix.len() as int + artist.len();
    let second_slash = first_slash + 1 + album.len();
    assert(head.len() == second_slash);
    assert(s[first_slash] == '/');
    assert(s[second_slash] == '/');
    assert forall|q: Split| #[trigger] is_split(s, q) implies prefix.len() <= q.start by {
        if q.start < prefix.len() {
            assert(s[prefix.len() - 1] == '/');
            assert(s[q.start] != '/');
            if q.first_slash > prefix.len() - 1 {
                assert(s[prefix.len() - 1] != '/');
            }
            if q.second_slash > first_slash {
                assert(s[first_slash] != '/');
            }
            if second_slash <= q.gap + 2 {
                if second_slash < q.gap {
                    assert(is_digit(s[second_slash]));
                }
            }
            assert(q.gap + 2 < second_slash);
            assert(head[q.gap] == s[q.gap]);
            assert(head[q.gap + 1] == s[q.gap + 1]);
            assert(head[q.gap + 2] == s[q.gap + 2]);
            assert(holds_gap(head));
        }
    }
    lemma_built_path_matches(prefix, artist, album, digits, title);
}

/// A path that matches is spelled by its fields: it is some prefix, then
/// `<artist>/<album>/<digits> - <title>.mp3`, where the digits stand for the
/// track number. The prefix and the digits are returned.
pub proof fn lemma_match_spells_path(s: Seq<char>) -> (parts: (Seq<char>, Seq<char>))
    requires
        match_of(s) is Ok,
    ensures
        ({
            let fields = match_of(s)->Ok_0;
            let (prefix, digits) = parts;
            &&& s == path_of(prefix, fields.artist, fields.album, digits, fields.title)
            &&& is_name(fields.artist)
            &&& is_name(fields.album)
            &&& digits.len() > 0
            &&& all_digits(digits)
            &&& digits_value(digits) == fields.track
            &&& fields.title.len() > 0
        }),
{
    let p = choose|p: Split| is_leftmost(s, p);
    let fields = fields_at(s, p);
    let prefix = s.take(p.start);
    let digits = track_digits(s, p);
    assert(s =~= path_of(prefix, fields.artist, fields.album, digits, fields.title));
    (prefix, digits)
}

/// A path that splits nowhere is incompatible.
pub proof fn lemma_no_split_no_match(s: Seq<char>)
    requires
        forall|q: Split| !is_split(s, q),
    ensures
        match_of(s) == Err::<FieldsView, MatchError>(MatchError::IncompatiblePath),
{
}

/// A path whose leftmost split holds a track number beyond 32 bits is
/// incompatible, even where a later split would hold a smaller one.
pub proof fn lemma_large_track_no_match(s: Seq<char>, p: Split)
    requires
        is_leftmost(s, p),
        digits_value(track_digits(s, p)) > u32::MAX,
    ensures
        match_of(s) == Err::<FieldsView, MatchError>(MatchError::IncompatiblePath),
{
    lemma_match_of_leftmost(s, p);
}

/// Index of the first `/` at or after `from`, or the length of `chars` when
/// there is none.
fn find_slash(chars: &Vec<char>, from: usize) -> (at: usize)
    requires
        from <= chars.len(),
    ensures
        from <= at <= chars.len(),
        no_slash(chars@, from as int, at as int),
        at < chars.len() ==> chars[at as int] == '/',
{
    let mut at: usize = from;
    while at < chars.len() && chars[at] != '/'
        invariant
            from <= at <= chars.len(),
            no_slash(chars@, from as int, at as int),
        decreases chars.len() - at,
    {
        at = at + 1;
    }
    at
}

/// Index of the first character at or after `from` that is no decimal
/// digit, or the length of `chars` when there is none.
fn find_digits_end(chars: &Vec<char>, from: usize) -> (at: usize)
    requires
        from <= chars.len(),
    ensures
        from <= at <= chars.len(),
        digits_in(chars@, from as int, at as int),
        at < chars.len() ==> !is_digit(chars[at as int]),
{
    let mut at: usize = from;
    while at < chars.len() && is_digit_char(chars[at])
        invariant
            from <= at <= chars.len(),
            digits_in(chars@, from as int, at as int),
        decreases chars.len() - at,
    {
        at = at + 1;
    }
    at
}

/// Tells whether `chars` ends in `.mp3`.
pub fn has_mp3_suffix(chars: &Vec<char>) -> (r: bool)
    ensures
        r == ends_with_mp3(chars@),
{
    let n = chars.len();
    n >= 4 && chars[n - 4] == '.' && chars[n - 3] == 'm' && chars[n - 2] == 'p' && chars[n - 1]
        == '3'
}

/// Takes the path apart. Returns the fields of the leftmost place from which
/// the path reads `<artist>/<album>/<track> - <title>.mp3` to its end, and
/// `IncompatiblePath` when there is no such place or the track number there
/// does not fit in 32 bits. Only `/` separates; the path is matched as it
/// is given.
pub fn match_path(path: &str) -> (r: Result<ExtractedFields, MatchError>)
    ensures
        match r {
            Ok(fields) => match_of(path@) == Ok::<FieldsView, MatchError>(fields@),
            Err(e) => match_of(path@) == Err::<FieldsView, MatchError>(e),
        },
{
    let chars = chars_of(path);
    match_chars(path, &chars)
}

/// `match_path`, for a caller that holds the characters of the path already.
pub(crate) fn match_chars(path: &str, chars: &Vec<char>) -> (r: Result<
    ExtractedFields,
    MatchError,
>)
    requires
        chars@ == path@,
    ensures
        match r {
            Ok(fields) => match_of(path@) == Ok::<FieldsView, MatchError>(fields@),
            Err(e) => match_of(path@) == Err::<FieldsView, MatchError>(e),
        },
{
    let n = chars.len();
    let ghost s = path@;
    if !has_mp3_suffix(chars) {
        assert(forall|q: Split| !is_split(s, q));
        return Err(MatchError::IncompatiblePath);
    }
    let mut start: usize = 0;
    while start < n
        invariant
            chars@ == s,
            s == path@,
            n == s.len(),
            start <= n,
            ends_with_mp3(s),
            forall|q: Split| #[trigger] is_split(s, q) ==> start <= q.start,
        decreases n - start,
    {
        let first = find_slash(chars, start);
        if first >= n {
            assert forall|q: Split| !is_split(s, q) by {
                if is_split(s, q) {
                    assert(s[q.first_slash] == '/');
                }
            }
            return Err(MatchError::IncompatiblePath);
        }
        if first > start {
            let second = find_slash(chars, first + 1);
            if second >= n {
                assert forall|q: Split| !is_split(s, q) by {
                    if is_split(s, q) {
                        assert(s[q.first_slash] == '/');
                        assert(s[q.second_slash] == '/');
                    }
                }
                return Err(MatchError::IncompatiblePath);
            }
            let gap = find_digits_end(chars, second + 1);
            if second > first + 1 && gap > second + 1 && n - gap > 7 && chars[gap] == ' '
                && chars[gap + 1] == '-' && chars[gap + 2] == ' ' {
                let ghost p = Split {
                    start: start as int,
                    first_slash: first as int,
                    second_slash: second as int,
                    gap: gap as int,
                };
                proof {
                    assert(is_leftmost(s, p));
                    lemma_match_of_leftmost(s, p);
                    assert(track_digits(s, p) == chars@.subrange(second + 1, gap as int));
                    assert(all_digits(track_digits(s, p)));
                }
                return match parse_digits(chars, second + 1, gap) {
                    Some(track) => Ok(
                        ExtractedFields {
                            artist: path.substring_char(start, first).to_owned(),
                            album: path.substring_char(first + 1, second).to_owned(),
                            track,
                            title: path.substring_char(gap + 3, n - 4).to_owned(),
                        },
                    ),
                    None => Err(MatchError::IncompatiblePath),
                };
            }
            assert forall|q: Split| #[trigger] is_split(s, q) implies first < q.start by {
                if q.start <= first {
                    assert(s[q.first_slash] == '/');
                    assert(q.first_slash == first);
                    assert(s[q.second_slash] == '/');
                    assert(q.second_slash == second);
                    assert(!is_digit(s[q.gap]));
                    assert(q.gap == gap);
                }
            }
        } else {
            assert forall|q: Split| #[trigger] is_split(s, q) implies first < q.start by {
                if q.start <= first {
                    assert(s[q.start] != '/');
                }
            }
        }
        start = first + 1;
    }
    assert forall|q: Split| !is_split(s, q) by {
    }
    Err(MatchError::IncompatiblePath)
}

} // verus!
