//! Writes extracted fields into an ID3 tag.
//!
//! Five text frames are written: artist (`TPE1`), album artist (`TPE2`,
//! always the artist), album (`TALB`), title (`TIT2`) and track number
//! (`TRCK`). Every other frame of the tag is left as it is.

use vstd::prelude::*;
use id3::TagLike;
use crate::digits::spells_number;
use crate::fields::{ExtractedFields, FieldsView};
use crate::frames::{
    Frame,
    absent,
    at_most_one,
    first_text,
    lemma_filter_none,
    lemma_first_text_append,
    lemma_first_text_append_absent,
    lemma_first_text_none,
    lemma_first_text_without_first,
    lemma_first_where_is,
    lemma_put_text_append,
    lemma_without_first_absent,
    lemma_without_first_at_most_one,
    lemma_without_first_behind,
    lemma_without_first_clears,
    lemma_without_first_empties,
    lemma_without_first_filter,
    lemma_without_first_none_gives_way,
    lemma_without_first_same,
    lemma_without_first_settled,
    none_gives_way,
    put_text,
    settled,
    text_frame,
    under,
    without_first,
};

verus! {

#[verifier::external_type_specification]
#[verifier::external_body]
pub struct ExTag(id3::Tag);

/// The frames of `tag`, in the order in which the tag holds them.
pub uninterp spec fn tag_frames(tag: id3::Tag) -> Seq<Frame>;

/// The text that `id3` writes under `TRCK` for the track number `track`,
/// where `current` is what is read under `TRCK` before: the number in
/// decimal digits, followed by `/` and the total number of tracks where
/// `current` gives one.
pub uninterp spec fn track_text(track: u32, current: Option<Seq<char>>) -> Seq<char>;

/// Id of the artist's frame.
pub open spec fn artist_id() -> Seq<char> {
    "TPE1"@
}

/// Id of the album artist's frame.
pub open spec fn album_artist_id() -> Seq<char> {
    "TPE2"@
}

/// Id of the album's frame.
pub open spec fn album_id() -> Seq<char> {
    "TALB"@
}

/// Id of the title's frame.
pub open spec fn title_id() -> Seq<char> {
    "TIT2"@
}

/// Id of the track number's frame.
pub open spec fn track_id() -> Seq<char> {
    "TRCK"@
}

/// Whether `id` is one of the five ids that are written.
pub open spec fn is_written_id(id: Seq<char>) -> bool {
    id == artist_id() || id == album_artist_id() || id == album_id() || id == title_id() || id
        == track_id()
}

/// The frames that are never touched: those under other ids.
pub open spec fn untouched() -> spec_fn(Frame) -> bool {
    |frame: Frame| !is_written_id(frame.id)
}

/// The five frames that are written for `fields`, in the order in which they
/// are written, with `track` as the text of the track number's frame.
pub open spec fn written(fields: FieldsView, track: Seq<char>) -> Seq<Frame> {
    seq![
        text_frame(artist_id(), fields.artist),
        text_frame(album_artist_id(), fields.artist),
        text_frame(album_id(), fields.album),
        text_frame(title_id(), fields.title),
        text_frame(track_id(), track),
    ]
}

/// What is left of `frames` when fields are written: for each of the five
/// ids, the first frame that gives way under it is gone.
pub open spec fn unwritten(frames: Seq<Frame>) -> Seq<Frame> {
    without_first(
        without_first(
            without_first(
                without_first(without_first(frames, artist_id()), album_artist_id()),
                album_id(),
            ),
            title_id(),
        ),
        track_id(),
    )
}

/// The frames of a tag that held `frames`, after `fields` are written into
/// it: what is left of `frames`, then the five frames written.
pub open spec fn tagged(frames: Seq<Frame>, fields: FieldsView) -> Seq<Frame> {
    unwritten(frames) + written(
        fields,
        track_text(fields.track, first_text(frames, track_id())),
    )
}

/// Whether each of the five ids names at most one frame.
pub open spec fn single_ids(frames: Seq<Frame>) -> bool {
    &&& at_most_one(frames, artist_id())
    &&& at_most_one(frames, album_artist_id())
    &&& at_most_one(frames, album_id())
    &&& at_most_one(frames, title_id())
    &&& at_most_one(frames, track_id())
}

/// `id3::Tag::new`: a tag without frames.
#[verifier::external_body]
fn new_tag() -> (tag: id3::Tag)
    ensures
        tag_frames(tag) == Seq::<Frame>::empty(),
{
    id3::Tag::new()
}

/// `id3::TagLike::set_artist`: displaces the first frame that gives way
/// under `TPE1` and adds the text frame `TPE1` with `artist` at the end.
#[verifier::external_body]
fn set_artist(tag: &mut id3::Tag, artist: &str)
    ensures
        tag_frames(*final(tag)) == put_text(tag_frames(*old(tag)), artist_id(), artist@),
{
    tag.set_artist(artist);
}

/// `id3::TagLike::set_album_artist`: displaces the first frame that gives
/// way under `TPE2` and adds the text frame `TPE2` with `album_artist` at
/// the end.
#[verifier::external_body]
fn set_album_artist(tag: &mut id3::Tag, album_artist: &str)
    ensures
        tag_frames(*final(tag)) == put_text(
            tag_frames(*old(tag)),
            album_artist_id(),
            album_artist@,
        ),
{
    tag.set_album_artist(album_artist);
}

/// `id3::TagLike::set_album`: displaces the first frame that gives way under
/// `TALB` and adds the text frame `TALB` with `album` at the end.
#[verifier::external_body]
fn set_album(tag: &mut id3::Tag, album: &str)
    ensures
        tag_frames(*final(tag)) == put_text(tag_frames(*old(tag)), album_id(), album@),
{
    tag.set_album(album);
}

/// `id3::TagLike::set_title`: displaces the first frame that gives way under
/// `TIT2` and adds the text frame `TIT2` with `title` at the end.
#[verifier::external_body]
fn set_title(tag: &mut id3::Tag, title: &str)
    ensures
        tag_frames(*final(tag)) == put_text(tag_frames(*old(tag)), title_id(), title@),
{
    tag.set_title(title);
}

/// `id3::TagLike::set_track`: displaces the first frame that gives way under
/// `TRCK` and adds the text frame `TRCK` at the end. Its text depends on the
/// number and on what is read under `TRCK` before; it spells the number.
/// Setting the same number once more, over the text that was just written,
/// writes that text again.
#[verifier::external_body]
fn set_track(tag: &mut id3::Tag, track: u32)
    ensures
        tag_frames(*final(tag)) == put_text(
            tag_frames(*old(tag)),
            track_id(),
            track_text(track, first_text(tag_frames(*old(tag)), track_id())),
        ),
        spells_number(
            track_text(track, first_text(tag_frames(*old(tag)), track_id())),
            track as nat,
        ),
        track_text(
            track,
            Some(track_text(track, first_text(tag_frames(*old(tag)), track_id()))),
        ) == track_text(track, first_text(tag_frames(*old(tag)), track_id())),
{
    tag.set_track(track);
}

/// The five ids differ from each other.
pub proof fn lemma_ids_differ()
    ensures
        artist_id() != album_artist_id(),
        artist_id() != album_id(),
        artist_id() != title_id(),
        artist_id() != track_id(),
        album_artist_id() != album_id(),
        album_artist_id() != title_id(),
        album_artist_id() != track_id(),
        album_id() != title_id(),
        album_id() != track_id(),
        title_id() != track_id(),
{
    reveal_strlit("TPE1");
    reveal_strlit("TPE2");
    reveal_strlit("TALB");
    reveal_strlit("TIT2");
    reveal_strlit("TRCK");
    assert(artist_id()[3] == '1' && artist_id()[1] == 'P');
    assert(album_artist_id()[3] == '2' && album_artist_id()[1] == 'P');
    assert(album_id()[3] == 'B' && album_id()[1] == 'A');
    assert(title_id()[3] == '2' && title_id()[1] == 'I');
    assert(track_id()[3] == 'K' && track_id()[1] == 'R');
}

/// What is read under each of the five ids from the five frames written.
proof fn lemma_written_reads(fields: FieldsView, track: Seq<char>)
    ensures
        first_text(written(fields, track), artist_id()) == Some(fields.artist),
        first_text(written(fields, track), album_artist_id()) == Some(fields.artist),
        first_text(written(fields, track), album_id()) == Some(fields.album),
        first_text(written(fields, track), title_id()) == Some(fields.title),
        first_text(written(fields, track), track_id()) == Some(track),
{
    lemma_ids_differ();
    let w = written(fields, track);
    lemma_first_where_is(w, under(artist_id()), 0);
    lemma_first_where_is(w, under(album_artist_id()), 1);
    lemma_first_where_is(w, under(album_id()), 2);
    lemma_first_where_is(w, under(title_id()), 3);
    lemma_first_where_is(w, under(track_id()), 4);
}

/// Writing the five text frames one after the other gives `tagged`.
proof fn lemma_five_puts(frames: Seq<Frame>, fields: FieldsView)
    ensures
        ({
            let s1 = put_text(frames, artist_id(), fields.artist);
            let s2 = put_text(s1, album_artist_id(), fields.artist);
            let s3 = put_text(s2, album_id(), fields.album);
            let s4 = put_text(s3, title_id(), fields.title);
            &&& first_text(s4, track_id()) == first_text(frames, track_id())
            &&& put_text(s4, track_id(), track_text(fields.track, first_text(s4, track_id())))
                == tagged(frames, fields)
        }),
{
    lemma_ids_differ();
    let f1 = text_frame(artist_id(), fields.artist);
    let f2 = text_frame(album_artist_id(), fields.artist);
    let f3 = text_frame(album_id(), fields.album);
    let f4 = text_frame(title_id(), fields.title);
    let track = track_text(fields.track, first_text(frames, track_id()));
    let f5 = text_frame(track_id(), track);
    let u1 = without_first(frames, artist_id());
    let u2 = without_first(u1, album_artist_id());
    let u3 = without_first(u2, album_id());
    let u4 = without_first(u3, title_id());
    let u5 = without_first(u4, track_id());
    let s1 = put_text(frames, artist_id(), fields.artist);
    let s2 = put_text(s1, album_artist_id(), fields.artist);
    let s3 = put_text(s2, album_id(), fields.album);
    let s4 = put_text(s3, title_id(), fields.title);
    assert(s1 =~= u1 + seq![f1]);
    lemma_put_text_append(u1, seq![f1], album_artist_id(), fields.artist);
    assert(s2 =~= u2 + seq![f1, f2]);
    lemma_put_text_append(u2, seq![f1, f2], album_id(), fields.album);
    assert(s3 =~= u3 + seq![f1, f2, f3]);
    lemma_put_text_append(u3, seq![f1, f2, f3], title_id(), fields.title);
    assert(s4 =~= u4 + seq![f1, f2, f3, f4]);
    lemma_first_text_append_absent(u4, seq![f1, f2, f3, f4], track_id());
    lemma_first_text_without_first(frames, artist_id(), track_id());
    lemma_first_text_without_first(u1, album_artist_id(), track_id());
    lemma_first_text_without_first(u2, album_id(), track_id());
    lemma_first_text_without_first(u3, title_id(), track_id());
    assert(first_text(s4, track_id()) == first_text(frames, track_id()));
    lemma_put_text_append(u4, seq![f1, f2, f3, f4], track_id(), track);
    assert(put_text(s4, track_id(), track) =~= u5 + seq![f1, f2, f3, f4, f5]);
    assert(written(fields, track) =~= seq![f1, f2, f3, f4, f5]);
}

/// What is left when fields are written holds no frame that gives way under
/// one of the five ids, where each of them named at most one frame.
proof fn lemma_unwritten_clear(frames: Seq<Frame>)
    requires
        single_ids(frames),
    ensures
        none_gives_way(unwritten(frames), artist_id()),
        none_gives_way(unwritten(frames), album_artist_id()),
        none_gives_way(unwritten(frames), album_id()),
        none_gives_way(unwritten(frames), title_id()),
        none_gives_way(unwritten(frames), track_id()),
        at_most_one(
            without_first(
                without_first(
                    without_first(without_first(frames, artist_id()), album_artist_id()),
                    album_id(),
                ),
                title_id(),
            ),
            track_id(),
        ),
{
    let u1 = without_first(frames, artist_id());
    let u2 = without_first(u1, album_artist_id());
    let u3 = without_first(u2, album_id());
    let u4 = without_first(u3, title_id());
    lemma_without_first_clears(frames, artist_id());
    lemma_without_first_none_gives_way(u1, album_artist_id(), artist_id());
    lemma_without_first_none_gives_way(u2, album_id(), artist_id());
    lemma_without_first_none_gives_way(u3, title_id(), artist_id());
    lemma_without_first_none_gives_way(u4, track_id(), artist_id());
    lemma_without_first_at_most_one(frames, artist_id(), album_artist_id());
    lemma_without_first_clears(u1, album_artist_id());
    lemma_without_first_none_gives_way(u2, album_id(), album_artist_id());
    lemma_without_first_none_gives_way(u3, title_id(), album_artist_id());
    lemma_without_first_none_gives_way(u4, track_id(), album_artist_id());
    lemma_without_first_at_most_one(frames, artist_id(), album_id());
    lemma_without_first_at_most_one(u1, album_artist_id(), album_id());
    lemma_without_first_clears(u2, album_id());
    lemma_without_first_none_gives_way(u3, title_id(), album_id());
    lemma_without_first_none_gives_way(u4, track_id(), album_id());
    lemma_without_first_at_most_one(frames, artist_id(), title_id());
    lemma_without_first_at_most_one(u1, album_artist_id(), title_id());
    lemma_without_first_at_most_one(u2, album_id(), title_id());
    lemma_without_first_clears(u3, title_id());
    lemma_without_first_none_gives_way(u4, track_id(), title_id());
    lemma_without_first_at_most_one(frames, artist_id(), track_id());
    lemma_without_first_at_most_one(u1, album_artist_id(), track_id());
    lemma_without_first_at_most_one(u2, album_id(), track_id());
    lemma_without_first_at_most_one(u3, title_id(), track_id());
    lemma_without_first_clears(u4, track_id());
}

/// Writing fields takes out the five frames that an earlier writing added,
/// where no other frame gives way.
proof fn lemma_written_displaced(rest: Seq<Frame>, fields: FieldsView, track: Seq<char>)
    requires
        none_gives_way(rest, artist_id()),
        none_gives_way(rest, album_artist_id()),
        none_gives_way(rest, album_id()),
        none_gives_way(rest, title_id()),
        none_gives_way(rest, track_id()),
    ensures
        unwritten(rest + written(fields, track)) == rest,
{
    let f1 = text_frame(artist_id(), fields.artist);
    let f2 = text_frame(album_artist_id(), fields.artist);
    let f3 = text_frame(album_id(), fields.album);
    let f4 = text_frame(title_id(), fields.title);
    let f5 = text_frame(track_id(), track);
    let w1 = seq![f1, f2, f3, f4, f5];
    let w2 = seq![f2, f3, f4, f5];
    let w3 = seq![f3, f4, f5];
    let w4 = seq![f4, f5];
    let w5 = seq![f5];
    assert(written(fields, track) =~= w1);
    lemma_without_first_behind(rest, w1, artist_id());
    assert(w1.drop_first() =~= w2);
    lemma_without_first_behind(rest, w2, album_artist_id());
    assert(w2.drop_first() =~= w3);
    lemma_without_first_behind(rest, w3, album_id());
    assert(w3.drop_first() =~= w4);
    lemma_without_first_behind(rest, w4, title_id());
    assert(w4.drop_first() =~= w5);
    lemma_without_first_behind(rest, w5, track_id());
    assert(rest + w5.drop_first() =~= rest);
}

/// Writing the same fields a second time leaves the frames as they are,
/// where each of the five ids named at most one frame to begin with and the
/// track number's text is written again as it is.
proof fn lemma_tagged_again(frames: Seq<Frame>, fields: FieldsView)
    requires
        single_ids(frames),
        track_text(
            fields.track,
            Some(track_text(fields.track, first_text(frames, track_id()))),
        ) == track_text(fields.track, first_text(frames, track_id())),
    ensures
        tagged(tagged(frames, fields), fields) == tagged(frames, fields),
{
    let current = first_text(frames, track_id());
    let track = track_text(fields.track, current);
    let rest = unwritten(frames);
    let once = tagged(frames, fields);
    let u1 = without_first(frames, artist_id());
    let u2 = without_first(u1, album_artist_id());
    let u3 = without_first(u2, album_id());
    let u4 = without_first(u3, title_id());
    lemma_ids_differ();
    lemma_unwritten_clear(frames);
    lemma_written_displaced(rest, fields, track);
    lemma_written_reads(fields, track);
    lemma_first_text_append(rest, written(fields, track), track_id());
    if absent(rest, track_id()) {
        assert(first_text(once, track_id()) == Some(track));
    } else {
        lemma_without_first_same(u4, track_id());
        lemma_first_text_none(rest, track_id());
        lemma_first_text_without_first(frames, artist_id(), track_id());
        lemma_first_text_without_first(u1, album_artist_id(), track_id());
        lemma_first_text_without_first(u2, album_id(), track_id());
        lemma_first_text_without_first(u3, title_id(), track_id());
        assert(first_text(once, track_id()) == current);
    }
}

/// A tag without frames holds, after writing, the five frames written and
/// nothing else.
pub proof fn lemma_tagged_fresh(fields: FieldsView)
    ensures
        tagged(Seq::<Frame>::empty(), fields) == written(
            fields,
            track_text(fields.track, None),
        ),
{
    let none = Seq::<Frame>::empty();
    lemma_first_where_is(none, under(track_id()), 0);
    assert(unwritten(none) =~= none);
    assert(none + written(fields, track_text(fields.track, None)) =~= written(
        fields,
        track_text(fields.track, None),
    ));
}

/// After writing, each field is read back as it was written, where its id
/// was settled before: artist and album artist give the artist, album the
/// album, title the title, and the track number's frame gives the text that
/// was written for the number.
pub proof fn lemma_tagged_reads_back(frames: Seq<Frame>, fields: FieldsView)
    ensures
        settled(frames, artist_id()) ==> first_text(tagged(frames, fields), artist_id())
            == Some(fields.artist),
        settled(frames, album_artist_id()) ==> first_text(
            tagged(frames, fields),
            album_artist_id(),
        ) == Some(fields.artist),
        settled(frames, album_id()) ==> first_text(tagged(frames, fields), album_id()) == Some(
            fields.album,
        ),
        settled(frames, title_id()) ==> first_text(tagged(frames, fields), title_id()) == Some(
            fields.title,
        ),
        settled(frames, track_id()) ==> first_text(tagged(frames, fields), track_id()) == Some(
            track_text(fields.track, first_text(frames, track_id())),
        ),
{
    let track = track_text(fields.track, first_text(frames, track_id()));
    let w = written(fields, track);
    let u1 = without_first(frames, artist_id());
    let u2 = without_first(u1, album_artist_id());
    let u3 = without_first(u2, album_id());
    let u4 = without_first(u3, title_id());
    let u5 = without_first(u4, track_id());
    lemma_written_reads(fields, track);
    if settled(frames, artist_id()) {
        lemma_without_first_empties(frames, artist_id());
        lemma_without_first_absent(u1, album_artist_id(), artist_id());
        lemma_without_first_absent(u2, album_id(), artist_id());
        lemma_without_first_absent(u3, title_id(), artist_id());
        lemma_without_first_absent(u4, track_id(), artist_id());
        lemma_first_text_append(u5, w, artist_id());
    }
    if settled(frames, album_artist_id()) {
        lemma_without_first_settled(frames, artist_id(), album_artist_id());
        lemma_without_first_empties(u1, album_artist_id());
        lemma_without_first_absent(u2, album_id(), album_artist_id());
        lemma_without_first_absent(u3, title_id(), album_artist_id());
        lemma_without_first_absent(u4, track_id(), album_artist_id());
        lemma_first_text_append(u5, w, album_artist_id());
    }
    if settled(frames, album_id()) {
        lemma_without_first_settled(frames, artist_id(), album_id());
        lemma_without_first_settled(u1, album_artist_id(), album_id());
        lemma_without_first_empties(u2, album_id());
        lemma_without_first_absent(u3, title_id(), album_id());
        lemma_without_first_absent(u4, track_id(), album_id());
        lemma_first_text_append(u5, w, album_id());
    }
    if settled(frames, title_id()) {
        lemma_without_first_settled(frames, artist_id(), title_id());
        lemma_without_first_settled(u1, album_artist_id(), title_id());
        lemma_without_first_settled(u2, album_id(), title_id());
        lemma_without_first_empties(u3, title_id());
        lemma_without_first_absent(u4, track_id(), title_id());
        lemma_first_text_append(u5, w, title_id());
    }
    if settled(frames, track_id()) {
        lemma_without_first_settled(frames, artist_id(), track_id());
        lemma_without_first_settled(u1, album_artist_id(), track_id());
        lemma_without_first_settled(u2, album_id(), track_id());
        lemma_without_first_settled(u3, title_id(), track_id());
        lemma_without_first_empties(u4, track_id());
        lemma_first_text_append(u5, w, track_id());
    }
}

/// Writing touches no frame under another id than the five: these frames
/// are all there afterwards, in the order they had.
pub proof fn lemma_tagged_keeps_others(frames: Seq<Frame>, fields: FieldsView)
    ensures
        tagged(frames, fields).filter(untouched()) == frames.filter(untouched()),
{
    let track = track_text(fields.track, first_text(frames, track_id()));
    let w = written(fields, track);
    let u1 = without_first(frames, artist_id());
    let u2 = without_first(u1, album_artist_id());
    let u3 = without_first(u2, album_id());
    let u4 = without_first(u3, title_id());
    let u5 = without_first(u4, track_id());
    lemma_without_first_filter(frames, artist_id(), untouched());
    lemma_without_first_filter(u1, album_artist_id(), untouched());
    lemma_without_first_filter(u2, album_id(), untouched());
    lemma_without_first_filter(u3, title_id(), untouched());
    lemma_without_first_filter(u4, track_id(), untouched());
    lemma_filter_none(w, untouched());
    Seq::filter_distributes_over_add(u5, w, untouched());
    assert(u5.filter(untouched()) + w.filter(untouched()) =~= u5.filter(untouched()));
}

/// The tag to write into: the one that was read, or, where none could be
/// read, a new one without frames.
pub fn load_or_create(read: Option<id3::Tag>) -> (tag: id3::Tag)
    ensures
        match read {
            Some(found) => tag == found,
            None => tag_frames(tag) == Seq::<Frame>::empty(),
        },
{
    match read {
        Some(found) => found,
        None => new_tag(),
    }
}

/// Writes `fields` into `tag`: artist, album artist (the artist again),
/// album, title and track number, each as a text frame at the end of the
/// tag. The text of the last one spells the track number. Where each of the
/// five ids named at most one frame before, writing the same fields once
/// more would change nothing.
pub fn apply(tag: &mut id3::Tag, fields: &ExtractedFields)
    ensures
        tag_frames(*final(tag)) == tagged(tag_frames(*old(tag)), fields@),
        spells_number(
            track_text(fields.track, first_text(tag_frames(*old(tag)), track_id())),
            fields.track as nat,
        ),
        single_ids(tag_frames(*old(tag))) ==> tagged(tag_frames(*final(tag)), fields@)
            == tag_frames(*final(tag)),
{
    let ghost before = tag_frames(*tag);
    proof {
        lemma_five_puts(before, fields@);
    }
    set_artist(tag, fields.artist.as_str());
    set_album_artist(tag, fields.artist.as_str());
    set_album(tag, fields.album.as_str());
    set_title(tag, fields.title.as_str());
    set_track(tag, fields.track);
    proof {
        if single_ids(before) {
            lemma_tagged_again(before, fields@);
        }
    }
}

} // verus!
