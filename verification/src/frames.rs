//! What a tag holds, as mathematical values.
//!
//! A tag is a sequence of frames. A frame has an id and a body. Writing a
//! text frame under an id displaces the first frame under that id that gives
//! way, and puts the new frame last. Reading a text under an id looks at the
//! first frame with that id and at no other.

use vstd::prelude::*;

verus! {

/// What a frame holds, as far as writing text frames depends on it.
pub enum FrameBody {
    /// A text.
    Text(Seq<char>),
    /// Something else of which a tag holds one per id: a link, a lookup
    /// table, a list of involved people.
    Single,
    /// Something that is told apart by a key of its own, or not at all: a
    /// comment, a picture, data of an unknown kind.
    Keyed,
}

/// One frame of a tag.
pub struct Frame {
    pub id: Seq<char>,
    pub body: FrameBody,
}

/// The text frame with the given id and text.
pub open spec fn text_frame(id: Seq<char>, text: Seq<char>) -> Frame {
    Frame { id, body: FrameBody::Text(text) }
}

/// Whether `frame` is displaced by a text frame that is written under `id`.
pub open spec fn gives_way(frame: Frame, id: Seq<char>) -> bool {
    frame.id == id && !(frame.body is Keyed)
}

/// The frames with the id `id`.
pub open spec fn under(id: Seq<char>) -> spec_fn(Frame) -> bool {
    |frame: Frame| frame.id == id
}

/// The frames that give way under `id`.
pub open spec fn yielding(id: Seq<char>) -> spec_fn(Frame) -> bool {
    |frame: Frame| gives_way(frame, id)
}

/// Index of the first frame of which `pred` holds, or the number of frames
/// when it holds of none.
pub open spec fn first_where(frames: Seq<Frame>, pred: spec_fn(Frame) -> bool) -> int
    decreases frames.len(),
{
    if frames.len() == 0 {
        0
    } else if pred(frames.first()) {
        0
    } else {
        1 + first_where(frames.drop_first(), pred)
    }
}

/// `frames` without the first frame that gives way under `id`.
pub open spec fn without_first(frames: Seq<Frame>, id: Seq<char>) -> Seq<Frame> {
    let k = first_where(frames, yielding(id));
    if k < frames.len() {
        frames.remove(k)
    } else {
        frames
    }
}

/// `frames` after a text frame is written under `id`.
pub open spec fn put_text(frames: Seq<Frame>, id: Seq<char>, text: Seq<char>) -> Seq<Frame> {
    without_first(frames, id).push(text_frame(id, text))
}

/// The text that is read under `id`: that of the first frame with this id,
/// if there is such a frame and it holds a text.
pub open spec fn first_text(frames: Seq<Frame>, id: Seq<char>) -> Option<Seq<char>> {
    let k = first_where(frames, under(id));
    if k < frames.len() {
        match frames[k].body {
            FrameBody::Text(text) => Some(text),
            _ => None,
        }
    } else {
        None
    }
}

/// Whether no frame has the id `id`.
pub open spec fn absent(frames: Seq<Frame>, id: Seq<char>) -> bool {
    forall|i: int| 0 <= i < frames.len() ==> (#[trigger] frames[i]).id != id
}

/// Whether no frame gives way under `id`.
pub open spec fn none_gives_way(frames: Seq<Frame>, id: Seq<char>) -> bool {
    forall|i: int| 0 <= i < frames.len() ==> !gives_way(#[trigger] frames[i], id)
}

/// Whether at most one frame has the id `id`.
pub open spec fn at_most_one(frames: Seq<Frame>, id: Seq<char>) -> bool {
    forall|i: int, j: int|
        0 <= i < frames.len() && 0 <= j < frames.len() && (#[trigger] frames[i]).id == id && (
        #[trigger] frames[j]).id == id ==> i == j
}

/// Whether at most one frame has the id `id`, and that one gives way.
pub open spec fn settled(frames: Seq<Frame>, id: Seq<char>) -> bool {
    &&& at_most_one(frames, id)
    &&& forall|i: int|
        0 <= i < frames.len() && (#[trigger] frames[i]).id == id ==> !(frames[i].body is Keyed)
}

/// `first_where` gives an index of which `pred` holds, if there is one, and
/// `pred` holds of no frame before it.
pub proof fn lemma_first_where(frames: Seq<Frame>, pred: spec_fn(Frame) -> bool)
    ensures
        0 <= first_where(frames, pred) <= frames.len(),
        first_where(frames, pred) < frames.len() ==> pred(frames[first_where(frames, pred)]),
        forall|i: int| 0 <= i < first_where(frames, pred) ==> !pred(#[trigger] frames[i]),
    decreases frames.len(),
{
    if frames.len() > 0 && !pred(frames.first()) {
        let rest = frames.drop_first();
        lemma_first_where(rest, pred);
        assert forall|i: int| 0 <= i < first_where(frames, pred) implies !pred(
            #[trigger] frames[i],
        ) by {
            if i > 0 {
                assert(frames[i] == rest[i - 1]);
            }
        }
    }
}

/// The index that `first_where` gives is the only one of which this holds.
pub proof fn lemma_first_where_is(frames: Seq<Frame>, pred: spec_fn(Frame) -> bool, k: int)
    requires
        0 <= k <= frames.len(),
        k < frames.len() ==> pred(frames[k]),
        forall|i: int| 0 <= i < k ==> !pred(#[trigger] frames[i]),
    ensures
        first_where(frames, pred) == k,
{
    lemma_first_where(frames, pred);
    let found = first_where(frames, pred);
    if found < k {
        assert(!pred(frames[found]));
    } else if k < found {
        assert(!pred(frames[k]));
    }
}

/// Frames that are added behind, none of which gives way, stay where they
/// are when the first frame that gives way is taken out.
pub proof fn lemma_without_first_append(front: Seq<Frame>, back: Seq<Frame>, id: Seq<char>)
    requires
        none_gives_way(back, id),
    ensures
        without_first(front + back, id) == without_first(front, id) + back,
{
    let all = front + back;
    let k = first_where(front, yielding(id));
    lemma_first_where(front, yielding(id));
    if k < front.len() {
        assert(all[k] == front[k]);
        assert forall|i: int| 0 <= i < k implies !yielding(id)(#[trigger] all[i]) by {
            assert(all[i] == front[i]);
        }
        lemma_first_where_is(all, yielding(id), k);
        assert(all.remove(k) =~= front.remove(k) + back);
    } else {
        assert forall|i: int| 0 <= i < all.len() implies !yielding(id)(#[trigger] all[i]) by {
            if i < front.len() {
                assert(all[i] == front[i]);
            } else {
                assert(all[i] == back[i - front.len()]);
            }
        }
        lemma_first_where_is(all, yielding(id), all.len() as int);
    }
}

/// Where no frame in front gives way and the first one behind does, that one
/// is taken out.
pub proof fn lemma_without_first_behind(front: Seq<Frame>, back: Seq<Frame>, id: Seq<char>)
    requires
        none_gives_way(front, id),
        back.len() > 0,
        gives_way(back.first(), id),
    ensures
        without_first(front + back, id) == front + back.drop_first(),
{
    let all = front + back;
    let k = front.len() as int;
    assert(all[k] == back[0]);
    assert forall|i: int| 0 <= i < k implies !yielding(id)(#[trigger] all[i]) by {
        assert(all[i] == front[i]);
    }
    lemma_first_where_is(all, yielding(id), k);
    assert(all.remove(k) =~= front + back.drop_first());
}

/// Taking a frame out under one id keeps an id absent that was absent.
pub proof fn lemma_without_first_absent(frames: Seq<Frame>, id: Seq<char>, other: Seq<char>)
    requires
        absent(frames, other),
    ensures
        absent(without_first(frames, id), other),
{
    lemma_first_where(frames, yielding(id));
    let k = first_where(frames, yielding(id));
    let thin = without_first(frames, id);
    assert forall|i: int| 0 <= i < thin.len() implies (#[trigger] thin[i]).id != other by {
        if k < frames.len() {
            if i < k {
                assert(thin[i] == frames[i]);
            } else {
                assert(thin[i] == frames[i + 1]);
            }
        }
    }
}

/// Taking a frame out under one id leaves no frame that gives way under
/// another id, where there was none.
pub proof fn lemma_without_first_none_gives_way(
    frames: Seq<Frame>,
    id: Seq<char>,
    other: Seq<char>,
)
    requires
        none_gives_way(frames, other),
    ensures
        none_gives_way(without_first(frames, id), other),
{
    lemma_first_where(frames, yielding(id));
    let k = first_where(frames, yielding(id));
    let thin = without_first(frames, id);
    assert forall|i: int| 0 <= i < thin.len() implies !gives_way(#[trigger] thin[i], other) by {
        if k < frames.len() {
            if i < k {
                assert(thin[i] == frames[i]);
            } else {
                assert(thin[i] == frames[i + 1]);
            }
        }
    }
}

/// Taking a frame out under one id leaves at most one frame under another
/// id, where there was at most one.
pub proof fn lemma_without_first_at_most_one(frames: Seq<Frame>, id: Seq<char>, other: Seq<char>)
    requires
        at_most_one(frames, other),
    ensures
        at_most_one(without_first(frames, id), other),
{
    lemma_first_where(frames, yielding(id));
    let k = first_where(frames, yielding(id));
    let thin = without_first(frames, id);
    if k < frames.len() {
        assert forall|i: int, j: int|
            0 <= i < thin.len() && 0 <= j < thin.len() && (#[trigger] thin[i]).id == other && (
            #[trigger] thin[j]).id == other implies i == j by {
            let i2 = if i < k { i } else { i + 1 };
            let j2 = if j < k { j } else { j + 1 };
            assert(thin[i] == frames[i2]);
            assert(thin[j] == frames[j2]);
        }
    }
}

/// Taking a frame out under one id keeps another id settled.
pub proof fn lemma_without_first_settled(frames: Seq<Frame>, id: Seq<char>, other: Seq<char>)
    requires
        settled(frames, other),
    ensures
        settled(without_first(frames, id), other),
{
    lemma_without_first_at_most_one(frames, id, other);
    lemma_first_where(frames, yielding(id));
    let k = first_where(frames, yielding(id));
    let thin = without_first(frames, id);
    assert forall|i: int| 0 <= i < thin.len() && (#[trigger] thin[i]).id == other implies !(
    thin[i].body is Keyed) by {
        if k < frames.len() {
            if i < k {
                assert(thin[i] == frames[i]);
            } else {
                assert(thin[i] == frames[i + 1]);
            }
        }
    }
}

/// Where at most one frame has the id, none gives way under it once the
/// first that does is taken out.
pub proof fn lemma_without_first_clears(frames: Seq<Frame>, id: Seq<char>)
    requires
        at_most_one(frames, id),
    ensures
        none_gives_way(without_first(frames, id), id),
{
    lemma_first_where(frames, yielding(id));
    let k = first_where(frames, yielding(id));
    let thin = without_first(frames, id);
    assert forall|i: int| 0 <= i < thin.len() implies !gives_way(#[trigger] thin[i], id) by {
        if k < frames.len() {
            let i2 = if i < k { i } else { i + 1 };
            assert(thin[i] == frames[i2]);
            assert(frames[k].id == id);
        } else {
            assert(!yielding(id)(frames[i]));
        }
    }
}

/// Where the id is settled, it is absent once the first frame that gives way
/// under it is taken out.
pub proof fn lemma_without_first_empties(frames: Seq<Frame>, id: Seq<char>)
    requires
        settled(frames, id),
    ensures
        absent(without_first(frames, id), id),
{
    lemma_first_where(frames, yielding(id));
    let k = first_where(frames, yielding(id));
    let thin = without_first(frames, id);
    assert forall|i: int| 0 <= i < thin.len() implies (#[trigger] thin[i]).id != id by {
        if k < frames.len() {
            let i2 = if i < k { i } else { i + 1 };
            assert(thin[i] == frames[i2]);
            assert(frames[k].id == id);
        } else {
            assert(!yielding(id)(frames[i]));
        }
    }
}

/// What is read under an id does not change when a frame is taken out under
/// another id.
pub proof fn lemma_first_text_without_first(frames: Seq<Frame>, id: Seq<char>, other: Seq<char>)
    requires
        id != other,
    ensures
        first_text(without_first(frames, id), other) == first_text(frames, other),
{
    lemma_first_where(frames, yielding(id));
    lemma_first_where(frames, under(other));
    let k = first_where(frames, yielding(id));
    let m = first_where(frames, under(other));
    let thin = without_first(frames, id);
    if k < frames.len() {
        assert(frames[k].id == id);
        let m2 = if m < k { m } else { m - 1 };
        assert forall|i: int| 0 <= i < m2 implies !under(other)(#[trigger] thin[i]) by {
            let i2 = if i < k { i } else { i + 1 };
            assert(thin[i] == frames[i2]);
            assert(!under(other)(frames[i2]));
        }
        if m < frames.len() {
            assert(thin[m2] == frames[m]);
        }
        lemma_first_where_is(thin, under(other), m2);
    }
}

/// What is read under an id from frames in a row: from those in front, if
/// one of them has the id, else from those behind.
pub proof fn lemma_first_text_append(front: Seq<Frame>, back: Seq<Frame>, id: Seq<char>)
    ensures
        !absent(front, id) ==> first_text(front + back, id) == first_text(front, id),
        absent(front, id) ==> first_text(front + back, id) == first_text(back, id),
{
    let all = front + back;
    lemma_first_where(front, under(id));
    lemma_first_where(back, under(id));
    let k = first_where(front, under(id));
    let m = first_where(back, under(id));
    if k < front.len() {
        assert(all[k] == front[k]);
        assert forall|i: int| 0 <= i < k implies !under(id)(#[trigger] all[i]) by {
            assert(all[i] == front[i]);
        }
        lemma_first_where_is(all, under(id), k);
        assert(front[k].id == id);
    } else {
        assert forall|i: int| 0 <= i < front.len() implies (#[trigger] front[i]).id != id by {
            assert(!under(id)(front[i]));
        }
        assert forall|i: int| 0 <= i < k + m implies !under(id)(#[trigger] all[i]) by {
            if i < k {
                assert(all[i] == front[i]);
                assert(!under(id)(front[i]));
            } else {
                assert(all[i] == back[i - k]);
                assert(!under(id)(back[i - k]));
            }
        }
        if m < back.len() {
            assert(all[k + m] == back[m]);
        }
        lemma_first_where_is(all, under(id), k + m);
    }
}

/// Under an id of which no frame gives way, no text is read.
pub proof fn lemma_first_text_none(frames: Seq<Frame>, id: Seq<char>)
    requires
        none_gives_way(frames, id),
    ensures
        first_text(frames, id) is None,
{
    lemma_first_where(frames, under(id));
    let k = first_where(frames, under(id));
    if k < frames.len() {
        assert(!gives_way(frames[k], id));
    }
}

/// Frames behind, none under the id, do not change what is read under it.
pub proof fn lemma_first_text_append_absent(front: Seq<Frame>, back: Seq<Frame>, id: Seq<char>)
    requires
        absent(back, id),
    ensures
        first_text(front + back, id) == first_text(front, id),
{
    lemma_first_text_append(front, back, id);
    if absent(front, id) {
        lemma_first_text_none(front, id);
        lemma_first_text_none(back, id);
    }
}

/// Writing a text under an id, where frames behind do not give way under it:
/// the frame that is displaced is one in front, and the new frame comes
/// last.
pub proof fn lemma_put_text_append(
    front: Seq<Frame>,
    back: Seq<Frame>,
    id: Seq<char>,
    text: Seq<char>,
)
    requires
        none_gives_way(back, id),
    ensures
        put_text(front + back, id, text) == without_first(front, id) + back.push(
            text_frame(id, text),
        ),
{
    lemma_without_first_append(front, back, id);
    assert((without_first(front, id) + back).push(text_frame(id, text)) =~= without_first(
        front,
        id,
    ) + back.push(text_frame(id, text)));
}

/// Where at most one frame has the id and one is left after the first that
/// gives way is taken out, none was taken out.
pub proof fn lemma_without_first_same(frames: Seq<Frame>, id: Seq<char>)
    requires
        at_most_one(frames, id),
        !absent(without_first(frames, id), id),
    ensures
        without_first(frames, id) == frames,
{
    lemma_first_where(frames, yielding(id));
    let k = first_where(frames, yielding(id));
    let thin = without_first(frames, id);
    if k < frames.len() {
        let i = choose|i: int| 0 <= i < thin.len() && (#[trigger] thin[i]).id == id;
        let i2 = if i < k { i } else { i + 1 };
        assert(thin[i] == frames[i2]);
        assert(frames[k].id == id);
    }
}

/// Frames of which `pred` holds are all kept, in their order, when a frame
/// is taken out of which it does not hold.
pub proof fn lemma_without_first_filter(
    frames: Seq<Frame>,
    id: Seq<char>,
    pred: spec_fn(Frame) -> bool,
)
    requires
        forall|frame: Frame| gives_way(frame, id) ==> !#[trigger] pred(frame),
    ensures
        without_first(frames, id).filter(pred) == frames.filter(pred),
{
    lemma_first_where(frames, yielding(id));
    let k = first_where(frames, yielding(id));
    if k < frames.len() {
        let front = frames.take(k);
        let one = seq![frames[k]];
        let back = frames.skip(k + 1);
        assert(frames =~= front + one + back);
        assert(frames.remove(k) =~= front + back);
        assert(one.filter(pred) =~= Seq::<Frame>::empty()) by {
            reveal_with_fuel(Seq::filter, 2);
            assert(gives_way(frames[k], id));
        }
        Seq::filter_distributes_over_add(front, one, pred);
        Seq::filter_distributes_over_add(front + one, back, pred);
        Seq::filter_distributes_over_add(front, back, pred);
        assert(front.filter(pred) + one.filter(pred) =~= front.filter(pred));
    }
}

/// Filtering frames of none of which `pred` holds leaves nothing.
pub proof fn lemma_filter_none(frames: Seq<Frame>, pred: spec_fn(Frame) -> bool)
    requires
        forall|i: int| 0 <= i < frames.len() ==> !pred(#[trigger] frames[i]),
    ensures
        frames.filter(pred) == Seq::<Frame>::empty(),
    decreases frames.len(),
{
    reveal_with_fuel(Seq::filter, 2);
    if frames.len() > 0 {
        let rest = frames.drop_last();
        assert forall|i: int| 0 <= i < rest.len() implies !pred(#[trigger] rest[i]) by {
            assert(rest[i] == frames[i]);
        }
        lemma_filter_none(rest, pred);
        assert(!pred(frames.last()));
    }
}

} // verus!
