//! Facts about the model that the buffer's proofs rest on.

use crate::model::{concat, evict_count, total_len, Contents};
use crate::source::EventClass;
use vstd::prelude::*;

verus! {

/// Appending a frame adds its length to the total.
pub proof fn lemma_total_len_push(frames: Seq<Seq<u8>>, frame: Seq<u8>)
    ensures
        total_len(frames.push(frame)) == total_len(frames) + frame.len(),
        concat(frames.push(frame)) == concat(frames) + frame,
{
    assert(frames.push(frame).drop_last() =~= frames);
}

/// The total of a sequence is the total of any prefix plus that of the rest.
pub proof fn lemma_total_len_split(frames: Seq<Seq<u8>>, k: int)
    requires
        0 <= k <= frames.len(),
    ensures
        total_len(frames) == total_len(frames.take(k)) + total_len(frames.skip(k)),
        concat(frames) == concat(frames.take(k)) + concat(frames.skip(k)),
        concat(frames).len() == total_len(frames),
    decreases frames.len(),
{
    if frames.len() == 0 {
        assert(frames.take(k) =~= frames);
        assert(frames.skip(k) =~= frames);
    } else if k == frames.len() {
        lemma_total_len_split(frames.drop_last(), k - 1);
        assert(frames.take(k) =~= frames);
        assert(frames.skip(k) =~= Seq::<Seq<u8>>::empty());
        assert(concat(frames) =~= concat(frames) + Seq::<u8>::empty());
    } else {
        lemma_total_len_split(frames.drop_last(), k);
        assert(frames.drop_last().take(k) =~= frames.take(k));
        assert(frames.drop_last().skip(k) =~= frames.skip(k).drop_last());
        assert(frames.skip(k).last() == frames.last());
        assert(concat(frames) =~= concat(frames.take(k)) + concat(frames.skip(k)));
    }
}

/// The total of two sequences joined is the sum of their totals.
pub proof fn lemma_total_len_add(front: Seq<Seq<u8>>, back: Seq<Seq<u8>>)
    ensures
        total_len(front + back) == total_len(front) + total_len(back),
        concat(front + back) == concat(front) + concat(back),
{
    lemma_total_len_split(front + back, front.len() as int);
    assert((front + back).take(front.len() as int) =~= front);
    assert((front + back).skip(front.len() as int) =~= back);
}

/// The total of a sequence with one frame is that frame's length.
pub proof fn lemma_total_len_one(frames: Seq<Seq<u8>>)
    requires
        frames.len() == 1,
    ensures
        total_len(frames) == frames[0].len(),
        concat(frames) == frames[0],
{
    reveal_with_fuel(total_len, 2);
    reveal_with_fuel(concat, 2);
    assert(frames.drop_last().len() == 0);
    assert(concat(frames) =~= frames[0]);
}

/// The total of a non-empty sequence is its first frame plus the rest.
pub proof fn lemma_total_len_first(frames: Seq<Seq<u8>>)
    requires
        frames.len() > 0,
    ensures
        total_len(frames) == frames[0].len() + total_len(frames.drop_first()),
{
    lemma_total_len_split(frames, 1);
    lemma_total_len_one(frames.take(1));
    assert(frames.skip(1) =~= frames.drop_first());
}

/// A longer prefix has at least the total of a shorter one.
pub proof fn lemma_total_len_prefix(frames: Seq<Seq<u8>>, i: int, j: int)
    requires
        0 <= i <= j <= frames.len(),
    ensures
        total_len(frames.take(i)) <= total_len(frames.take(j)),
        total_len(frames.take(j)) <= total_len(frames),
        i < j ==> total_len(frames.take(i)) + frames[i].len() <= total_len(frames.take(j)),
{
    lemma_total_len_split(frames, j);
    lemma_total_len_split(frames.take(j), i);
    assert(frames.take(j).take(i) =~= frames.take(i));
    if i < j {
        let rest = frames.take(j).skip(i);
        lemma_total_len_first(rest);
        assert(rest[0] == frames[i]);
    }
}

/// What eviction leaves: it never empties a window, what stays obeys the
/// cap unless it is a single frame, and every frame that left was the head
/// of a window of several frames that exceeded the cap.
pub proof fn lemma_evict_count(window: Seq<Seq<u8>>, cap: nat)
    ensures
        evict_count(window, cap) <= window.len(),
        window.len() > 0 ==> evict_count(window, cap) < window.len(),
        window.skip(evict_count(window, cap) as int).len() <= 1 || total_len(
            window.skip(evict_count(window, cap) as int),
        ) <= cap,
        forall|j: int|
            0 <= j < evict_count(window, cap) ==> total_len(#[trigger] window.skip(j)) > cap,
    decreases window.len(),
{
    if window.len() > 1 && total_len(window) > cap {
        let rest = window.drop_first();
        lemma_evict_count(rest, cap);
        let k = evict_count(rest, cap) as int;
        assert(rest.skip(k) =~= window.skip(k + 1));
        assert forall|j: int| 0 <= j < evict_count(window, cap) implies total_len(
            #[trigger] window.skip(j),
        ) > cap by {
            if j == 0 {
                assert(window.skip(0) =~= window);
            } else {
                assert(rest.skip(j - 1) =~= window.skip(j));
            }
        }
    } else {
        assert(window.skip(0) =~= window);
    }
}

/// Evicting the head of a window is the first of the evictions it owes.
pub proof fn lemma_evict_count_unfold(window: Seq<Seq<u8>>, cap: nat, k: int)
    requires
        0 <= k < window.len(),
        window.skip(k).len() > 1,
        total_len(window.skip(k)) > cap,
        evict_count(window, cap) == k + evict_count(window.skip(k), cap),
    ensures
        evict_count(window, cap) == k + 1 + evict_count(window.skip(k + 1), cap),
{
    assert(window.skip(k).drop_first() =~= window.skip(k + 1));
}

/// Retained frames lie end to end: each begins where the one before it ends,
/// the first begins where the window does, and the last ends at the cursor.
pub proof fn lemma_frames_contiguous(contents: Contents, i: int)
    requires
        0 <= i < contents.window.len(),
    ensures
        contents.frame_start(0) == contents.window_start(),
        contents.frame_end(i) <= contents.cursor(),
        i + 1 < contents.window.len() ==> contents.frame_start(i + 1) == contents.frame_end(i),
        i + 1 == contents.window.len() ==> contents.frame_end(i) == contents.cursor(),
        contents.window_start() <= contents.frame_start(i),
{
    let window = contents.window;
    assert(window.take(0) =~= Seq::<Seq<u8>>::empty());
    lemma_total_len_prefix(window, i, i + 1);
    lemma_total_len_push(window.take(i), window[i]);
    assert(window.take(i).push(window[i]) =~= window.take(i + 1));
    if i + 1 == window.len() {
        assert(window.take(i + 1) =~= window);
    }
}

/// Frames are ordered: an earlier frame ends before a later one begins.
pub proof fn lemma_frames_ordered(contents: Contents, i: int, j: int)
    requires
        0 <= i < j < contents.window.len(),
    ensures
        contents.frame_end(i) <= contents.frame_start(j),
{
    lemma_total_len_prefix(contents.window, i, j);
}

/// At most one retained frame holds a given offset.
pub proof fn lemma_holder_unique(contents: Contents, i: int, j: int, offset: nat)
    requires
        contents.frame_holds(i, offset),
        contents.frame_holds(j, offset),
    ensures
        i == j,
{
    if i < j {
        lemma_frames_ordered(contents, i, j);
    } else if j < i {
        lemma_frames_ordered(contents, j, i);
    }
}

/// The cursor is the length of the logical output stream.
pub proof fn lemma_cursor_is_output_len(contents: Contents)
    ensures
        contents.output().len() == contents.cursor(),
{
    lemma_total_len_split(contents.evicted, 0);
    lemma_total_len_split(contents.window, 0);
}

/// Eviction moves frames from the window to the evicted frames and changes
/// neither their order nor their bytes.
pub proof fn lemma_evict_keeps_frames(evicted: Seq<Seq<u8>>, grown: Seq<Seq<u8>>, gone: int)
    requires
        0 <= gone <= grown.len(),
    ensures
        (evicted + grown.take(gone)) + grown.skip(gone) == evicted + grown,
        total_len(evicted + grown.take(gone)) + total_len(grown.skip(gone)) == total_len(evicted)
            + total_len(grown),
        concat(evicted + grown.take(gone)) + concat(grown.skip(gone)) == concat(evicted)
            + concat(grown),
{
    assert((evicted + grown.take(gone)) + grown.skip(gone) =~= evicted + grown);
    lemma_total_len_add(evicted + grown.take(gone), grown.skip(gone));
    lemma_total_len_add(evicted, grown);
}

/// One step keeps the window within its bound, never moves the cursor
/// back, counts no byte that was not handed in, and leaves the output
/// produced so far as it was.
pub proof fn lemma_step(contents: Contents, cap: nat, class: EventClass, bytes: Seq<u8>)
    requires
        contents.bounded(cap),
    ensures
        contents.step(cap, class, bytes).bounded(cap),
        contents.cursor() <= contents.step(cap, class, bytes).cursor(),
        contents.step(cap, class, bytes).cursor() + contents.step(
            cap,
            class,
            bytes,
        ).unsorted_len() <= contents.cursor() + contents.unsorted_len() + bytes.len(),
        contents.output().is_prefix_of(contents.step(cap, class, bytes).output()),
{
    let next = contents.step(cap, class, bytes);
    match class {
        EventClass::Unclassified => {},
        EventClass::FrameInterior => {},
        EventClass::FrameEnd => {
            let frame = contents.pending + contents.unclassified + bytes;
            let grown = contents.window.push(frame);
            let gone = evict_count(grown, cap) as int;
            lemma_evict_count(grown, cap);
            lemma_evict_keeps_frames(contents.evicted, grown, gone);
            lemma_total_len_push(contents.window, frame);
            let moved = concat(contents.evicted + grown.take(gone));
            let kept = concat(grown.skip(gone));
            assert(next.output() =~= contents.preamble + (moved + kept));
            assert(contents.preamble + (concat(contents.evicted) + (concat(contents.window)
                + frame)) =~= contents.output() + frame);
        },
        EventClass::Metadata => {
            if !contents.frame_begun() {
                assert(contents.window =~= Seq::<Seq<u8>>::empty());
                assert(contents.evicted =~= Seq::<Seq<u8>>::empty());
                assert(next.output() =~= contents.output() + (contents.unclassified + bytes));
            }
        },
    }
}

} // verus!
