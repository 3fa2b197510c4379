//! What holds of the frame buffer whatever the decoder reports: the laws
//! that its users may rely on, each proved from the model.

use crate::lemmas::{
    lemma_cursor_is_output_len, lemma_evict_count, lemma_frames_contiguous, lemma_holder_unique,
    lemma_step, lemma_total_len_add, lemma_total_len_one, lemma_total_len_split,
};
use crate::model::{concat, replay, run, total_len, Contents, Step};
use crate::session::{Decision, Phase, SessionView, Signal};
use crate::source::{DecodeError, EventClass};
use vstd::prelude::*;

verus! {

/// The cursor counts the preamble and every frame ever completed, whether
/// it is still retained or has been evicted; it is the length of the output.
pub proof fn law_cursor_counts_every_frame(contents: Contents)
    ensures
        contents.cursor() == contents.preamble.len() + total_len(
            contents.evicted + contents.window,
        ),
        contents.cursor() == contents.output().len(),
{
    lemma_total_len_add(contents.evicted, contents.window);
    lemma_cursor_is_output_len(contents);
}

/// Running a log in two pieces gives what running it in one piece gives:
/// where a sequence of steps is cut makes no difference to what the buffer
/// holds.
pub proof fn law_run_in_pieces(start: Contents, cap: nat, first: Seq<Step>, second: Seq<Step>)
    ensures
        run(start, cap, first + second) == run(run(start, cap, first), cap, second),
    decreases second.len(),
{
    if second.len() == 0 {
        assert(first + second =~= first);
    } else {
        law_run_in_pieces(start, cap, first, second.drop_last());
        assert((first + second).drop_last() =~= first + second.drop_last());
        assert((first + second).last() == second.last());
    }
}

/// Whatever steps follow, the window stays within its bound, the cursor
/// does not move back, and the output produced so far stays as it is.
pub proof fn law_run_only_extends(start: Contents, cap: nat, log: Seq<Step>)
    requires
        start.bounded(cap),
    ensures
        run(start, cap, log).bounded(cap),
        start.cursor() <= run(start, cap, log).cursor(),
        start.output().is_prefix_of(run(start, cap, log).output()),
    decreases log.len(),
{
    if log.len() > 0 {
        law_run_only_extends(start, cap, log.drop_last());
        let held = run(start, cap, log.drop_last());
        lemma_step(held, cap, log.last().class, log.last().bytes);
    }
}

/// After any sequence of steps the retained frames span no more than the
/// cap, unless a single frame is retained, which is kept whole however
/// large it is.
pub proof fn law_window_within_cap(cap: nat, log: Seq<Step>)
    ensures
        replay(cap, log).window.len() <= 1 || total_len(replay(cap, log).window) <= cap,
        replay(cap, log).bounded(cap),
{
    law_run_only_extends(Contents::empty(), cap, log);
}

/// For any sequence of steps and any continuation of it, the cursor after
/// the longer sequence is at least the cursor after the shorter one, and
/// the output after the shorter one is a prefix of the output after the
/// longer one.
pub proof fn law_cursor_never_moves_back(cap: nat, shorter: Seq<Step>, longer: Seq<Step>)
    requires
        shorter.is_prefix_of(longer),
    ensures
        replay(cap, shorter).cursor() <= replay(cap, longer).cursor(),
        replay(cap, shorter).output().is_prefix_of(replay(cap, longer).output()),
{
    let rest = longer.skip(shorter.len() as int);
    assert(shorter + rest =~= longer);
    law_run_in_pieces(Contents::empty(), cap, shorter, rest);
    law_window_within_cap(cap, shorter);
    law_run_only_extends(replay(cap, shorter), cap, rest);
}

/// The cap decides only which frames are still retained: the preamble, the
/// frames completed, the cursor and the output are the same under any cap.
pub proof fn law_cap_moves_frames_only(cap: nat, other: nat, log: Seq<Step>)
    ensures
        replay(cap, log).preamble == replay(other, log).preamble,
        replay(cap, log).pending == replay(other, log).pending,
        replay(cap, log).unclassified == replay(other, log).unclassified,
        replay(cap, log).evicted + replay(cap, log).window == replay(other, log).evicted + replay(
            other,
            log,
        ).window,
        replay(cap, log).cursor() == replay(other, log).cursor(),
        replay(cap, log).output() == replay(other, log).output(),
    decreases log.len(),
{
    let here = replay(cap, log);
    let there = replay(other, log);
    if log.len() > 0 {
        let front = log.drop_last();
        let class = log.last().class;
        let bytes = log.last().bytes;
        let a = replay(cap, front);
        let b = replay(other, front);
        law_cap_moves_frames_only(cap, other, front);
        law_window_within_cap(cap, front);
        law_window_within_cap(other, front);
        law_window_within_cap(cap, log);
        law_window_within_cap(other, log);
        assert((a.evicted + a.window).len() == (b.evicted + b.window).len());
        match class {
            EventClass::FrameEnd => {
                let frame = a.pending + a.unclassified + bytes;
                lemma_evict_count(a.window.push(frame), cap);
                lemma_evict_count(b.window.push(frame), other);
                assert(here.evicted + here.window =~= (a.evicted + a.window).push(frame));
                assert(there.evicted + there.window =~= (b.evicted + b.window).push(frame));
            },
            _ => {},
        }
    }
    lemma_total_len_add(here.evicted, here.window);
    lemma_total_len_add(there.evicted, there.window);
    assert(here.output() =~= here.preamble + concat(here.evicted + here.window));
    assert(there.output() =~= there.preamble + concat(there.evicted + there.window));
}

/// A read at the cursor, or past it, returns the offset it was given and no
/// data.
pub proof fn law_read_at_cursor_is_empty(contents: Contents, offset: nat)
    requires
        offset >= contents.cursor(),
    ensures
        contents.read_after(offset) == (offset, Seq::<u8>::empty()),
{
}

/// The bytes of retained frame `i` are the bytes of the output between its
/// start and its end.
pub proof fn law_frame_lies_in_output(contents: Contents, i: int)
    requires
        0 <= i < contents.window.len(),
    ensures
        contents.frame_end(i) <= contents.output().len(),
        contents.output().subrange(
            contents.frame_start(i) as int,
            contents.frame_end(i) as int,
        ) == contents.window[i],
{
    let window = contents.window;
    let head = contents.preamble + concat(contents.evicted);
    lemma_cursor_is_output_len(contents);
    lemma_frames_contiguous(contents, i);
    lemma_total_len_split(contents.evicted, 0);
    lemma_total_len_split(window, i);
    lemma_total_len_split(window.take(i), 0);
    lemma_total_len_split(window.skip(i), 1);
    lemma_total_len_one(window.skip(i).take(1));
    assert(window.skip(i).take(1)[0] == window[i]);
    assert(contents.output() =~= head + (concat(window.take(i)) + (window[i] + concat(
        window.skip(i).skip(1),
    ))));
    assert(contents.output().subrange(
        contents.frame_start(i) as int,
        contents.frame_end(i) as int,
    ) =~= window[i]);
}

/// Every offset between the start of the window and the cursor lies in a
/// retained frame.
pub proof fn law_window_has_no_gaps(contents: Contents, offset: nat) -> (i: int)
    requires
        contents.window_start() <= offset < contents.cursor(),
    ensures
        contents.frame_holds(i, offset),
{
    assert(contents.window.len() > 0) by {
        if contents.window.len() == 0 {
            assert(total_len(contents.window) == 0);
        }
    }
    lemma_frames_contiguous(contents, contents.window.len() - 1);
    find_holder(contents, offset, contents.window.len() as int)
}

proof fn find_holder(contents: Contents, offset: nat, below: int) -> (i: int)
    requires
        0 < below <= contents.window.len(),
        contents.window_start() <= offset < contents.frame_end(below - 1),
    ensures
        contents.frame_holds(i, offset),
    decreases below,
{
    lemma_frames_contiguous(contents, below - 1);
    if contents.frame_start(below - 1) <= offset {
        below - 1
    } else {
        lemma_frames_contiguous(contents, below - 2);
        find_holder(contents, offset, below - 1)
    }
}

/// A read at the first byte of a retained frame that is not empty returns
/// exactly that frame and takes the reader to the frame's end, which is
/// where the next frame begins or, after the newest frame, the cursor.
pub proof fn law_read_at_frame_start(contents: Contents, i: int)
    requires
        0 <= i < contents.window.len(),
        contents.window[i].len() > 0,
    ensures
        contents.read_after(contents.frame_start(i)) == (
            contents.frame_end(i),
            contents.window[i],
        ),
        i + 1 < contents.window.len() ==> contents.frame_end(i) == contents.frame_start(i + 1),
        i + 1 == contents.window.len() ==> contents.frame_end(i) == contents.cursor(),
{
    let offset = contents.frame_start(i);
    lemma_frames_contiguous(contents, i);
    assert(contents.frame_holds(i, offset));
    let chosen = choose|j: int| contents.frame_holds(j, offset);
    lemma_holder_unique(contents, chosen, i, offset);
    assert(contents.window[i].skip(0) =~= contents.window[i]);
}

/// A reader that has missed nothing misses nothing when it reads on: from
/// any offset at which no evicted frame remains unseen, and short of the
/// cursor, a read returns exactly the bytes of the output from that offset
/// up to the offset it takes the reader to, which lies further on, at most
/// at the cursor, and again where nothing has been missed.
pub proof fn law_read_is_next_output(contents: Contents, offset: nat)
    requires
        contents.lossless_from() <= offset < contents.cursor(),
    ensures
        offset < contents.read_after(offset).0 <= contents.cursor(),
        contents.lossless_from() <= contents.read_after(offset).0,
        contents.read_after(offset).1 == contents.output().subrange(
            offset as int,
            contents.read_after(offset).0 as int,
        ),
{
    lemma_cursor_is_output_len(contents);
    if offset < contents.preamble.len() {
        assert(contents.evicted.len() == 0);
        assert(contents.preamble.skip(offset as int) =~= contents.output().subrange(
            offset as int,
            contents.preamble.len() as int,
        ));
    } else {
        if contents.evicted.len() == 0 {
            assert(total_len(contents.evicted) == 0);
        }
        let i = law_window_has_no_gaps(contents, offset);
        let chosen = choose|j: int| contents.frame_holds(j, offset);
        lemma_holder_unique(contents, chosen, i, offset);
        lemma_frames_contiguous(contents, i);
        law_frame_lies_in_output(contents, i);
        let start = contents.frame_start(i) as int;
        let end = contents.frame_end(i) as int;
        assert(contents.window[i].skip(offset - start) =~= contents.output().subrange(
            start,
            end,
        ).skip(offset - start));
        assert(contents.output().subrange(start, end).skip(offset - start)
            =~= contents.output().subrange(offset as int, end));
    }
}

/// A reader that has missed nothing and reads until nothing is left
/// collects the output from its offset to the cursor, every byte once and
/// in order.
pub proof fn law_read_all_is_rest_of_output(contents: Contents, offset: nat)
    requires
        contents.lossless_from() <= offset <= contents.cursor(),
    ensures
        contents.read_all(offset) == contents.output().subrange(
            offset as int,
            contents.cursor() as int,
        ),
    decreases contents.cursor() - offset,
{
    lemma_cursor_is_output_len(contents);
    if offset == contents.cursor() {
        assert(contents.read_all(offset) =~= contents.output().subrange(
            offset as int,
            contents.cursor() as int,
        ));
    } else {
        law_read_is_next_output(contents, offset);
        let next = contents.read_after(offset).0;
        law_read_all_is_rest_of_output(contents, next);
        assert(contents.output().subrange(offset as int, next as int)
            + contents.output().subrange(next as int, contents.cursor() as int)
            =~= contents.output().subrange(offset as int, contents.cursor() as int));
    }
}

/// A reader behind the cursor always gets something: whatever its offset,
/// a read takes it further on, and never past the cursor.
pub proof fn law_read_makes_progress(contents: Contents, cap: nat, offset: nat)
    requires
        contents.bounded(cap),
        offset < contents.cursor(),
    ensures
        offset < contents.read_after(offset).0 <= contents.cursor(),
{
    if offset < contents.preamble.len() {
    } else if exists|i: int| contents.frame_holds(i, offset) {
        let i = choose|i: int| contents.frame_holds(i, offset);
        lemma_frames_contiguous(contents, i);
    } else {
        if contents.window.len() == 0 {
            assert(contents.evicted.len() == 0);
            assert(total_len(contents.evicted) == 0);
            assert(total_len(contents.window) == 0);
        }
        lemma_frames_contiguous(contents, 0);
        if contents.window_start() <= offset {
            let i = law_window_has_no_gaps(contents, offset);
        }
    }
}

/// Once the process has ended by itself the session never asks for it to
/// be killed or awaited, whatever is observed and however a write ends.
pub proof fn law_no_kill_after_process_ended(
    session: SessionView,
    signal: Signal,
    outcome: Result<(), DecodeError>,
)
    requires
        session.valid(),
        session.process_done,
    ensures
        session.on_signal(signal).1 != Decision::Kill,
        session.on_signal(signal).1 != Decision::AwaitExit,
        session.on_signal(signal).0.process_done,
        session.on_written(outcome).1 != Decision::Kill,
        session.on_written(outcome).0.process_done,
{
}

/// A process that ends by itself leaves the copy to drain: when the output
/// then ends, the client has been handed everything up to the cursor and
/// the session closes with the error it held, if any, without a kill.
pub proof fn law_drained_session_closes(session: SessionView)
    requires
        session.valid(),
        session.phase == Phase::Reading,
        session.process_done,
    ensures
        session.seen == session.stream.contents.cursor(),
        session.on_signal(Signal::OutputEnded).1 == Decision::Close,
        session.on_signal(Signal::OutputEnded).0.phase == Phase::Closed,
        session.on_signal(Signal::OutputEnded).0.failure == session.failure,
{
}

/// A client that goes away while the process runs ends the session without
/// an error: the process is told to terminate, then awaited, and when it
/// has exited the session closes without an error.
pub proof fn law_client_gone_ends_silently(session: SessionView)
    requires
        session.valid(),
        session.phase == Phase::Sending,
        !session.process_done,
    ensures
        session.on_signal(Signal::SendFailed).1 == Decision::Kill,
        session.on_signal(Signal::SendFailed).0.on_signal(Signal::KillRequested).1
            == Decision::AwaitExit,
        session.on_signal(Signal::SendFailed).0.on_signal(Signal::KillRequested).0.on_signal(
            Signal::ProcessExited,
        ).1 == Decision::Close,
        session.on_signal(Signal::SendFailed).0.on_signal(Signal::KillRequested).0.on_signal(
            Signal::ProcessExited,
        ).0.phase == Phase::Closed,
        session.on_signal(Signal::SendFailed).0.on_signal(Signal::KillRequested).0.on_signal(
            Signal::ProcessExited,
        ).0.failure is None,
{
}

/// Every chunk the session sends continues the output where the client
/// stands: while no frame that the client has not seen has been evicted,
/// the bytes sent are the bytes of the output from the client's offset to
/// its new offset.
pub proof fn law_sent_chunk_is_next_output(session: SessionView)
    requires
        session.sound(),
        session.stream.contents.lossless_from() <= session.seen,
    ensures
        session.pump().1 matches Decision::Send(bytes) ==> {
            &&& session.seen < session.pump().0.seen <= session.stream.contents.cursor()
            &&& bytes == session.stream.contents.output().subrange(
                session.seen as int,
                session.pump().0.seen as int,
            )
        },
        session.pump().1 == Decision::ReadOutput ==> session.pump().0.seen
            == session.stream.contents.cursor(),
        session.pump().1 != Decision::ReadOutput ==> session.pump().1 is Send,
{
    if session.seen < session.stream.contents.cursor() {
        law_read_is_next_output(session.stream.contents, session.seen);
    }
}

} // verus!
