//! The frame-aligned streaming buffer.
//!
//! Raw bytes go in through [`Stream::write`]; the decoder sorts them into
//! the preamble and whole frames; readers fetch what they have not seen yet
//! through [`Stream::read_after`], each with a cursor of its own.

use crate::lemmas::{
    lemma_evict_count_unfold, lemma_frames_contiguous, lemma_holder_unique, lemma_step,
    lemma_total_len_add, lemma_total_len_push, lemma_total_len_split,
};
use crate::model::{evict_count, replay, taken_bytes, total_len, Contents, Step};
use crate::source::{
    class_of, classify, convert_error, decoder_update, fresh_decoder, DecodeError, Event,
    EventClass,
};
use gif::StreamingDecoder;
use std::collections::VecDeque;
use vstd::prelude::*;
use vstd::slice::slice_subrange;

verus! {

/// The span in bytes that the window of retained frames may cover unless it
/// is told otherwise: one mebibyte.
pub const DEFAULT_WINDOW_CAP: u64 = 1048576;

/// How many events in a row the decoder may report without taking any
/// input before a write gives up on it.
pub const MAX_IDLE_EVENTS: usize = 256;

/// What a write does with one report of the decoder.
#[derive(Debug)]
pub enum Progress {
    /// What the decoder reported is sorted, with the `taken` bytes that
    /// came with it, and the decoder is asked again; `idle` events in a row
    /// have then come without bytes.
    Sort { taken: usize, idle: usize },
    /// The decoder took nothing and reported nothing: it waits for input
    /// that a later write brings.
    Wait,
    /// The write fails.
    Fail(DecodeError),
}

/// What a write does with a report, when `idle` events in a row have come
/// without bytes. A failure of the decoder fails the write. A report with
/// bytes is sorted. A report without bytes and without an event ends the
/// write. An event without bytes is sorted as well, unless
/// [`MAX_IDLE_EVENTS`] of them have come in a row: then the decoder counts
/// as stalled.
pub open spec fn progress_of(idle: usize, report: Result<(usize, Event), DecodeError>) -> Progress {
    match report {
        Err(error) => Progress::Fail(error),
        Ok((taken, event)) => if taken > 0 {
            Progress::Sort { taken, idle: 0 }
        } else if event == Event::Nothing {
            Progress::Wait
        } else if idle >= MAX_IDLE_EVENTS {
            Progress::Fail(DecodeError::Stalled)
        } else {
            Progress::Sort { taken: 0, idle: (idle + 1) as usize }
        },
    }
}

/// Decides what a write does with a report of the decoder.
pub fn decide(idle: usize, report: Result<(usize, Event), DecodeError>) -> (progress: Progress)
    ensures
        progress == progress_of(idle, report),
{
    match report {
        Err(error) => Progress::Fail(error),
        Ok((taken, event)) => {
            if taken > 0 {
                Progress::Sort { taken, idle: 0 }
            } else {
                match event {
                    Event::Nothing => Progress::Wait,
                    _ => {
                        if idle >= MAX_IDLE_EVENTS {
                            Progress::Fail(DecodeError::Stalled)
                        } else {
                            Progress::Sort { taken: 0, idle: idle + 1 }
                        }
                    },
                }
            }
        },
    }
}

/// One completed frame: its bytes and the logical offset of the first.
struct Blob {
    offset: u64,
    data: Vec<u8>,
}

/// The bytes of each frame, in order.
spec fn frame_bytes(frames: Seq<Blob>) -> Seq<Seq<u8>> {
    Seq::new(frames.len(), |i: int| frames[i].data@)
}

/// Each frame of `frames` begins `base` bytes plus the frames before it into
/// the stream, where `frames` are the frames of `all` from index `gone` on.
spec fn offsets_follow(frames: Seq<Blob>, base: nat, all: Seq<Seq<u8>>, gone: int) -> bool {
    forall|i: int|
        0 <= i < frames.len() ==> #[trigger] stored_offset(frames, i) == base + total_len(
            all.take(gone + i),
        )
}

/// The offset stored with frame `i`.
spec fn stored_offset(frames: Seq<Blob>, i: int) -> nat {
    frames[i].offset as nat
}

/// Appends `tail` to `bytes`.
fn append_slice(bytes: &mut Vec<u8>, tail: &[u8])
    ensures
        final(bytes)@ == old(bytes)@ + tail@,
{
    bytes.extend_from_slice(tail);
    assert(bytes@ =~= old(bytes)@ + tail@);
}

/// The buffer between the transcoder's output and its readers.
pub struct Stream {
    preamble: Vec<u8>,
    frames: VecDeque<Blob>,
    offset: u64,
    partial_frame: Vec<u8>,
    decoder: StreamingDecoder,
    undecoded: Vec<u8>,
    decoded: Vec<u8>,
    cap: u64,
    evicted: Ghost<Seq<Seq<u8>>>,
    log: Ghost<Seq<Step>>,
}

/// What a [`Stream`] stands for.
pub struct StreamView {
    /// The span the window may cover.
    pub cap: nat,
    /// What has been sorted so far.
    pub contents: Contents,
    /// Input that the decoder has not taken yet.
    pub carry: Seq<u8>,
    /// Every step the decoder has reported, oldest first.
    pub log: Seq<Step>,
}

impl StreamView {
    /// Every byte ever written, in order: what the decoder took, then what
    /// still waits for it.
    pub open spec fn written(self) -> Seq<u8> {
        taken_bytes(self.log) + self.carry
    }

    /// The bytes that count, or may come to count, towards the cursor.
    pub open spec fn load(self) -> nat {
        self.contents.cursor() + self.contents.unsorted_len() + self.carry.len()
    }

    /// The buffer holds what its log says, and the window obeys the cap.
    pub open spec fn valid(self) -> bool {
        &&& self.contents == replay(self.cap, self.log)
        &&& self.contents.bounded(self.cap)
        &&& self.load() <= u64::MAX
    }
}

impl View for Stream {
    type V = StreamView;

    closed spec fn view(&self) -> StreamView {
        StreamView {
            cap: self.cap as nat,
            contents: Contents {
                preamble: self.preamble@,
                evicted: self.evicted@,
                window: frame_bytes(self.frames@),
                pending: self.partial_frame@,
                unclassified: self.decoded@,
            },
            carry: self.undecoded@,
            log: self.log@,
        }
    }
}

impl Stream {
    /// The stored offsets and the cursor agree with the model.
    pub closed spec fn represented(&self) -> bool {
        &&& self.offset == self@.contents.cursor()
        &&& forall|i: int|
            0 <= i < self.frames@.len() ==> #[trigger] stored_offset(self.frames@, i)
                == self@.contents.frame_start(i)
    }

    /// The invariant of the buffer.
    pub open spec fn wf(&self) -> bool {
        self.represented() && self@.valid()
    }

    /// An empty buffer with the default window cap and a fresh decoder.
    pub fn new() -> (stream: Stream)
        ensures
            stream.wf(),
            stream@.cap == DEFAULT_WINDOW_CAP,
            stream@.contents == Contents::empty(),
            stream@.carry.len() == 0,
            stream@.log.len() == 0,
    {
        Stream::with_cap(DEFAULT_WINDOW_CAP)
    }

    /// An empty buffer whose window may span `cap` bytes.
    pub fn with_cap(cap: u64) -> (stream: Stream)
        ensures
            stream.wf(),
            stream@.cap == cap,
            stream@.contents == Contents::empty(),
            stream@.carry.len() == 0,
            stream@.log.len() == 0,
    {
        let stream = Stream {
            preamble: Vec::new(),
            frames: VecDeque::new(),
            offset: 0,
            partial_frame: Vec::new(),
            decoder: fresh_decoder(),
            undecoded: Vec::new(),
            decoded: Vec::new(),
            cap,
            evicted: Ghost(Seq::empty()),
            log: Ghost(Seq::empty()),
        };
        proof {
            assert(stream@.contents.window =~= Seq::<Seq<u8>>::empty());
            assert(stream@.contents == Contents::empty());
            assert(stream@.carry =~= Seq::<u8>::empty());
        }
        stream
    }

    /// The total of logical bytes produced so far.
    pub fn cursor(&self) -> (cursor: u64)
        requires
            self.wf(),
        ensures
            cursor == self@.contents.cursor(),
    {
        self.offset
    }

    /// The span the window may cover.
    pub fn window_cap(&self) -> (cap: u64)
        ensures
            cap == self@.cap,
    {
        self.cap
    }

    /// The number of retained frames.
    pub fn frame_count(&self) -> (count: usize)
        ensures
            count == self@.contents.window.len(),
    {
        self.frames.len()
    }

    /// The logical offset at which retained frame `index` begins.
    pub fn frame_offset(&self, index: usize) -> (offset: u64)
        requires
            self.wf(),
            index < self@.contents.window.len(),
        ensures
            offset == self@.contents.frame_start(index as int),
    {
        assert(stored_offset(self.frames@, index as int) == self@.contents.frame_start(
            index as int,
        ));
        self.frames[index].offset
    }

    /// The bytes of retained frame `index`.
    pub fn frame_data(&self, index: usize) -> (data: &[u8])
        requires
            index < self@.contents.window.len(),
        ensures
            data@ == self@.contents.window[index as int],
    {
        self.frames[index].data.as_slice()
    }

    /// The bytes that precede the first frame.
    pub fn preamble(&self) -> (preamble: &[u8])
        ensures
            preamble@ == self@.contents.preamble,
    {
        self.preamble.as_slice()
    }

    /// The number of input bytes the decoder has not taken yet.
    pub fn carry_len(&self) -> (len: usize)
        ensures
            len == self@.carry.len(),
    {
        self.undecoded.len()
    }

    /// How many more bytes the buffer can take before its offsets pass the
    /// end of the 64-bit space.
    pub fn room(&self) -> (room: u64)
        requires
            self.wf(),
        ensures
            room == u64::MAX - self@.load(),
    {
        let held = self.offset + self.partial_frame.len() as u64 + self.decoded.len() as u64
            + self.undecoded.len() as u64;
        u64::MAX - held
    }

    /// Moves the unclassified bytes, then `data`, to the end of the frame
    /// under assembly.
    fn add_to_frame(&mut self, data: &[u8])
        requires
            old(self).represented(),
        ensures
            final(self).represented(),
            final(self)@.cap == old(self)@.cap,
            final(self)@.carry == old(self)@.carry,
            final(self)@.log == old(self)@.log,
            final(self)@.contents == old(self)@.contents.step(
                old(self)@.cap,
                EventClass::FrameInterior,
                data@,
            ),
    {
        self.partial_frame.append(&mut self.decoded);
        append_slice(&mut self.partial_frame, data);
    }

    /// Moves the unclassified bytes, then `data`, to the end of the preamble,
    /// unless frame data has begun: then `data` is dropped.
    fn add_to_preamble(&mut self, data: &[u8])
        requires
            old(self).represented(),
            old(self)@.contents.cursor() + old(self)@.contents.unclassified.len() + data@.len()
                <= u64::MAX,
        ensures
            final(self).represented(),
            final(self)@.cap == old(self)@.cap,
            final(self)@.carry == old(self)@.carry,
            final(self)@.log == old(self)@.log,
            final(self)@.contents == old(self)@.contents.step(
                old(self)@.cap,
                EventClass::Metadata,
                data@,
            ),
    {
        if self.frames.len() > 0 || self.partial_frame.len() > 0 {
            return ;
        }
        let added = self.decoded.len() as u64 + data.len() as u64;
        self.preamble.append(&mut self.decoded);
        append_slice(&mut self.preamble, data);
        self.offset = self.offset + added;
    }

    /// Closes the frame under assembly: it enters the window at the cursor,
    /// the cursor moves past it, and the oldest frames leave the window
    /// while it holds several frames that span more than the cap.
    fn finish_frame(&mut self)
        requires
            old(self).represented(),
            old(self)@.contents.unclassified.len() == 0,
            old(self)@.contents.cursor() + old(self)@.contents.pending.len() <= u64::MAX,
        ensures
            final(self).represented(),
            final(self)@.cap == old(self)@.cap,
            final(self)@.carry == old(self)@.carry,
            final(self)@.log == old(self)@.log,
            final(self)@.contents == old(self)@.contents.step(
                old(self)@.cap,
                EventClass::FrameEnd,
                Seq::empty(),
            ),
    {
        let ghost before = self@.contents;
        let ghost cap = self@.cap;
        let ghost grown = before.window.push(before.pending);
        let ghost base = before.window_start();
        let mut data: Vec<u8> = Vec::new();
        std::mem::swap(&mut data, &mut self.partial_frame);
        let offset = self.offset;
        self.offset = self.offset + data.len() as u64;
        proof {
            assert forall|i: int| 0 <= i < self.frames@.len() implies #[trigger] stored_offset(
                self.frames@.push(Blob { offset, data }),
                i,
            ) == base + total_len(grown.take(i)) by {
                assert(stored_offset(self.frames@, i) == before.frame_start(i));
                assert(grown.take(i) =~= before.window.take(i));
            }
            assert(grown.take(before.window.len() as int) =~= before.window);
        }
        self.frames.push_back(Blob { offset, data });
        let ghost mut gone: int = 0;
        proof {
            assert(before.pending + before.unclassified + Seq::<u8>::empty() =~= before.pending);
            assert(frame_bytes(self.frames@) =~= grown.skip(0));
            assert(self.evicted@ + grown.take(0) =~= self.evicted@);
            assert(grown.skip(0) =~= grown);
            lemma_total_len_push(before.window, before.pending);
            lemma_total_len_split(grown, 0);
            assert(stored_offset(self.frames@, 0) == base + total_len(grown.take(0))) by {
                if before.window.len() == 0 {
                    assert(grown.take(0) =~= before.window);
                }
            }
        }
        while self.frames.len() > 1 && self.offset - self.frames[0].offset > self.cap
            invariant
                0 <= gone < grown.len(),
                self.frames@.len() == grown.len() - gone,
                frame_bytes(self.frames@) == grown.skip(gone),
                offsets_follow(self.frames@, base, grown, gone),
                stored_offset(self.frames@, 0) == base + total_len(grown.take(gone)),
                total_len(grown) == total_len(grown.take(gone)) + total_len(grown.skip(gone)),
                self.offset == base + total_len(grown),
                self.cap == cap,
                self.evicted@ == before.evicted + grown.take(gone),
                evict_count(grown, cap) == gone + evict_count(grown.skip(gone), cap),
                self.preamble@ == before.preamble,
                self.partial_frame@ == Seq::<u8>::empty(),
                self.decoded@ == before.unclassified,
                self.undecoded@ == old(self).undecoded@,
                self.log@ == old(self).log@,
                base == before.preamble.len() + total_len(before.evicted),
            ensures
                !(grown.skip(gone).len() > 1 && total_len(grown.skip(gone)) > cap),
            decreases self.frames@.len(),
        {
            proof {
                lemma_evict_count_unfold(grown, cap, gone);
            }
            let ghost held = self.frames@;
            let oldest = self.frames.pop_front();
            proof {
                assert(oldest is Some);
                let blob = oldest->Some_0;
                assert(blob.data@ == grown[gone]) by {
                    assert(frame_bytes(held)[0] == grown.skip(gone)[0]);
                }
                self.evicted@ = self.evicted@.push(blob.data@);
                assert(self.evicted@ =~= before.evicted + grown.take(gone + 1));
                assert(frame_bytes(self.frames@) =~= grown.skip(gone + 1)) by {
                    assert forall|i: int| 0 <= i < self.frames@.len() implies frame_bytes(
                        self.frames@,
                    )[i] == grown.skip(gone + 1)[i] by {
                        assert(frame_bytes(held)[i + 1] == grown.skip(gone)[i + 1]);
                    }
                }
                assert forall|i: int| 0 <= i < self.frames@.len() implies #[trigger] stored_offset(
                    self.frames@,
                    i,
                ) == base + total_len(grown.take(gone + 1 + i)) by {
                    assert(stored_offset(held, i + 1) == base + total_len(
                        grown.take(gone + (i + 1)),
                    ));
                }
                gone = gone + 1;
                lemma_total_len_split(grown, gone);
                assert(stored_offset(self.frames@, 0) == base + total_len(grown.take(gone + 0)));
            }
        }
        proof {
            assert(evict_count(grown.skip(gone), cap) == 0);
            let after = self@.contents;
            assert(after == before.step(cap, EventClass::FrameEnd, Seq::empty()));
            lemma_total_len_add(before.evicted, grown.take(gone));
            assert forall|i: int| 0 <= i < self.frames@.len() implies #[trigger] stored_offset(
                self.frames@,
                i,
            ) == after.frame_start(i) by {
                assert(stored_offset(self.frames@, i) == base + total_len(grown.take(gone + i)));
                lemma_total_len_split(grown.take(gone + i), gone);
                assert(grown.take(gone + i).take(gone) =~= grown.take(gone));
                assert(grown.take(gone + i).skip(gone) =~= grown.skip(gone).take(i));
            }
        }
    }

    /// Sorts the bytes that the source took with `event`.
    ///
    /// `bytes` are left unclassified when the event says nothing, go into
    /// the frame under assembly when it lies inside a frame, complete that
    /// frame when it closes one, and go into the preamble when it is
    /// metadata and no frame data has begun.
    pub fn absorb(&mut self, event: Event, bytes: &[u8])
        requires
            old(self).wf(),
            old(self)@.load() + bytes@.len() <= u64::MAX,
        ensures
            final(self).wf(),
            final(self)@.cap == old(self)@.cap,
            final(self)@.carry == old(self)@.carry,
            final(self)@.log == old(self)@.log.push(
                (Step { class: class_of(event), bytes: bytes@ }),
            ),
            final(self)@.contents == old(self)@.contents.step(
                old(self)@.cap,
                class_of(event),
                bytes@,
            ),
    {
        let ghost before = self@;
        let ghost step = Step { class: class_of(event), bytes: bytes@ };
        match classify(event) {
            EventClass::Unclassified => {
                append_slice(&mut self.decoded, bytes);
            },
            EventClass::FrameInterior => {
                self.add_to_frame(bytes);
            },
            EventClass::FrameEnd => {
                self.add_to_frame(bytes);
                self.finish_frame();
                proof {
                    let merged = before.contents.step(
                        before.cap,
                        EventClass::FrameInterior,
                        bytes@,
                    );
                    assert(merged.pending + merged.unclassified + Seq::<u8>::empty()
                        =~= before.contents.pending + before.contents.unclassified + bytes@);
                }
            },
            EventClass::Metadata => {
                self.add_to_preamble(bytes);
            },
        }
        proof {
            self.log@ = self.log@.push(step);
            lemma_step(before.contents, before.cap, step.class, step.bytes);
            assert(self.log@.drop_last() =~= before.log);
        }
    }

    /// Runs the decoder over `input` and sorts what it takes.
    ///
    /// The decoder is asked again and again about the input it has not taken
    /// yet, and [`decide`] says what becomes of each report, until the input
    /// is used up, the decoder waits for more, or the write fails. Returns
    /// how many bytes of `input` the decoder took, and whether the write
    /// failed.
    fn consume(&mut self, input: &[u8]) -> (outcome: (usize, Result<(), DecodeError>))
        requires
            old(self).wf(),
            old(self)@.load() + input@.len() <= u64::MAX,
        ensures
            final(self).wf(),
            final(self)@.cap == old(self)@.cap,
            final(self)@.carry == old(self)@.carry,
            outcome.0 <= input@.len(),
            old(self)@.log.is_prefix_of(final(self)@.log),
            taken_bytes(final(self)@.log) == taken_bytes(old(self)@.log) + input@.take(
                outcome.0 as int,
            ),
            final(self)@.load() + input@.len() - outcome.0 <= old(self)@.load() + input@.len(),
            old(self)@.contents.cursor() <= final(self)@.contents.cursor(),
            old(self)@.contents.output().is_prefix_of(final(self)@.contents.output()),
            !(outcome.1 matches Err(DecodeError::TooLong)),
            input@.len() == 0 ==> outcome.1 is Ok && final(self)@ == old(self)@,
    {
        let ghost before = self@;
        let mut taken: usize = 0;
        let mut idle: usize = 0;
        proof {
            assert(input@.take(0) =~= Seq::<u8>::empty());
            assert(taken_bytes(before.log) + Seq::<u8>::empty() =~= taken_bytes(before.log));
        }
        while taken < input.len()
            invariant
                self.wf(),
                before == old(self)@,
                input@.len() == 0 ==> self@ == before,
                self@.cap == before.cap,
                self@.carry == before.carry,
                taken <= input@.len(),
                idle <= MAX_IDLE_EVENTS,
                before.log.is_prefix_of(self@.log),
                taken_bytes(self@.log) == taken_bytes(before.log) + input@.take(taken as int),
                self@.load() + input@.len() - taken <= before.load() + input@.len(),
                before.load() + input@.len() <= u64::MAX,
                before.contents.cursor() <= self@.contents.cursor(),
                before.contents.output().is_prefix_of(self@.contents.output()),
            decreases input@.len() - taken, MAX_IDLE_EVENTS - idle,
        {
            let rest = slice_subrange(input, taken, input.len());
            let report = match decoder_update(&mut self.decoder, rest) {
                Ok(told) => Ok(told),
                Err(error) => Err(convert_error(error)),
            };
            let event = match &report {
                Ok(told) => told.1,
                Err(_) => Event::Nothing,
            };
            match decide(idle, report) {
                Progress::Fail(error) => {
                    return (taken, Err(error));
                },
                Progress::Wait => {
                    return (taken, Ok(()));
                },
                Progress::Sort { taken: count, idle: now_idle } => {
                    let ghost held = self@;
                    let bytes = slice_subrange(input, taken, taken + count);
                    self.absorb(event, bytes);
                    proof {
                        lemma_step(held.contents, held.cap, class_of(event), bytes@);
                        assert(self@.log.drop_last() =~= held.log);
                        assert(input@.take(taken as int) + bytes@ =~= input@.take(
                            taken + count,
                        ));
                        assert(taken_bytes(self@.log) =~= taken_bytes(before.log) + input@.take(
                            taken + count,
                        ));
                    }
                    taken = taken + count;
                    idle = now_idle;
                },
            }
        }
        (taken, Ok(()))
    }

    /// Appends `data` to the stream.
    ///
    /// Input that the decoder left untaken the last time goes first, then
    /// `data`. The decoder takes what it can and the buffer sorts it; the
    /// rest waits for the next write. Nothing is written, and the write
    /// fails with [`DecodeError::TooLong`], exactly when the bytes held and
    /// `data` together would pass the end of the 64-bit offset space.
    /// Whatever the decoder does, every byte written so far is either in the
    /// log of what it took or waits in the carry, in the order written; the
    /// cursor never moves back; and output already produced stays as it is.
    pub fn write(&mut self, data: &[u8]) -> (outcome: Result<(), DecodeError>)
        requires
            old(self).wf(),
        ensures
            final(self).wf(),
            final(self)@.cap == old(self)@.cap,
            old(self)@.log.is_prefix_of(final(self)@.log),
            old(self)@.contents.cursor() <= final(self)@.contents.cursor(),
            old(self)@.contents.output().is_prefix_of(final(self)@.contents.output()),
            outcome matches Err(DecodeError::TooLong) <==> old(self)@.load() + data@.len()
                > u64::MAX,
            outcome matches Err(DecodeError::TooLong) ==> final(self)@ == old(self)@,
            !(outcome matches Err(DecodeError::TooLong)) ==> final(self)@.written() == old(
                self,
            )@.written() + data@,
            old(self)@.carry.len() + data@.len() == 0 ==> outcome is Ok && final(self)@ == old(
                self,
            )@,
    {
        let ghost before = self@;
        if data.len() as u64 > self.room() {
            return Err(DecodeError::TooLong);
        }
        if self.undecoded.len() == 0 {
            let (taken, status) = self.consume(data);
            append_slice(&mut self.undecoded, slice_subrange(data, taken, data.len()));
            proof {
                assert(before.carry =~= Seq::<u8>::empty());
                assert(data@.take(taken as int) + data@.subrange(taken as int, data@.len() as int)
                    =~= data@);
                assert(self@.written() =~= before.written() + data@);
                if data@.len() == 0 {
                    assert(self@.carry =~= before.carry);
                }
            }
            status
        } else {
            let mut input: Vec<u8> = Vec::new();
            std::mem::swap(&mut input, &mut self.undecoded);
            append_slice(&mut input, data);
            let (taken, status) = self.consume(input.as_slice());
            append_slice(&mut self.undecoded, slice_subrange(input.as_slice(), taken, input.len()));
            proof {
                assert(input@ == before.carry + data@);
                assert(input@.take(taken as int) + input@.subrange(
                    taken as int,
                    input@.len() as int,
                ) =~= input@);
                assert(self@.written() =~= before.written() + data@);
            }
            status
        }
    }

    /// The next chunk of output for a reader that has seen everything before
    /// `offset`, and the offset that the chunk takes the reader to.
    ///
    /// A reader that is up to date gets nothing and keeps its offset. One
    /// inside the preamble gets the rest of the preamble. One inside a
    /// retained frame gets the rest of that frame. One whose offset has left
    /// the window is moved ahead to the oldest retained frame and gets it
    /// whole.
    pub fn read_after(&self, offset: u64) -> (chunk: (u64, &[u8]))
        requires
            self.wf(),
        ensures
            (chunk.0 as nat, chunk.1@) == self@.contents.read_after(offset as nat),
    {
        let ghost contents = self@.contents;
        if offset >= self.offset {
            return (offset, slice_subrange(self.preamble.as_slice(), 0, 0));
        }
        if offset < self.preamble.len() as u64 {
            let seen = offset as usize;
            return (
                self.preamble.len() as u64,
                slice_subrange(self.preamble.as_slice(), seen, self.preamble.len()),
            );
        }
        let count = self.frames.len();
        let mut index = count;
        while index > 0
            invariant
                self.represented(),
                contents == self@.contents,
                contents.cursor() <= u64::MAX,
                count == self.frames@.len(),
                index <= count,
                forall|j: int| index <= j < count ==> !contents.frame_holds(j, offset as nat),
            decreases index,
        {
            index -= 1;
            let frame = &self.frames[index];
            proof {
                lemma_frames_contiguous(contents, index as int);
                assert(stored_offset(self.frames@, index as int) == contents.frame_start(
                    index as int,
                ));
            }
            let end = frame.offset + frame.data.len() as u64;
            if frame.offset <= offset && offset < end {
                proof {
                    assert(contents.frame_holds(index as int, offset as nat));
                    let chosen = choose|i: int| contents.frame_holds(i, offset as nat);
                    lemma_holder_unique(contents, chosen, index as int, offset as nat);
                }
                let seen = (offset - frame.offset) as usize;
                return (end, slice_subrange(frame.data.as_slice(), seen, frame.data.len()));
            }
        }
        if count > 0 {
            let frame = &self.frames[0];
            proof {
                lemma_frames_contiguous(contents, 0);
                assert(stored_offset(self.frames@, 0) == contents.frame_start(0));
                assert(frame.data@.subrange(0, frame.data@.len() as int) =~= frame.data@);
            }
            let end = frame.offset + frame.data.len() as u64;
            return (end, slice_subrange(frame.data.as_slice(), 0, frame.data.len()));
        }
        (offset, slice_subrange(self.preamble.as_slice(), 0, 0))
    }
}

} // verus!
