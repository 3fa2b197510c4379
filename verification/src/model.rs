//! The mathematical model of the frame buffer: what it holds after a given
//! sequence of decoder events, and what a read at a given offset returns.

use crate::source::EventClass;
use vstd::prelude::*;

verus! {

/// One report of the event source: the class of the event and the bytes the
/// source took with it.
pub struct Step {
    pub class: EventClass,
    pub bytes: Seq<u8>,
}

/// Everything the buffer has sorted so far.
///
/// `evicted` and `window` together are all frames ever completed, oldest
/// first; only `window` is still held in memory.
pub struct Contents {
    /// Output that precedes the first frame.
    pub preamble: Seq<u8>,
    /// Completed frames that have left the window.
    pub evicted: Seq<Seq<u8>>,
    /// Completed frames that are retained.
    pub window: Seq<Seq<u8>>,
    /// The frame under assembly.
    pub pending: Seq<u8>,
    /// Bytes the source has taken without saying what they are.
    pub unclassified: Seq<u8>,
}

/// The sum of the lengths of `frames`.
pub open spec fn total_len(frames: Seq<Seq<u8>>) -> nat
    decreases frames.len(),
{
    if frames.len() == 0 {
        0
    } else {
        total_len(frames.drop_last()) + frames.last().len()
    }
}

/// All bytes of `frames`, in order.
pub open spec fn concat(frames: Seq<Seq<u8>>) -> Seq<u8>
    decreases frames.len(),
{
    if frames.len() == 0 {
        Seq::empty()
    } else {
        concat(frames.drop_last()) + frames.last()
    }
}

/// How many of the oldest frames of `window` leave it: the oldest frame goes
/// for as long as more than one frame is held and the held frames together
/// span more than `cap` bytes.
pub open spec fn evict_count(window: Seq<Seq<u8>>, cap: nat) -> nat
    decreases window.len(),
{
    if window.len() > 1 && total_len(window) > cap {
        1 + evict_count(window.drop_first(), cap)
    } else {
        0
    }
}

/// The bytes of all steps of `log`, in order: what the source has taken.
pub open spec fn taken_bytes(log: Seq<Step>) -> Seq<u8>
    decreases log.len(),
{
    if log.len() == 0 {
        Seq::empty()
    } else {
        taken_bytes(log.drop_last()) + log.last().bytes
    }
}

impl Contents {
    /// The buffer before any input.
    pub open spec fn empty() -> Contents {
        Contents {
            preamble: Seq::empty(),
            evicted: Seq::empty(),
            window: Seq::empty(),
            pending: Seq::empty(),
            unclassified: Seq::empty(),
        }
    }

    /// The logical offset at which the retained window begins.
    pub open spec fn window_start(self) -> nat {
        self.preamble.len() + total_len(self.evicted)
    }

    /// The logical offset of the first byte of retained frame `i`.
    pub open spec fn frame_start(self, i: int) -> nat {
        self.window_start() + total_len(self.window.take(i))
    }

    /// The logical offset just past the last byte of retained frame `i`.
    pub open spec fn frame_end(self, i: int) -> nat {
        self.frame_start(i) + self.window[i].len()
    }

    /// The total of logical bytes produced: the preamble and every frame
    /// ever completed, evicted ones included.
    pub open spec fn cursor(self) -> nat {
        self.window_start() + total_len(self.window)
    }

    /// The logical output stream: the preamble, then every completed frame.
    pub open spec fn output(self) -> Seq<u8> {
        self.preamble + concat(self.evicted) + concat(self.window)
    }

    /// Whether frame data has begun, after which metadata is refused.
    pub open spec fn frame_begun(self) -> bool {
        self.window.len() > 0 || self.pending.len() > 0
    }

    /// Whether `offset` lies inside retained frame `i`.
    pub open spec fn frame_holds(self, i: int, offset: nat) -> bool {
        0 <= i < self.window.len() && self.frame_start(i) <= offset < self.frame_end(i)
    }

    /// The bytes not yet attributed to the output: they count towards the
    /// cursor once a later event sorts them.
    pub open spec fn unsorted_len(self) -> nat {
        self.pending.len() + self.unclassified.len()
    }

    /// What the buffer holds after one more step.
    pub open spec fn step(self, cap: nat, class: EventClass, bytes: Seq<u8>) -> Contents {
        match class {
            EventClass::Unclassified => Contents {
                unclassified: self.unclassified + bytes,
                ..self
            },
            EventClass::FrameInterior => Contents {
                pending: self.pending + self.unclassified + bytes,
                unclassified: Seq::empty(),
                ..self
            },
            EventClass::FrameEnd => {
                let grown = self.window.push(self.pending + self.unclassified + bytes);
                let gone = evict_count(grown, cap) as int;
                Contents {
                    evicted: self.evicted + grown.take(gone),
                    window: grown.skip(gone),
                    pending: Seq::empty(),
                    unclassified: Seq::empty(),
                    ..self
                }
            },
            EventClass::Metadata => if self.frame_begun() {
                self
            } else {
                Contents {
                    preamble: self.preamble + self.unclassified + bytes,
                    unclassified: Seq::empty(),
                    ..self
                }
            },
        }
    }

    /// What holds of the buffer after any sequence of steps: the window
    /// obeys the cap unless it is a single frame, and frames have only been
    /// evicted from a window that still holds one.
    pub open spec fn bounded(self, cap: nat) -> bool {
        &&& self.window.len() <= 1 || total_len(self.window) <= cap
        &&& self.evicted.len() > 0 ==> self.window.len() > 0
    }

    /// The least offset from which a reader misses nothing: the start of
    /// the stream while no frame has been evicted, the start of the window
    /// after that.
    pub open spec fn lossless_from(self) -> nat {
        if self.evicted.len() == 0 {
            0
        } else {
            self.window_start()
        }
    }

    /// What a reader at `offset` collects when it reads until nothing is
    /// left: the chunk of each read, in order.
    pub open spec fn read_all(self, offset: nat) -> Seq<u8>
        decreases self.cursor() - offset,
    {
        let chunk = self.read_after(offset);
        if offset < chunk.0 <= self.cursor() {
            chunk.1 + self.read_all(chunk.0)
        } else {
            Seq::empty()
        }
    }

    /// What a read at `offset` returns: the offset the reader has then seen
    /// everything before, and the bytes it is handed.
    pub open spec fn read_after(self, offset: nat) -> (nat, Seq<u8>) {
        if offset >= self.cursor() {
            (offset, Seq::empty())
        } else if offset < self.preamble.len() {
            (self.preamble.len(), self.preamble.skip(offset as int))
        } else if exists|i: int| self.frame_holds(i, offset) {
            let i = choose|i: int| self.frame_holds(i, offset);
            (self.frame_end(i), self.window[i].skip(offset - self.frame_start(i)))
        } else if self.window.len() > 0 {
            (self.frame_end(0), self.window[0])
        } else {
            (offset, Seq::empty())
        }
    }
}

/// What a buffer that holds `start` holds after the steps of `log`.
pub open spec fn run(start: Contents, cap: nat, log: Seq<Step>) -> Contents
    decreases log.len(),
{
    if log.len() == 0 {
        start
    } else {
        run(start, cap, log.drop_last()).step(cap, log.last().class, log.last().bytes)
    }
}

/// What the buffer holds after the steps of `log`, starting empty.
pub open spec fn replay(cap: nat, log: Seq<Step>) -> Contents {
    run(Contents::empty(), cap, log)
}

} // verus!
