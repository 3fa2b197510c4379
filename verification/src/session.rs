//! One relay session: the transcoder's output is copied into the frame
//! buffer and on to the client while the transcoder process lives its own
//! life, and whichever of the two ends first decides how the session is
//! torn down.
//!
//! The session performs no input or output itself. Its driver reads the
//! transcoder's output, sends chunks to the client, and waits for or kills
//! the process; it tells the session what happened, and the session answers
//! with what to do next.

use crate::laws::{law_cursor_counts_every_frame, law_read_makes_progress};
use crate::model::{Contents, Step};
use crate::source::DecodeError;
use crate::stream::{Stream, StreamView, DEFAULT_WINDOW_CAP};
use vstd::prelude::*;
use vstd::slice::slice_to_vec;

verus! {

/// What the driver observed.
#[derive(Clone, Copy, Debug, PartialEq, Eq, Structural)]
pub enum Signal {
    /// The transcoder's output has ended.
    OutputEnded,
    /// Reading the transcoder's output failed.
    OutputFailed,
    /// The client took the chunk it was sent.
    Sent,
    /// The client is gone.
    SendFailed,
    /// The transcoder process has exited, by itself or after a kill.
    ProcessExited,
    /// Waiting for the transcoder process failed.
    WaitFailed,
    /// The transcoder process has been told to terminate.
    KillRequested,
    /// The transcoder process could not be told to terminate.
    KillFailed,
}

/// Where the session stands.
#[derive(Clone, Copy, Debug, PartialEq, Eq, Structural)]
pub enum Phase {
    /// The copy waits for output of the transcoder.
    Reading,
    /// The copy waits for the client to take a chunk.
    Sending,
    /// The copy has ended first; the process is being told to terminate.
    Killing,
    /// The process has been told to terminate and is awaited.
    Reaping,
    /// The session is over.
    Closed,
}

/// Why the copy ended.
pub enum CopyEnd {
    /// The transcoder's output ended.
    Finished,
    /// Reading the transcoder's output failed.
    ReadFailed,
    /// The buffer refused what the transcoder wrote.
    DecodeFailed(DecodeError),
    /// The client is gone.
    ClientGone,
}

/// The error a session ends with.
#[derive(Debug)]
pub enum SessionError {
    /// Reading the transcoder's output failed.
    Output,
    /// The transcoder's output was not a well-formed stream.
    Decode(DecodeError),
    /// The transcoder process could not be told to terminate.
    Kill,
    /// Waiting for the transcoder process failed.
    Wait,
}

/// What the driver is to do next.
#[derive(Debug)]
pub enum Action {
    /// Read the next chunk of the transcoder's output.
    ReadOutput,
    /// Send these bytes to the client.
    Send(Vec<u8>),
    /// Go on waiting for what is outstanding.
    Resume,
    /// Tell the transcoder process to terminate.
    Kill,
    /// Wait for the transcoder process to exit.
    AwaitExit,
    /// The session is over; the error it ended with, if any, can be fetched.
    Close,
}

/// What an [`Action`] stands for.
pub enum Decision {
    ReadOutput,
    Send(Seq<u8>),
    Resume,
    Kill,
    AwaitExit,
    Close,
}

impl View for Action {
    type V = Decision;

    open spec fn view(&self) -> Decision {
        match self {
            Action::ReadOutput => Decision::ReadOutput,
            Action::Send(bytes) => Decision::Send(bytes@),
            Action::Resume => Decision::Resume,
            Action::Kill => Decision::Kill,
            Action::AwaitExit => Decision::AwaitExit,
            Action::Close => Decision::Close,
        }
    }
}

/// A relay session.
pub struct Session {
    stream: Stream,
    seen: u64,
    phase: Phase,
    process_done: bool,
    failure: Option<SessionError>,
}

/// What a [`Session`] stands for.
pub struct SessionView {
    /// The frame buffer.
    pub stream: StreamView,
    /// The offset up to which output has been handed to the client.
    pub seen: nat,
    /// Where the session stands.
    pub phase: Phase,
    /// Whether the wait for the process has come to an end by itself.
    pub process_done: bool,
    /// The error the session will end with, if any so far.
    pub failure: Option<SessionError>,
}

/// The error that the end of the copy leaves the session with when the copy
/// ends first: a failed read and a refused write are errors, the end of the
/// output and a client that went away are not.
pub open spec fn error_of(end: CopyEnd) -> Option<SessionError> {
    match end {
        CopyEnd::Finished => None,
        CopyEnd::ReadFailed => Some(SessionError::Output),
        CopyEnd::DecodeFailed(error) => Some(SessionError::Decode(error)),
        CopyEnd::ClientGone => None,
    }
}

/// Whether a write was refused because the stream would grow too long.
pub open spec fn too_long(outcome: Result<(), DecodeError>) -> bool {
    outcome matches Err(DecodeError::TooLong)
}

/// The first error stays.
pub open spec fn first_error(held: Option<SessionError>, new: SessionError) -> Option<
    SessionError,
> {
    match held {
        Some(error) => Some(error),
        None => Some(new),
    }
}

impl SessionView {
    /// Hands the client what it has not seen: the next chunk, if there is
    /// one, else the copy goes back to reading.
    pub open spec fn pump(self) -> (SessionView, Decision) {
        let chunk = self.stream.contents.read_after(self.seen);
        if chunk.0 == self.seen {
            (SessionView { phase: Phase::Reading, ..self }, Decision::ReadOutput)
        } else {
            (SessionView { phase: Phase::Sending, seen: chunk.0, ..self }, Decision::Send(chunk.1))
        }
    }

    /// The copy has ended. Where the process has ended before it, the
    /// session is over and the way the copy ended is not held against it.
    /// Where the process still runs, it is to be killed, and the error of
    /// the copy becomes the error of the session.
    pub open spec fn finish_copy(self, end: CopyEnd) -> (SessionView, Decision) {
        if self.process_done {
            (SessionView { phase: Phase::Closed, ..self }, Decision::Close)
        } else {
            (SessionView { phase: Phase::Killing, failure: error_of(end), ..self }, Decision::Kill)
        }
    }

    /// The wait for the process has come to an end while the copy goes on:
    /// the copy drains what output is left.
    pub open spec fn process_ended(self, failed: bool) -> (SessionView, Decision) {
        (
            SessionView {
                process_done: true,
                failure: if failed {
                    first_error(self.failure, SessionError::Wait)
                } else {
                    self.failure
                },
                ..self
            },
            Decision::Resume,
        )
    }

    /// The session ends, with `error` unless it holds an earlier one.
    pub open spec fn close(self, error: Option<SessionError>) -> (SessionView, Decision) {
        (
            SessionView {
                phase: Phase::Closed,
                failure: match error {
                    Some(new) => first_error(self.failure, new),
                    None => self.failure,
                },
                ..self
            },
            Decision::Close,
        )
    }

    /// What the session makes of a signal. A signal that the phase does not
    /// expect changes nothing.
    pub open spec fn on_signal(self, signal: Signal) -> (SessionView, Decision) {
        match (self.phase, signal) {
            (Phase::Reading, Signal::OutputEnded) => self.finish_copy(CopyEnd::Finished),
            (Phase::Reading, Signal::OutputFailed) => self.finish_copy(CopyEnd::ReadFailed),
            (Phase::Sending, Signal::Sent) => self.pump(),
            (Phase::Sending, Signal::SendFailed) => self.finish_copy(CopyEnd::ClientGone),
            (Phase::Reading, Signal::ProcessExited) => self.process_ended(false),
            (Phase::Sending, Signal::ProcessExited) => self.process_ended(false),
            (Phase::Reading, Signal::WaitFailed) => self.process_ended(true),
            (Phase::Sending, Signal::WaitFailed) => self.process_ended(true),
            (Phase::Killing, Signal::KillRequested) => (
                SessionView { phase: Phase::Reaping, ..self },
                Decision::AwaitExit,
            ),
            (Phase::Killing, Signal::KillFailed) => self.close(Some(SessionError::Kill)),
            (Phase::Reaping, Signal::ProcessExited) => self.close(None),
            (Phase::Reaping, Signal::WaitFailed) => self.close(Some(SessionError::Wait)),
            (Phase::Closed, _) => (self, Decision::Close),
            _ => (self, Decision::Resume),
        }
    }

    /// What the session does once the buffer has answered a write: after a
    /// write that succeeded the client is handed what is new, after one that
    /// failed the copy has ended.
    pub open spec fn on_written(self, outcome: Result<(), DecodeError>) -> (SessionView, Decision) {
        match outcome {
            Ok(_) => self.pump(),
            Err(error) => self.finish_copy(CopyEnd::DecodeFailed(error)),
        }
    }

    /// The client is never ahead of the buffer, and a process is only
    /// killed or reaped while its end has not been seen.
    pub open spec fn sound(self) -> bool {
        &&& self.stream.valid()
        &&& self.seen <= self.stream.contents.cursor()
        &&& self.phase == Phase::Killing || self.phase == Phase::Reaping ==> !self.process_done
    }

    /// The client is never ahead of the buffer, and while the copy reads it
    /// has been handed everything.
    pub open spec fn valid(self) -> bool {
        &&& self.sound()
        &&& self.phase == Phase::Reading ==> self.seen == self.stream.contents.cursor()
    }
}

impl View for Session {
    type V = SessionView;

    closed spec fn view(&self) -> SessionView {
        SessionView {
            stream: self.stream@,
            seen: self.seen as nat,
            phase: self.phase,
            process_done: self.process_done,
            failure: self.failure,
        }
    }
}

impl Session {
    /// The buffer of the session is well-formed.
    pub closed spec fn stream_wf(&self) -> bool {
        self.stream.wf()
    }

    /// The invariant of the session.
    pub open spec fn wf(&self) -> bool {
        self.stream_wf() && self@.valid()
    }

    /// A session that has seen nothing yet, with a buffer whose window
    /// spans the default cap. Its driver begins by reading output.
    pub fn new() -> (session: Session)
        ensures
            session.wf(),
            session@ == SessionView::fresh(DEFAULT_WINDOW_CAP as nat),
    {
        Session::with_cap(DEFAULT_WINDOW_CAP)
    }

    /// A session that has seen nothing yet, with a buffer whose window may
    /// span `cap` bytes.
    pub fn with_cap(cap: u64) -> (session: Session)
        ensures
            session.wf(),
            session@ == SessionView::fresh(cap as nat),
    {
        let stream = Stream::with_cap(cap);
        proof {
            law_cursor_counts_every_frame(stream@.contents);
            assert(stream@.carry =~= Seq::<u8>::empty());
            assert(stream@.log =~= Seq::<Step>::empty());
        }
        Session { stream, seen: 0, phase: Phase::Reading, process_done: false, failure: None }
    }

    /// Where the session stands.
    pub fn phase(&self) -> (phase: Phase)
        ensures
            phase == self@.phase,
    {
        self.phase
    }

    /// The offset up to which output has been handed to the client.
    pub fn seen(&self) -> (seen: u64)
        ensures
            seen == self@.seen,
    {
        self.seen
    }

    /// The frame buffer of the session.
    pub fn stream(&self) -> (stream: &Stream)
        ensures
            stream@ == self@.stream,
            self.wf() ==> stream.wf(),
    {
        &self.stream
    }

    /// The error the session ends with, if any.
    pub fn failure(&self) -> (failure: &Option<SessionError>)
        ensures
            *failure == self@.failure,
    {
        &self.failure
    }

    /// Hands the client what it has not seen.
    fn pump(&mut self) -> (action: Action)
        requires
            old(self).stream_wf(),
            old(self)@.sound(),
        ensures
            final(self).wf(),
            (final(self)@, action@) == old(self)@.pump(),
    {
        proof {
            if self@.seen < self@.stream.contents.cursor() {
                law_read_makes_progress(self@.stream.contents, self@.stream.cap, self@.seen);
            }
        }
        let (next, data) = self.stream.read_after(self.seen);
        if next == self.seen {
            self.phase = Phase::Reading;
            Action::ReadOutput
        } else {
            let bytes = slice_to_vec(data);
            self.seen = next;
            self.phase = Phase::Sending;
            Action::Send(bytes)
        }
    }

    /// Ends the copy.
    fn finish_copy(&mut self, end: CopyEnd) -> (action: Action)
        requires
            old(self).stream_wf(),
            old(self)@.sound(),
        ensures
            final(self).wf(),
            (final(self)@, action@) == old(self)@.finish_copy(end),
    {
        if self.process_done {
            self.phase = Phase::Closed;
            Action::Close
        } else {
            self.phase = Phase::Killing;
            self.failure = match end {
                CopyEnd::Finished => None,
                CopyEnd::ReadFailed => Some(SessionError::Output),
                CopyEnd::DecodeFailed(error) => Some(SessionError::Decode(error)),
                CopyEnd::ClientGone => None,
            };
            Action::Kill
        }
    }

    /// Notes that the wait for the process has come to an end.
    fn process_ended(&mut self, failed: bool) -> (action: Action)
        requires
            old(self).wf(),
            old(self)@.phase == Phase::Reading || old(self)@.phase == Phase::Sending,
        ensures
            final(self).wf(),
            (final(self)@, action@) == old(self)@.process_ended(failed),
    {
        self.process_done = true;
        if failed && self.failure.is_none() {
            self.failure = Some(SessionError::Wait);
        }
        Action::Resume
    }

    /// Ends the session.
    fn close(&mut self, error: Option<SessionError>) -> (action: Action)
        requires
            old(self).wf(),
        ensures
            final(self).wf(),
            (final(self)@, action@) == old(self)@.close(error),
    {
        self.phase = Phase::Closed;
        if self.failure.is_none() {
            self.failure = error;
        }
        Action::Close
    }

    /// Tells the session what the driver observed, and returns what the
    /// driver is to do next.
    pub fn on_signal(&mut self, signal: Signal) -> (action: Action)
        requires
            old(self).wf(),
        ensures
            final(self).wf(),
            (final(self)@, action@) == old(self)@.on_signal(signal),
    {
        match (self.phase, signal) {
            (Phase::Reading, Signal::OutputEnded) => self.finish_copy(CopyEnd::Finished),
            (Phase::Reading, Signal::OutputFailed) => self.finish_copy(CopyEnd::ReadFailed),
            (Phase::Sending, Signal::Sent) => self.pump(),
            (Phase::Sending, Signal::SendFailed) => self.finish_copy(CopyEnd::ClientGone),
            (Phase::Reading, Signal::ProcessExited) => self.process_ended(false),
            (Phase::Sending, Signal::ProcessExited) => self.process_ended(false),
            (Phase::Reading, Signal::WaitFailed) => self.process_ended(true),
            (Phase::Sending, Signal::WaitFailed) => self.process_ended(true),
            (Phase::Killing, Signal::KillRequested) => {
                self.phase = Phase::Reaping;
                Action::AwaitExit
            },
            (Phase::Killing, Signal::KillFailed) => self.close(Some(SessionError::Kill)),
            (Phase::Reaping, Signal::ProcessExited) => self.close(None),
            (Phase::Reaping, Signal::WaitFailed) => self.close(Some(SessionError::Wait)),
            (Phase::Closed, _) => Action::Close,
            _ => Action::Resume,
        }
    }

    /// Tells the session how a write into its buffer ended, and returns
    /// what the driver is to do next.
    pub fn on_written(&mut self, outcome: Result<(), DecodeError>) -> (action: Action)
        requires
            old(self).stream_wf(),
            old(self)@.sound(),
            old(self)@.phase == Phase::Reading,
        ensures
            final(self).wf(),
            (final(self)@, action@) == old(self)@.on_written(outcome),
    {
        match outcome {
            Ok(_) => self.pump(),
            Err(error) => self.finish_copy(CopyEnd::DecodeFailed(error)),
        }
    }

    /// Tells the session that the driver has read `data` from the
    /// transcoder, and returns what the driver is to do next.
    ///
    /// While the copy reads, `data` is written into the buffer and the
    /// session goes on as [`Session::on_written`] says for the way the write
    /// ended. In any other phase nothing changes.
    pub fn on_output(&mut self, data: &[u8]) -> (action: Action)
        requires
            old(self).wf(),
        ensures
            final(self).wf(),
            old(self)@.phase != Phase::Reading ==> final(self)@ == old(self)@ && action@
                == Decision::Resume,
            old(self)@.phase == Phase::Reading ==> {
                let written = SessionView { stream: final(self)@.stream, ..old(self)@ };
                &&& final(self)@.stream.cap == old(self)@.stream.cap
                &&& old(self)@.stream.log.is_prefix_of(final(self)@.stream.log)
                &&& old(self)@.stream.contents.output().is_prefix_of(
                    final(self)@.stream.contents.output(),
                )
                &&& exists|outcome: Result<(), DecodeError>|
                    {
                        &&& #[trigger] written.on_written(outcome) == (final(self)@, action@)
                        &&& too_long(outcome) <==> old(self)@.stream.load() + data@.len()
                            > u64::MAX
                        &&& too_long(outcome) ==> final(self)@.stream == old(self)@.stream
                        &&& !too_long(outcome) ==> final(self)@.stream.written() == old(
                            self,
                        )@.stream.written() + data@
                    }
            },
    {
        match self.phase {
            Phase::Reading => {
                let outcome = self.stream.write(data);
                let ghost told = outcome;
                let ghost written = self@;
                let action = self.on_written(outcome);
                proof {
                    assert(written.on_written(told) == (self@, action@));
                }
                action
            },
            _ => Action::Resume,
        }
    }
}

impl SessionView {
    /// A session before anything has happened: its buffer, whose window may
    /// span `cap` bytes, holds nothing, no input waits for the decoder and
    /// the decoder has reported nothing; the client has seen nothing; the
    /// copy reads; the process runs; there is no error.
    pub open spec fn fresh(cap: nat) -> SessionView {
        SessionView {
            stream: StreamView {
                cap,
                contents: Contents::empty(),
                carry: Seq::empty(),
                log: Seq::empty(),
            },
            seen: 0,
            phase: Phase::Reading,
            process_done: false,
            failure: None,
        }
    }
}

} // verus!
