//! Serial link adapter: the state machines that turn a raw duplex byte
//! stream into a link, tolerating corruption and reconnection.
//!
//! The I/O itself (reads, writes, timers) is performed by the caller's
//! driver; the decisions live here.  Three machines cover the adapter:
//! the read-side resynchronisation driver with its idle byte-skip
//! heuristic, the bounded reset/drain phase run between sessions, and the
//! session lifecycle that cycles main loop, drain and settle delay
//! forever.

use crate::proxy::NodeId;
use vstd::prelude::*;

verus! {

/// Idle window on the read side before one buffered byte is skipped to
/// resynchronise, in microseconds.
pub const INCOMING_BYTE_TIMEOUT_US: u64 = 5_000_000;
/// Bound on each read of the drain phase, in microseconds.
pub const DRAIN_TIMEOUT_US: u64 = 3_000_000;
/// Delay between the end of a drain and the next session, in microseconds.
pub const SETTLE_DELAY_US: u64 = 100_000;
/// Latest instant the adapter accepts from its clock, in microseconds;
/// leaves headroom so that `now + INCOMING_BYTE_TIMEOUT_US` never
/// overflows a `u64`.
pub const MAX_SERIAL_INSTANT_US: u64 = 0x4000_0000_0000_0000;

/// Which side of the serial line this node plays.
#[derive(Debug, Clone, Copy, PartialEq, Eq, Structural)]
pub enum Role {
    Client,
    Server,
}

/// One product of the deframing stage: a complete frame, or garbage bytes
/// found between frames.
#[derive(Debug, PartialEq, Eq)]
pub enum ReadBytes {
    Framed(Vec<u8>),
    Unframed(Vec<u8>),
}

/// Where one deframer product goes: complete frames up to the link,
/// garbage to the skipped-bytes side channel (kept for diagnosis, not
/// discarded).
#[derive(Debug, PartialEq, Eq)]
pub enum Routed {
    ToLink(Vec<u8>),
    ToSkipped(Vec<u8>),
}

/// Split one deframer product between the link and the skipped-bytes sink.
pub fn route_read(r: ReadBytes) -> (out: Routed)
    ensures
        out == match r {
            ReadBytes::Framed(f) => Routed::ToLink(f),
            ReadBytes::Unframed(b) => Routed::ToSkipped(b),
        },
{
    match r {
        ReadBytes::Framed(f) => Routed::ToLink(f),
        ReadBytes::Unframed(b) => Routed::ToSkipped(b),
    }
}

/// What the read loop observed: fresh bytes, or the idle window elapsing.
#[derive(Debug, Clone, Copy, PartialEq, Eq, Structural)]
pub enum ReadEvent {
    Bytes { count: usize },
    IdleTimeout,
}

/// What the read loop must do next with the deframer.
#[derive(Debug, Clone, Copy, PartialEq, Eq, Structural)]
pub enum ReadAction {
    /// Parse the bytes just read.
    Parse { count: usize },
    /// Skip one buffered byte, then retry parsing.
    SkipByteAndParse,
}

/// Read-side resynchronisation driver.  It owns the single idle timer:
/// armed only while the deframer holds pending bytes after a read that
/// produced at least one frame, consumed when it fires.
pub struct ReadDriver {
    timer: Option<u64>,
}

/// The timer transition of `ReadDriver::on_event`.
pub open spec fn model_read_event(timer: Option<u64>, ev: ReadEvent) -> Option<u64> {
    match ev {
        ReadEvent::Bytes { .. } => timer,
        ReadEvent::IdleTimeout => None,
    }
}

/// The timer transition of `ReadDriver::after_parse`.
pub open spec fn model_after_parse(
    timer: Option<u64>,
    has_pending: bool,
    got_frames: bool,
    now: int,
) -> Option<u64> {
    if !has_pending {
        None
    } else if got_frames {
        Some((now + INCOMING_BYTE_TIMEOUT_US) as u64)
    } else {
        timer
    }
}

impl ReadDriver {
    /// The armed idle deadline, if any.
    pub closed spec fn timer(&self) -> Option<u64> {
        self.timer
    }

    /// A fresh driver with no idle timer armed.
    pub fn new() -> (d: ReadDriver)
        ensures
            d.timer() is None,
    {
        ReadDriver { timer: None }
    }

    /// The deadline the caller must select against, if the timer is armed.
    pub fn deadline(&self) -> (r: Option<u64>)
        ensures
            r == self.timer(),
    {
        self.timer
    }

    /// React to one read-loop observation.  A byte skip is attempted
    /// exactly when the idle window elapsed, and firing consumes the
    /// timer, so a second skip cannot occur before the window is re-armed.
    pub fn on_event(&mut self, ev: ReadEvent) -> (a: ReadAction)
        ensures
            a is SkipByteAndParse <==> ev is IdleTimeout,
            ev matches ReadEvent::Bytes { count } ==> a == (ReadAction::Parse { count }),
            final(self).timer() == model_read_event(old(self).timer(), ev),
    {
        match ev {
            ReadEvent::Bytes { count } => ReadAction::Parse { count },
            ReadEvent::IdleTimeout => {
                self.timer = None;
                ReadAction::SkipByteAndParse
            },
        }
    }

    /// Update the idle timer after the deframer ran: cleared when no
    /// pending bytes remain, re-armed a full window from `now` when the
    /// parse produced at least one frame while bytes remain pending, and
    /// left alone otherwise.  Returns whether the loop must exit because
    /// the byte stream was closed (a read of zero bytes).
    pub fn after_parse(
        &mut self,
        bytes_read: Option<usize>,
        has_pending: bool,
        got_frames: bool,
        now: u64,
    ) -> (exit: bool)
        requires
            now <= MAX_SERIAL_INSTANT_US,
        ensures
            exit <==> bytes_read == Some(0usize),
            final(self).timer() == model_after_parse(
                old(self).timer(),
                has_pending,
                got_frames,
                now as int,
            ),
    {
        if !has_pending {
            self.timer = None;
        } else if got_frames {
            self.timer = Some(now + INCOMING_BYTE_TIMEOUT_US);
        }
        match bytes_read {
            Some(n) => n == 0,
            None => false,
        }
    }
}

/// Law: when the idle window elapses, exactly one byte skip is attempted.
/// The elapsed window consumes the timer, and a skip or read that yields
/// no frame leaves it disarmed, so no second window can elapse — and no
/// second skip occur — until a parsed frame re-arms it.
pub proof fn lemma_one_skip_per_idle_window(
    timer: Option<u64>,
    has_pending: bool,
    now: int,
    count: usize,
)
    ensures
        model_read_event(timer, ReadEvent::IdleTimeout) is None,
        model_after_parse(None, has_pending, false, now) is None,
        model_read_event(None, ReadEvent::Bytes { count }) is None,
{
}

/// Errors of the link's session protocol.
#[derive(Debug, Clone, Copy, PartialEq, Eq, Structural)]
pub enum LinkError {
    /// An empty frame arrived where a real frame was expected: the remote
    /// signalled a reset, and the session falls into the drain phase.
    ResetReceived,
    /// Reading from the byte stream failed during the drain phase.
    ReadFailed,
}

/// What one bounded read of the drain phase produced.
#[derive(Debug, Clone, Copy, PartialEq, Eq, Structural)]
pub enum DrainEvent {
    /// A frame arrived; it is discarded and an empty acknowledgement
    /// frame is written back.
    Frame,
    /// The read failed.
    ReadError,
    /// No frame arrived within the drain window.
    Timeout,
}

/// The decision for one drain read.
#[derive(Debug, Clone, Copy, PartialEq, Eq, Structural)]
pub enum DrainStep {
    /// Discard the frame, write back an empty acknowledgement, read again.
    WriteEmptyAndContinue,
    /// The window elapsed with nothing read: both ends are in a known
    /// empty state and the drain is over.
    Done,
    /// Propagate the read failure.
    Failed,
}

/// Decide one drain read: frames are discarded and acknowledged, a
/// timeout ends the phase, a read error fails it.
pub fn reset_step(ev: DrainEvent) -> (s: DrainStep)
    ensures
        s == match ev {
            DrainEvent::Frame => DrainStep::WriteEmptyAndContinue,
            DrainEvent::ReadError => DrainStep::Failed,
            DrainEvent::Timeout => DrainStep::Done,
        },
{
    match ev {
        DrainEvent::Frame => DrainStep::WriteEmptyAndContinue,
        DrainEvent::ReadError => DrainStep::Failed,
        DrainEvent::Timeout => DrainStep::Done,
    }
}

/// Outcome of a whole drain phase.
#[derive(Debug, Clone, Copy, PartialEq, Eq, Structural)]
pub enum DrainOutcome {
    /// A timeout confirmed the known-empty state.
    Drained,
    /// A read failed and the error propagates.
    Failed,
    /// The supplied events ran out before a timeout or error; the phase
    /// is still in progress.
    StillDraining,
}

/// Number of leading `Frame` events before the first timeout or error.
pub open spec fn leading_frames(events: Seq<DrainEvent>) -> int
    decreases events.len(),
{
    if events.len() == 0 {
        0
    } else if events[0] is Frame {
        1 + leading_frames(events.drop_first())
    } else {
        0
    }
}

/// The drain phase as a function of its read results: the first event
/// that is not a frame decides it.
pub open spec fn model_reset(events: Seq<DrainEvent>) -> DrainOutcome
    decreases events.len(),
{
    if events.len() == 0 {
        DrainOutcome::StillDraining
    } else {
        match events[0] {
            DrainEvent::Timeout => DrainOutcome::Drained,
            DrainEvent::ReadError => DrainOutcome::Failed,
            DrainEvent::Frame => model_reset(events.drop_first()),
        }
    }
}

/// Run the drain phase over the given sequence of read results: discard
/// and acknowledge frames until a timeout confirms the known-empty state
/// or a read error fails the phase.  Every read of the phase is bounded
/// by `DRAIN_TIMEOUT_US`, so the sequence always reaches a timeout when
/// the peer stops responding.  Returns the outcome and the number of
/// empty acknowledgement frames written.
pub fn reset(events: &Vec<DrainEvent>) -> (r: (DrainOutcome, usize))
    ensures
        r.0 == model_reset(events@),
        r.1 == leading_frames(events@),
{
    let n = events.len();
    let mut acks: usize = 0;
    let mut i: usize = 0;
    proof {
        assert(events@.skip(0) =~= events@);
    }
    while i < n
        invariant
            0 <= i <= n,
            n == events@.len(),
            acks == i,
            forall|k: int| 0 <= k < i ==> events@[k] is Frame,
            model_reset(events@) == model_reset(events@.skip(i as int)),
            leading_frames(events@) == i + leading_frames(events@.skip(i as int)),
        decreases n - i,
    {
        proof {
            assert(events@.skip(i as int).drop_first() =~= events@.skip(i as int + 1));
            assert(events@.skip(i as int)[0] == events@[i as int]);
        }
        match reset_step(events[i]) {
            DrainStep::WriteEmptyAndContinue => {
                acks = acks + 1;
            },
            DrainStep::Done => {
                return (DrainOutcome::Drained, acks);
            },
            DrainStep::Failed => {
                return (DrainOutcome::Failed, acks);
            },
        }
        i = i + 1;
    }
    proof {
        assert(events@.skip(n as int) =~= Seq::<DrainEvent>::empty());
    }
    (DrainOutcome::StillDraining, acks)
}

/// Law: the drain phase always terminates within the configured drain
/// window even if the peer never responds: each read is bounded by
/// `DRAIN_TIMEOUT_US`, a silent peer yields a timeout as the first event,
/// and a timeout ends the phase at once.
pub proof fn lemma_drain_terminates_on_silence(events: Seq<DrainEvent>)
    requires
        events.len() > 0,
        events[0] is Timeout,
    ensures
        model_reset(events) == DrainOutcome::Drained,
        leading_frames(events) == 0,
{
}

/// Phase of one link session.
#[derive(Debug, Clone, Copy, PartialEq, Eq, Structural)]
pub enum SessionPhase {
    /// The main protocol loop is running.
    Main,
    /// The bounded reset/drain recovery runs after the main loop exits.
    Drain,
    /// The fixed settle delay before the next session starts.
    Settle,
}

/// What ended the current phase.
#[derive(Debug, Clone, Copy, PartialEq, Eq, Structural)]
pub enum SessionEvent {
    /// The main loop exited, successfully or not; either way the session
    /// falls into the drain phase rather than propagating upward.
    MainExited,
    /// The drain phase confirmed the known-empty state.
    DrainCompleted,
    /// The drain phase failed reading the byte stream.
    DrainFailed,
    /// The settle delay elapsed.
    SettleElapsed,
}

/// The event belongs to the phase.
pub open spec fn session_accepts(phase: SessionPhase, ev: SessionEvent) -> bool {
    match phase {
        SessionPhase::Main => ev is MainExited,
        SessionPhase::Drain => ev is DrainCompleted || ev is DrainFailed,
        SessionPhase::Settle => ev is SettleElapsed,
    }
}

/// The session lifecycle: main loop, then drain, then settle, then a new
/// session, forever; only a drain failure ends the loop, handing the
/// error to the caller.
pub fn session_next(phase: SessionPhase, ev: SessionEvent) -> (r: Result<SessionPhase, LinkError>)
    requires
        session_accepts(phase, ev),
    ensures
        ev is MainExited ==> r == Ok::<SessionPhase, LinkError>(SessionPhase::Drain),
        ev is DrainCompleted ==> r == Ok::<SessionPhase, LinkError>(SessionPhase::Settle),
        ev is SettleElapsed ==> r == Ok::<SessionPhase, LinkError>(SessionPhase::Main),
        ev is DrainFailed ==> r == Err::<SessionPhase, LinkError>(LinkError::ReadFailed),
{
    match ev {
        SessionEvent::MainExited => Ok(SessionPhase::Drain),
        SessionEvent::DrainCompleted => Ok(SessionPhase::Settle),
        SessionEvent::DrainFailed => Err(LinkError::ReadFailed),
        SessionEvent::SettleElapsed => Ok(SessionPhase::Main),
    }
}


/// The drain window for this side of the line; both sides use the same
/// bound.
pub fn drain_time(role: Role) -> (r: u64)
    ensures
        r == DRAIN_TIMEOUT_US,
{
    match role {
        Role::Client => DRAIN_TIMEOUT_US,
        Role::Server => DRAIN_TIMEOUT_US,
    }
}

/// The whole link lifecycle as a function of its sessions' drain scripts:
/// every session's main loop eventually exits into a drain, a completed
/// drain settles into the next session, and only a drain failure ends the
/// loop with the link's error.
pub open spec fn model_run(sessions: Seq<Seq<DrainEvent>>) -> Result<(), LinkError>
    decreases sessions.len(),
{
    if sessions.len() == 0 {
        Ok(())
    } else {
        match model_reset(sessions[0]) {
            DrainOutcome::Failed => Err(LinkError::ReadFailed),
            DrainOutcome::Drained => model_run(sessions.drop_first()),
            DrainOutcome::StillDraining => Ok(()),
        }
    }
}

/// Run the link over a script of sessions, each given as the read results
/// of its drain phase: main loop, drain, settle, and again, forever —
/// here until the script runs out.  Only a drain failure ends the link.
pub fn run(role: Role, sessions: &Vec<Vec<DrainEvent>>) -> (r: Result<(), LinkError>)
    ensures
        r == model_run(sessions@.map_values(|s: Vec<DrainEvent>| s@)),
{
    let _drain_window = drain_time(role);
    let n = sessions.len();
    let mut i: usize = 0;
    proof {
        assert(sessions@.skip(0) =~= sessions@);
    }
    while i < n
        invariant
            0 <= i <= n,
            n == sessions@.len(),
            model_run(sessions@.map_values(|s: Vec<DrainEvent>| s@)) == model_run(
                sessions@.skip(i as int).map_values(|s: Vec<DrainEvent>| s@),
            ),
        decreases n - i,
    {
        proof {
            assert(sessions@.skip(i as int).map_values(|s: Vec<DrainEvent>| s@).drop_first()
                =~= sessions@.skip(i as int + 1).map_values(|s: Vec<DrainEvent>| s@));
            assert(sessions@.skip(i as int).map_values(|s: Vec<DrainEvent>| s@)[0] == sessions@[
                i as int]@);
        }
        let phase = match session_next(SessionPhase::Main, SessionEvent::MainExited) {
            Ok(p) => p,
            Err(e) => {
                return Err(e);
            },
        };
        let (outcome, _acks) = reset(&sessions[i]);
        match outcome {
            DrainOutcome::Drained => {
                let phase = match session_next(phase, SessionEvent::DrainCompleted) {
                    Ok(p) => p,
                    Err(e) => {
                        return Err(e);
                    },
                };
                match session_next(phase, SessionEvent::SettleElapsed) {
                    Ok(_) => {},
                    Err(e) => {
                        return Err(e);
                    },
                }
            },
            DrainOutcome::Failed => {
                match session_next(phase, SessionEvent::DrainFailed) {
                    Ok(_) => {},
                    Err(e) => {
                        return Err(e);
                    },
                }
                return Err(LinkError::ReadFailed);
            },
            DrainOutcome::StillDraining => {
                return Ok(());
            },
        }
        i = i + 1;
    }
    proof {
        assert(sessions@.skip(n as int).map_values(|s: Vec<DrainEvent>| s@)
            =~= Seq::<Seq<DrainEvent>>::empty());
    }
    Ok(())
}

/// Inbound-frame handler of the main loop: an empty frame signals a
/// remote reset and aborts the session into the drain phase; the peer's
/// node id, once discovered, is announced exactly once.
pub struct LinkFrameHandler {
    know_peer_id: bool,
}

impl LinkFrameHandler {
    /// Whether the peer's node id has been discovered and announced.
    pub closed spec fn knows_peer(&self) -> bool {
        self.know_peer_id
    }

    /// A fresh handler for a new session; the peer is not yet known.
    pub fn new() -> (h: LinkFrameHandler)
        ensures
            !h.knows_peer(),
    {
        LinkFrameHandler { know_peer_id: false }
    }

    /// Handle one deframed frame of `frame_len` bytes; `peer` is the node
    /// id the link reports after taking the frame, once discovered.
    /// Returns the id to announce, exactly once per session: on the first
    /// frame after which the peer is known.
    pub fn handle_frame(&mut self, frame_len: usize, peer: Option<NodeId>) -> (r: Result<
        Option<NodeId>,
        LinkError,
    >)
        ensures
            frame_len == 0 ==> r == Err::<Option<NodeId>, LinkError>(LinkError::ResetReceived)
                && final(self).knows_peer() == old(self).knows_peer(),
            frame_len > 0 ==> {
                &&& r == Ok::<Option<NodeId>, LinkError>(
                    if !old(self).knows_peer() && peer is Some {
                        peer
                    } else {
                        None
                    },
                )
                &&& final(self).knows_peer() == (old(self).knows_peer() || peer is Some)
            },
    {
        if frame_len == 0 {
            return Err(LinkError::ResetReceived);
        }
        if !self.know_peer_id {
            match peer {
                Some(id) => {
                    self.know_peer_id = true;
                    Ok(Some(id))
                },
                None => Ok(None),
            }
        } else {
            Ok(None)
        }
    }
}

} // verus!
