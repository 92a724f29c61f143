//! The sampling loop as a state machine.
//!
//! The loop itself runs in the driver: it performs the [`Command`] it was
//! given last, wraps what the device answered in an [`Event`], and asks
//! [`step`] what to do next. All decisions are taken here: the rule on
//! reading a packet, the decoding of each packet, and the recovery from a
//! failure of the bus.

use crate::frame::{has_full_frame, quaternion_payload, FRAME_LEN, QUATERNION_LEN};
use crate::orientation::{decode, decode_spec, Orientation};
use crate::quaternion::DecodeError;
use vstd::prelude::*;

verus! {

/// Where the loop stands.
#[derive(Clone, Copy, Debug, PartialEq, Eq, Structural)]
pub enum LoopState {
    /// The motion processor is being initialized again. Only the outcome of
    /// an initialization is listened to.
    Recovering,
    /// The loop polls the queue and reads packets from it.
    Ready,
}

/// What the driver does next.
#[derive(Clone, Copy, Debug, PartialEq, Eq, Structural)]
pub enum Command {
    /// Initialize the motion processor.
    Initialize,
    /// Ask how many bytes are queued.
    Poll,
    /// Read one packet of `len` bytes from the queue.
    ReadFrame { len: usize },
}

/// What the device answered to the last command.
#[derive(Debug)]
pub enum Event {
    /// The initialization returned; `ok` is false if it failed.
    Initialized { ok: bool },
    /// The queue length was asked for; `None` if the bus failed.
    Pending { count: Option<usize> },
    /// A packet was read; `None` if the bus failed.
    Frame { bytes: Option<Vec<u8>> },
}

/// What one step hands to the telemetry sink.
#[derive(Clone, Copy, Debug, PartialEq, Eq, Structural)]
pub enum Report {
    /// Nothing happened that is worth a line.
    Nothing,
    /// One packet was decoded.
    Sample(Orientation),
    /// One packet was dropped because its quaternion did not decode.
    Skipped(DecodeError),
}

/// The outcome of one step: the new state, the next command, and what to
/// report.
#[derive(Clone, Copy, Debug, PartialEq, Eq, Structural)]
pub struct Step {
    pub state: LoopState,
    pub command: Command,
    pub report: Report,
}

/// Keep polling.
pub open spec fn poll_again() -> Step {
    Step { state: LoopState::Ready, command: Command::Poll, report: Report::Nothing }
}

/// Read exactly one packet.
pub open spec fn read_frame() -> Step {
    Step {
        state: LoopState::Ready,
        command: Command::ReadFrame { len: FRAME_LEN },
        report: Report::Nothing,
    }
}

/// Initialize the motion processor (again).
pub open spec fn recover() -> Step {
    Step { state: LoopState::Recovering, command: Command::Initialize, report: Report::Nothing }
}

/// The step after a packet was decoded, or was not: either way the loop
/// stays ready and polls again.
pub open spec fn decoded_step(decoded: Result<Orientation, DecodeError>) -> Step {
    Step {
        state: LoopState::Ready,
        command: Command::Poll,
        report: match decoded {
            Ok(o) => Report::Sample(o),
            Err(e) => Report::Skipped(e),
        },
    }
}

/// The transition function of the loop.
///
/// While recovering, the loop waits for the initialization to return and
/// then polls, whether or not the initialization succeeded: a device that is
/// still down fails the next poll, and that starts the next attempt. Any
/// other event is no answer to what was asked, and the initialization is
/// asked for again.
///
/// While ready, a queue of fewer than [`FRAME_LEN`] bytes is polled again,
/// and a longer one has one packet read from it. A packet of exactly
/// [`FRAME_LEN`] bytes is decoded from its first [`QUATERNION_LEN`] bytes. A
/// failed poll, a failed read and a read of any other length all send the
/// loop into recovery. An initialization that nobody asked for changes
/// nothing.
pub open spec fn step_spec(state: LoopState, event: Event) -> Step {
    match state {
        LoopState::Recovering => match event {
            Event::Initialized { .. } => poll_again(),
            _ => recover(),
        },
        LoopState::Ready => match event {
            Event::Initialized { .. } => poll_again(),
            Event::Pending { count: Some(n) } => if n >= FRAME_LEN {
                read_frame()
            } else {
                poll_again()
            },
            Event::Pending { count: None } => recover(),
            Event::Frame { bytes: Some(b) } => if b@.len() == FRAME_LEN {
                decoded_step(decode_spec(b@.subrange(0, QUATERNION_LEN as int)))
            } else {
                recover()
            },
            Event::Frame { bytes: None } => recover(),
        },
    }
}

/// The state after the loop, started in `start`, has been handed `events`
/// one after the other.
pub open spec fn state_after(start: LoopState, events: Seq<Event>) -> LoopState
    decreases events.len(),
{
    if events.len() == 0 {
        start
    } else {
        step_spec(state_after(start, events.drop_last()), events.last()).state
    }
}

/// The outcome of the step that answers `events[i]`.
pub open spec fn reply(start: LoopState, events: Seq<Event>, i: int) -> Step
    recommends
        0 <= i < events.len(),
{
    step_spec(state_after(start, events.take(i)), events[i])
}

/// How many of the first `n` events were answered by a command to read.
pub open spec fn reads_among(start: LoopState, events: Seq<Event>, n: int) -> nat
    recommends
        0 <= n <= events.len(),
    decreases n,
{
    if n <= 0 {
        0
    } else if reply(start, events, n - 1).command is ReadFrame {
        reads_among(start, events, n - 1) + 1
    } else {
        reads_among(start, events, n - 1)
    }
}

/// How many of the first `n` events were answered by a command to
/// initialize.
pub open spec fn initializations_among(start: LoopState, events: Seq<Event>, n: int) -> nat
    recommends
        0 <= n <= events.len(),
    decreases n,
{
    if n <= 0 {
        0
    } else if reply(start, events, n - 1).command is Initialize {
        initializations_among(start, events, n - 1) + 1
    } else {
        initializations_among(start, events, n - 1)
    }
}

/// Whether `event` is a poll that reported at least one whole packet.
pub open spec fn polled_full_frame(event: Event) -> bool {
    event matches Event::Pending { count: Some(n) } && n >= FRAME_LEN
}

/// A run of polls that the bus answered, with these queue lengths.
pub open spec fn polls(counts: Seq<usize>) -> Seq<Event> {
    Seq::new(counts.len(), |i: int| Event::Pending { count: Some(counts[i]) })
}

/// The first step: the loop starts in recovery, with the motion processor
/// to be initialized before the first poll.
pub fn start() -> (r: Step)
    ensures
        r == recover(),
{
    Step { state: LoopState::Recovering, command: Command::Initialize, report: Report::Nothing }
}

/// The step that follows the decoding of a packet. A packet that does not
/// decode is reported and dropped; it is no fault of the bus and starts no
/// recovery.
pub fn after_decode(decoded: Result<Orientation, DecodeError>) -> (r: Step)
    ensures
        r == decoded_step(decoded),
{
    let report = match decoded {
        Ok(o) => Report::Sample(o),
        Err(e) => Report::Skipped(e),
    };
    Step { state: LoopState::Ready, command: Command::Poll, report }
}

/// Takes one step of the loop: from the state it is in and the device's
/// answer to the last command, to the state it moves to, the next command
/// and what to report.
pub fn step(state: LoopState, event: Event) -> (r: Step)
    ensures
        r == step_spec(state, event),
{
    let again = Step { state: LoopState::Ready, command: Command::Poll, report: Report::Nothing };
    let recovery = start();
    match state {
        LoopState::Recovering => match event {
            Event::Initialized { ok: _ } => again,
            _ => recovery,
        },
        LoopState::Ready => match event {
            Event::Initialized { ok: _ } => again,
            Event::Pending { count: Some(n) } => {
                if has_full_frame(n) {
                    Step {
                        state: LoopState::Ready,
                        command: Command::ReadFrame { len: FRAME_LEN },
                        report: Report::Nothing,
                    }
                } else {
                    again
                }
            },
            Event::Pending { count: None } => recovery,
            Event::Frame { bytes: Some(b) } => match quaternion_payload(b.as_slice()) {
                Some(payload) => after_decode(decode(payload)),
                None => recovery,
            },
            Event::Frame { bytes: None } => recovery,
        },
    }
}

/// A read is commanded in one case only: the loop is ready and a poll has
/// just reported at least [`FRAME_LEN`] queued bytes. The read is then for
/// exactly [`FRAME_LEN`] bytes.
pub proof fn lemma_read_only_from_full_queue(state: LoopState, event: Event)
    ensures
        step_spec(state, event).command is ReadFrame <==> (state == LoopState::Ready
            && polled_full_frame(event)),
        step_spec(state, event).command is ReadFrame ==> step_spec(state, event) == read_frame(),
{
}

/// Polls that the bus answers leave a ready loop ready.
pub proof fn lemma_polls_stay_ready(counts: Seq<usize>, i: int)
    requires
        0 <= i <= counts.len(),
    ensures
        state_after(LoopState::Ready, polls(counts).take(i)) == LoopState::Ready,
    decreases i,
{
    let prefix = polls(counts).take(i);
    if i > 0 {
        lemma_polls_stay_ready(counts, i - 1);
        assert(prefix.drop_last() =~= polls(counts).take(i - 1));
        assert(prefix.last() == polls(counts)[i - 1]);
    }
}

/// When a ready loop sees polls that report fewer than [`FRAME_LEN`] bytes
/// and then one that reports at least as many, it answers each of the
/// former by polling again and the last by the only read of the run, a read
/// of exactly [`FRAME_LEN`] bytes.
pub proof fn lemma_one_read_after_short_polls(short: Seq<usize>, full: usize)
    requires
        forall|i: int| 0 <= i < short.len() ==> short[i] < FRAME_LEN,
        full >= FRAME_LEN,
    ensures
        forall|i: int|
            0 <= i < short.len() ==> #[trigger] reply(
                LoopState::Ready,
                polls(short.push(full)),
                i,
            ) == poll_again(),
        reply(LoopState::Ready, polls(short.push(full)), short.len() as int) == read_frame(),
        reads_among(LoopState::Ready, polls(short.push(full)), short.len() as int + 1) == 1,
{
    let counts = short.push(full);
    let events = polls(counts);
    assert forall|i: int| 0 <= i <= short.len() implies #[trigger] reply(
        LoopState::Ready,
        events,
        i,
    ) == (if i < short.len() {
        poll_again()
    } else {
        read_frame()
    }) by {
        lemma_polls_stay_ready(counts, i);
    }
    lemma_no_read_in_short_polls(events, short.len() as int);
}

/// A run whose first `n` events are each answered by polling again holds no
/// read among them.
proof fn lemma_no_read_in_short_polls(events: Seq<Event>, n: int)
    requires
        0 <= n <= events.len(),
        forall|i: int| 0 <= i < n ==> #[trigger] reply(LoopState::Ready, events, i) == poll_again(),
    ensures
        reads_among(LoopState::Ready, events, n) == 0,
    decreases n,
{
    if n > 0 {
        lemma_no_read_in_short_polls(events, n - 1);
    }
}

/// When a poll fails in a ready loop, the loop asks for one initialization
/// and, once that has returned, polls again. It commands no read on the
/// way, whatever came before and however the initialization ended.
pub proof fn lemma_failed_poll_recovers(start: LoopState, before: Seq<Event>, ok: bool)
    requires
        state_after(start, before) == LoopState::Ready,
    ensures
        ({
            let events = before.push(Event::Pending { count: None }).push(
                Event::Initialized { ok },
            );
            let n = before.len() as int;
            &&& reply(start, events, n) == recover()
            &&& reply(start, events, n + 1) == poll_again()
            &&& state_after(start, events) == LoopState::Ready
            &&& initializations_among(start, events, n + 2) == initializations_among(
                start,
                events,
                n,
            ) + 1
            &&& reads_among(start, events, n + 2) == reads_among(start, events, n)
        }),
{
    let failed = before.push(Event::Pending { count: None });
    let events = failed.push(Event::Initialized { ok });
    let n = before.len() as int;
    assert(events.take(n) =~= before);
    assert(events.take(n + 1) =~= failed);
    assert(failed.drop_last() =~= before);
    assert(events.drop_last() =~= failed);
    assert(reply(start, events, n) == recover());
    assert(reply(start, events, n + 1) == poll_again());
    assert(reads_among(start, events, n + 1) == reads_among(start, events, n));
    assert(initializations_among(start, events, n + 1) == initializations_among(start, events, n)
        + 1);
}

/// A packet that does not decode is no fault of the bus: whatever a whole
/// packet holds, a ready loop stays ready after it, polls again and starts
/// no recovery. The packet is either reported as a sample or reported as
/// skipped.
pub proof fn lemma_packet_keeps_ready(bytes: Vec<u8>)
    requires
        bytes@.len() == FRAME_LEN,
    ensures
        ({
            let next = step_spec(LoopState::Ready, Event::Frame { bytes: Some(bytes) });
            let decoded = decode_spec(bytes@.subrange(0, QUATERNION_LEN as int));
            &&& next.state == LoopState::Ready
            &&& next.command == Command::Poll
            &&& decoded matches Ok(o) ==> next.report == Report::Sample(o)
            &&& decoded matches Err(e) ==> next.report == Report::Skipped(e)
        }),
{
}

} // verus!
