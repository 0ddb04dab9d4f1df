use vstd::prelude::*;

verus! {

// ---------------------------------------------------------------------------
// Playback driver
//
// The driver is a state machine: the surroundings perform the decoding,
// display and sleeping, report each outcome as an event, and carry out the
// action the machine asks for next. One playback session moves from Idle
// through Initializing into Playing, and ends Finished or Failed.
// ---------------------------------------------------------------------------

/// Why playback stopped with a failure.
#[derive(Clone, Copy, Debug, PartialEq, Eq, Structural)]
pub enum PlaybackError {
    /// The decoding subsystem could not start, or the source could not be
    /// opened (a missing file, an unsupported format).
    SourceOpen,
    /// A frame could not be decoded mid-stream.
    Decode,
}

/// The phase of one playback session.
#[derive(Clone, Copy, Debug, PartialEq, Eq, Structural)]
pub enum PlayerState {
    Idle,
    Initializing,
    Playing,
    Finished,
    Failed,
}

/// What the surroundings report to the driver.
#[derive(Clone, Copy, Debug, PartialEq, Eq, Structural)]
pub enum PlayerEvent {
    /// Playback was requested.
    Start,
    /// The decoding subsystem started and the source opened.
    InitSucceeded,
    /// The decoding subsystem could not start, or the source could not be
    /// opened.
    InitFailed,
    /// The next frame of the stream was decoded.
    FrameReady,
    /// A frame failed to decode mid-stream.
    DecodeFailed,
    /// The stream ended: no further frame, and no error.
    EndOfStream,
}

/// What the driver asks the surroundings to do next.
#[derive(Clone, Copy, Debug, PartialEq, Eq, Structural)]
pub enum PlayerAction {
    /// Start the decoding subsystem and open the source.
    Initialize,
    /// Pull the next frame from the decoder.
    PullFrame,
    /// Render the decoded frame, clear the terminal, write the text frame,
    /// wait one frame interval, and pull the next frame.
    DisplayThenPull,
    /// Stop: the stream played to its end.
    Finish,
    /// Stop and surface the error to the caller.
    Report(PlaybackError),
    /// The event does not belong to the current state; do nothing.
    Ignore,
}

/// The transition table of the driver.
pub open spec fn spec_step(s: PlayerState, e: PlayerEvent) -> (PlayerState, PlayerAction) {
    match (s, e) {
        (PlayerState::Idle, PlayerEvent::Start) => (
            PlayerState::Initializing,
            PlayerAction::Initialize,
        ),
        (PlayerState::Initializing, PlayerEvent::InitSucceeded) => (
            PlayerState::Playing,
            PlayerAction::PullFrame,
        ),
        (PlayerState::Initializing, PlayerEvent::InitFailed) => (
            PlayerState::Failed,
            PlayerAction::Report(PlaybackError::SourceOpen),
        ),
        (PlayerState::Playing, PlayerEvent::FrameReady) => (
            PlayerState::Playing,
            PlayerAction::DisplayThenPull,
        ),
        (PlayerState::Playing, PlayerEvent::DecodeFailed) => (
            PlayerState::Failed,
            PlayerAction::Report(PlaybackError::Decode),
        ),
        (PlayerState::Playing, PlayerEvent::EndOfStream) => (
            PlayerState::Finished,
            PlayerAction::Finish,
        ),
        _ => (s, PlayerAction::Ignore),
    }
}

/// Advances the driver by one event: the next state and the requested action,
/// exactly as the transition table gives them.
pub fn step(s: PlayerState, e: PlayerEvent) -> (r: (PlayerState, PlayerAction))
    ensures
        r == spec_step(s, e),
{
    match (s, e) {
        (PlayerState::Idle, PlayerEvent::Start) => (
            PlayerState::Initializing,
            PlayerAction::Initialize,
        ),
        (PlayerState::Initializing, PlayerEvent::InitSucceeded) => (
            PlayerState::Playing,
            PlayerAction::PullFrame,
        ),
        (PlayerState::Initializing, PlayerEvent::InitFailed) => (
            PlayerState::Failed,
            PlayerAction::Report(PlaybackError::SourceOpen),
        ),
        (PlayerState::Playing, PlayerEvent::FrameReady) => (
            PlayerState::Playing,
            PlayerAction::DisplayThenPull,
        ),
        (PlayerState::Playing, PlayerEvent::DecodeFailed) => (
            PlayerState::Failed,
            PlayerAction::Report(PlaybackError::Decode),
        ),
        (PlayerState::Playing, PlayerEvent::EndOfStream) => (
            PlayerState::Finished,
            PlayerAction::Finish,
        ),
        (other, _) => (other, PlayerAction::Ignore),
    }
}

/// The state reached after a sequence of events.
pub open spec fn spec_run_state(s: PlayerState, events: Seq<PlayerEvent>) -> PlayerState
    decreases events.len(),
{
    if events.len() == 0 {
        s
    } else {
        spec_run_state(spec_step(s, events[0]).0, events.drop_first())
    }
}

/// The actions requested over a sequence of events, in order.
pub open spec fn spec_run_actions(s: PlayerState, events: Seq<PlayerEvent>) -> Seq<PlayerAction>
    decreases events.len(),
{
    if events.len() == 0 {
        Seq::empty()
    } else {
        seq![spec_step(s, events[0]).1] + spec_run_actions(
            spec_step(s, events[0]).0,
            events.drop_first(),
        )
    }
}

/// How many display actions a sequence of actions holds — how many text
/// frames the surroundings were asked to write.
pub open spec fn spec_display_count(acts: Seq<PlayerAction>) -> nat
    decreases acts.len(),
{
    if acts.len() == 0 {
        0
    } else {
        (if acts[0] == PlayerAction::DisplayThenPull {
            1nat
        } else {
            0nat
        }) + spec_display_count(acts.drop_first())
    }
}

/// Runs the driver over a whole sequence of events: the final state and the
/// actions requested, in order.
pub fn run_events(start: PlayerState, events: &Vec<PlayerEvent>) -> (r: (
    PlayerState,
    Vec<PlayerAction>,
))
    ensures
        r.0 == spec_run_state(start, events@),
        r.1@ == spec_run_actions(start, events@),
{
    let mut s = start;
    let mut acts: Vec<PlayerAction> = Vec::new();
    let mut i: usize = 0;
    proof {
        assert(events@.skip(0) =~= events@);
        assert(Seq::<PlayerAction>::empty() + spec_run_actions(start, events@)
            =~= spec_run_actions(start, events@));
    }
    while i < events.len()
        invariant
            i <= events@.len(),
            spec_run_state(start, events@) == spec_run_state(s, events@.skip(i as int)),
            spec_run_actions(start, events@) == acts@ + spec_run_actions(
                s,
                events@.skip(i as int),
            ),
        decreases events@.len() - i,
    {
        let (next, act) = step(s, events[i]);
        proof {
            assert(events@.skip(i as int)[0] == events@[i as int]);
            assert(events@.skip(i as int).drop_first() =~= events@.skip(i as int + 1));
            assert(acts@ + seq![act] + spec_run_actions(next, events@.skip(i as int + 1))
                =~= acts@.push(act) + spec_run_actions(next, events@.skip(i as int + 1)));
        }
        s = next;
        acts.push(act);
        i += 1;
    }
    proof {
        assert(events@.skip(events@.len() as int) =~= Seq::<PlayerEvent>::empty());
        assert(acts@ + Seq::<PlayerAction>::empty() =~= acts@);
    }
    (s, acts)
}

/// Length of the pause between two displayed frames, in nanoseconds, for a
/// playback rate of `fps` frames per second: the frame interval 1 / fps
/// seconds, rounded down to whole nanoseconds.
pub fn frame_interval_nanos(fps: u32) -> (r: u64)
    requires
        fps >= 1,
    ensures
        r == 1_000_000_000u64 / fps as u64,
{
    1_000_000_000u64 / (fps as u64)
}

/// Law: a display action arises only in the playing state, from a decoded
/// frame.
pub proof fn lemma_display_only_when_playing(s: PlayerState, e: PlayerEvent)
    ensures
        spec_step(s, e).1 == PlayerAction::DisplayThenPull ==> s == PlayerState::Playing && e
            == PlayerEvent::FrameReady,
{
}

/// Law: the driver displays nothing when no frame is decoded. A run over
/// events among which no frame became ready requests no display action; in
/// particular, a source that fails to open produces no output frame.
pub proof fn lemma_no_frame_no_display(start: PlayerState, events: Seq<PlayerEvent>)
    requires
        forall|i: int| 0 <= i < events.len() ==> events[i] != PlayerEvent::FrameReady,
    ensures
        spec_display_count(spec_run_actions(start, events)) == 0,
    decreases events.len(),
{
    if events.len() > 0 {
        let next = spec_step(start, events[0]).0;
        let act = spec_step(start, events[0]).1;
        let rest = spec_run_actions(next, events.drop_first());
        lemma_no_frame_no_display(next, events.drop_first());
        assert(act != PlayerAction::DisplayThenPull) by {
            lemma_display_only_when_playing(start, events[0]);
        }
        assert((seq![act] + rest).drop_first() =~= rest);
    }
}

} // verus!
