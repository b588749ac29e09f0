//! A whole session: the record, the start that began it, a stop, and the two
//! dispatchers side by side.
//!
//! The dispatchers and a stop run at the same time and know of each other
//! only through three flags. The shutdown flag is written by the stop and
//! read by the dispatchers; each finished flag is written by one dispatcher,
//! when it is told to finish, and read by the stop. The start waits until it
//! is told that each dispatcher has left. Here the four machines are put next
//! to each other, their events in the one order in which they happen, and it
//! is said what then holds of all of them.

use vstd::prelude::*;
use crate::coordinator::{
    session_begun, start_step, stop_step, RecordingState, StartEvent, StartStage, StopEvent,
    StopStage,
};
use crate::dispatcher::{initial, step_spec, DispatcherView, EventView, Phase};
use crate::options::RecordingOptions;
use crate::track::Track;

verus! {

/// A session as the laws below see it.
pub struct SessionView {
    /// The record that start and stop share.
    pub record: RecordingState,
    /// The options that the session was started with.
    pub options: RecordingOptions,
    /// How far the start of this session has come.
    pub start_stage: StartStage,
    /// How far the stop of this session has come.
    pub stop_stage: StopStage,
    /// The video track's dispatcher.
    pub video: DispatcherView,
    /// The audio track's dispatcher.
    pub audio: DispatcherView,
}

/// Something that happens in a session.
pub enum SessionEvent {
    /// An event reported to the video track's dispatcher.
    Video(EventView),
    /// An event reported to the audio track's dispatcher.
    Audio(EventView),
    /// An event reported to the start.
    Start(StartEvent),
    /// An event reported to the stop.
    Stop(StopEvent),
}

/// The session at the moment a start lets the dispatchers run.
pub open spec fn session_started(record: RecordingState, options: RecordingOptions) -> SessionView {
    SessionView {
        record: session_begun(record, options),
        options,
        start_stage: StartStage::Dispatching { video_exited: false, audio_exited: false },
        stop_stage: StopStage::Idle,
        video: initial(Track::Video),
        audio: initial(Track::Audio),
    }
}

/// Whether the dispatcher has begun or ended its last pass.
pub open spec fn draining_or_finished(phase: Phase) -> bool {
    phase == Phase::Draining || phase == Phase::DrainUploading || phase == Phase::Finished
}

/// Whether a dispatcher in this phase has left: it is finished, or it has
/// failed.
pub open spec fn has_left(phase: Phase) -> bool {
    phase == Phase::Finished || phase == Phase::Failed
}

/// Whether what an event carries was read from the session: a dispatcher is
/// told that the shutdown flag is set only if the record has it set, a stop
/// is told that a track has finished only if that track's dispatcher is
/// finished, and a start is told that a dispatcher has left only if it has.
pub open spec fn reads_true(session: SessionView, event: SessionEvent) -> bool {
    match event {
        SessionEvent::Start(StartEvent::DispatcherExited(Track::Video)) => has_left(
            session.video.phase,
        ),
        SessionEvent::Start(StartEvent::DispatcherExited(Track::Audio)) => has_left(
            session.audio.phase,
        ),
        SessionEvent::Video(EventView::Tick { shutdown }) => shutdown
            ==> session.record.shutdown_flag,
        SessionEvent::Audio(EventView::Tick { shutdown }) => shutdown
            ==> session.record.shutdown_flag,
        SessionEvent::Stop(StopEvent::Polled { video_finished, audio_finished }) => {
            &&& video_finished ==> session.video.phase == Phase::Finished
            &&& audio_finished ==> session.audio.phase == Phase::Finished
        },
        _ => true,
    }
}

/// The session after one event: the machine that the event is for takes its
/// step, the others stay as they are.
pub open spec fn session_step(session: SessionView, event: SessionEvent) -> SessionView {
    match event {
        SessionEvent::Video(reported) => SessionView {
            video: step_spec(session.video, reported).0,
            ..session
        },
        SessionEvent::Audio(reported) => SessionView {
            audio: step_spec(session.audio, reported).0,
            ..session
        },
        SessionEvent::Start(reported) => {
            let (record, stage, _) = start_step(
                session.record,
                session.options,
                session.start_stage,
                reported,
            );
            SessionView { record, start_stage: stage, ..session }
        },
        SessionEvent::Stop(reported) => {
            let (record, stage, _) = stop_step(session.record, session.stop_stage, reported);
            SessionView { record, stop_stage: stage, ..session }
        },
    }
}

/// The session after the events of `events`, one after the other.
pub open spec fn session_run(session: SessionView, events: Seq<SessionEvent>) -> SessionView
    decreases events.len(),
{
    if events.len() == 0 {
        session
    } else {
        session_step(session_run(session, events.drop_last()), events.last())
    }
}

/// Whether every event of `events` carries flags as they were when it
/// happened.
pub open spec fn all_read_true(session: SessionView, events: Seq<SessionEvent>) -> bool
    decreases events.len(),
{
    events.len() > 0 ==> all_read_true(session, events.drop_last()) && reads_true(
        session_run(session, events.drop_last()),
        events.last(),
    )
}

/// A stop does not return before both dispatchers are finished, and no
/// dispatcher begins its last pass before a stop has raised the shutdown flag.
///
/// So by the time a stop returns, each dispatcher has seen the shutdown flag,
/// has then run one more pass, and has seen the uploads of that pass settle.
pub proof fn law_stop_returns_after_both_finished(
    record: RecordingState,
    options: RecordingOptions,
    events: Seq<SessionEvent>,
)
    requires
        all_read_true(session_started(record, options), events),
    ensures
        ({
            let session = session_run(session_started(record, options), events);
            &&& session.stop_stage == StopStage::Done ==> session.video.phase == Phase::Finished
                && session.audio.phase == Phase::Finished
            &&& session.record.video_uploading_finished ==> session.video.phase == Phase::Finished
            &&& session.record.audio_uploading_finished ==> session.audio.phase == Phase::Finished
            &&& draining_or_finished(session.video.phase) ==> session.record.shutdown_flag
            &&& draining_or_finished(session.audio.phase) ==> session.record.shutdown_flag
            &&& session.record.shutdown_flag <==> session.stop_stage != StopStage::Idle
            &&& session.stop_stage == StopStage::Done ==> session.record.all_finished()
            &&& session.start_stage is Dispatching || session.start_stage == StartStage::Done
        }),
    decreases events.len(),
{
    if events.len() > 0 {
        law_stop_returns_after_both_finished(record, options, events.drop_last());
    }
}

/// A start does not return before both dispatchers have left, each finished
/// or failed. That one has left with an error does not end the start while
/// the other still runs.
pub proof fn law_start_returns_after_both_left(
    record: RecordingState,
    options: RecordingOptions,
    events: Seq<SessionEvent>,
)
    requires
        all_read_true(session_started(record, options), events),
    ensures
        ({
            let session = session_run(session_started(record, options), events);
            &&& session.start_stage == StartStage::Done ==> has_left(session.video.phase)
                && has_left(session.audio.phase)
            &&& session.start_stage matches StartStage::Dispatching { video_exited, audio_exited }
                ==> (video_exited ==> has_left(session.video.phase)) && (audio_exited ==> has_left(
                session.audio.phase,
            ))
            &&& session.start_stage is Dispatching || session.start_stage == StartStage::Done
        }),
    decreases events.len(),
{
    if events.len() > 0 {
        law_start_returns_after_both_left(record, options, events.drop_last());
    }
}

/// Once the dispatchers of a session run, a finished flag that a stop has
/// noted is never taken back in that session, and a dispatcher that is
/// finished stays so.
pub proof fn law_finished_stays_finished(
    session: SessionView,
    events: Seq<SessionEvent>,
)
    requires
        session.start_stage is Dispatching || session.start_stage == StartStage::Done,
    ensures
        session_run(session, events).start_stage is Dispatching || session_run(
            session,
            events,
        ).start_stage == StartStage::Done,
        session.record.video_uploading_finished ==> session_run(
            session,
            events,
        ).record.video_uploading_finished,
        session.record.audio_uploading_finished ==> session_run(
            session,
            events,
        ).record.audio_uploading_finished,
        session.video.phase == Phase::Finished ==> session_run(session, events).video.phase
            == Phase::Finished,
        session.audio.phase == Phase::Finished ==> session_run(session, events).audio.phase
            == Phase::Finished,
        session.record.shutdown_flag ==> session_run(session, events).record.shutdown_flag,
    decreases events.len(),
{
    if events.len() > 0 {
        law_finished_stays_finished(session, events.drop_last());
    }
}

} // verus!
