//! The session coordinator.
//!
//! Starting a session resets the three working directories, starts the
//! capture, and only then resets the flags and lets one dispatcher per track
//! run; it is over when both dispatchers have left. Stopping a session raises
//! the shutdown flag, stops the capture if one is active, and waits until both
//! tracks are reported as finished.
//!
//! Both are machines. The caller does the work on disk and with the capture
//! engine, reports how it ended, and is told what comes next.

use vstd::prelude::*;
use crate::dispatcher::{initial, Dispatcher};
use crate::options::{device_view, RecordingOptions};
use crate::preparer::{
    clean_directory, law_prepare_leaves_clean, prepared, DirectoryModel, PrepareStage,
};
use crate::seqs::lemma_contains_push;
use crate::track::{Track, WorkDir};

verus! {

/// The pause between two looks at the finished flags while a session is
/// being stopped, in milliseconds.
pub const STOP_POLL_INTERVAL_MS: u64 = 50;

/// The record of the session that start and stop share.
#[derive(Clone, Debug)]
pub struct RecordingState {
    /// Whether a capture is running that stop has yet to end.
    pub capture_active: bool,
    /// The options of the session that was started last.
    pub recording_options: Option<RecordingOptions>,
    /// Raised by stop, read by every dispatcher before each pass.
    pub shutdown_flag: bool,
    /// Whether the video track was reported as finished.
    pub video_uploading_finished: bool,
    /// Whether the audio track was reported as finished.
    pub audio_uploading_finished: bool,
    /// The root of the working directories, if one is configured.
    pub data_dir: Option<String>,
}

impl RecordingState {
    /// The record before any session: nothing captured, no flag set.
    pub fn new(data_dir: Option<String>) -> (state: RecordingState)
        ensures
            state == (RecordingState {
                capture_active: false,
                recording_options: None,
                shutdown_flag: false,
                video_uploading_finished: false,
                audio_uploading_finished: false,
                data_dir,
            }),
    {
        RecordingState {
            capture_active: false,
            recording_options: None,
            shutdown_flag: false,
            video_uploading_finished: false,
            audio_uploading_finished: false,
            data_dir,
        }
    }

    /// Whether both tracks were reported as finished.
    pub open spec fn all_finished(self) -> bool {
        self.video_uploading_finished && self.audio_uploading_finished
    }
}

/// How far a start has come.
#[derive(Clone, Copy, Debug, PartialEq, Eq, Structural)]
pub enum StartStage {
    /// Nothing was done yet.
    Idle,
    /// The given working directory is being reset.
    Preparing(WorkDir),
    /// The capture engine is being started.
    StartingCapture,
    /// The dispatchers were let run. The fields say which of them has left
    /// since.
    Dispatching { video_exited: bool, audio_exited: bool },
    /// Both dispatchers have left. The start has returned.
    Done,
    /// The start was given up.
    Failed,
}

/// What the caller reports to a start.
#[derive(Clone, Copy, Debug, PartialEq, Eq, Structural)]
pub enum StartEvent {
    /// The start begins.
    Begin,
    /// The directory asked for was reset.
    DirectoryReady,
    /// The directory asked for could not be reset.
    DirectoryFailed,
    /// The capture engine runs.
    CaptureStarted,
    /// The capture engine could not be started.
    CaptureFailed,
    /// The dispatcher of the given track has left, finished or not.
    DispatcherExited(Track),
}

/// Why a start was given up.
#[derive(Clone, Copy, Debug, PartialEq, Eq, Structural)]
pub enum StartError {
    /// No data directory is configured.
    DataDirNotSet,
    /// The given working directory could not be reset.
    DirectoryNotReset(WorkDir),
    /// The capture engine could not be started.
    CaptureNotStarted,
}

/// What a start asks the caller to do next.
#[derive(Clone, Copy, Debug, PartialEq, Eq, Structural)]
pub enum StartAction {
    /// Reset the given working directory, and report `DirectoryReady` or
    /// `DirectoryFailed`.
    Prepare(WorkDir),
    /// Start the capture engine with what `capture_request` gives, and
    /// report `CaptureStarted` or `CaptureFailed`.
    StartCapture,
    /// Run the dispatchers of `new_dispatchers`, both at the same time, and
    /// report `DispatcherExited` for each when it has left, however it left.
    RunDispatchers,
    /// Wait for the dispatcher of the given track, which still runs, and
    /// report `DispatcherExited` when it has left.
    AwaitDispatcher(Track),
    /// Return success.
    Succeed,
    /// Return the failure.
    Fail(StartError),
    /// The event does not fit the stage. Nothing has changed.
    Ignore,
}

/// The record at the moment the dispatchers of a new session are let run: the
/// capture is active, the options are those of the session, and no flag is
/// set.
pub open spec fn session_begun(state: RecordingState, options: RecordingOptions) -> RecordingState {
    RecordingState {
        capture_active: true,
        recording_options: Some(options),
        shutdown_flag: false,
        video_uploading_finished: false,
        audio_uploading_finished: false,
        data_dir: state.data_dir,
    }
}

/// Where a start stands once the dispatcher of `track` has left, and what it
/// asks for then: success if the other has left before, and else to wait for
/// the other. A dispatcher that is reported a second time changes nothing.
pub open spec fn after_exit(video_exited: bool, audio_exited: bool, track: Track) -> (
    StartStage,
    StartAction,
) {
    let known = match track {
        Track::Video => video_exited,
        Track::Audio => audio_exited,
    };
    let other_exited = match track {
        Track::Video => audio_exited,
        Track::Audio => video_exited,
    };
    if known {
        (StartStage::Dispatching { video_exited, audio_exited }, StartAction::Ignore)
    } else if other_exited {
        (StartStage::Done, StartAction::Succeed)
    } else {
        match track {
            Track::Video => (
                StartStage::Dispatching { video_exited: true, audio_exited: false },
                StartAction::AwaitDispatcher(Track::Audio),
            ),
            Track::Audio => (
                StartStage::Dispatching { video_exited: false, audio_exited: true },
                StartAction::AwaitDispatcher(Track::Video),
            ),
        }
    }
}

/// A start's answer to an event: the record, the next stage and what is asked
/// for.
///
/// The directories are reset in the order audio, video, screenshots. The
/// record changes at one point only: when the capture engine runs.
pub open spec fn start_step(
    state: RecordingState,
    options: RecordingOptions,
    stage: StartStage,
    event: StartEvent,
) -> (RecordingState, StartStage, StartAction) {
    match (stage, event) {
        (StartStage::Idle, StartEvent::Begin) => if state.data_dir is None {
            (state, StartStage::Failed, StartAction::Fail(StartError::DataDirNotSet))
        } else {
            (
                state,
                StartStage::Preparing(WorkDir::AudioChunks),
                StartAction::Prepare(WorkDir::AudioChunks),
            )
        },
        (StartStage::Preparing(WorkDir::AudioChunks), StartEvent::DirectoryReady) => (
            state,
            StartStage::Preparing(WorkDir::VideoChunks),
            StartAction::Prepare(WorkDir::VideoChunks),
        ),
        (StartStage::Preparing(WorkDir::VideoChunks), StartEvent::DirectoryReady) => (
            state,
            StartStage::Preparing(WorkDir::Screenshots),
            StartAction::Prepare(WorkDir::Screenshots),
        ),
        (StartStage::Preparing(WorkDir::Screenshots), StartEvent::DirectoryReady) => (
            state,
            StartStage::StartingCapture,
            StartAction::StartCapture,
        ),
        (StartStage::Preparing(dir), StartEvent::DirectoryFailed) => (
            state,
            StartStage::Failed,
            StartAction::Fail(StartError::DirectoryNotReset(dir)),
        ),
        (StartStage::StartingCapture, StartEvent::CaptureStarted) => (
            session_begun(state, options),
            StartStage::Dispatching { video_exited: false, audio_exited: false },
            StartAction::RunDispatchers,
        ),
        (StartStage::StartingCapture, StartEvent::CaptureFailed) => (
            state,
            StartStage::Failed,
            StartAction::Fail(StartError::CaptureNotStarted),
        ),
        (
            StartStage::Dispatching { video_exited, audio_exited },
            StartEvent::DispatcherExited(track),
        ) => {
            let (next, action) = after_exit(video_exited, audio_exited, track);
            (state, next, action)
        },
        _ => (state, stage, StartAction::Ignore),
    }
}

/// How far a stop has come.
#[derive(Clone, Copy, Debug, PartialEq, Eq, Structural)]
pub enum StopStage {
    /// Nothing was done yet.
    Idle,
    /// The capture engine is being stopped.
    StoppingCapture,
    /// The stop waits for both tracks to finish.
    Waiting,
    /// Both tracks have finished. The stop has returned.
    Done,
    /// The capture engine could not be stopped. The stop was given up.
    Failed,
}

/// What the caller reports to a stop.
#[derive(Clone, Copy, Debug, PartialEq, Eq, Structural)]
pub enum StopEvent {
    /// The stop begins.
    Begin,
    /// The capture engine has stopped.
    CaptureStopped,
    /// The capture engine could not be stopped.
    CaptureStopFailed,
    /// The finished flags were read.
    Polled { video_finished: bool, audio_finished: bool },
}

/// What a stop asks the caller to do next.
#[derive(Clone, Copy, Debug, PartialEq, Eq, Structural)]
pub enum StopAction {
    /// Stop the capture engine, and report `CaptureStopped` or
    /// `CaptureStopFailed`.
    StopCapture,
    /// Read the two finished flags, and report `Polled`.
    Poll,
    /// Pause for `millis` milliseconds, read the two finished flags, and
    /// report `Polled`. The pause is always `STOP_POLL_INTERVAL_MS` long.
    Wait { millis: u64 },
    /// Return success.
    Succeed,
    /// Return the failure of the capture engine.
    Fail,
    /// The event does not fit the stage. Nothing has changed.
    Ignore,
}

/// The record with the shutdown flag raised and no capture left to stop.
pub open spec fn shutdown_raised(state: RecordingState) -> RecordingState {
    RecordingState { shutdown_flag: true, capture_active: false, ..state }
}

/// The record after the finished flags were read. A track that was reported
/// as finished stays so.
pub open spec fn flags_noted(
    state: RecordingState,
    video_finished: bool,
    audio_finished: bool,
) -> RecordingState {
    RecordingState {
        video_uploading_finished: state.video_uploading_finished || video_finished,
        audio_uploading_finished: state.audio_uploading_finished || audio_finished,
        ..state
    }
}

/// A stop's answer to an event: the record, the next stage and what is asked
/// for.
pub open spec fn stop_step(state: RecordingState, stage: StopStage, event: StopEvent) -> (
    RecordingState,
    StopStage,
    StopAction,
) {
    match (stage, event) {
        (StopStage::Idle, StopEvent::Begin) => if state.capture_active {
            (shutdown_raised(state), StopStage::StoppingCapture, StopAction::StopCapture)
        } else {
            (shutdown_raised(state), StopStage::Waiting, StopAction::Poll)
        },
        (StopStage::StoppingCapture, StopEvent::CaptureStopped) => (
            state,
            StopStage::Waiting,
            StopAction::Poll,
        ),
        (StopStage::StoppingCapture, StopEvent::CaptureStopFailed) => (
            state,
            StopStage::Failed,
            StopAction::Fail,
        ),
        (StopStage::Waiting, StopEvent::Polled { video_finished, audio_finished }) => {
            let noted = flags_noted(state, video_finished, audio_finished);
            if noted.all_finished() {
                (noted, StopStage::Done, StopAction::Succeed)
            } else {
                (noted, StopStage::Waiting, StopAction::Wait { millis: STOP_POLL_INTERVAL_MS })
            }
        },
        _ => (state, stage, StopAction::Ignore),
    }
}

/// Takes the outcome of the last step of a start and says what comes next.
///
/// A start fails at once where no data directory is configured. It resets
/// the audio, the video and the screenshot directory, in this order, and
/// starts the capture engine; the first failure ends it, and then the record
/// is as it was and no dispatcher has run. Once the capture engine runs, the
/// record is that of a new session, and the dispatchers are let run. Each
/// is reported when it has left, and the start succeeds when both have, not
/// when the first has, however that one left. An event that does not fit the
/// stage changes nothing and is answered with `Ignore`.
pub fn start_dual_recording(
    state: &mut RecordingState,
    options: &RecordingOptions,
    stage: StartStage,
    event: StartEvent,
) -> (next: (StartStage, StartAction))
    ensures
        (*final(state), next.0, next.1) == start_step(*old(state), *options, stage, event),
{
    match stage {
        StartStage::Idle => match event {
            StartEvent::Begin => {
                if state.data_dir.is_none() {
                    (StartStage::Failed, StartAction::Fail(StartError::DataDirNotSet))
                } else {
                    (
                        StartStage::Preparing(WorkDir::AudioChunks),
                        StartAction::Prepare(WorkDir::AudioChunks),
                    )
                }
            },
            _ => (stage, StartAction::Ignore),
        },
        StartStage::Preparing(dir) => match event {
            StartEvent::DirectoryReady => match dir {
                WorkDir::AudioChunks => (
                    StartStage::Preparing(WorkDir::VideoChunks),
                    StartAction::Prepare(WorkDir::VideoChunks),
                ),
                WorkDir::VideoChunks => (
                    StartStage::Preparing(WorkDir::Screenshots),
                    StartAction::Prepare(WorkDir::Screenshots),
                ),
                WorkDir::Screenshots => (StartStage::StartingCapture, StartAction::StartCapture),
            },
            StartEvent::DirectoryFailed => (
                StartStage::Failed,
                StartAction::Fail(StartError::DirectoryNotReset(dir)),
            ),
            _ => (stage, StartAction::Ignore),
        },
        StartStage::StartingCapture => match event {
            StartEvent::CaptureStarted => {
                state.capture_active = true;
                state.recording_options = Some(options.clone());
                state.shutdown_flag = false;
                state.video_uploading_finished = false;
                state.audio_uploading_finished = false;
                (
                    StartStage::Dispatching { video_exited: false, audio_exited: false },
                    StartAction::RunDispatchers,
                )
            },
            StartEvent::CaptureFailed => (
                StartStage::Failed,
                StartAction::Fail(StartError::CaptureNotStarted),
            ),
            _ => (stage, StartAction::Ignore),
        },
        StartStage::Dispatching { video_exited, audio_exited } => match event {
            StartEvent::DispatcherExited(track) => {
                let known = match track {
                    Track::Video => video_exited,
                    Track::Audio => audio_exited,
                };
                let other_exited = match track {
                    Track::Video => audio_exited,
                    Track::Audio => video_exited,
                };
                if known {
                    (stage, StartAction::Ignore)
                } else if other_exited {
                    (StartStage::Done, StartAction::Succeed)
                } else {
                    match track {
                        Track::Video => (
                            StartStage::Dispatching { video_exited: true, audio_exited: false },
                            StartAction::AwaitDispatcher(Track::Audio),
                        ),
                        Track::Audio => (
                            StartStage::Dispatching { video_exited: false, audio_exited: true },
                            StartAction::AwaitDispatcher(Track::Video),
                        ),
                    }
                }
            },
            _ => (stage, StartAction::Ignore),
        },
        _ => (stage, StartAction::Ignore),
    }
}

/// Takes the outcome of the last step of a stop and says what comes next.
///
/// A stop first raises the shutdown flag. It has the capture engine stopped
/// if one is active, and gives up if that fails. Then it reads the finished
/// flags again and again, with a pause in between, and succeeds as soon as
/// both tracks were reported as finished, and not before. An event that does
/// not fit the stage changes nothing and is answered with `Ignore`.
pub fn stop_all_recordings(state: &mut RecordingState, stage: StopStage, event: StopEvent) -> (next:
    (StopStage, StopAction))
    ensures
        (*final(state), next.0, next.1) == stop_step(*old(state), stage, event),
{
    match stage {
        StopStage::Idle => match event {
            StopEvent::Begin => {
                let active = state.capture_active;
                state.shutdown_flag = true;
                state.capture_active = false;
                if active {
                    (StopStage::StoppingCapture, StopAction::StopCapture)
                } else {
                    (StopStage::Waiting, StopAction::Poll)
                }
            },
            _ => (stage, StopAction::Ignore),
        },
        StopStage::StoppingCapture => match event {
            StopEvent::CaptureStopped => (StopStage::Waiting, StopAction::Poll),
            StopEvent::CaptureStopFailed => (StopStage::Failed, StopAction::Fail),
            _ => (stage, StopAction::Ignore),
        },
        StopStage::Waiting => match event {
            StopEvent::Polled { video_finished, audio_finished } => {
                state.video_uploading_finished = state.video_uploading_finished || video_finished;
                state.audio_uploading_finished = state.audio_uploading_finished || audio_finished;
                if state.video_uploading_finished && state.audio_uploading_finished {
                    (StopStage::Done, StopAction::Succeed)
                } else {
                    (StopStage::Waiting, StopAction::Wait { millis: STOP_POLL_INTERVAL_MS })
                }
            },
            _ => (stage, StopAction::Ignore),
        },
        _ => (stage, StopAction::Ignore),
    }
}

/// The dispatchers of a new session, one per track: the video track's first.
/// Neither has seen anything.
pub fn new_dispatchers() -> (dispatchers: (Dispatcher, Dispatcher))
    ensures
        dispatchers.0@ == initial(Track::Video),
        dispatchers.1@ == initial(Track::Audio),
{
    (Dispatcher::new(Track::Video), Dispatcher::new(Track::Audio))
}

/// The message of a start that was given up for want of a data directory.
pub fn data_dir_not_set_message() -> (message: &'static str)
    ensures
        message@ == "Data directory is not set in the recording state"@,
{
    "Data directory is not set in the recording state"
}

/// The record and the stage after a start was told the events of `events`,
/// one after the other.
pub open spec fn start_run(
    state: RecordingState,
    options: RecordingOptions,
    events: Seq<StartEvent>,
) -> (RecordingState, StartStage)
    decreases events.len(),
{
    if events.len() == 0 {
        (state, StartStage::Idle)
    } else {
        let (before, stage) = start_run(state, options, events.drop_last());
        let (after, next, _) = start_step(before, options, stage, events.last());
        (after, next)
    }
}

/// What a start asked for in answer to the events of `events`, in order,
/// without the answers to events that did not fit.
pub open spec fn start_asked(
    state: RecordingState,
    options: RecordingOptions,
    events: Seq<StartEvent>,
) -> Seq<StartAction>
    decreases events.len(),
{
    if events.len() == 0 {
        Seq::empty()
    } else {
        let (before, stage) = start_run(state, options, events.drop_last());
        let asked = start_asked(state, options, events.drop_last());
        let action = start_step(before, options, stage, events.last()).2;
        if action == StartAction::Ignore {
            asked
        } else {
            asked.push(action)
        }
    }
}

/// What a start asks for, one after the other, until the dispatchers run.
pub open spec fn setup_actions() -> Seq<StartAction> {
    seq![
        StartAction::Prepare(WorkDir::AudioChunks),
        StartAction::Prepare(WorkDir::VideoChunks),
        StartAction::Prepare(WorkDir::Screenshots),
        StartAction::StartCapture,
        StartAction::RunDispatchers,
    ]
}

/// What a start that has not failed has asked for by the time it is in
/// `stage`, where `first` is the track whose dispatcher left first.
pub open spec fn asked_by(stage: StartStage, first: Track) -> Seq<StartAction> {
    match stage {
        StartStage::Idle => setup_actions().take(0),
        StartStage::Preparing(WorkDir::AudioChunks) => setup_actions().take(1),
        StartStage::Preparing(WorkDir::VideoChunks) => setup_actions().take(2),
        StartStage::Preparing(WorkDir::Screenshots) => setup_actions().take(3),
        StartStage::StartingCapture => setup_actions().take(4),
        StartStage::Dispatching { video_exited: false, audio_exited: false } => setup_actions(),
        StartStage::Dispatching { video_exited: true, .. } => setup_actions().push(
            StartAction::AwaitDispatcher(Track::Audio),
        ),
        StartStage::Dispatching { .. } => setup_actions().push(
            StartAction::AwaitDispatcher(Track::Video),
        ),
        _ => setup_actions().push(
            StartAction::AwaitDispatcher(
                match first {
                    Track::Video => Track::Audio,
                    Track::Audio => Track::Video,
                },
            ),
        ).push(StartAction::Succeed),
    }
}

/// Whether some event reported that the dispatcher of `track` has left.
pub open spec fn exit_reported(events: Seq<StartEvent>, track: Track) -> bool {
    exists|i: int| 0 <= i < events.len() && events[i] == StartEvent::DispatcherExited(track)
}

/// A start goes one way only. Unless it has failed, it has asked for the three
/// directories in the order audio, video, screenshots, then for the capture,
/// then for the dispatchers, then to wait for the dispatcher that is left, as
/// far as its stage says. The record is untouched until the dispatchers are
/// let run, and is that of a new session from then on.
pub proof fn law_start_order(
    state: RecordingState,
    options: RecordingOptions,
    events: Seq<StartEvent>,
)
    requires
        start_run(state, options, events).1 != StartStage::Failed,
    ensures
        start_asked(state, options, events) == asked_by(
            start_run(state, options, events).1,
            Track::Video,
        ) || start_asked(state, options, events) == asked_by(
            start_run(state, options, events).1,
            Track::Audio,
        ),
        start_run(state, options, events).1 != (StartStage::Dispatching {
            video_exited: true,
            audio_exited: true,
        }),
        start_run(state, options, events).0 == (if start_run(state, options, events).1
            is Dispatching || start_run(state, options, events).1 == StartStage::Done {
            session_begun(state, options)
        } else {
            state
        }),
        start_run(state, options, events).1 != StartStage::Idle ==> state.data_dir is Some,
    decreases events.len(),
{
    let setup = setup_actions();
    assert(setup.take(0) =~= seq![]);
    assert(setup.take(1) =~= seq![setup[0]]);
    assert(setup.take(2) =~= setup.take(1).push(setup[1]));
    assert(setup.take(3) =~= setup.take(2).push(setup[2]));
    assert(setup.take(4) =~= setup.take(3).push(setup[3]));
    assert(setup =~= setup.take(4).push(setup[4]));
    if events.len() > 0 {
        law_start_order(state, options, events.drop_last());
    }
}

/// A start returns only after both dispatchers have left: it answers with
/// success to the report of the second, and has by then been told of each.
/// That one of them has left, for whatever reason, is not enough.
pub proof fn law_start_returns_after_both_exits(
    state: RecordingState,
    options: RecordingOptions,
    events: Seq<StartEvent>,
)
    ensures
        start_run(state, options, events).1 == StartStage::Done ==> exit_reported(
            events,
            Track::Video,
        ) && exit_reported(events, Track::Audio),
        start_run(state, options, events).1 matches StartStage::Dispatching {
            video_exited,
            audio_exited,
        } ==> (video_exited ==> exit_reported(events, Track::Video)) && (audio_exited
            ==> exit_reported(events, Track::Audio)),
        start_asked(state, options, events).contains(StartAction::Succeed) <==> start_run(
            state,
            options,
            events,
        ).1 == StartStage::Done,
    decreases events.len(),
{
    if events.len() > 0 {
        let front = events.drop_last();
        let (before, stage) = start_run(state, options, front);
        let asked = start_asked(state, options, front);
        let all = start_asked(state, options, events);
        let action = start_step(before, options, stage, events.last()).2;
        law_start_returns_after_both_exits(state, options, front);
        if exit_reported(front, Track::Video) {
            let i = choose|i: int|
                0 <= i < front.len() && front[i] == StartEvent::DispatcherExited(Track::Video);
            assert(events[i] == StartEvent::DispatcherExited(Track::Video));
        }
        if exit_reported(front, Track::Audio) {
            let i = choose|i: int|
                0 <= i < front.len() && front[i] == StartEvent::DispatcherExited(Track::Audio);
            assert(events[i] == StartEvent::DispatcherExited(Track::Audio));
        }
        if stage is Dispatching && events.last() is DispatcherExited {
            assert(events[events.len() - 1] == events.last());
        }
        if action == StartAction::Ignore {
            assert(all == asked);
        } else {
            assert(all == asked.push(action));
            lemma_contains_push(asked, action, StartAction::Succeed);
        }
    }
}

/// A start that has failed has left the record as it found it, has not let
/// the dispatchers run, and asks for nothing more.
pub proof fn law_failed_start(
    state: RecordingState,
    options: RecordingOptions,
    events: Seq<StartEvent>,
)
    requires
        start_run(state, options, events).1 == StartStage::Failed,
    ensures
        start_run(state, options, events).0 == state,
        !start_asked(state, options, events).contains(StartAction::RunDispatchers),
        forall|event: StartEvent| #[trigger]
            start_step(state, options, StartStage::Failed, event) == (
                state,
                StartStage::Failed,
                StartAction::Ignore,
            ),
    decreases events.len(),
{
    if events.len() > 0 {
        let front = events.drop_last();
        let (before, stage) = start_run(state, options, front);
        let asked = start_asked(state, options, front);
        let all = start_asked(state, options, events);
        if stage == StartStage::Failed {
            law_failed_start(state, options, front);
            assert(all == asked);
        } else {
            law_start_order(state, options, front);
            let action = start_step(before, options, stage, events.last()).2;
            assert(all == asked.push(action));
            lemma_contains_push(asked, action, StartAction::RunDispatchers);
            assert(asked == asked_by(stage, Track::Video));
            if asked.contains(StartAction::RunDispatchers) {
                let k = choose|k: int|
                    0 <= k < asked.len() && asked[k] == StartAction::RunDispatchers;
                assert(setup_actions()[k] == StartAction::RunDispatchers);
            }
        }
    }
}

/// What the capture engine is started with: the options of the session, the
/// three working directories, each in its place, and the audio device.
pub struct CaptureRequest {
    pub options: RecordingOptions,
    /// Where the engine writes the audio segments and their ledger.
    pub audio_dir: WorkDir,
    /// Where the engine writes the screenshot.
    pub screenshot_dir: WorkDir,
    /// Where the engine writes the video segments and their ledger.
    pub video_dir: WorkDir,
    /// The audio device to open, if any.
    pub audio_device: Option<String>,
}

/// What the capture engine is started with for a session with these options.
/// The audio device is the one that the options name, and none where they
/// name none.
pub fn capture_request(options: &RecordingOptions) -> (request: CaptureRequest)
    ensures
        request.options == *options,
        request.audio_dir == WorkDir::AudioChunks,
        request.screenshot_dir == WorkDir::Screenshots,
        request.video_dir == WorkDir::VideoChunks,
        device_view(request.audio_device) == options.spec_audio_device(),
{
    CaptureRequest {
        options: options.clone(),
        audio_dir: WorkDir::AudioChunks,
        screenshot_dir: WorkDir::Screenshots,
        video_dir: WorkDir::VideoChunks,
        audio_device: options.audio_device(),
    }
}

/// The three working directories of a session as the law below sees them.
pub struct WorkspaceModel {
    pub audio: DirectoryModel,
    pub video: DirectoryModel,
    pub screenshots: DirectoryModel,
}

impl WorkspaceModel {
    /// The given working directory.
    pub open spec fn directory(self, dir: WorkDir) -> DirectoryModel {
        match dir {
            WorkDir::AudioChunks => self.audio,
            WorkDir::VideoChunks => self.video,
            WorkDir::Screenshots => self.screenshots,
        }
    }

    /// The same directories, but for the given one.
    pub open spec fn with(self, dir: WorkDir, directory: DirectoryModel) -> WorkspaceModel {
        match dir {
            WorkDir::AudioChunks => WorkspaceModel { audio: directory, ..self },
            WorkDir::VideoChunks => WorkspaceModel { video: directory, ..self },
            WorkDir::Screenshots => WorkspaceModel { screenshots: directory, ..self },
        }
    }
}

/// A start run on directories on which every operation succeeds, for at most
/// `resets` resets: each directory that the start asks for is reset as the
/// preparer resets it. The run ends with the first answer that asks for
/// something else. It gives the record, the stage, that answer, and the
/// directories as they then are.
pub open spec fn start_setup(
    state: RecordingState,
    options: RecordingOptions,
    stage: StartStage,
    event: StartEvent,
    directories: WorkspaceModel,
    resets: nat,
) -> (RecordingState, StartStage, StartAction, WorkspaceModel)
    decreases resets,
{
    let (record, next, action) = start_step(state, options, stage, event);
    if resets > 0 && action is Prepare {
        let dir = action->Prepare_0;
        let (end, left) = prepared(dir, directories.directory(dir));
        start_setup(
            record,
            options,
            next,
            if end == PrepareStage::Done {
                StartEvent::DirectoryReady
            } else {
                StartEvent::DirectoryFailed
            },
            directories.with(dir, left),
            (resets - 1) as nat,
        )
    } else {
        (record, next, action, directories)
    }
}

/// When a start asks for the capture, the three working directories are
/// clean, whatever they held: each segment directory holds an empty ledger
/// and nothing else, and the screenshot directory holds nothing. The record
/// is still as it was.
pub proof fn law_directories_clean_at_capture(
    state: RecordingState,
    options: RecordingOptions,
    directories: WorkspaceModel,
)
    requires
        state.data_dir is Some,
    ensures
        start_setup(state, options, StartStage::Idle, StartEvent::Begin, directories, 3) == (
            state,
            StartStage::StartingCapture,
            StartAction::StartCapture,
            WorkspaceModel {
                audio: clean_directory(WorkDir::AudioChunks),
                video: clean_directory(WorkDir::VideoChunks),
                screenshots: clean_directory(WorkDir::Screenshots),
            },
        ),
{
    reveal_with_fuel(start_setup, 5);
    law_prepare_leaves_clean(WorkDir::AudioChunks, directories.audio);
    law_prepare_leaves_clean(WorkDir::VideoChunks, directories.video);
    law_prepare_leaves_clean(WorkDir::Screenshots, directories.screenshots);
}

/// A start without a data directory fails at its first step and asks for
/// nothing else; with one, it begins with the audio directory.
pub proof fn law_start_needs_data_dir(state: RecordingState, options: RecordingOptions)
    ensures
        state.data_dir is None ==> start_step(state, options, StartStage::Idle, StartEvent::Begin)
            == (state, StartStage::Failed, StartAction::Fail(StartError::DataDirNotSet)),
        state.data_dir is Some ==> start_step(state, options, StartStage::Idle, StartEvent::Begin)
            == (
            state,
            StartStage::Preparing(WorkDir::AudioChunks),
            StartAction::Prepare(WorkDir::AudioChunks),
        ),
{
}

/// The record and the stage after a stop was told the events of `events`, one
/// after the other.
pub open spec fn stop_run(state: RecordingState, events: Seq<StopEvent>) -> (
    RecordingState,
    StopStage,
)
    decreases events.len(),
{
    if events.len() == 0 {
        (state, StopStage::Idle)
    } else {
        let (before, stage) = stop_run(state, events.drop_last());
        let (after, next, _) = stop_step(before, stage, events.last());
        (after, next)
    }
}

/// A stop answers with success only while it waits, only to a reading of the
/// flags, and only when both tracks are then known to be finished.
pub proof fn law_stop_succeeds_only_when_finished(
    state: RecordingState,
    stage: StopStage,
    event: StopEvent,
)
    ensures
        stop_step(state, stage, event).2 == StopAction::Succeed <==> (stage == StopStage::Waiting
            && event is Polled && stop_step(state, stage, event).0.all_finished()),
        stop_step(state, stage, event).1 == StopStage::Done && stage != StopStage::Done ==> stop_step(
            state,
            stage,
            event,
        ).2 == StopAction::Succeed,
{
}

/// Whatever a stop is told: it has returned only if both tracks were reported
/// as finished; a finished flag that is set stays set; and once the stop has
/// begun, the shutdown flag is raised and stays so.
pub proof fn law_stop_waits_for_both(state: RecordingState, events: Seq<StopEvent>)
    ensures
        stop_run(state, events).1 == StopStage::Done ==> stop_run(state, events).0.all_finished(),
        state.video_uploading_finished ==> stop_run(state, events).0.video_uploading_finished,
        state.audio_uploading_finished ==> stop_run(state, events).0.audio_uploading_finished,
        state.shutdown_flag || stop_run(state, events).1 != StopStage::Idle ==> stop_run(
            state,
            events,
        ).0.shutdown_flag,
        stop_run(state, events).0.data_dir == state.data_dir,
        stop_run(state, events).0.recording_options == state.recording_options,
    decreases events.len(),
{
    if events.len() > 0 {
        law_stop_waits_for_both(state, events.drop_last());
    }
}

/// A finished flag comes to be set in a stop only by a reading that reports
/// it: a stop does not make a track finished.
pub proof fn law_stop_only_notes_reports(
    state: RecordingState,
    stage: StopStage,
    event: StopEvent,
)
    ensures
        stop_step(state, stage, event).0.video_uploading_finished
            && !state.video_uploading_finished ==> stage == StopStage::Waiting && event is Polled
            && event->video_finished,
        stop_step(state, stage, event).0.audio_uploading_finished
            && !state.audio_uploading_finished ==> stage == StopStage::Waiting && event is Polled
            && event->audio_finished,
{
}

} // verus!
