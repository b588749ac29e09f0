use recording::coordinator::{
    capture_request, data_dir_not_set_message, new_dispatchers, start_dual_recording,
    stop_all_recordings, RecordingState, StartAction, StartError, StartEvent, StartStage,
    StopAction, StopEvent, StopStage, STOP_POLL_INTERVAL_MS,
};
use recording::dispatcher::{Action, Dispatcher, Event, Observation};
use recording::options::RecordingOptions;
use recording::track::{Track, WorkDir};

fn session_options(audio_name: &str) -> RecordingOptions {
    RecordingOptions {
        user_id: "user-1".to_string(),
        video_id: "video-7".to_string(),
        screen_index: "0".to_string(),
        video_index: "1".to_string(),
        audio_name: audio_name.to_string(),
        aws_region: "eu-west-1".to_string(),
        aws_bucket: "recordings".to_string(),
    }
}

fn configured() -> RecordingState {
    RecordingState::new(Some("/data".to_string()))
}

/// Tells a start the events in turn and returns what it asked for.
fn start(
    state: &mut RecordingState,
    options: &RecordingOptions,
    events: &[StartEvent],
) -> (StartStage, Vec<StartAction>) {
    let mut stage = StartStage::Idle;
    let mut asked = Vec::new();
    for event in events {
        let (next, action) = start_dual_recording(state, options, stage, *event);
        stage = next;
        asked.push(action);
    }
    (stage, asked)
}

/// Tells a stop the events in turn and returns what it asked for.
fn stop(state: &mut RecordingState, events: &[StopEvent]) -> (StopStage, Vec<StopAction>) {
    let mut stage = StopStage::Idle;
    let mut asked = Vec::new();
    for event in events {
        let (next, action) = stop_all_recordings(state, stage, *event);
        stage = next;
        asked.push(action);
    }
    (stage, asked)
}

fn assert_untouched(state: &RecordingState, data_dir: Option<&str>) {
    assert!(!state.capture_active);
    assert!(state.recording_options.is_none());
    assert!(!state.shutdown_flag);
    assert!(!state.video_uploading_finished);
    assert!(!state.audio_uploading_finished);
    assert_eq!(state.data_dir.as_deref(), data_dir);
}

#[test]
fn stop_poll_interval_is_fixed() {
    assert_eq!(STOP_POLL_INTERVAL_MS, 50);
}

#[test]
fn working_directories_lie_below_the_data_directory() {
    assert_eq!(WorkDir::AudioChunks.relative_path(), "chunks/audio");
    assert_eq!(WorkDir::VideoChunks.relative_path(), "chunks/video");
    assert_eq!(WorkDir::Screenshots.relative_path(), "screenshots");
}

#[test]
fn new_record_has_no_flag_set() {
    assert_untouched(&RecordingState::new(None), None);
    assert_untouched(&configured(), Some("/data"));
}

#[test]
fn start_without_data_directory_fails() {
    let mut state = RecordingState::new(None);
    let (stage, asked) = start(&mut state, &session_options("mic"), &[StartEvent::Begin]);
    assert_eq!(stage, StartStage::Failed);
    assert_eq!(asked, vec![StartAction::Fail(StartError::DataDirNotSet)]);
    assert_untouched(&state, None);
    assert_eq!(data_dir_not_set_message(), "Data directory is not set in the recording state");
}

#[test]
fn start_resets_the_directories_then_captures_then_dispatches() {
    let mut state = configured();
    state.shutdown_flag = true;
    state.video_uploading_finished = true;
    state.audio_uploading_finished = true;
    let (stage, asked) = start(&mut state, &session_options("mic"), &[
        StartEvent::Begin,
        StartEvent::DirectoryReady,
        StartEvent::DirectoryReady,
        StartEvent::DirectoryReady,
        StartEvent::CaptureStarted,
    ]);
    assert_eq!(stage, StartStage::Dispatching { video_exited: false, audio_exited: false });
    assert_eq!(asked, vec![
        StartAction::Prepare(WorkDir::AudioChunks),
        StartAction::Prepare(WorkDir::VideoChunks),
        StartAction::Prepare(WorkDir::Screenshots),
        StartAction::StartCapture,
        StartAction::RunDispatchers,
    ]);
    assert!(state.capture_active);
    assert!(!state.shutdown_flag);
    assert!(!state.video_uploading_finished);
    assert!(!state.audio_uploading_finished);
    assert_eq!(state.data_dir.as_deref(), Some("/data"));
    let kept = state.recording_options.as_ref().unwrap();
    assert_eq!(kept.user_id, "user-1");
    assert_eq!(kept.video_id, "video-7");
    assert_eq!(kept.screen_index, "0");
    assert_eq!(kept.video_index, "1");
    assert_eq!(kept.audio_name, "mic");
    assert_eq!(kept.aws_region, "eu-west-1");
    assert_eq!(kept.aws_bucket, "recordings");
}

#[test]
fn start_returns_when_both_dispatchers_have_left() {
    for (first, second) in [(Track::Video, Track::Audio), (Track::Audio, Track::Video)] {
        let mut state = configured();
        let (stage, asked) = start(&mut state, &session_options(""), &[
            StartEvent::Begin,
            StartEvent::DirectoryReady,
            StartEvent::DirectoryReady,
            StartEvent::DirectoryReady,
            StartEvent::CaptureStarted,
            StartEvent::DispatcherExited(first),
            StartEvent::DispatcherExited(first),
            StartEvent::DispatcherExited(second),
            StartEvent::DispatcherExited(second),
        ]);
        assert_eq!(stage, StartStage::Done);
        assert_eq!(asked[4], StartAction::RunDispatchers);
        assert_eq!(asked[5], StartAction::AwaitDispatcher(second));
        assert_eq!(asked[6], StartAction::Ignore);
        assert_eq!(asked[7], StartAction::Succeed);
        assert_eq!(asked[8], StartAction::Ignore);
    }
}

#[test]
fn one_dispatcher_that_has_left_does_not_end_the_start() {
    let mut state = configured();
    let (stage, asked) = start(&mut state, &session_options("mic"), &[
        StartEvent::Begin,
        StartEvent::DirectoryReady,
        StartEvent::DirectoryReady,
        StartEvent::DirectoryReady,
        StartEvent::CaptureStarted,
        StartEvent::DispatcherExited(Track::Audio),
    ]);
    assert_eq!(stage, StartStage::Dispatching { video_exited: false, audio_exited: true });
    assert_eq!(asked[5], StartAction::AwaitDispatcher(Track::Video));
    assert!(!asked.contains(&StartAction::Succeed));
    assert!(state.capture_active);
}

#[test]
fn dispatcher_cannot_leave_before_it_was_let_run() {
    let mut state = configured();
    let (stage, asked) = start(&mut state, &session_options("mic"), &[
        StartEvent::Begin,
        StartEvent::DispatcherExited(Track::Video),
        StartEvent::DispatcherExited(Track::Audio),
    ]);
    assert_eq!(stage, StartStage::Preparing(WorkDir::AudioChunks));
    assert_eq!(asked[1], StartAction::Ignore);
    assert_eq!(asked[2], StartAction::Ignore);
}

#[test]
fn capture_is_started_on_the_three_directories_each_in_its_place() {
    let request = capture_request(&session_options("Mic"));
    assert_eq!(request.audio_dir, WorkDir::AudioChunks);
    assert_eq!(request.screenshot_dir, WorkDir::Screenshots);
    assert_eq!(request.video_dir, WorkDir::VideoChunks);
    assert_eq!(request.audio_dir.relative_path(), "chunks/audio");
    assert_eq!(request.screenshot_dir.relative_path(), "screenshots");
    assert_eq!(request.video_dir.relative_path(), "chunks/video");
    assert_eq!(request.audio_device, Some("Mic".to_string()));
    assert_eq!(request.options.user_id, "user-1");
    assert_eq!(request.options.video_id, "video-7");
    assert_eq!(request.options.screen_index, "0");
    assert_eq!(request.options.video_index, "1");
    assert_eq!(request.options.audio_name, "Mic");
    assert_eq!(request.options.aws_region, "eu-west-1");
    assert_eq!(request.options.aws_bucket, "recordings");
}

#[test]
fn capture_without_audio_name_opens_no_audio_device() {
    assert_eq!(capture_request(&session_options("")).audio_device, None);
}

#[test]
fn directory_failure_ends_the_start_before_the_capture() {
    let dirs = [WorkDir::AudioChunks, WorkDir::VideoChunks, WorkDir::Screenshots];
    for (failing, dir) in dirs.iter().enumerate() {
        let mut state = configured();
        let mut events = vec![StartEvent::Begin];
        for _ in 0..failing {
            events.push(StartEvent::DirectoryReady);
        }
        events.push(StartEvent::DirectoryFailed);
        events.push(StartEvent::DirectoryReady);
        events.push(StartEvent::CaptureStarted);
        events.push(StartEvent::DispatcherExited(Track::Video));
        events.push(StartEvent::DispatcherExited(Track::Audio));
        let (stage, asked) = start(&mut state, &session_options("mic"), &events);
        assert_eq!(stage, StartStage::Failed);
        assert_eq!(asked[failing + 1], StartAction::Fail(StartError::DirectoryNotReset(*dir)));
        assert!(asked[failing + 2..].iter().all(|action| *action == StartAction::Ignore));
        assert!(!asked.contains(&StartAction::StartCapture));
        assert!(!asked.contains(&StartAction::RunDispatchers));
        assert_untouched(&state, Some("/data"));
    }
}

#[test]
fn capture_failure_ends_the_start_before_any_dispatcher() {
    let mut state = configured();
    state.video_uploading_finished = true;
    let (stage, asked) = start(&mut state, &session_options("mic"), &[
        StartEvent::Begin,
        StartEvent::DirectoryReady,
        StartEvent::DirectoryReady,
        StartEvent::DirectoryReady,
        StartEvent::CaptureFailed,
        StartEvent::CaptureStarted,
    ]);
    assert_eq!(stage, StartStage::Failed);
    assert_eq!(asked[4], StartAction::Fail(StartError::CaptureNotStarted));
    assert_eq!(asked[5], StartAction::Ignore);
    assert!(!asked.contains(&StartAction::RunDispatchers));
    assert!(!state.capture_active);
    assert!(state.recording_options.is_none());
    assert!(state.video_uploading_finished);
}

#[test]
fn start_ignores_events_out_of_turn() {
    let mut state = configured();
    let (stage, asked) = start(&mut state, &session_options("mic"), &[
        StartEvent::CaptureStarted,
        StartEvent::DirectoryReady,
        StartEvent::DispatcherExited(Track::Video),
        StartEvent::Begin,
        StartEvent::Begin,
        StartEvent::CaptureStarted,
    ]);
    assert_eq!(stage, StartStage::Preparing(WorkDir::AudioChunks));
    assert_eq!(asked, vec![
        StartAction::Ignore,
        StartAction::Ignore,
        StartAction::Ignore,
        StartAction::Prepare(WorkDir::AudioChunks),
        StartAction::Ignore,
        StartAction::Ignore,
    ]);
    assert_untouched(&state, Some("/data"));
}

#[test]
fn stop_raises_the_flag_and_stops_an_active_capture() {
    let mut state = configured();
    state.capture_active = true;
    let (stage, asked) = stop(&mut state, &[StopEvent::Begin]);
    assert_eq!(stage, StopStage::StoppingCapture);
    assert_eq!(asked, vec![StopAction::StopCapture]);
    assert!(state.shutdown_flag);
    assert!(!state.capture_active);
}

#[test]
fn stop_without_capture_goes_straight_to_the_flags() {
    let mut state = configured();
    let (stage, asked) = stop(&mut state, &[StopEvent::Begin]);
    assert_eq!(stage, StopStage::Waiting);
    assert_eq!(asked, vec![StopAction::Poll]);
    assert!(state.shutdown_flag);
}

#[test]
fn stop_waits_until_both_tracks_have_finished() {
    let mut state = configured();
    state.capture_active = true;
    let (stage, asked) = stop(&mut state, &[
        StopEvent::Begin,
        StopEvent::CaptureStopped,
        StopEvent::Polled { video_finished: false, audio_finished: false },
        StopEvent::Polled { video_finished: false, audio_finished: true },
        StopEvent::Polled { video_finished: false, audio_finished: true },
        StopEvent::Polled { video_finished: true, audio_finished: true },
        StopEvent::Polled { video_finished: true, audio_finished: true },
    ]);
    assert_eq!(stage, StopStage::Done);
    assert_eq!(asked, vec![
        StopAction::StopCapture,
        StopAction::Poll,
        StopAction::Wait { millis: 50 },
        StopAction::Wait { millis: 50 },
        StopAction::Wait { millis: 50 },
        StopAction::Succeed,
        StopAction::Ignore,
    ]);
    assert!(state.video_uploading_finished);
    assert!(state.audio_uploading_finished);
    assert!(state.shutdown_flag);
}

#[test]
fn stop_returns_at_once_when_both_tracks_have_finished() {
    let mut state = configured();
    let (stage, asked) = stop(&mut state, &[
        StopEvent::Begin,
        StopEvent::Polled { video_finished: true, audio_finished: true },
    ]);
    assert_eq!(stage, StopStage::Done);
    assert_eq!(asked, vec![StopAction::Poll, StopAction::Succeed]);
}

#[test]
fn one_finished_track_is_not_enough() {
    for (video_finished, audio_finished) in [(true, false), (false, true), (false, false)] {
        let mut state = configured();
        let (stage, asked) = stop(&mut state, &[
            StopEvent::Begin,
            StopEvent::Polled { video_finished, audio_finished },
        ]);
        assert_eq!(stage, StopStage::Waiting);
        assert_eq!(asked, vec![StopAction::Poll, StopAction::Wait { millis: 50 }]);
        assert_eq!(state.video_uploading_finished, video_finished);
        assert_eq!(state.audio_uploading_finished, audio_finished);
    }
}

#[test]
fn finished_flag_once_noted_stays_set() {
    let mut state = configured();
    let (stage, asked) = stop(&mut state, &[
        StopEvent::Begin,
        StopEvent::Polled { video_finished: true, audio_finished: false },
        StopEvent::Polled { video_finished: false, audio_finished: false },
    ]);
    assert_eq!(stage, StopStage::Waiting);
    assert_eq!(asked, vec![StopAction::Poll, StopAction::Wait { millis: 50 }, StopAction::Wait { millis: 50 }]);
    assert!(state.video_uploading_finished);
    assert!(!state.audio_uploading_finished);
}

#[test]
fn capture_that_does_not_stop_fails_the_stop() {
    let mut state = configured();
    state.capture_active = true;
    let (stage, asked) = stop(&mut state, &[
        StopEvent::Begin,
        StopEvent::CaptureStopFailed,
        StopEvent::Polled { video_finished: true, audio_finished: true },
    ]);
    assert_eq!(stage, StopStage::Failed);
    assert_eq!(asked, vec![StopAction::StopCapture, StopAction::Fail, StopAction::Ignore]);
    assert!(state.shutdown_flag);
    assert!(!state.video_uploading_finished);
}

#[test]
fn stop_ignores_a_reading_before_it_has_begun() {
    let mut state = configured();
    let (stage, asked) = stop(&mut state, &[
        StopEvent::Polled { video_finished: true, audio_finished: true },
        StopEvent::CaptureStopped,
    ]);
    assert_eq!(stage, StopStage::Idle);
    assert_eq!(asked, vec![StopAction::Ignore, StopAction::Ignore]);
    assert_untouched(&state, Some("/data"));
}

#[test]
fn new_session_clears_the_flags_of_the_last() {
    let mut state = configured();
    let ready = [
        StartEvent::Begin,
        StartEvent::DirectoryReady,
        StartEvent::DirectoryReady,
        StartEvent::DirectoryReady,
        StartEvent::CaptureStarted,
    ];
    start(&mut state, &session_options("mic"), &ready);
    stop(&mut state, &[
        StopEvent::Begin,
        StopEvent::CaptureStopped,
        StopEvent::Polled { video_finished: true, audio_finished: true },
    ]);
    assert!(state.shutdown_flag && state.video_uploading_finished && state.audio_uploading_finished);
    assert!(!state.capture_active);

    start(&mut state, &session_options(""), &ready);
    assert!(state.capture_active);
    assert!(!state.shutdown_flag);
    assert!(!state.video_uploading_finished);
    assert!(!state.audio_uploading_finished);
    assert_eq!(state.recording_options.as_ref().unwrap().audio_name, "");
}

/// Lets a dispatcher run one pass with the shutdown flag as the record has it.
/// Returns whether the dispatcher has set its finished flag.
fn run_pass(dispatcher: &mut Dispatcher, state: &RecordingState, ledger: &str) -> bool {
    assert_eq!(dispatcher.step(Event::Tick { shutdown: state.shutdown_flag }), Action::Observe);
    let pending = dispatcher.pending_segments(ledger.as_bytes());
    let observed = Observation {
        ledger: ledger.as_bytes().to_vec(),
        present: pending,
        screenshot_present: false,
    };
    match dispatcher.step(Event::Observed(observed)) {
        Action::Upload(_) => {}
        other => panic!("a pass answers with its uploads, not with {:?}", other),
    }
    dispatcher.step(Event::Settled) == Action::Finish
}

#[test]
fn session_from_start_to_stop() {
    let mut state = configured();
    let (stage, _) = start(&mut state, &session_options("mic"), &[
        StartEvent::Begin,
        StartEvent::DirectoryReady,
        StartEvent::DirectoryReady,
        StartEvent::DirectoryReady,
        StartEvent::CaptureStarted,
    ]);
    assert_eq!(stage, StartStage::Dispatching { video_exited: false, audio_exited: false });
    let (mut video, mut audio) = new_dispatchers();
    assert_eq!(video.track(), Track::Video);
    assert_eq!(audio.track(), Track::Audio);
    assert!(!run_pass(&mut video, &state, "v_0\n"));
    assert!(!run_pass(&mut audio, &state, "a_0\n"));

    let mut stop_stage = StopStage::Idle;
    let (next, action) = stop_all_recordings(&mut state, stop_stage, StopEvent::Begin);
    assert_eq!(action, StopAction::StopCapture);
    stop_stage = next;
    let (next, action) = stop_all_recordings(&mut state, stop_stage, StopEvent::CaptureStopped);
    assert_eq!(action, StopAction::Poll);
    stop_stage = next;

    let (next, action) = stop_all_recordings(&mut state, stop_stage, StopEvent::Polled {
        video_finished: video.is_finished(),
        audio_finished: audio.is_finished(),
    });
    assert_eq!(action, StopAction::Wait { millis: 50 });
    stop_stage = next;

    assert!(run_pass(&mut video, &state, "v_0\nv_1\n"));
    let (next, action) = stop_all_recordings(&mut state, stop_stage, StopEvent::Polled {
        video_finished: video.is_finished(),
        audio_finished: audio.is_finished(),
    });
    assert_eq!(action, StopAction::Wait { millis: 50 });
    stop_stage = next;

    assert!(run_pass(&mut audio, &state, "a_0\n"));
    let (next, action) = stop_all_recordings(&mut state, stop_stage, StopEvent::Polled {
        video_finished: video.is_finished(),
        audio_finished: audio.is_finished(),
    });
    assert_eq!(action, StopAction::Succeed);
    assert_eq!(next, StopStage::Done);

    let (stage, action) = start_dual_recording(
        &mut state,
        &session_options("mic"),
        StartStage::Dispatching { video_exited: false, audio_exited: false },
        StartEvent::DispatcherExited(Track::Video),
    );
    assert_eq!(action, StartAction::AwaitDispatcher(Track::Audio));
    let (stage, action) = start_dual_recording(
        &mut state,
        &session_options("mic"),
        stage,
        StartEvent::DispatcherExited(Track::Audio),
    );
    assert_eq!((stage, action), (StartStage::Done, StartAction::Succeed));
}

#[test]
fn stop_called_during_a_pass_returns_after_the_last_pass_has_settled() {
    let mut state = configured();
    start(&mut state, &session_options("mic"), &[
        StartEvent::Begin,
        StartEvent::DirectoryReady,
        StartEvent::DirectoryReady,
        StartEvent::DirectoryReady,
        StartEvent::CaptureStarted,
    ]);
    let mut video = Dispatcher::new(Track::Video);
    let mut audio = Dispatcher::new(Track::Audio);
    let poll = |video: &Dispatcher, audio: &Dispatcher| StopEvent::Polled {
        video_finished: video.is_finished(),
        audio_finished: audio.is_finished(),
    };
    let look = |ledger: &str, present: &[&str]| {
        Event::Observed(Observation {
            ledger: ledger.as_bytes().to_vec(),
            present: present.iter().map(|name| name.as_bytes().to_vec()).collect(),
            screenshot_present: false,
        })
    };
    let segment = |name: &str| recording::dispatcher::UploadTask::Segment {
        name: name.as_bytes().to_vec(),
    };

    // The audio track is between two passes. The video track has three
    // uploads under way.
    assert!(!run_pass(&mut audio, &state, ""));
    assert_eq!(video.step(Event::Tick { shutdown: state.shutdown_flag }), Action::Observe);
    assert_eq!(
        video.step(look("seg_0\nseg_1\nseg_2\n", &["seg_0", "seg_1", "seg_2"])),
        Action::Upload(vec![segment("seg_0"), segment("seg_1"), segment("seg_2")])
    );

    // Now the stop is called.
    let (stage, action) = stop_all_recordings(&mut state, StopStage::Idle, StopEvent::Begin);
    assert_eq!(action, StopAction::StopCapture);
    assert!(state.shutdown_flag);
    let (stage, action) = stop_all_recordings(&mut state, stage, StopEvent::CaptureStopped);
    assert_eq!(action, StopAction::Poll);
    let (stage, action) = stop_all_recordings(&mut state, stage, poll(&video, &audio));
    assert_eq!(action, StopAction::Wait { millis: 50 });

    // The audio track sees the flag and runs its last pass.
    assert!(run_pass(&mut audio, &state, ""));
    let (stage, action) = stop_all_recordings(&mut state, stage, poll(&video, &audio));
    assert_eq!(action, StopAction::Wait { millis: 50 });
    assert!(state.audio_uploading_finished);
    assert!(!state.video_uploading_finished);

    // The three uploads end. The video track is not finished by that.
    assert_eq!(video.step(Event::Settled), Action::Sleep { millis: 100 });
    let (stage, action) = stop_all_recordings(&mut state, stage, poll(&video, &audio));
    assert_eq!(action, StopAction::Wait { millis: 50 });

    // Its last pass finds one more segment, and only when that upload has
    // ended is the track finished and the stop returns.
    assert_eq!(video.step(Event::Tick { shutdown: state.shutdown_flag }), Action::Observe);
    let (stage, action) = stop_all_recordings(&mut state, stage, poll(&video, &audio));
    assert_eq!(action, StopAction::Wait { millis: 50 });
    assert_eq!(
        video.step(look("seg_0\nseg_1\nseg_2\nseg_3\n", &["seg_3"])),
        Action::Upload(vec![segment("seg_3")])
    );
    let (stage, action) = stop_all_recordings(&mut state, stage, poll(&video, &audio));
    assert_eq!(action, StopAction::Wait { millis: 50 });
    assert_eq!(video.step(Event::Settled), Action::Finish);
    let (stage, action) = stop_all_recordings(&mut state, stage, poll(&video, &audio));
    assert_eq!(action, StopAction::Succeed);
    assert_eq!(stage, StopStage::Done);
}
