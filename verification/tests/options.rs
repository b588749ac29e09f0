use recording::options::RecordingOptions;
use recording::track::{
    ledger_file_name, screenshot_dir, screenshot_file_name, screenshot_label, Track, WorkDir,
};

fn chosen_options(audio_name: &str) -> RecordingOptions {
    RecordingOptions {
        user_id: "user-1".to_string(),
        video_id: "video-7".to_string(),
        screen_index: "0".to_string(),
        video_index: "1".to_string(),
        audio_name: audio_name.to_string(),
        aws_region: "eu-west-1".to_string(),
        aws_bucket: "recordings".to_string(),
    }
}

#[test]
fn empty_audio_name_means_no_audio_device() {
    assert_eq!(chosen_options("").audio_device(), None);
}

#[test]
fn audio_name_is_the_audio_device() {
    assert_eq!(chosen_options("Built-in Microphone").audio_device(), Some("Built-in Microphone".to_string()));
    assert_eq!(chosen_options(" ").audio_device(), Some(" ".to_string()));
}

#[test]
fn clone_keeps_every_option() {
    let chosen = chosen_options("mic");
    let copy = chosen.clone();
    assert_eq!(copy.user_id, "user-1");
    assert_eq!(copy.video_id, "video-7");
    assert_eq!(copy.screen_index, "0");
    assert_eq!(copy.video_index, "1");
    assert_eq!(copy.audio_name, "mic");
    assert_eq!(copy.aws_region, "eu-west-1");
    assert_eq!(copy.aws_bucket, "recordings");
    assert_eq!(chosen.audio_name, "mic");
}

#[test]
fn tracks_have_their_labels_and_directories() {
    assert_eq!(Track::Video.label(), "video");
    assert_eq!(Track::Audio.label(), "audio");
    assert_eq!(Track::Video.chunks_dir(), "chunks/video");
    assert_eq!(Track::Audio.chunks_dir(), "chunks/audio");
    assert!(Track::Video.watches_screenshot());
    assert!(!Track::Audio.watches_screenshot());
    assert_eq!(Track::Video.work_dir(), WorkDir::VideoChunks);
    assert_eq!(Track::Audio.work_dir(), WorkDir::AudioChunks);
}

#[test]
fn files_on_disk_have_their_names() {
    assert_eq!(ledger_file_name(), "segment_list.txt");
    assert_eq!(screenshot_dir(), "screenshots");
    assert_eq!(screenshot_file_name(), "screen-capture.jpg");
    assert_eq!(screenshot_label(), "screenshot");
}
