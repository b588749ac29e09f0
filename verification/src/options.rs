//! The options a recording session is started with.

use vstd::prelude::*;

verus! {

/// What the caller chooses for one recording session.
#[derive(Debug)]
pub struct RecordingOptions {
    pub user_id: String,
    pub video_id: String,
    pub screen_index: String,
    pub video_index: String,
    pub audio_name: String,
    pub aws_region: String,
    pub aws_bucket: String,
}

/// The name of an audio device, if there is one, as contracts see it.
pub open spec fn device_view(device: Option<String>) -> Option<Seq<char>> {
    match device {
        Some(name) => Some(name@),
        None => None,
    }
}

impl Clone for RecordingOptions {
    fn clone(&self) -> (copy: RecordingOptions)
        ensures
            copy == *self,
    {
        RecordingOptions {
            user_id: self.user_id.clone(),
            video_id: self.video_id.clone(),
            screen_index: self.screen_index.clone(),
            video_index: self.video_index.clone(),
            audio_name: self.audio_name.clone(),
            aws_region: self.aws_region.clone(),
            aws_bucket: self.aws_bucket.clone(),
        }
    }
}

impl RecordingOptions {
    /// The audio device the capture engine is asked to open: the configured
    /// name, or none when the name is empty.
    pub open spec fn spec_audio_device(&self) -> Option<Seq<char>> {
        if self.audio_name@.len() == 0 {
            None
        } else {
            Some(self.audio_name@)
        }
    }

    /// Picks the audio device for the capture engine.
    pub fn audio_device(&self) -> (device: Option<String>)
        ensures
            device_view(device) == self.spec_audio_device(),
    {
        if self.audio_name.as_str().is_empty() {
            None
        } else {
            Some(self.audio_name.clone())
        }
    }
}

} // verus!
