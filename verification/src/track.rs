//! The two media tracks of a session, its working directories, and the names
//! of what they keep on disk.

use vstd::prelude::*;

verus! {

/// One of the two media streams of a session. Each has a working directory
/// and a dispatcher of its own.
#[derive(Clone, Copy, Debug, PartialEq, Eq, Structural)]
pub enum Track {
    Video,
    Audio,
}

impl Track {
    /// Whether the track has a companion screenshot. Only the video track
    /// has one.
    pub open spec fn has_screenshot(self) -> bool {
        self == Track::Video
    }

    /// The label under which the track's segments are uploaded.
    pub open spec fn spec_label(self) -> Seq<char> {
        match self {
            Track::Video => "video"@,
            Track::Audio => "audio"@,
        }
    }

    /// The track's segment directory, relative to the session's data
    /// directory.
    pub open spec fn spec_chunks_dir(self) -> Seq<char> {
        match self {
            Track::Video => "chunks/video"@,
            Track::Audio => "chunks/audio"@,
        }
    }

    /// Whether the track's dispatcher looks for a screenshot.
    pub fn watches_screenshot(self) -> (watches: bool)
        ensures
            watches == self.has_screenshot(),
    {
        match self {
            Track::Video => true,
            Track::Audio => false,
        }
    }

    /// The label under which the track's segments are uploaded.
    pub fn label(self) -> (label: &'static str)
        ensures
            label@ == self.spec_label(),
    {
        match self {
            Track::Video => "video",
            Track::Audio => "audio",
        }
    }

    /// The track's segment directory, relative to the session's data
    /// directory.
    pub fn chunks_dir(self) -> (dir: &'static str)
        ensures
            dir@ == self.spec_chunks_dir(),
    {
        match self {
            Track::Video => "chunks/video",
            Track::Audio => "chunks/audio",
        }
    }
}

/// One of the three working directories of a session.
#[derive(Clone, Copy, Debug, PartialEq, Eq, Structural)]
pub enum WorkDir {
    /// Where the audio track's segments and its ledger are written.
    AudioChunks,
    /// Where the video track's segments and its ledger are written.
    VideoChunks,
    /// Where the screenshot is written. It holds no ledger.
    Screenshots,
}

impl WorkDir {
    /// Whether the directory is a segment directory, which holds a ledger.
    /// The screenshot directory is the one that holds none.
    pub open spec fn holds_ledger(self) -> bool {
        self != WorkDir::Screenshots
    }

    /// The directory's path, relative to the session's data directory.
    pub open spec fn spec_relative_path(self) -> Seq<char> {
        match self {
            WorkDir::AudioChunks => Track::Audio.spec_chunks_dir(),
            WorkDir::VideoChunks => Track::Video.spec_chunks_dir(),
            WorkDir::Screenshots => "screenshots"@,
        }
    }

    /// Whether the directory gets a ledger when it is reset.
    pub fn has_ledger(self) -> (ledger: bool)
        ensures
            ledger == self.holds_ledger(),
    {
        match self {
            WorkDir::AudioChunks => true,
            WorkDir::VideoChunks => true,
            WorkDir::Screenshots => false,
        }
    }

    /// The directory's path, relative to the session's data directory.
    pub fn relative_path(self) -> (path: &'static str)
        ensures
            path@ == self.spec_relative_path(),
    {
        match self {
            WorkDir::AudioChunks => Track::Audio.chunks_dir(),
            WorkDir::VideoChunks => Track::Video.chunks_dir(),
            WorkDir::Screenshots => screenshot_dir(),
        }
    }
}

impl Track {
    /// The directory in which the track's segments and its ledger lie.
    pub open spec fn spec_work_dir(self) -> WorkDir {
        match self {
            Track::Video => WorkDir::VideoChunks,
            Track::Audio => WorkDir::AudioChunks,
        }
    }

    /// The directory in which the track's segments and its ledger lie.
    pub fn work_dir(self) -> (dir: WorkDir)
        ensures
            dir == self.spec_work_dir(),
            dir.holds_ledger(),
    {
        match self {
            Track::Video => WorkDir::VideoChunks,
            Track::Audio => WorkDir::AudioChunks,
        }
    }
}

/// The screenshot directory, relative to the session's data directory.
pub fn screenshot_dir() -> (dir: &'static str)
    ensures
        dir@ == "screenshots"@,
{
    "screenshots"
}

/// The name of the ledger inside a track's segment directory.
pub fn ledger_file_name() -> (name: &'static str)
    ensures
        name@ == "segment_list.txt"@,
{
    "segment_list.txt"
}

/// The name of the screenshot inside the screenshot directory.
pub fn screenshot_file_name() -> (name: &'static str)
    ensures
        name@ == "screen-capture.jpg"@,
{
    "screen-capture.jpg"
}

/// The label under which a screenshot is uploaded, whatever the track.
pub fn screenshot_label() -> (label: &'static str)
    ensures
        label@ == "screenshot"@,
{
    "screenshot"
}

} // verus!
