//! Coordination of a recording session's capture-to-cloud pipeline.
//!
//! A recorder writes rolling media segments into one directory per track and
//! appends each segment's file name to the directory's ledger. This library
//! holds the decisions around that:
//!
//! - [`ledger`]: which segment names a ledger lists;
//! - [`dispatcher`]: which segments a track hands out for upload, pass by
//!   pass, and when the track is finished;
//! - [`history`]: what holds of a dispatcher over a whole session;
//! - [`preparer`]: how a working directory is reset before a session;
//! - [`coordinator`]: how a session is started and stopped;
//! - [`session`]: what holds of a stop and the two dispatchers together;
//! - [`options`] and [`track`]: the values that the others share;
//! - [`seqs`]: two facts about sequences that the proofs share.
//!
//! Nothing here reads a file, waits, or talks to a capture engine or an
//! uploader. Each part that has to do with the world outside is a machine
//! that is told what happened and answers with what to do next.

pub mod seqs;
pub mod options;
pub mod ledger;
pub mod track;
pub mod dispatcher;
pub mod history;
pub mod preparer;
pub mod coordinator;
pub mod session;

pub use coordinator::{start_dual_recording, stop_all_recordings, RecordingState};
pub use options::RecordingOptions;
