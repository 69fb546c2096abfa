//! Keeps a media player's playback position in step with the timing facts
//! that a separate program appends to its text log.

pub mod central;
pub mod line_split;
pub mod local_time;
pub mod log_files;
pub mod log_line;
pub mod matching;
pub mod mpv_commander;
pub mod options;
pub mod seek_offset;
pub mod text;
pub mod timing;
pub mod views;
pub mod vrc_log_reader;
pub mod vrc_log_watcher;
