//! Configuration values for the recorder and the runner.
//!
//! Reading the configuration file is the programs' concern; the library
//! holds the validated values the protocol logic needs.

use vstd::prelude::*;

verus! {

/// The size of a video or display, in pixels.
#[derive(Clone, Copy, Debug, PartialEq, Eq, Structural)]
pub struct Size {
    /// The size in the y dimension.
    pub y: u16,
    /// The size in the x dimension.
    pub x: u16,
}

/// Recording-specific configuration for the video capture.
#[derive(Debug)]
pub struct RecordingConfig {
    /// The path of the video capture executable.
    pub ffmpeg_path: String,
    /// The name of the video capture device.
    pub device: String,
    /// The size of the video stream.
    pub video_size: Size,
    /// The frame rate to capture at.
    pub frame_rate: u8,
    /// The output size of the video, if it is to be scaled.
    pub output_size: Option<Size>,
    /// The capture buffer size argument.
    pub buffer_size: String,
    /// The minimum recording time, in seconds.
    pub minimum_recording_time_secs: u8,
}

} // verus!
