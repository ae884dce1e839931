//! Normalization of the visual metrics computed from a recording.
//!
//! The metrics tool ignores the orange frames painted while the browser
//! starts; the recorder knows the timestamp of the first orange frame and
//! shifts every metric so that the video's start is at zero. The library
//! models the visual-progress curve as parsed `(timestamp, percent)`
//! pairs; decoding the video and computing the raw metrics are the
//! caller's concern.

use vstd::prelude::*;

use crate::ErrorMessage;

verus! {

/// An error from running the video capture tool.
#[derive(Debug)]
pub enum FfmpegError {
    /// The tool could not be started.
    Spawn(ErrorMessage),
    /// The tool's exit could not be awaited.
    Wait(ErrorMessage),
    /// The tool exited with this non-zero status.
    ExitCode(i32),
}

/// An error from cropping a recorded video.
#[derive(Debug)]
pub struct CropVideoError(pub FfmpegError);

/// An error from extracting the frames of a recorded video.
#[derive(Debug)]
pub enum ExtractFramesError {
    /// The frame directory could not be created, at this path.
    CreateDir(ErrorMessage, String),
    /// The capture tool failed.
    Ffmpeg(FfmpegError),
}

/// The visual metrics of one recording, in milliseconds since the start
/// of the video. The visual-progress curve holds one `(timestamp,
/// percent)` entry per change.
#[derive(Debug)]
pub struct VisualMetrics {
    /// When the recording's first non-orange frame was painted.
    pub video_recording_start: u32,
    /// When the first visual change occurred.
    pub first_visual_change: u32,
    /// When the last visual change occurred.
    pub last_visual_change: u32,
    /// The speed index.
    pub speed_index: u32,
    /// The visual-progress curve.
    pub visual_progress: Vec<(u32, String)>,
}

/// The normalized progress curve: every entry after the first is shifted
/// by the orange duration.
pub open spec fn spec_shift_progress(
    entries: Seq<(u32, Seq<char>)>,
    shift: int,
) -> Seq<(u32, Seq<char>)> {
    Seq::new(
        entries.len(),
        |i: int|
            if i == 0 {
                entries[0]
            } else {
                (((entries[i].0 + shift) as u32), entries[i].1)
            },
    )
}

/// The views of a progress curve.
pub open spec fn progress_view(entries: Seq<(u32, String)>) -> Seq<(u32, Seq<char>)> {
    Seq::new(entries.len(), |i: int| (entries[i].0, entries[i].1@))
}

impl VisualMetrics {
    /// Normalize the metrics so that the video's start is at zero.
    ///
    /// The metrics tool reports `video_recording_start` as the first
    /// non-orange frame; the orange frames before it, painted from
    /// `orange_frame_timestamp` on, belong to the startup being measured.
    /// Every metric is shifted by that orange duration.
    pub fn normalize(&self, orange_frame_timestamp: u32) -> (r: VisualMetrics)
        requires
            self.video_recording_start != 0,
            orange_frame_timestamp <= self.video_recording_start,
            self.last_visual_change + (self.video_recording_start - orange_frame_timestamp)
                <= u32::MAX,
            self.speed_index + 100 * (self.video_recording_start - orange_frame_timestamp)
                <= u32::MAX,
            forall|i: int|
                0 <= i < self.visual_progress@.len() ==> (#[trigger] self.visual_progress@[i]).0
                    + (self.video_recording_start - orange_frame_timestamp) <= u32::MAX,
        ensures
            ({
                let orange_duration = self.video_recording_start - orange_frame_timestamp;
                &&& r.video_recording_start == orange_frame_timestamp
                &&& r.first_visual_change == self.video_recording_start
                &&& r.last_visual_change == self.last_visual_change + orange_duration
                &&& r.speed_index == self.speed_index + 100 * orange_duration
                &&& progress_view(r.visual_progress@) == spec_shift_progress(
                    progress_view(self.visual_progress@),
                    orange_duration,
                )
            }),
    {
        let orange_duration: u32 = self.video_recording_start - orange_frame_timestamp;
        let mut shifted: Vec<(u32, String)> = Vec::new();
        let mut i: usize = 0;
        let ghost entries = progress_view(self.visual_progress@);
        while i < self.visual_progress.len()
            invariant
                i <= self.visual_progress@.len(),
                entries == progress_view(self.visual_progress@),
                orange_duration == self.video_recording_start - orange_frame_timestamp,
                forall|j: int|
                    0 <= j < self.visual_progress@.len() ==> (
                    #[trigger] self.visual_progress@[j]).0 + orange_duration <= u32::MAX,
                shifted@.len() == i,
                forall|j: int|
                    0 <= j < i ==> #[trigger] progress_view(shifted@)[j] == spec_shift_progress(
                        entries,
                        orange_duration as int,
                    )[j],
            decreases self.visual_progress@.len() - i,
        {
            let entry: &(u32, String) = &self.visual_progress[i];
            let key: u32 = if i == 0 {
                entry.0
            } else {
                entry.0 + orange_duration
            };
            let cloned = entry.1.clone();
            let ghost prev = shifted@;
            shifted.push((key, cloned));
            proof {
                let d = orange_duration as int;
                let target = spec_shift_progress(entries, d);
                assert forall|j: int| 0 <= j <= i implies #[trigger] progress_view(shifted@)[j]
                    == target[j] by {
                    if j < i {
                        assert(shifted@[j] == prev[j]);
                        assert(progress_view(prev)[j] == target[j]);
                    } else {
                        assert(shifted@[j] == (key, cloned));
                        assert(cloned@ == self.visual_progress@[j].1@);
                        assert(entries[j] == (self.visual_progress@[j].0, self.visual_progress@[
                            j].1@));
                    }
                }
            }
            i = i + 1;
        }
        proof {
            assert(progress_view(shifted@) =~~= spec_shift_progress(
                entries,
                orange_duration as int,
            ));
        }
        VisualMetrics {
            video_recording_start: orange_frame_timestamp,
            first_visual_change: self.video_recording_start,
            last_visual_change: self.last_visual_change + orange_duration,
            speed_index: self.speed_index + 100 * orange_duration,
            visual_progress: shifted,
        }
    }
}

} // verus!
