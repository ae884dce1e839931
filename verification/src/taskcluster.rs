//! The artifact provider seam: fetching the browser build archive for a
//! task.

use vstd::prelude::*;

use crate::ErrorMessage;

verus! {

/// The name of the artifact containing the result of a build task.
pub const BUILD_ARTIFACT_NAME: &'static str = "public/build/target.zip";

/// A provider of build artifacts, keyed by task ID.
///
/// The shipped implementation downloads from the build service over HTTP;
/// tests substitute canned archives. The provider's contract is its
/// signature alone: it downloads the build archive for `task_id` into
/// `download_dir` and returns the archive's path, or reports why it could
/// not.
pub trait Taskcluster: Sized {
    /// Download the build artifact of a task into `download_dir`, returning
    /// the path of the downloaded archive.
    fn download_build_artifact(&mut self, task_id: &str, download_dir: &str) -> Result<
        String,
        ErrorMessage,
    >;
}

} // verus!
