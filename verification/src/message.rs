//! Message catalogue for the session protocol.
//!
//! Two closed enums cross the wire: [`RecorderMessage`] (controller to
//! runner, a single `Session` request) and [`RunnerMessage`] (runner to
//! controller, one variant per phase acknowledgement). Each variant has a
//! kind tag; a receiver that knows which phase it is in also knows the kind
//! it expects, and any other kind is a protocol error.

use vstd::prelude::*;

use crate::prefs::{PrefValue, PrefValueV};
use crate::ErrorMessage;

verus! {

/// Whether the runner should wait to become idle before the recording.
#[derive(Clone, Copy, Debug, PartialEq, Eq, Structural)]
pub enum Idle {
    /// Wait to become idle.
    Wait,
    /// Skip waiting to become idle.
    Skip,
}

/// Progress of a multi-step download-and-extract phase.
///
/// The statuses are totally ordered: `Downloading < Downloaded < Extracted`.
#[derive(Clone, Copy, Debug, PartialEq, Eq, Structural)]
pub enum DownloadStatus {
    Downloading,
    Downloaded,
    Extracted,
}

/// The position of a status in the total order on `DownloadStatus`.
pub open spec fn status_rank(s: DownloadStatus) -> int {
    match s {
        DownloadStatus::Downloading => 0,
        DownloadStatus::Downloaded => 1,
        DownloadStatus::Extracted => 2,
    }
}

impl DownloadStatus {
    /// Return the next status in the total order, if any.
    pub fn next(&self) -> (r: Option<DownloadStatus>)
        ensures
            match r {
                Some(n) => status_rank(n) == status_rank(*self) + 1,
                None => status_rank(*self) == 2,
            },
    {
        match self {
            DownloadStatus::Downloading => Some(DownloadStatus::Downloaded),
            DownloadStatus::Downloaded => Some(DownloadStatus::Extracted),
            DownloadStatus::Extracted => None,
        }
    }

    /// The status as the string that crosses the wire.
    pub fn as_str(&self) -> (r: &'static str)
        ensures
            r@ == spec_status_str(*self),
    {
        match self {
            DownloadStatus::Downloading => "Downloading",
            DownloadStatus::Downloaded => "Downloaded",
            DownloadStatus::Extracted => "Extracted",
        }
    }
}

/// The wire spelling of each download status.
pub open spec fn spec_status_str(s: DownloadStatus) -> Seq<char> {
    match s {
        DownloadStatus::Downloading => "Downloading"@,
        DownloadStatus::Downloaded => "Downloaded"@,
        DownloadStatus::Extracted => "Extracted"@,
    }
}

/// A result relayed from the remote party: the error is a plain message.
pub type ForeignResult<T> = Result<T, ErrorMessage>;

/// The mathematical value of a [`ForeignResult`].
pub open spec fn foreign_view<T>(r: ForeignResult<T>) -> Result<T, Seq<char>> {
    match r {
        Ok(t) => Ok(t),
        Err(e) => Err(e.0@),
    }
}

/// A request for a new session.
pub struct NewSessionRequest {
    /// The task ID naming the build to download.
    pub build_task_id: String,
    /// The size in bytes of the profile archive that will follow, if any.
    pub profile_size: Option<u64>,
    /// Prefs to override in the profile.
    pub prefs: Vec<(String, PrefValue)>,
}

/// A request to resume an existing session after the restart.
pub struct ResumeSessionRequest {
    /// The ID of the session being resumed.
    pub session_id: String,
    /// Whether the runner should wait for idle before recording.
    pub idle: Idle,
}

/// The single top-level request from the controller.
pub enum Session {
    /// Prepare a new session, then restart.
    NewSession(NewSessionRequest),
    /// Resume a session prepared before the restart.
    ResumeSession(ResumeSessionRequest),
}

/// The mathematical value of a pref list.
pub open spec fn prefs_view(prefs: Seq<(String, PrefValue)>) -> Seq<(Seq<char>, PrefValueV)> {
    Seq::new(prefs.len(), |i: int| (prefs[i].0@, prefs[i].1@))
}

/// The mathematical value of a [`Session`] request.
pub enum SessionV {
    NewSessionV {
        build_task_id: Seq<char>,
        profile_size: Option<u64>,
        prefs: Seq<(Seq<char>, PrefValueV)>,
    },
    ResumeSessionV { session_id: Seq<char>, idle: Idle },
}

impl View for Session {
    type V = SessionV;

    open spec fn view(&self) -> SessionV {
        match self {
            Session::NewSession(req) => SessionV::NewSessionV {
                build_task_id: req.build_task_id@,
                profile_size: req.profile_size,
                prefs: prefs_view(req.prefs@),
            },
            Session::ResumeSession(req) => SessionV::ResumeSessionV {
                session_id: req.session_id@,
                idle: req.idle,
            },
        }
    }
}

// --- Runner messages -------------------------------------------------------

/// The kind tag of a [`RunnerMessage`].
#[derive(Clone, Copy, Debug, PartialEq, Eq, Structural)]
pub enum RunnerMessageKind {
    DownloadBuild,
    DisableUpdates,
    RecvProfile,
    CreateProfile,
    WritePrefs,
    Restarting,
    NewSessionResponse,
    ResumeResponse,
    WaitForIdle,
}

/// The status of the download-build phase.
pub struct DownloadBuild {
    pub result: ForeignResult<DownloadStatus>,
}

/// The status of the disable-updates phase.
pub struct DisableUpdates {
    pub result: ForeignResult<()>,
}

/// The status of the receive-profile phase.
pub struct RecvProfile {
    pub result: ForeignResult<DownloadStatus>,
}

/// The result of the create-profile phase, when no profile was supplied.
pub struct CreateProfile {
    pub result: ForeignResult<()>,
}

/// The status of the write-prefs phase.
pub struct WritePrefs {
    pub result: ForeignResult<()>,
}

/// The status of the restart phase.
pub struct Restarting {
    pub result: ForeignResult<()>,
}

/// The response to a new-session request, carrying the session ID.
pub struct NewSessionResponse {
    pub session_id: ForeignResult<String>,
}

/// The response to a resume-session request.
pub struct ResumeResponse {
    pub result: ForeignResult<()>,
}

/// The status of the wait-for-idle phase.
pub struct WaitForIdle {
    pub result: ForeignResult<()>,
}

/// A message from the runner to the recorder: one phase acknowledgement.
pub enum RunnerMessage {
    DownloadBuild(DownloadBuild),
    DisableUpdates(DisableUpdates),
    RecvProfile(RecvProfile),
    CreateProfile(CreateProfile),
    WritePrefs(WritePrefs),
    Restarting(Restarting),
    NewSessionResponse(NewSessionResponse),
    ResumeResponse(ResumeResponse),
    WaitForIdle(WaitForIdle),
}

/// The mathematical value of a [`RunnerMessage`].
pub enum RunnerMessageV {
    DownloadBuildV(Result<DownloadStatus, Seq<char>>),
    DisableUpdatesV(Result<(), Seq<char>>),
    RecvProfileV(Result<DownloadStatus, Seq<char>>),
    CreateProfileV(Result<(), Seq<char>>),
    WritePrefsV(Result<(), Seq<char>>),
    RestartingV(Result<(), Seq<char>>),
    NewSessionResponseV(Result<Seq<char>, Seq<char>>),
    ResumeResponseV(Result<(), Seq<char>>),
    WaitForIdleV(Result<(), Seq<char>>),
}

impl View for RunnerMessage {
    type V = RunnerMessageV;

    open spec fn view(&self) -> RunnerMessageV {
        match self {
            RunnerMessage::DownloadBuild(c) => RunnerMessageV::DownloadBuildV(
                foreign_view(c.result),
            ),
            RunnerMessage::DisableUpdates(c) => RunnerMessageV::DisableUpdatesV(
                foreign_view(c.result),
            ),
            RunnerMessage::RecvProfile(c) => RunnerMessageV::RecvProfileV(foreign_view(c.result)),
            RunnerMessage::CreateProfile(c) => RunnerMessageV::CreateProfileV(
                foreign_view(c.result),
            ),
            RunnerMessage::WritePrefs(c) => RunnerMessageV::WritePrefsV(foreign_view(c.result)),
            RunnerMessage::Restarting(c) => RunnerMessageV::RestartingV(foreign_view(c.result)),
            RunnerMessage::NewSessionResponse(c) => RunnerMessageV::NewSessionResponseV(
                match &c.session_id {
                    Ok(id) => Ok(id@),
                    Err(e) => Err(e.0@),
                },
            ),
            RunnerMessage::ResumeResponse(c) => RunnerMessageV::ResumeResponseV(
                foreign_view(c.result),
            ),
            RunnerMessage::WaitForIdle(c) => RunnerMessageV::WaitForIdleV(foreign_view(c.result)),
        }
    }
}

/// The kind of a runner message value.
pub open spec fn kind_of(v: RunnerMessageV) -> RunnerMessageKind {
    match v {
        RunnerMessageV::DownloadBuildV(_) => RunnerMessageKind::DownloadBuild,
        RunnerMessageV::DisableUpdatesV(_) => RunnerMessageKind::DisableUpdates,
        RunnerMessageV::RecvProfileV(_) => RunnerMessageKind::RecvProfile,
        RunnerMessageV::CreateProfileV(_) => RunnerMessageKind::CreateProfile,
        RunnerMessageV::WritePrefsV(_) => RunnerMessageKind::WritePrefs,
        RunnerMessageV::RestartingV(_) => RunnerMessageKind::Restarting,
        RunnerMessageV::NewSessionResponseV(_) => RunnerMessageKind::NewSessionResponse,
        RunnerMessageV::ResumeResponseV(_) => RunnerMessageKind::ResumeResponse,
        RunnerMessageV::WaitForIdleV(_) => RunnerMessageKind::WaitForIdle,
    }
}

impl RunnerMessage {
    /// The kind tag of this message.
    pub fn kind(&self) -> (k: RunnerMessageKind)
        ensures
            k == kind_of(self@),
    {
        match self {
            RunnerMessage::DownloadBuild(_) => RunnerMessageKind::DownloadBuild,
            RunnerMessage::DisableUpdates(_) => RunnerMessageKind::DisableUpdates,
            RunnerMessage::RecvProfile(_) => RunnerMessageKind::RecvProfile,
            RunnerMessage::CreateProfile(_) => RunnerMessageKind::CreateProfile,
            RunnerMessage::WritePrefs(_) => RunnerMessageKind::WritePrefs,
            RunnerMessage::Restarting(_) => RunnerMessageKind::Restarting,
            RunnerMessage::NewSessionResponse(_) => RunnerMessageKind::NewSessionResponse,
            RunnerMessage::ResumeResponse(_) => RunnerMessageKind::ResumeResponse,
            RunnerMessage::WaitForIdle(_) => RunnerMessageKind::WaitForIdle,
        }
    }
}

// --- Recorder messages -----------------------------------------------------

/// The kind tag of a [`RecorderMessage`].
#[derive(Clone, Copy, Debug, PartialEq, Eq, Structural)]
pub enum RecorderMessageKind {
    Session,
}

/// A message from the recorder to the runner.
pub enum RecorderMessage {
    /// The one top-level request.
    Session(Session),
}

/// The mathematical value of a [`RecorderMessage`].
pub enum RecorderMessageV {
    SessionMsgV(SessionV),
}

impl View for RecorderMessage {
    type V = RecorderMessageV;

    open spec fn view(&self) -> RecorderMessageV {
        match self {
            RecorderMessage::Session(s) => RecorderMessageV::SessionMsgV(s@),
        }
    }
}

impl RecorderMessage {
    /// The kind tag of this message.
    pub fn kind(&self) -> (k: RecorderMessageKind)
        ensures
            k == RecorderMessageKind::Session,
    {
        RecorderMessageKind::Session
    }
}

// --- Typed extraction ------------------------------------------------------

/// A message arrived whose kind was not the one the phase called for.
#[derive(Clone, Copy, Debug, PartialEq, Eq, Structural)]
pub struct KindMismatch<K> {
    /// The kind the receiver expected.
    pub expected: K,
    /// The kind that actually arrived.
    pub actual: K,
}

/// A phase acknowledgement that can be wrapped into, and extracted from,
/// the runner's message enum.
///
/// `try_extract` succeeds exactly when the message's kind is this content
/// type's kind; the content determines the message and the message the
/// content.
pub trait MessageContent: Sized + View {
    /// The kind tag of this content type.
    spec fn spec_kind() -> RunnerMessageKind;

    /// The message value wrapping a content value.
    spec fn spec_wrap(v: Self::V) -> RunnerMessageV;

    /// The kind tag of this content type.
    fn kind() -> (k: RunnerMessageKind)
        ensures
            k == Self::spec_kind(),
    ;

    /// Wrap this content into a message.
    fn into_message(self) -> (m: RunnerMessage)
        ensures
            m@ == Self::spec_wrap(self@),
            kind_of(m@) == Self::spec_kind(),
    ;

    /// Extract this content from a message of the matching kind.
    fn try_extract(m: RunnerMessage) -> (r: Result<Self, KindMismatch<RunnerMessageKind>>)
        ensures
            match r {
                Ok(c) => m@ == Self::spec_wrap(c@) && kind_of(m@) == Self::spec_kind(),
                Err(e) => {
                    &&& kind_of(m@) != Self::spec_kind()
                    &&& e.expected == Self::spec_kind()
                    &&& e.actual == kind_of(m@)
                },
            },
    ;
}

impl View for DownloadBuild {
    type V = Result<DownloadStatus, Seq<char>>;

    open spec fn view(&self) -> Self::V {
        foreign_view(self.result)
    }
}

impl MessageContent for DownloadBuild {
    open spec fn spec_kind() -> RunnerMessageKind {
        RunnerMessageKind::DownloadBuild
    }

    open spec fn spec_wrap(v: Self::V) -> RunnerMessageV {
        RunnerMessageV::DownloadBuildV(v)
    }

    fn kind() -> RunnerMessageKind {
        RunnerMessageKind::DownloadBuild
    }

    fn into_message(self) -> RunnerMessage {
        RunnerMessage::DownloadBuild(self)
    }

    fn try_extract(m: RunnerMessage) -> Result<Self, KindMismatch<RunnerMessageKind>> {
        match m {
            RunnerMessage::DownloadBuild(c) => Ok(c),
            other => Err(
                KindMismatch { expected: RunnerMessageKind::DownloadBuild, actual: other.kind() },
            ),
        }
    }
}

impl View for DisableUpdates {
    type V = Result<(), Seq<char>>;

    open spec fn view(&self) -> Self::V {
        foreign_view(self.result)
    }
}

impl MessageContent for DisableUpdates {
    open spec fn spec_kind() -> RunnerMessageKind {
        RunnerMessageKind::DisableUpdates
    }

    open spec fn spec_wrap(v: Self::V) -> RunnerMessageV {
        RunnerMessageV::DisableUpdatesV(v)
    }

    fn kind() -> RunnerMessageKind {
        RunnerMessageKind::DisableUpdates
    }

    fn into_message(self) -> RunnerMessage {
        RunnerMessage::DisableUpdates(self)
    }

    fn try_extract(m: RunnerMessage) -> Result<Self, KindMismatch<RunnerMessageKind>> {
        match m {
            RunnerMessage::DisableUpdates(c) => Ok(c),
            other => Err(
                KindMismatch { expected: RunnerMessageKind::DisableUpdates, actual: other.kind() },
            ),
        }
    }
}

impl View for RecvProfile {
    type V = Result<DownloadStatus, Seq<char>>;

    open spec fn view(&self) -> Self::V {
        foreign_view(self.result)
    }
}

impl MessageContent for RecvProfile {
    open spec fn spec_kind() -> RunnerMessageKind {
        RunnerMessageKind::RecvProfile
    }

    open spec fn spec_wrap(v: Self::V) -> RunnerMessageV {
        RunnerMessageV::RecvProfileV(v)
    }

    fn kind() -> RunnerMessageKind {
        RunnerMessageKind::RecvProfile
    }

    fn into_message(self) -> RunnerMessage {
        RunnerMessage::RecvProfile(self)
    }

    fn try_extract(m: RunnerMessage) -> Result<Self, KindMismatch<RunnerMessageKind>> {
        match m {
            RunnerMessage::RecvProfile(c) => Ok(c),
            other => Err(
                KindMismatch { expected: RunnerMessageKind::RecvProfile, actual: other.kind() },
            ),
        }
    }
}

impl View for CreateProfile {
    type V = Result<(), Seq<char>>;

    open spec fn view(&self) -> Self::V {
        foreign_view(self.result)
    }
}

impl MessageContent for CreateProfile {
    open spec fn spec_kind() -> RunnerMessageKind {
        RunnerMessageKind::CreateProfile
    }

    open spec fn spec_wrap(v: Self::V) -> RunnerMessageV {
        RunnerMessageV::CreateProfileV(v)
    }

    fn kind() -> RunnerMessageKind {
        RunnerMessageKind::CreateProfile
    }

    fn into_message(self) -> RunnerMessage {
        RunnerMessage::CreateProfile(self)
    }

    fn try_extract(m: RunnerMessage) -> Result<Self, KindMismatch<RunnerMessageKind>> {
        match m {
            RunnerMessage::CreateProfile(c) => Ok(c),
            other => Err(
                KindMismatch { expected: RunnerMessageKind::CreateProfile, actual: other.kind() },
            ),
        }
    }
}

impl View for WritePrefs {
    type V = Result<(), Seq<char>>;

    open spec fn view(&self) -> Self::V {
        foreign_view(self.result)
    }
}

impl MessageContent for WritePrefs {
    open spec fn spec_kind() -> RunnerMessageKind {
        RunnerMessageKind::WritePrefs
    }

    open spec fn spec_wrap(v: Self::V) -> RunnerMessageV {
        RunnerMessageV::WritePrefsV(v)
    }

    fn kind() -> RunnerMessageKind {
        RunnerMessageKind::WritePrefs
    }

    fn into_message(self) -> RunnerMessage {
        RunnerMessage::WritePrefs(self)
    }

    fn try_extract(m: RunnerMessage) -> Result<Self, KindMismatch<RunnerMessageKind>> {
        match m {
            RunnerMessage::WritePrefs(c) => Ok(c),
            other => Err(
                KindMismatch { expected: RunnerMessageKind::WritePrefs, actual: other.kind() },
            ),
        }
    }
}

impl View for Restarting {
    type V = Result<(), Seq<char>>;

    open spec fn view(&self) -> Self::V {
        foreign_view(self.result)
    }
}

impl MessageContent for Restarting {
    open spec fn spec_kind() -> RunnerMessageKind {
        RunnerMessageKind::Restarting
    }

    open spec fn spec_wrap(v: Self::V) -> RunnerMessageV {
        RunnerMessageV::RestartingV(v)
    }

    fn kind() -> RunnerMessageKind {
        RunnerMessageKind::Restarting
    }

    fn into_message(self) -> RunnerMessage {
        RunnerMessage::Restarting(self)
    }

    fn try_extract(m: RunnerMessage) -> Result<Self, KindMismatch<RunnerMessageKind>> {
        match m {
            RunnerMessage::Restarting(c) => Ok(c),
            other => Err(
                KindMismatch { expected: RunnerMessageKind::Restarting, actual: other.kind() },
            ),
        }
    }
}

impl View for NewSessionResponse {
    type V = Result<Seq<char>, Seq<char>>;

    open spec fn view(&self) -> Self::V {
        match &self.session_id {
            Ok(id) => Ok(id@),
            Err(e) => Err(e.0@),
        }
    }
}

impl MessageContent for NewSessionResponse {
    open spec fn spec_kind() -> RunnerMessageKind {
        RunnerMessageKind::NewSessionResponse
    }

    open spec fn spec_wrap(v: Self::V) -> RunnerMessageV {
        RunnerMessageV::NewSessionResponseV(v)
    }

    fn kind() -> RunnerMessageKind {
        RunnerMessageKind::NewSessionResponse
    }

    fn into_message(self) -> RunnerMessage {
        RunnerMessage::NewSessionResponse(self)
    }

    fn try_extract(m: RunnerMessage) -> Result<Self, KindMismatch<RunnerMessageKind>> {
        match m {
            RunnerMessage::NewSessionResponse(c) => Ok(c),
            other => Err(
                KindMismatch {
                    expected: RunnerMessageKind::NewSessionResponse,
                    actual: other.kind(),
                },
            ),
        }
    }
}

impl View for ResumeResponse {
    type V = Result<(), Seq<char>>;

    open spec fn view(&self) -> Self::V {
        foreign_view(self.result)
    }
}

impl MessageContent for ResumeResponse {
    open spec fn spec_kind() -> RunnerMessageKind {
        RunnerMessageKind::ResumeResponse
    }

    open spec fn spec_wrap(v: Self::V) -> RunnerMessageV {
        RunnerMessageV::ResumeResponseV(v)
    }

    fn kind() -> RunnerMessageKind {
        RunnerMessageKind::ResumeResponse
    }

    fn into_message(self) -> RunnerMessage {
        RunnerMessage::ResumeResponse(self)
    }

    fn try_extract(m: RunnerMessage) -> Result<Self, KindMismatch<RunnerMessageKind>> {
        match m {
            RunnerMessage::ResumeResponse(c) => Ok(c),
            other => Err(
                KindMismatch { expected: RunnerMessageKind::ResumeResponse, actual: other.kind() },
            ),
        }
    }
}

impl View for WaitForIdle {
    type V = Result<(), Seq<char>>;

    open spec fn view(&self) -> Self::V {
        foreign_view(self.result)
    }
}

impl MessageContent for WaitForIdle {
    open spec fn spec_kind() -> RunnerMessageKind {
        RunnerMessageKind::WaitForIdle
    }

    open spec fn spec_wrap(v: Self::V) -> RunnerMessageV {
        RunnerMessageV::WaitForIdleV(v)
    }

    fn kind() -> RunnerMessageKind {
        RunnerMessageKind::WaitForIdle
    }

    fn into_message(self) -> RunnerMessage {
        RunnerMessage::WaitForIdle(self)
    }

    fn try_extract(m: RunnerMessage) -> Result<Self, KindMismatch<RunnerMessageKind>> {
        match m {
            RunnerMessage::WaitForIdle(c) => Ok(c),
            other => Err(
                KindMismatch { expected: RunnerMessageKind::WaitForIdle, actual: other.kind() },
            ),
        }
    }
}

} // verus!
