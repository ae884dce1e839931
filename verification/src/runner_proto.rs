//! The runner side of the session protocol: the worker state machine.
//!
//! A connection handler receives one [`Session`] request and drives it
//! through the prescribed phases, emitting one acknowledgement per phase
//! step. The handler's contract pins down the whole acknowledgement
//! transcript: which messages go out, in which order, with which payloads,
//! as a function of what the collaborators returned.

use vstd::prelude::*;


use crate::message::{
    kind_of, CreateProfile, DisableUpdates, DownloadBuild, DownloadStatus, Idle, MessageContent,
    NewSessionRequest, NewSessionResponse, RecvProfile, Restarting, ResumeResponse, ResumeSessionRequest,
    RunnerMessage, RunnerMessageKind, RunnerMessageV, Session, WaitForIdle, WritePrefs,
};
use crate::osapi::{cpu_and_disk_idle, idle_wait_outcome, Perf, PerfProvider, ShutdownProvider,
    WaitForIdleError, spec_idle_error_message};
use crate::prefs::{render_prefs, write_prefs, PrefValue};
use crate::session::{
    spec_new_session_error_message, spec_resume_error_message, spec_valid_session_id, path_join,
    spec_path_join, NewSessionError, ResumeSessionError, SessionInfo, SessionManager,
};
use crate::taskcluster::Taskcluster;
use crate::zip::{spec_zip_error_message, ZipError};
use crate::ErrorMessage;

verus! {

/// The sending half of the runner's connection.
///
/// The wire itself is an effect: implementations frame and transmit the
/// message, or copy the raw profile bytes off the socket into a file. What
/// the handler promises about the transcript is tracked by [`Proto`].
pub trait Transport: Sized {
    /// Send one message to the recorder.
    fn send(&mut self, msg: RunnerMessage) -> Result<(), ErrorMessage>;

    /// Read exactly `size` raw bytes from the connection into the file at
    /// `dest_path`.
    fn recv_profile_raw(&mut self, dest_path: &str, size: u64) -> Result<(), ErrorMessage>;
}

/// A transport together with the ghost transcript of the messages it has
/// accepted for sending, in order.
pub struct Proto<W: Transport> {
    /// The underlying transport.
    pub inner: W,
    sent: Ghost<Seq<RunnerMessageV>>,
}

impl<W: Transport> Proto<W> {
    /// The messages sent so far, in wire order.
    pub closed spec fn sent(&self) -> Seq<RunnerMessageV> {
        self.sent@
    }

    /// Wrap a transport; nothing has been sent yet.
    pub fn new(inner: W) -> (r: Self)
        ensures
            r.sent() == Seq::<RunnerMessageV>::empty(),
    {
        Proto { inner, sent: Ghost(Seq::empty()) }
    }

    /// Send one phase acknowledgement.
    pub fn send<M: MessageContent>(&mut self, m: M) -> (r: Result<(), ErrorMessage>)
        ensures
            r is Ok ==> final(self).sent() == old(self).sent().push(M::spec_wrap(m@)),
            r is Err ==> final(self).sent() == old(self).sent(),
    {
        let ghost v = M::spec_wrap(m@);
        let msg = m.into_message();
        match self.inner.send(msg) {
            Ok(()) => {
                proof {
                    self.sent@ = self.sent@.push(v);
                }
                Ok(())
            },
            Err(e) => Err(e),
        }
    }

    /// Receive the raw profile bytes into a file; no message is sent.
    pub fn recv_profile_raw(&mut self, dest_path: &str, size: u64) -> (r: Result<(), ErrorMessage>)
        ensures
            final(self).sent() == old(self).sent(),
    {
        self.inner.recv_profile_raw(dest_path, size)
    }
}

/// An error in the runner's handling of a session request.
#[derive(Debug)]
pub enum RunnerProtoError {
    /// The received profile archive contained no files.
    EmptyProfile,
    /// The extracted build has no browser binary.
    MissingFirefox,
    /// A transport failure: a send, or the raw profile read.
    Proto(ErrorMessage),
    /// The restart could not be initiated.
    Shutdown(ErrorMessage),
    /// The auto-update policy could not be written.
    DisableUpdates(ErrorMessage),
    /// The build artifact could not be downloaded.
    Taskcluster(ErrorMessage),
    /// The idle wait failed or timed out.
    WaitForIdle(WaitForIdleError),
    /// An archive could not be extracted.
    Zip(ZipError),
    /// No session could be created.
    NewSession(NewSessionError),
    /// The session could not be resumed.
    ResumeSession(ResumeSessionError),
    /// The empty profile directory could not be created.
    EnsureProfile(ErrorMessage),
}

/// The error text the runner reports for a failed phase.
pub open spec fn spec_runner_error_message(e: RunnerProtoError) -> Seq<char> {
    match e {
        RunnerProtoError::EmptyProfile => "empty profile"@,
        RunnerProtoError::MissingFirefox => "No browser binary in build artifact"@,
        RunnerProtoError::Proto(m) => m.0@,
        RunnerProtoError::Shutdown(m) => m.0@,
        RunnerProtoError::DisableUpdates(m) => m.0@,
        RunnerProtoError::Taskcluster(m) => m.0@,
        RunnerProtoError::WaitForIdle(ie) => spec_idle_error_message(ie),
        RunnerProtoError::Zip(ze) => spec_zip_error_message(ze),
        RunnerProtoError::NewSession(ne) => spec_new_session_error_message(ne),
        RunnerProtoError::ResumeSession(re) => spec_resume_error_message(re.session_id@, re.kind),
        RunnerProtoError::EnsureProfile(m) => m.0@,
    }
}

impl RunnerProtoError {
    /// Render the error as the text the runner reports to the recorder.
    pub fn message(&self) -> (r: String)
        ensures
            r@ == spec_runner_error_message(*self),
    {
        match self {
            RunnerProtoError::EmptyProfile => {
                let mut out = String::new();
                out.append("empty profile");
                out
            },
            RunnerProtoError::MissingFirefox => {
                let mut out = String::new();
                out.append("No browser binary in build artifact");
                out
            },
            RunnerProtoError::Proto(m) => m.0.clone(),
            RunnerProtoError::Shutdown(m) => m.0.clone(),
            RunnerProtoError::DisableUpdates(m) => m.0.clone(),
            RunnerProtoError::Taskcluster(m) => m.0.clone(),
            RunnerProtoError::WaitForIdle(ie) => ie.message(),
            RunnerProtoError::Zip(ze) => ze.message(),
            RunnerProtoError::NewSession(ne) => ne.message(),
            RunnerProtoError::ResumeSession(re) => re.message(),
            RunnerProtoError::EnsureProfile(m) => m.0.clone(),
        }
    }
}

// --- Transcript shapes -----------------------------------------------------

/// The full acknowledgement sequence of a successful new-session request.
pub open spec fn new_session_happy(id: Seq<char>, with_profile: bool) -> Seq<RunnerMessageV> {
    seq![
        RunnerMessageV::NewSessionResponseV(Ok(id)),
        RunnerMessageV::DownloadBuildV(Ok(DownloadStatus::Downloading)),
        RunnerMessageV::DownloadBuildV(Ok(DownloadStatus::Downloaded)),
        RunnerMessageV::DownloadBuildV(Ok(DownloadStatus::Extracted)),
        RunnerMessageV::DisableUpdatesV(Ok(())),
    ] + (if with_profile {
        seq![
            RunnerMessageV::RecvProfileV(Ok(DownloadStatus::Downloading)),
            RunnerMessageV::RecvProfileV(Ok(DownloadStatus::Downloaded)),
            RunnerMessageV::RecvProfileV(Ok(DownloadStatus::Extracted)),
        ]
    } else {
        seq![RunnerMessageV::CreateProfileV(Ok(()))]
    }) + seq![
        RunnerMessageV::WritePrefsV(Ok(())),
        RunnerMessageV::RestartingV(Ok(())),
    ]
}

/// The full acknowledgement sequence of a successful resume-session
/// request.
pub open spec fn resume_happy(wait_idle: bool) -> Seq<RunnerMessageV> {
    if wait_idle {
        seq![
            RunnerMessageV::ResumeResponseV(Ok(())),
            RunnerMessageV::WaitForIdleV(Ok(())),
        ]
    } else {
        seq![RunnerMessageV::ResumeResponseV(Ok(()))]
    }
}

/// The error acknowledgement of the given kind carrying message `m`.
pub open spec fn err_ack(k: RunnerMessageKind, m: Seq<char>) -> RunnerMessageV {
    match k {
        RunnerMessageKind::DownloadBuild => RunnerMessageV::DownloadBuildV(Err(m)),
        RunnerMessageKind::DisableUpdates => RunnerMessageV::DisableUpdatesV(Err(m)),
        RunnerMessageKind::RecvProfile => RunnerMessageV::RecvProfileV(Err(m)),
        RunnerMessageKind::CreateProfile => RunnerMessageV::CreateProfileV(Err(m)),
        RunnerMessageKind::WritePrefs => RunnerMessageV::WritePrefsV(Err(m)),
        RunnerMessageKind::Restarting => RunnerMessageV::RestartingV(Err(m)),
        RunnerMessageKind::NewSessionResponse => RunnerMessageV::NewSessionResponseV(Err(m)),
        RunnerMessageKind::ResumeResponse => RunnerMessageV::ResumeResponseV(Err(m)),
        RunnerMessageKind::WaitForIdle => RunnerMessageV::WaitForIdleV(Err(m)),
    }
}

/// Whether the messages sent between `pre` and `post` follow the
/// prescribed order of the reference sequence `h`: a prefix of `h`, or a
/// proper prefix followed by one error acknowledgement of the kind that
/// was due next.
pub open spec fn follows_order(
    pre: Seq<RunnerMessageV>,
    post: Seq<RunnerMessageV>,
    h: Seq<RunnerMessageV>,
) -> bool {
    ||| (exists|k: int| 0 <= k <= h.len() && post == pre + h.take(k))
    ||| (exists|k: int, m: Seq<char>|
        0 <= k < h.len() && post == pre + h.take(k).push(err_ack(kind_of(h[k]), m)))
}

/// Whether the messages sent between `pre` and `post` form a transcript
/// the new-session phase order allows, for some session ID.
pub open spec fn legal_new_session_transcript(
    pre: Seq<RunnerMessageV>,
    post: Seq<RunnerMessageV>,
    with_profile: bool,
) -> bool {
    exists|id: Seq<char>| follows_order(pre, post, new_session_happy(id, with_profile))
}

/// Whether the messages sent between `pre` and `post` form a transcript
/// the resume-session phase order allows.
pub open spec fn legal_resume_transcript(
    pre: Seq<RunnerMessageV>,
    post: Seq<RunnerMessageV>,
    wait_idle: bool,
) -> bool {
    follows_order(pre, post, resume_happy(wait_idle))
}

/// The three download-build acknowledgements, in order.
pub open spec fn db_acks() -> Seq<RunnerMessageV> {
    seq![
        RunnerMessageV::DownloadBuildV(Ok(DownloadStatus::Downloading)),
        RunnerMessageV::DownloadBuildV(Ok(DownloadStatus::Downloaded)),
        RunnerMessageV::DownloadBuildV(Ok(DownloadStatus::Extracted)),
    ]
}

/// The three receive-profile acknowledgements, in order.
pub open spec fn rp_acks() -> Seq<RunnerMessageV> {
    seq![
        RunnerMessageV::RecvProfileV(Ok(DownloadStatus::Downloading)),
        RunnerMessageV::RecvProfileV(Ok(DownloadStatus::Downloaded)),
        RunnerMessageV::RecvProfileV(Ok(DownloadStatus::Extracted)),
    ]
}

/// The transcript stops at step `k` of `h`: the first `k` acknowledgements
/// went out, followed by either nothing (the error report could not be
/// sent) or the error acknowledgement of the kind due at step `k`.
pub open spec fn err_step(
    pre: Seq<RunnerMessageV>,
    post: Seq<RunnerMessageV>,
    h: Seq<RunnerMessageV>,
    k: int,
    msg: Seq<char>,
) -> bool {
    &&& 0 <= k < h.len()
    &&& (post == pre + h.take(k) || post == pre + h.take(k).push(err_ack(kind_of(h[k]), msg)))
}

/// A successful new-session request, in one predicate: for some fresh
/// well-formed session ID and session directory `sp`, the full happy
/// transcript went out, the store gained exactly that session, and the
/// store was handed exactly the policy file and the rendered prefs.
pub open spec fn new_session_success_shape(
    pre: Seq<RunnerMessageV>,
    post: Seq<RunnerMessageV>,
    pre_sessions: Set<Seq<char>>,
    post_sessions: Set<Seq<char>>,
    pre_writes: Seq<(Seq<char>, Seq<char>)>,
    post_writes: Seq<(Seq<char>, Seq<char>)>,
    wp: bool,
    prefs: Seq<(String, PrefValue)>,
) -> bool {
    exists|id: Seq<char>, sp: Seq<char>|
        #![trigger new_session_happy(id, wp), session_file_writes(sp, prefs)]
        {
            &&& spec_valid_session_id(id)
            &&& !pre_sessions.contains(id)
            &&& post == pre + new_session_happy(id, wp)
            &&& post_sessions == pre_sessions.insert(id)
            &&& post_writes == pre_writes + session_file_writes(sp, prefs)
        }
}

/// The exact acknowledgement transcript of a failed new-session request,
/// by failure cause. `delta` is what was sent, `id` the allocated session
/// ID (irrelevant when allocation itself failed), `wp` whether a profile
/// was to follow.
pub open spec fn new_session_err_shape(
    pre: Seq<RunnerMessageV>,
    post: Seq<RunnerMessageV>,
    id: Seq<char>,
    wp: bool,
    e: RunnerProtoError,
) -> bool {
    let h = new_session_happy(id, wp);
    match e {
        RunnerProtoError::NewSession(ne) => err_step(
            pre,
            post,
            h,
            0,
            spec_new_session_error_message(ne),
        ),
        RunnerProtoError::Taskcluster(m) => err_step(pre, post, h, 2, m.0@),
        RunnerProtoError::Zip(ze) => err_step(pre, post, h, 3, spec_zip_error_message(ze)) || (wp
            && err_step(pre, post, h, 7, spec_zip_error_message(ze))),
        RunnerProtoError::MissingFirefox => err_step(
            pre,
            post,
            h,
            3,
            "No browser binary in build artifact"@,
        ),
        RunnerProtoError::DisableUpdates(m) => err_step(pre, post, h, 4, m.0@),
        RunnerProtoError::EmptyProfile => wp && err_step(pre, post, h, 7, "empty profile"@),
        RunnerProtoError::EnsureProfile(m) => !wp && err_step(pre, post, h, 5, m.0@),
        RunnerProtoError::Shutdown(m) => err_step(pre, post, h, h.len() - 1, m.0@),
        RunnerProtoError::Proto(_) => follows_order(pre, post, h),
        _ => false,
    }
}

/// The exact acknowledgement transcript of a failed resume-session
/// request, by failure cause.
pub open spec fn resume_err_shape(
    pre: Seq<RunnerMessageV>,
    post: Seq<RunnerMessageV>,
    wait_idle: bool,
    e: RunnerProtoError,
) -> bool {
    let h = resume_happy(wait_idle);
    match e {
        RunnerProtoError::ResumeSession(re) => err_step(
            pre,
            post,
            h,
            0,
            spec_resume_error_message(re.session_id@, re.kind),
        ),
        RunnerProtoError::WaitForIdle(ie) => wait_idle && err_step(
            pre,
            post,
            h,
            1,
            spec_idle_error_message(ie),
        ),
        RunnerProtoError::Proto(_) => follows_order(pre, post, h),
        _ => false,
    }
}

// --- Transcript laws --------------------------------------------------------

/// Whatever a new-session request's outcome, the acknowledgements that
/// went on the wire follow the prescribed phase order: they are a prefix
/// of the happy transcript, or such a prefix followed by one error
/// acknowledgement of the kind that was due next.
pub proof fn lemma_new_session_transcript_legal(
    pre: Seq<RunnerMessageV>,
    post: Seq<RunnerMessageV>,
    id: Seq<char>,
    wp: bool,
    r: Result<(), RunnerProtoError>,
)
    requires
        match r {
            Ok(()) => post == pre + new_session_happy(id, wp),
            Err(e) => new_session_err_shape(pre, post, id, wp, e),
        },
    ensures
        legal_new_session_transcript(pre, post, wp),
{
    let h = new_session_happy(id, wp);
    match r {
        Ok(()) => {
            assert(h.take(h.len() as int) =~= h);
            assert(post == pre + h.take(h.len() as int));
            assert(follows_order(pre, post, h));
        },
        Err(e) => {
            match e {
                RunnerProtoError::Proto(_) => {
                    assert(follows_order(pre, post, h));
                },
                _ => {
                    assert(follows_order(pre, post, h));
                },
            }
        },
    }
    assert(legal_new_session_transcript(pre, post, wp));
}

/// The resume-session counterpart: any outcome leaves a transcript the
/// resume phase order allows.
pub proof fn lemma_resume_transcript_legal(
    pre: Seq<RunnerMessageV>,
    post: Seq<RunnerMessageV>,
    wait_idle: bool,
    r: Result<(), RunnerProtoError>,
)
    requires
        match r {
            Ok(()) => post == pre + resume_happy(wait_idle),
            Err(e) => resume_err_shape(pre, post, wait_idle, e),
        },
    ensures
        legal_resume_transcript(pre, post, wait_idle),
{
    let h = resume_happy(wait_idle);
    match r {
        Ok(()) => {
            assert(h.take(h.len() as int) =~= h);
            assert(post == pre + h.take(h.len() as int));
            assert(follows_order(pre, post, h));
        },
        Err(_) => {
            assert(follows_order(pre, post, h));
        },
    }
}

/// The download-build progress payloads of a transcript, in order.
pub open spec fn db_statuses(t: Seq<RunnerMessageV>) -> Seq<DownloadStatus>
    decreases t.len(),
{
    if t.len() == 0 {
        Seq::empty()
    } else {
        db_statuses(t.drop_last()) + (match t.last() {
            RunnerMessageV::DownloadBuildV(Ok(s)) => seq![s],
            _ => Seq::empty(),
        })
    }
}

/// The profile progress payloads of a transcript, in order.
pub open spec fn rp_statuses(t: Seq<RunnerMessageV>) -> Seq<DownloadStatus>
    decreases t.len(),
{
    if t.len() == 0 {
        Seq::empty()
    } else {
        rp_statuses(t.drop_last()) + (match t.last() {
            RunnerMessageV::RecvProfileV(Ok(s)) => seq![s],
            _ => Seq::empty(),
        })
    }
}

/// The full status order.
pub open spec fn all_statuses() -> Seq<DownloadStatus> {
    seq![DownloadStatus::Downloading, DownloadStatus::Downloaded, DownloadStatus::Extracted]
}

/// How many download-build progress payloads the first `k` steps of the
/// happy transcript carry.
pub open spec fn db_count(k: int) -> int {
    if k <= 1 {
        0
    } else if k <= 4 {
        k - 1
    } else {
        3
    }
}

/// How many profile progress payloads the first `k` steps of the happy
/// transcript carry.
pub open spec fn rp_count(k: int, wp: bool) -> int {
    if !wp || k <= 5 {
        0
    } else if k <= 8 {
        k - 5
    } else {
        3
    }
}

/// The build payloads of a happy-transcript prefix are exactly the first
/// `db_count(k)` statuses, in order.
pub proof fn lemma_db_statuses_take(id: Seq<char>, wp: bool, k: int)
    requires
        0 <= k <= new_session_happy(id, wp).len(),
    ensures
        db_statuses(new_session_happy(id, wp).take(k)) == all_statuses().take(db_count(k)),
        rp_statuses(new_session_happy(id, wp).take(k)) == all_statuses().take(rp_count(k, wp)),
    decreases k,
{
    let h = new_session_happy(id, wp);
    if k == 0 {
        assert(h.take(0) =~= Seq::<RunnerMessageV>::empty());
        assert(all_statuses().take(0) =~= Seq::<DownloadStatus>::empty());
        assert(db_statuses(h.take(0)) =~= all_statuses().take(0));
        assert(rp_statuses(h.take(0)) =~= all_statuses().take(0));
    } else {
        lemma_db_statuses_take(id, wp, k - 1);
        assert(h.take(k).drop_last() =~= h.take(k - 1));
        assert(h.take(k).last() == h[k - 1]);
        if 2 <= k <= 4 {
            assert(h[k - 1] == RunnerMessageV::DownloadBuildV(Ok(all_statuses()[k - 2])));
            assert(all_statuses().take(db_count(k)) =~= all_statuses().take(db_count(k - 1)).push(
                all_statuses()[k - 2],
            ));
        } else {
            assert(!(h[k - 1] matches RunnerMessageV::DownloadBuildV(Ok(_))));
            assert(db_count(k) == db_count(k - 1));
            assert(db_statuses(h.take(k)) =~= db_statuses(h.take(k - 1)));
        }
        if wp && 6 <= k <= 8 {
            assert(h[k - 1] == RunnerMessageV::RecvProfileV(Ok(all_statuses()[k - 6])));
            assert(all_statuses().take(rp_count(k, wp)) =~= all_statuses().take(
                rp_count(k - 1, wp),
            ).push(all_statuses()[k - 6]));
        } else {
            assert(!(h[k - 1] matches RunnerMessageV::RecvProfileV(Ok(_))));
            assert(rp_count(k, wp) == rp_count(k - 1, wp));
            assert(rp_statuses(h.take(k)) =~= rp_statuses(h.take(k - 1)));
        }
    }
}

/// In any transcript the new-session phase order allows, the
/// download-build progress payloads form a strictly increasing prefix of
/// `Downloading`, `Downloaded`, `Extracted` — and so do the profile
/// progress payloads.
pub proof fn lemma_status_order(
    pre: Seq<RunnerMessageV>,
    post: Seq<RunnerMessageV>,
    id: Seq<char>,
    wp: bool,
)
    requires
        follows_order(pre, post, new_session_happy(id, wp)),
    ensures
        exists|n: int|
            0 <= n <= 3 && db_statuses(post.skip(pre.len() as int)) == all_statuses().take(n),
        exists|n: int|
            0 <= n <= 3 && rp_statuses(post.skip(pre.len() as int)) == all_statuses().take(n),
{
    let h = new_session_happy(id, wp);
    let delta = post.skip(pre.len() as int);
    if exists|k: int| 0 <= k <= h.len() && post == pre + h.take(k) {
        let k = choose|k: int| 0 <= k <= h.len() && post == pre + h.take(k);
        assert(delta =~= h.take(k));
        lemma_db_statuses_take(id, wp, k);
        assert(db_statuses(delta) == all_statuses().take(db_count(k)));
        assert(rp_statuses(delta) == all_statuses().take(rp_count(k, wp)));
    } else {
        let (k, m) = choose|k: int, m: Seq<char>|
            0 <= k < h.len() && post == pre + h.take(k).push(err_ack(kind_of(h[k]), m));
        assert(delta =~= h.take(k).push(err_ack(kind_of(h[k]), m)));
        lemma_db_statuses_take(id, wp, k);
        assert(delta.drop_last() =~= h.take(k));
        assert(!(delta.last() matches RunnerMessageV::DownloadBuildV(Ok(_))));
        assert(!(delta.last() matches RunnerMessageV::RecvProfileV(Ok(_))));
        assert(db_statuses(delta) =~= db_statuses(h.take(k)));
        assert(rp_statuses(delta) =~= rp_statuses(h.take(k)));
        assert(db_statuses(delta) == all_statuses().take(db_count(k)));
        assert(rp_statuses(delta) == all_statuses().take(rp_count(k, wp)));
    }
}

/// The build acknowledgements carry the status order itself: any prefix
/// of them carries a strictly increasing prefix of the statuses. Together
/// with `download_build`'s contract — whose transcripts are exactly such
/// prefixes, full only on success, with at most one trailing error
/// acknowledgement — this pins the build progress payloads.
pub proof fn lemma_db_acks_statuses(k: int)
    requires
        0 <= k <= 3,
    ensures
        db_statuses(db_acks().take(k)) == all_statuses().take(k),
{
    assert(db_acks().take(0) =~= Seq::<RunnerMessageV>::empty());
    assert(all_statuses().take(0) =~= Seq::<DownloadStatus>::empty());
    assert(db_statuses(db_acks().take(0)) =~= all_statuses().take(0));
    assert(db_acks().take(1).drop_last() =~= db_acks().take(0));
    assert(db_statuses(db_acks().take(1)) =~= all_statuses().take(1));
    assert(db_acks().take(2).drop_last() =~= db_acks().take(1));
    assert(db_statuses(db_acks().take(2)) =~= all_statuses().take(2));
    assert(db_acks().take(3).drop_last() =~= db_acks().take(2));
    assert(db_statuses(db_acks().take(3)) =~= all_statuses().take(3));
}

/// The profile acknowledgements likewise carry the status order itself.
pub proof fn lemma_rp_acks_statuses(k: int)
    requires
        0 <= k <= 3,
    ensures
        rp_statuses(rp_acks().take(k)) == all_statuses().take(k),
{
    assert(rp_acks().take(0) =~= Seq::<RunnerMessageV>::empty());
    assert(all_statuses().take(0) =~= Seq::<DownloadStatus>::empty());
    assert(rp_statuses(rp_acks().take(0)) =~= all_statuses().take(0));
    assert(rp_acks().take(1).drop_last() =~= rp_acks().take(0));
    assert(rp_statuses(rp_acks().take(1)) =~= all_statuses().take(1));
    assert(rp_acks().take(2).drop_last() =~= rp_acks().take(1));
    assert(rp_statuses(rp_acks().take(2)) =~= all_statuses().take(2));
    assert(rp_acks().take(3).drop_last() =~= rp_acks().take(2));
    assert(rp_statuses(rp_acks().take(3)) =~= all_statuses().take(3));
}

/// An error acknowledgement carries no progress payload: pushing one
/// changes neither status sequence.
pub proof fn lemma_err_ack_no_status(t: Seq<RunnerMessageV>, k: RunnerMessageKind, m: Seq<char>)
    ensures
        db_statuses(t.push(err_ack(k, m))) == db_statuses(t),
        rp_statuses(t.push(err_ack(k, m))) == rp_statuses(t),
{
    assert(t.push(err_ack(k, m)).drop_last() =~= t);
    assert(db_statuses(t.push(err_ack(k, m))) =~= db_statuses(t));
    assert(rp_statuses(t.push(err_ack(k, m))) =~= rp_statuses(t));
}

// --- The runner handler ----------------------------------------------------

/// The name of the browser binary inside the extracted build.
pub const BROWSER_BINARY: &'static str = "firefox.exe";

/// The policy file that disables the browser's auto-update, exactly as
/// written to `firefox/distribution/policies.json`.
pub const DISABLE_UPDATE_POLICY: &'static str =
    "{\n    \"policies\": {\n        \"DisableAppUpdate\": true\n    }\n}\n";

/// The file contents a successful new session hands to the store under
/// the session directory `sp`: the auto-update policy, then — when prefs
/// were requested — the rendered `user.js` lines.
pub open spec fn session_file_writes(
    sp: Seq<char>,
    prefs: Seq<(String, PrefValue)>,
) -> Seq<(Seq<char>, Seq<char>)> {
    let policy_entry = (
        spec_path_join(
            spec_path_join(spec_path_join(sp, "firefox"@), "distribution"@),
            "policies.json"@,
        ),
        DISABLE_UPDATE_POLICY@,
    );
    if prefs.len() > 0 {
        seq![
            policy_entry,
            (
                spec_path_join(spec_path_join(sp, "profile"@), "user.js"@),
                render_prefs(crate::message::prefs_view(prefs)),
            ),
        ]
    } else {
        seq![policy_entry]
    }
}

/// The runner side of one connection: the transport plus the four
/// collaborators the phases call on.
pub struct RunnerProto<S, T, P, R, W> where
    S: ShutdownProvider,
    T: Taskcluster,
    P: PerfProvider,
    R: SessionManager,
    W: Transport,
 {
    /// The transcript-tracking transport.
    pub proto: Proto<W>,
    /// Restarts the machine after a new session is prepared.
    pub shutdown_handler: S,
    /// Fetches build artifacts.
    pub tc: T,
    /// Samples idle counters during resume, with its ghost sample log.
    pub perf_provider: Perf<P>,
    /// Owns the session directories.
    pub session_manager: R,
}

impl<S, T, P, R, W> RunnerProto<S, T, P, R, W> where
    S: ShutdownProvider,
    T: Taskcluster,
    P: PerfProvider,
    R: SessionManager,
    W: Transport,
 {
    /// Wrap a connection and the collaborators for one request.
    pub fn new(transport: W, shutdown_handler: S, tc: T, perf_provider: P, session_manager: R) -> (r:
        Self)
        ensures
            r.proto.sent() == Seq::<RunnerMessageV>::empty(),
            r.session_manager == session_manager,
    {
        RunnerProto {
            proto: Proto::new(transport),
            shutdown_handler,
            tc,
            perf_provider: Perf::new(perf_provider),
            session_manager,
        }
    }

    /// Download and extract the build for `task_id` into the session
    /// directory, reporting progress; return the browser binary's path.
    fn download_build(&mut self, session_path: &str, task_id: &str) -> (r: Result<
        String,
        RunnerProtoError,
    >)
        ensures
            final(self).session_manager.sessions() == old(self).session_manager.sessions(),
            final(self).session_manager.complete_sessions() == old(
                self,
            ).session_manager.complete_sessions(),
            final(self).session_manager.writes() == old(self).session_manager.writes(),
            ({
                let pre = old(self).proto.sent();
                let post = final(self).proto.sent();
                match r {
                    Ok(bin) => post == pre + db_acks() && bin@ == spec_path_join(
                        spec_path_join(session_path@, "firefox"@),
                        BROWSER_BINARY@,
                    ),
                    Err(e) => match e {
                        RunnerProtoError::Proto(_) => post == pre || post == pre + db_acks().take(1)
                            || post == pre + db_acks().take(2),
                        RunnerProtoError::Taskcluster(m) => err_step(pre, post, db_acks(), 1, m.0@),
                        RunnerProtoError::Zip(ze) => err_step(
                            pre,
                            post,
                            db_acks(),
                            2,
                            spec_zip_error_message(ze),
                        ),
                        RunnerProtoError::MissingFirefox => err_step(
                            pre,
                            post,
                            db_acks(),
                            2,
                            "No browser binary in build artifact"@,
                        ),
                        _ => false,
                    },
                }
            }),
    {
        let ghost pre = self.proto.sent();
        if let Err(m) = self.proto.send(
            DownloadBuild { result: Ok(DownloadStatus::Downloading) },
        ) {
            return Err(RunnerProtoError::Proto(m));
        }
        proof {
            assert(self.proto.sent() =~= pre + db_acks().take(1));
        }
        let download_path = match self.tc.download_build_artifact(task_id, session_path) {
            Ok(p) => p,
            Err(m) => {
                let ack_text = ErrorMessage(m.0.clone());
                let _ = self.proto.send(DownloadBuild { result: Err(ack_text) });
                proof {
                    assert(self.proto.sent() =~= pre + db_acks().take(1) || self.proto.sent()
                        =~= pre + db_acks().take(1).push(
                        err_ack(RunnerMessageKind::DownloadBuild, m.0@),
                    ));
                    assert(kind_of(db_acks()[1]) == RunnerMessageKind::DownloadBuild);
                }
                return Err(RunnerProtoError::Taskcluster(m));
            },
        };
        if let Err(m) = self.proto.send(
            DownloadBuild { result: Ok(DownloadStatus::Downloaded) },
        ) {
            proof {
                assert(self.proto.sent() =~= pre + db_acks().take(1));
            }
            return Err(RunnerProtoError::Proto(m));
        }
        proof {
            assert(self.proto.sent() =~= pre + db_acks().take(2));
        }
        if let Err(ze) = self.session_manager.unzip(download_path.as_str(), session_path) {
            let msg = ze.message();
            let _ = self.proto.send(DownloadBuild { result: Err(ErrorMessage(msg)) });
            proof {
                assert(self.proto.sent() =~= pre + db_acks().take(2) || self.proto.sent() =~= pre
                    + db_acks().take(2).push(
                    err_ack(RunnerMessageKind::DownloadBuild, spec_zip_error_message(ze)),
                ));
                assert(kind_of(db_acks()[2]) == RunnerMessageKind::DownloadBuild);
            }
            return Err(RunnerProtoError::Zip(ze));
        }
        // The archive is a transient: it is gone before the phase completes.
        let _ = self.session_manager.remove_path(download_path.as_str());
        let firefox_dir = path_join(session_path, "firefox");
        let firefox_bin = path_join(firefox_dir.as_str(), BROWSER_BINARY);
        if !self.session_manager.is_file(firefox_bin.as_str()) {
            let msg: String = "No browser binary in build artifact".to_owned();
            let _ = self.proto.send(DownloadBuild { result: Err(ErrorMessage(msg)) });
            proof {
                assert(self.proto.sent() =~= pre + db_acks().take(2) || self.proto.sent() =~= pre
                    + db_acks().take(2).push(
                    err_ack(
                        RunnerMessageKind::DownloadBuild,
                        "No browser binary in build artifact"@,
                    ),
                ));
                assert(kind_of(db_acks()[2]) == RunnerMessageKind::DownloadBuild);
            }
            return Err(RunnerProtoError::MissingFirefox);
        }
        if let Err(m) = self.proto.send(
            DownloadBuild { result: Ok(DownloadStatus::Extracted) },
        ) {
            proof {
                assert(self.proto.sent() =~= pre + db_acks().take(2));
            }
            return Err(RunnerProtoError::Proto(m));
        }
        proof {
            assert(self.proto.sent() =~= pre + db_acks());
        }
        Ok(firefox_bin)
    }

    /// Write the auto-update disable policy into the extracted build.
    fn disable_updates(&mut self, session_path: &str) -> (r: Result<(), ErrorMessage>)
        ensures
            final(self).proto.sent() == old(self).proto.sent(),
            final(self).session_manager.sessions() == old(self).session_manager.sessions(),
            final(self).session_manager.complete_sessions() == old(
                self,
            ).session_manager.complete_sessions(),
            r is Ok ==> final(self).session_manager.writes() == old(
                self,
            ).session_manager.writes().push(
                (
                    spec_path_join(
                        spec_path_join(spec_path_join(session_path@, "firefox"@), "distribution"@),
                        "policies.json"@,
                    ),
                    DISABLE_UPDATE_POLICY@,
                ),
            ),
            r is Err ==> final(self).session_manager.writes() == old(self).session_manager.writes(),
    {
        let firefox_dir = path_join(session_path, "firefox");
        let dist_dir = path_join(firefox_dir.as_str(), "distribution");
        if let Err(m) = self.session_manager.create_dir(dist_dir.as_str()) {
            return Err(m);
        }
        let policy_path = path_join(dist_dir.as_str(), "policies.json");
        self.session_manager.write_file(policy_path.as_str(), DISABLE_UPDATE_POLICY)
    }

    /// Receive, extract, and install the profile archive, reporting
    /// progress; return the profile directory's path.
    fn recv_profile(&mut self, session_path: &str, profile_size: u64) -> (r: Result<
        String,
        RunnerProtoError,
    >)
        ensures
            final(self).session_manager.sessions() == old(self).session_manager.sessions(),
            final(self).session_manager.complete_sessions() == old(
                self,
            ).session_manager.complete_sessions(),
            final(self).session_manager.writes() == old(self).session_manager.writes(),
            ({
                let pre = old(self).proto.sent();
                let post = final(self).proto.sent();
                match r {
                    Ok(p) => post == pre + rp_acks() && p@ == spec_path_join(
                        session_path@,
                        "profile"@,
                    ),
                    Err(e) => match e {
                        RunnerProtoError::Proto(m) => post == pre || post == pre + rp_acks().take(1)
                            || post == pre + rp_acks().take(1).push(
                            err_ack(RunnerMessageKind::RecvProfile, m.0@),
                        ) || post == pre + rp_acks().take(2) || post == pre + rp_acks().take(
                            2,
                        ).push(err_ack(RunnerMessageKind::RecvProfile, m.0@)),
                        RunnerProtoError::Zip(ze) => err_step(
                            pre,
                            post,
                            rp_acks(),
                            2,
                            spec_zip_error_message(ze),
                        ),
                        RunnerProtoError::EmptyProfile => err_step(
                            pre,
                            post,
                            rp_acks(),
                            2,
                            "empty profile"@,
                        ),
                        _ => false,
                    },
                }
            }),
    {
        let ghost pre = self.proto.sent();
        if let Err(m) = self.proto.send(
            RecvProfile { result: Ok(DownloadStatus::Downloading) },
        ) {
            return Err(RunnerProtoError::Proto(m));
        }
        proof {
            assert(self.proto.sent() =~= pre + rp_acks().take(1));
        }
        let zip_path = path_join(session_path, "profile.zip");
        if let Err(m) = self.proto.recv_profile_raw(zip_path.as_str(), profile_size) {
            let ack_text = ErrorMessage(m.0.clone());
            let _ = self.proto.send(RecvProfile { result: Err(ack_text) });
            proof {
                assert(self.proto.sent() =~= pre + rp_acks().take(1) || self.proto.sent() =~= pre
                    + rp_acks().take(1).push(err_ack(RunnerMessageKind::RecvProfile, m.0@)));
            }
            return Err(RunnerProtoError::Proto(m));
        }
        if let Err(m) = self.proto.send(
            RecvProfile { result: Ok(DownloadStatus::Downloaded) },
        ) {
            proof {
                assert(self.proto.sent() =~= pre + rp_acks().take(1));
            }
            return Err(RunnerProtoError::Proto(m));
        }
        proof {
            assert(self.proto.sent() =~= pre + rp_acks().take(2));
        }
        let unzip_path = path_join(session_path, "unzipped_profile");
        let stats = match self.session_manager.unzip(zip_path.as_str(), unzip_path.as_str()) {
            Ok(stats) => stats,
            Err(ze) => {
                let msg = ze.message();
                let _ = self.proto.send(RecvProfile { result: Err(ErrorMessage(msg)) });
                proof {
                    assert(self.proto.sent() =~= pre + rp_acks().take(2) || self.proto.sent()
                        =~= pre + rp_acks().take(2).push(
                        err_ack(RunnerMessageKind::RecvProfile, spec_zip_error_message(ze)),
                    ));
                    assert(kind_of(rp_acks()[2]) == RunnerMessageKind::RecvProfile);
                }
                return Err(RunnerProtoError::Zip(ze));
            },
        };
        if stats.extracted == 0 {
            let msg: String = "empty profile".to_owned();
            let _ = self.proto.send(RecvProfile { result: Err(ErrorMessage(msg)) });
            proof {
                assert(self.proto.sent() =~= pre + rp_acks().take(2) || self.proto.sent() =~= pre
                    + rp_acks().take(2).push(
                    err_ack(RunnerMessageKind::RecvProfile, "empty profile"@),
                ));
                assert(kind_of(rp_acks()[2]) == RunnerMessageKind::RecvProfile);
            }
            return Err(RunnerProtoError::EmptyProfile);
        }
        let unzipped_profile_dir = match &stats.top_level_dir {
            Some(top) => path_join(unzip_path.as_str(), top.as_str()),
            None => unzip_path.clone(),
        };
        let profile_dir = path_join(session_path, "profile");
        if let Err(m) = self.session_manager.rename(
            unzipped_profile_dir.as_str(),
            profile_dir.as_str(),
        ) {
            let ack_text = ErrorMessage(m.0.clone());
            let _ = self.proto.send(RecvProfile { result: Err(ack_text) });
            proof {
                assert(self.proto.sent() =~= pre + rp_acks().take(2) || self.proto.sent() =~= pre
                    + rp_acks().take(2).push(err_ack(RunnerMessageKind::RecvProfile, m.0@)));
            }
            return Err(RunnerProtoError::Proto(m));
        }
        // The archive and the extraction wrapper are transients: they are
        // gone before the phase completes.
        let _ = self.session_manager.remove_path(zip_path.as_str());
        let _ = self.session_manager.remove_path(unzip_path.as_str());
        if let Err(m) = self.proto.send(
            RecvProfile { result: Ok(DownloadStatus::Extracted) },
        ) {
            proof {
                assert(self.proto.sent() =~= pre + rp_acks().take(2));
            }
            return Err(RunnerProtoError::Proto(m));
        }
        proof {
            assert(self.proto.sent() =~= pre + rp_acks());
        }
        Ok(profile_dir)
    }

    /// Handle a new-session request: allocate the session directory, fetch
    /// and extract the build, disable updates, install the profile, write
    /// the prefs, and initiate the restart, acknowledging each phase.
    ///
    /// On success the session directory survives for the resume after the
    /// restart; on any error it is destroyed before returning.
    pub fn handle_new_session(&mut self, request: NewSessionRequest) -> (r: Result<
        (),
        RunnerProtoError,
    >)
        ensures
            ({
                let pre = old(self).proto.sent();
                let post = final(self).proto.sent();
                let wp = request.profile_size is Some;
                match r {
                    Ok(()) => {
                        &&& final(self).session_manager.complete_sessions() == old(
                            self,
                        ).session_manager.complete_sessions()
                        &&& new_session_success_shape(
                            pre,
                            post,
                            old(self).session_manager.sessions(),
                            final(self).session_manager.sessions(),
                            old(self).session_manager.writes(),
                            final(self).session_manager.writes(),
                            wp,
                            request.prefs@,
                        )
                    },
                    Err(e) => {
                        &&& final(self).session_manager.sessions() == old(
                            self,
                        ).session_manager.sessions()
                        &&& final(self).session_manager.complete_sessions() == old(
                            self,
                        ).session_manager.complete_sessions()
                        &&& exists|id: Seq<char>|
                            #![auto]
                            new_session_err_shape(pre, post, id, wp, e)
                    },
                }
            }),
    {
        let ghost pre = self.proto.sent();
        let ghost wp = request.profile_size is Some;
        let ghost sessions0 = self.session_manager.sessions();
        let ghost complete0 = self.session_manager.complete_sessions();
        let ghost writes0 = self.session_manager.writes();
        let session_info = match self.session_manager.new_session() {
            Ok(si) => si,
            Err(e) => {
                let m = e.message();
                let _ = self.proto.send(NewSessionResponse { session_id: Err(ErrorMessage(m)) });
                proof {
                    let h = new_session_happy(Seq::<char>::empty(), wp);
                    assert(h.take(0) =~= Seq::<RunnerMessageV>::empty());
                    assert(kind_of(h[0]) == RunnerMessageKind::NewSessionResponse);
                    assert(self.proto.sent() =~= pre + h.take(0) || self.proto.sent() =~= pre
                        + h.take(0).push(
                        err_ack(
                            RunnerMessageKind::NewSessionResponse,
                            spec_new_session_error_message(e),
                        ),
                    ));
                    assert(new_session_err_shape(
                        pre,
                        self.proto.sent(),
                        Seq::<char>::empty(),
                        wp,
                        RunnerProtoError::NewSession(e),
                    ));
                }
                return Err(RunnerProtoError::NewSession(e));
            },
        };
        let ghost id = session_info.id@;
        let ghost h = new_session_happy(id, wp);
        proof {
            assert(h == new_session_happy(id, wp));
            assert(kind_of(h[0]) == RunnerMessageKind::NewSessionResponse);
            assert(h.take(0) =~= Seq::<RunnerMessageV>::empty());
            assert(h.take(1) =~= seq![RunnerMessageV::NewSessionResponseV(Ok(id))]);
            assert(h.take(2) =~= h.take(1) + db_acks().take(1));
            assert(h.take(3) =~= h.take(1) + db_acks().take(2));
            assert(h.take(4) =~= h.take(1) + db_acks());
            assert(h.take(5) =~= h.take(4).push(RunnerMessageV::DisableUpdatesV(Ok(()))));
            if wp {
                assert(h.take(6) =~= h.take(5) + rp_acks().take(1));
                assert(h.take(7) =~= h.take(5) + rp_acks().take(2));
                assert(h.take(8) =~= h.take(5) + rp_acks());
            } else {
                assert(h.take(6) =~= h.take(5).push(RunnerMessageV::CreateProfileV(Ok(()))));
            }
        }
        let resp = NewSessionResponse { session_id: Ok(session_info.id.clone()) };
        if let Err(m) = self.proto.send(resp) {
            self.session_manager.cleanup_session(&session_info);
            proof {
                assert(self.session_manager.sessions() =~= sessions0);
                assert(self.session_manager.complete_sessions() =~= complete0);
                assert(self.proto.sent() =~= pre + h.take(0));
                assert(new_session_err_shape(
                    pre,
                    self.proto.sent(),
                    id,
                    wp,
                    RunnerProtoError::Proto(m),
                ));
            }
            return Err(RunnerProtoError::Proto(m));
        }
        proof {
            assert(self.proto.sent() =~= pre + h.take(1));
        }
        let ghost sent1 = self.proto.sent();
        match self.download_build(session_info.path.as_str(), request.build_task_id.as_str()) {
            Ok(_firefox_bin) => {},
            Err(e) => {
                self.session_manager.cleanup_session(&session_info);
                proof {
                    assert(self.session_manager.sessions() =~= sessions0);
                    assert(self.session_manager.complete_sessions() =~= complete0);
                    assert(kind_of(db_acks()[1]) == RunnerMessageKind::DownloadBuild);
                    assert(kind_of(db_acks()[2]) == RunnerMessageKind::DownloadBuild);
                    assert(kind_of(h[2]) == RunnerMessageKind::DownloadBuild);
                    assert(kind_of(h[3]) == RunnerMessageKind::DownloadBuild);
                    match &e {
                        RunnerProtoError::Proto(_) => {
                            if self.proto.sent() == sent1 {
                                assert(self.proto.sent() =~= pre + h.take(1));
                            } else if self.proto.sent() == sent1 + db_acks().take(1) {
                                assert(self.proto.sent() =~= pre + h.take(2));
                            } else {
                                assert(self.proto.sent() == sent1 + db_acks().take(2));
                                assert(self.proto.sent() =~= pre + h.take(3));
                            }
                        },
                        RunnerProtoError::Taskcluster(m) => {
                            if self.proto.sent() == sent1 + db_acks().take(1) {
                                assert(self.proto.sent() =~= pre + h.take(2));
                            } else {
                                assert(self.proto.sent() == sent1 + db_acks().take(1).push(
                                    err_ack(RunnerMessageKind::DownloadBuild, m.0@),
                                ));
                                assert(self.proto.sent() =~= pre + h.take(2).push(
                                    err_ack(RunnerMessageKind::DownloadBuild, m.0@),
                                ));
                            }
                        },
                        RunnerProtoError::Zip(ze) => {
                            let msg = spec_zip_error_message(*ze);
                            if self.proto.sent() == sent1 + db_acks().take(2) {
                                assert(self.proto.sent() =~= pre + h.take(3));
                            } else {
                                assert(self.proto.sent() == sent1 + db_acks().take(2).push(
                                    err_ack(RunnerMessageKind::DownloadBuild, msg),
                                ));
                                assert(self.proto.sent() =~= pre + h.take(3).push(
                                    err_ack(RunnerMessageKind::DownloadBuild, msg),
                                ));
                            }
                        },
                        RunnerProtoError::MissingFirefox => {
                            let msg = "No browser binary in build artifact"@;
                            if self.proto.sent() == sent1 + db_acks().take(2) {
                                assert(self.proto.sent() =~= pre + h.take(3));
                            } else {
                                assert(self.proto.sent() == sent1 + db_acks().take(2).push(
                                    err_ack(RunnerMessageKind::DownloadBuild, msg),
                                ));
                                assert(self.proto.sent() =~= pre + h.take(3).push(
                                    err_ack(RunnerMessageKind::DownloadBuild, msg),
                                ));
                            }
                        },
                        _ => {
                            assert(false);
                        },
                    }
                    assert(new_session_err_shape(pre, self.proto.sent(), id, wp, e));
                }
                return Err(e);
            },
        }
        proof {
            assert(self.proto.sent() =~= pre + h.take(4));
        }
        if let Err(m) = self.disable_updates(session_info.path.as_str()) {
            let ack_text = ErrorMessage(m.0.clone());
            let _ = self.proto.send(DisableUpdates { result: Err(ack_text) });
            self.session_manager.cleanup_session(&session_info);
            proof {
                assert(self.session_manager.sessions() =~= sessions0);
                assert(self.session_manager.complete_sessions() =~= complete0);
                assert(kind_of(h[4]) == RunnerMessageKind::DisableUpdates);
                assert(self.proto.sent() =~= pre + h.take(4) || self.proto.sent() =~= pre + h.take(
                    4,
                ).push(err_ack(RunnerMessageKind::DisableUpdates, m.0@)));
                assert(new_session_err_shape(
                    pre,
                    self.proto.sent(),
                    id,
                    wp,
                    RunnerProtoError::DisableUpdates(m),
                ));
            }
            return Err(RunnerProtoError::DisableUpdates(m));
        }
        if let Err(m) = self.proto.send(DisableUpdates { result: Ok(()) }) {
            self.session_manager.cleanup_session(&session_info);
            proof {
                assert(self.session_manager.sessions() =~= sessions0);
                assert(self.session_manager.complete_sessions() =~= complete0);
                assert(self.proto.sent() =~= pre + h.take(4));
                assert(new_session_err_shape(
                    pre,
                    self.proto.sent(),
                    id,
                    wp,
                    RunnerProtoError::Proto(m),
                ));
            }
            return Err(RunnerProtoError::Proto(m));
        }
        proof {
            assert(self.proto.sent() =~= pre + h.take(5));
        }
        let ghost sent5 = self.proto.sent();
        let profile_path: String = match request.profile_size {
            Some(profile_size) => {
                match self.recv_profile(session_info.path.as_str(), profile_size) {
                    Ok(p) => p,
                    Err(e) => {
                        self.session_manager.cleanup_session(&session_info);
                        proof {
                            assert(self.session_manager.sessions() =~= sessions0);
                            assert(self.session_manager.complete_sessions() =~= complete0);
                            assert(kind_of(h[6]) == RunnerMessageKind::RecvProfile);
                            assert(kind_of(h[7]) == RunnerMessageKind::RecvProfile);
                            assert(kind_of(rp_acks()[1]) == RunnerMessageKind::RecvProfile);
                            assert(kind_of(rp_acks()[2]) == RunnerMessageKind::RecvProfile);
                            match &e {
                                RunnerProtoError::Proto(m) => {
                                    if self.proto.sent() == sent5 {
                                        assert(self.proto.sent() =~= pre + h.take(5));
                                    } else if self.proto.sent() == sent5 + rp_acks().take(1) {
                                        assert(self.proto.sent() =~= pre + h.take(6));
                                    } else if self.proto.sent() == sent5 + rp_acks().take(1).push(
                                        err_ack(RunnerMessageKind::RecvProfile, m.0@),
                                    ) {
                                        assert(self.proto.sent() =~= pre + h.take(6).push(
                                            err_ack(RunnerMessageKind::RecvProfile, m.0@),
                                        ));
                                    } else if self.proto.sent() == sent5 + rp_acks().take(2) {
                                        assert(self.proto.sent() =~= pre + h.take(7));
                                    } else {
                                        assert(self.proto.sent() == sent5 + rp_acks().take(2).push(
                                            err_ack(RunnerMessageKind::RecvProfile, m.0@),
                                        ));
                                        assert(self.proto.sent() =~= pre + h.take(7).push(
                                            err_ack(RunnerMessageKind::RecvProfile, m.0@),
                                        ));
                                    }
                                },
                                RunnerProtoError::Zip(ze) => {
                                    let msg = spec_zip_error_message(*ze);
                                    if self.proto.sent() == sent5 + rp_acks().take(2) {
                                        assert(self.proto.sent() =~= pre + h.take(7));
                                    } else {
                                        assert(self.proto.sent() == sent5 + rp_acks().take(2).push(
                                            err_ack(RunnerMessageKind::RecvProfile, msg),
                                        ));
                                        assert(self.proto.sent() =~= pre + h.take(7).push(
                                            err_ack(RunnerMessageKind::RecvProfile, msg),
                                        ));
                                    }
                                },
                                RunnerProtoError::EmptyProfile => {
                                    let msg = "empty profile"@;
                                    if self.proto.sent() == sent5 + rp_acks().take(2) {
                                        assert(self.proto.sent() =~= pre + h.take(7));
                                    } else {
                                        assert(self.proto.sent() == sent5 + rp_acks().take(2).push(
                                            err_ack(RunnerMessageKind::RecvProfile, msg),
                                        ));
                                        assert(self.proto.sent() =~= pre + h.take(7).push(
                                            err_ack(RunnerMessageKind::RecvProfile, msg),
                                        ));
                                    }
                                },
                                _ => {
                                    assert(false);
                                },
                            }
                            assert(new_session_err_shape(pre, self.proto.sent(), id, wp, e));
                        }
                        return Err(e);
                    },
                }
            },
            None => {
                let profile_path = match self.session_manager.ensure_valid_profile_dir(
                    &session_info,
                ) {
                    Ok(p) => p,
                    Err(m) => {
                        let ack_text = ErrorMessage(m.0.clone());
                        let _ = self.proto.send(CreateProfile { result: Err(ack_text) });
                        self.session_manager.cleanup_session(&session_info);
                        proof {
                            assert(self.session_manager.sessions() =~= sessions0);
                            assert(self.session_manager.complete_sessions() =~= complete0);
                            assert(kind_of(h[5]) == RunnerMessageKind::CreateProfile);
                            assert(self.proto.sent() =~= pre + h.take(5) || self.proto.sent()
                                =~= pre + h.take(5).push(
                                err_ack(RunnerMessageKind::CreateProfile, m.0@),
                            ));
                            assert(new_session_err_shape(
                                pre,
                                self.proto.sent(),
                                id,
                                wp,
                                RunnerProtoError::EnsureProfile(m),
                            ));
                        }
                        return Err(RunnerProtoError::EnsureProfile(m));
                    },
                };
                if let Err(m) = self.proto.send(CreateProfile { result: Ok(()) }) {
                    self.session_manager.cleanup_session(&session_info);
                    proof {
                        assert(self.session_manager.sessions() =~= sessions0);
                        assert(self.session_manager.complete_sessions() =~= complete0);
                        assert(self.proto.sent() =~= pre + h.take(5));
                        assert(new_session_err_shape(
                            pre,
                            self.proto.sent(),
                            id,
                            wp,
                            RunnerProtoError::Proto(m),
                        ));
                    }
                    return Err(RunnerProtoError::Proto(m));
                }
                profile_path
            },
        };
        let ghost steps_done: int = if wp {
            8
        } else {
            6
        };
        proof {
            assert(self.proto.sent() =~= pre + h.take(steps_done));
            assert(kind_of(h[steps_done]) == RunnerMessageKind::WritePrefs);
        }
        if request.prefs.len() > 0 {
            let user_js = path_join(profile_path.as_str(), "user.js");
            let mut rendered = String::new();
            write_prefs(&mut rendered, &request.prefs);
            if let Err(m) = self.session_manager.append_file(user_js.as_str(), rendered.as_str()) {
                let ack_text = ErrorMessage(m.0.clone());
                let _ = self.proto.send(WritePrefs { result: Err(ack_text) });
                self.session_manager.cleanup_session(&session_info);
                proof {
                    assert(self.session_manager.sessions() =~= sessions0);
                    assert(self.session_manager.complete_sessions() =~= complete0);
                    assert(self.proto.sent() =~= pre + h.take(steps_done) || self.proto.sent()
                        =~= pre + h.take(steps_done).push(
                        err_ack(RunnerMessageKind::WritePrefs, m.0@),
                    ));
                    assert(new_session_err_shape(
                        pre,
                        self.proto.sent(),
                        id,
                        wp,
                        RunnerProtoError::Proto(m),
                    ));
                }
                return Err(RunnerProtoError::Proto(m));
            }
        }
        if let Err(m) = self.proto.send(WritePrefs { result: Ok(()) }) {
            self.session_manager.cleanup_session(&session_info);
            proof {
                assert(self.session_manager.sessions() =~= sessions0);
                assert(self.session_manager.complete_sessions() =~= complete0);
                assert(self.proto.sent() =~= pre + h.take(steps_done));
                assert(new_session_err_shape(
                    pre,
                    self.proto.sent(),
                    id,
                    wp,
                    RunnerProtoError::Proto(m),
                ));
            }
            return Err(RunnerProtoError::Proto(m));
        }
        proof {
            assert(self.proto.sent() =~= pre + h.take(steps_done + 1));
            assert(kind_of(h[steps_done + 1]) == RunnerMessageKind::Restarting);
            assert(steps_done + 1 == h.len() - 1);
        }
        if let Err(m) = self.shutdown_handler.initiate_restart(
            "fxrunner: restarting for cold Firefox start",
        ) {
            let ack_text = ErrorMessage(m.0.clone());
            let _ = self.proto.send(Restarting { result: Err(ack_text) });
            self.session_manager.cleanup_session(&session_info);
            proof {
                assert(self.session_manager.sessions() =~= sessions0);
                assert(self.session_manager.complete_sessions() =~= complete0);
                assert(self.proto.sent() =~= pre + h.take(h.len() - 1) || self.proto.sent() =~= pre
                    + h.take(h.len() - 1).push(err_ack(RunnerMessageKind::Restarting, m.0@)));
                assert(new_session_err_shape(
                    pre,
                    self.proto.sent(),
                    id,
                    wp,
                    RunnerProtoError::Shutdown(m),
                ));
            }
            return Err(RunnerProtoError::Shutdown(m));
        }
        if let Err(m) = self.proto.send(Restarting { result: Ok(()) }) {
            self.session_manager.cleanup_session(&session_info);
            proof {
                assert(self.session_manager.sessions() =~= sessions0);
                assert(self.session_manager.complete_sessions() =~= complete0);
                assert(self.proto.sent() =~= pre + h.take(h.len() - 1));
                assert(new_session_err_shape(
                    pre,
                    self.proto.sent(),
                    id,
                    wp,
                    RunnerProtoError::Proto(m),
                ));
            }
            return Err(RunnerProtoError::Proto(m));
        }
        proof {
            assert(h.take(h.len() as int) =~= h);
            assert(self.proto.sent() =~= pre + h);
            assert(self.session_manager.sessions() =~= sessions0.insert(id));
            assert(self.session_manager.writes() =~= writes0 + session_file_writes(
                session_info.path@,
                request.prefs@,
            ));
            assert(new_session_success_shape(
                pre,
                self.proto.sent(),
                sessions0,
                self.session_manager.sessions(),
                writes0,
                self.session_manager.writes(),
                wp,
                request.prefs@,
            ));
        }
        Ok(())
    }

    /// Handle a resume-session request: validate the stored session,
    /// acknowledge, optionally wait for the system to become idle, and
    /// destroy the session directory.
    pub fn handle_resume_session(&mut self, request: ResumeSessionRequest) -> (r: Result<
        (),
        RunnerProtoError,
    >)
        ensures
            final(self).session_manager.sessions() == old(self).session_manager.sessions().remove(
                request.session_id@,
            ),
            final(self).session_manager.complete_sessions() == old(
                self,
            ).session_manager.complete_sessions().remove(request.session_id@),
            ({
                let pre = old(self).proto.sent();
                let post = final(self).proto.sent();
                let wait = request.idle is Wait;
                match r {
                    Ok(()) => {
                        &&& post == pre + resume_happy(wait)
                        &&& spec_valid_session_id(request.session_id@)
                        &&& old(self).session_manager.complete_sessions().contains(
                            request.session_id@,
                        )
                        &&& (wait ==> idle_wait_outcome(
                            old(self).perf_provider.disk_log(),
                            final(self).perf_provider.disk_log(),
                            old(self).perf_provider.cpu_log(),
                            final(self).perf_provider.cpu_log(),
                            old(self).perf_provider.budget() as int,
                            Ok(()),
                        ))
                        &&& (!wait ==> final(self).perf_provider.disk_log() == old(
                            self,
                        ).perf_provider.disk_log() && final(self).perf_provider.cpu_log() == old(
                            self,
                        ).perf_provider.cpu_log())
                    },
                    Err(e) => {
                        &&& resume_err_shape(pre, post, wait, e)
                        &&& (e matches RunnerProtoError::WaitForIdle(ie) ==> wait
                            && idle_wait_outcome(
                            old(self).perf_provider.disk_log(),
                            final(self).perf_provider.disk_log(),
                            old(self).perf_provider.cpu_log(),
                            final(self).perf_provider.cpu_log(),
                            old(self).perf_provider.budget() as int,
                            Err(ie),
                        ))
                        &&& (e matches RunnerProtoError::ResumeSession(re) ==> {
                            &&& re.session_id@ == request.session_id@
                            &&& (re.kind == crate::session::ResumeSessionErrorKind::InvalidId
                                <==> !spec_valid_session_id(request.session_id@))
                            &&& (!old(self).session_manager.complete_sessions().contains(
                                request.session_id@,
                            ) || !spec_valid_session_id(request.session_id@))
                        })
                    },
                }
            }),
    {
        let ghost pre = self.proto.sent();
        let wait_idle = request.idle == Idle::Wait;
        let ghost h = resume_happy(request.idle is Wait);
        proof {
            assert(kind_of(h[0]) == RunnerMessageKind::ResumeResponse);
            assert(h.take(0) =~= Seq::<RunnerMessageV>::empty());
            assert(h.take(1) =~= seq![RunnerMessageV::ResumeResponseV(Ok(()))]);
        }
        let session_info = match self.session_manager.resume_session(request.session_id.as_str()) {
            Ok(si) => si,
            Err(e) => {
                let m = e.message();
                let _ = self.proto.send(ResumeResponse { result: Err(ErrorMessage(m)) });
                proof {
                    assert(self.proto.sent() =~= pre + h.take(0) || self.proto.sent() =~= pre
                        + h.take(0).push(
                        err_ack(
                            RunnerMessageKind::ResumeResponse,
                            spec_resume_error_message(e.session_id@, e.kind),
                        ),
                    ));
                    assert(resume_err_shape(
                        pre,
                        self.proto.sent(),
                        request.idle is Wait,
                        RunnerProtoError::ResumeSession(e),
                    ));
                }
                return Err(RunnerProtoError::ResumeSession(e));
            },
        };
        if let Err(m) = self.proto.send(ResumeResponse { result: Ok(()) }) {
            self.session_manager.cleanup_session(&session_info);
            proof {
                assert(self.proto.sent() =~= pre + h.take(0));
            }
            return Err(RunnerProtoError::Proto(m));
        }
        proof {
            assert(self.proto.sent() =~= pre + h.take(1));
        }
        if wait_idle {
            proof {
                assert(h.len() == 2);
                assert(kind_of(h[1]) == RunnerMessageKind::WaitForIdle);
            }
            let idle_result = cpu_and_disk_idle(&mut self.perf_provider);
            if let Err(ie) = idle_result {
                let msg = ie.message();
                let _ = self.proto.send(WaitForIdle { result: Err(ErrorMessage(msg)) });
                self.session_manager.cleanup_session(&session_info);
                proof {
                    assert(self.proto.sent() =~= pre + h.take(1) || self.proto.sent() =~= pre
                        + h.take(1).push(
                        err_ack(RunnerMessageKind::WaitForIdle, spec_idle_error_message(ie)),
                    ));
                }
                return Err(RunnerProtoError::WaitForIdle(ie));
            }
            if let Err(m) = self.proto.send(WaitForIdle { result: Ok(()) }) {
                self.session_manager.cleanup_session(&session_info);
                proof {
                    assert(self.proto.sent() =~= pre + h.take(1));
                }
                return Err(RunnerProtoError::Proto(m));
            }
        }
        self.session_manager.cleanup_session(&session_info);
        proof {
            assert(h.take(h.len() as int) =~= h);
            assert(self.proto.sent() =~= pre + h);
        }
        Ok(())
    }

    /// Handle one request from the recorder. Returns `true` when the caller
    /// should tear down its listener and let the machine restart, `false`
    /// when it should keep accepting connections.
    pub fn handle_request(&mut self, request: Session) -> (r: Result<bool, RunnerProtoError>)
        ensures
            ({
                let pre = old(self).proto.sent();
                let post = final(self).proto.sent();
                match request@ {
                    crate::message::SessionV::NewSessionV { profile_size, .. } => {
                        let wp = profile_size is Some;
                        &&& legal_new_session_transcript(pre, post, wp)
                        &&& match r {
                            Ok(restart) => {
                                &&& restart == true
                                &&& final(self).session_manager.complete_sessions() == old(
                                    self,
                                ).session_manager.complete_sessions()
                                &&& new_session_success_shape(
                                    pre,
                                    post,
                                    old(self).session_manager.sessions(),
                                    final(self).session_manager.sessions(),
                                    old(self).session_manager.writes(),
                                    final(self).session_manager.writes(),
                                    wp,
                                    request->NewSession_0.prefs@,
                                )
                            },
                            Err(e) => {
                                &&& final(self).session_manager.sessions() == old(
                                    self,
                                ).session_manager.sessions()
                                &&& final(self).session_manager.complete_sessions() == old(
                                    self,
                                ).session_manager.complete_sessions()
                                &&& exists|id: Seq<char>|
                                    #![auto]
                                    new_session_err_shape(pre, post, id, wp, e)
                            },
                        }
                    },
                    crate::message::SessionV::ResumeSessionV { session_id, idle } => {
                        let wait = idle is Wait;
                        &&& legal_resume_transcript(pre, post, wait)
                        &&& final(self).session_manager.sessions() == old(
                            self,
                        ).session_manager.sessions().remove(session_id)
                        &&& final(self).session_manager.complete_sessions() == old(
                            self,
                        ).session_manager.complete_sessions().remove(session_id)
                        &&& match r {
                            Ok(restart) => {
                                &&& restart == false
                                &&& post == pre + resume_happy(wait)
                                &&& spec_valid_session_id(session_id)
                                &&& old(self).session_manager.complete_sessions().contains(
                                    session_id,
                                )
                            },
                            Err(e) => {
                                &&& resume_err_shape(pre, post, wait, e)
                            },
                        }
                    },
                }
            }),
    {
        let ghost pre = self.proto.sent();
        match request {
            Session::NewSession(req) => {
                let ghost wp = req.profile_size is Some;
                let ghost req_prefs = req.prefs@;
                match self.handle_new_session(req) {
                    Ok(()) => {
                        proof {
                            let (id, sp) = choose|id: Seq<char>, sp: Seq<char>|
                                #![trigger new_session_happy(id, wp), session_file_writes(
                                    sp,
                                    req_prefs,
                                )]
                                {
                                    &&& spec_valid_session_id(id)
                                    &&& !old(self).session_manager.sessions().contains(id)
                                    &&& self.proto.sent() == pre + new_session_happy(id, wp)
                                    &&& self.session_manager.sessions() == old(
                                        self,
                                    ).session_manager.sessions().insert(id)
                                    &&& self.session_manager.writes() == old(
                                        self,
                                    ).session_manager.writes() + session_file_writes(
                                        sp,
                                        req_prefs,
                                    )
                                };
                            lemma_new_session_transcript_legal(
                                pre,
                                self.proto.sent(),
                                id,
                                wp,
                                Ok(()),
                            );
                        }
                        Ok(true)
                    },
                    Err(e) => {
                        proof {
                            let id = choose|id: Seq<char>|
                                #![auto]
                                new_session_err_shape(pre, self.proto.sent(), id, wp, e);
                            lemma_new_session_transcript_legal(
                                pre,
                                self.proto.sent(),
                                id,
                                wp,
                                Err(e),
                            );
                        }
                        Err(e)
                    },
                }
            },
            Session::ResumeSession(req) => {
                let ghost wait = req.idle is Wait;
                match self.handle_resume_session(req) {
                    Ok(()) => {
                        proof {
                            lemma_resume_transcript_legal(pre, self.proto.sent(), wait, Ok(()));
                        }
                        Ok(false)
                    },
                    Err(e) => {
                        proof {
                            lemma_resume_transcript_legal(pre, self.proto.sent(), wait, Err(e));
                        }
                        Err(e)
                    },
                }
            },
        }
    }
}

} // verus!
