//! The session store: per-session directories under a session root.
//!
//! A session is identified by a 32-character alphanumeric ID and owns the
//! directory `<root>/<id>/`, which holds the downloaded browser under
//! `firefox/` and the profile under `profile/`. The directory is the only
//! state that survives the restart between the two halves of a session.

use vstd::prelude::*;

use crate::text::{is_alnum, spec_is_alnum, push_decimal, dec_rep};
use crate::zip::{ZipError, ZipStats};
use crate::ErrorMessage;

verus! {

/// The required length of a session ID.
pub const SESSION_ID_LEN: usize = 32;

/// Whether `s` is a well-formed session ID: exactly 32 ASCII alphanumeric
/// characters.
pub open spec fn spec_valid_session_id(s: Seq<char>) -> bool {
    &&& s.len() == SESSION_ID_LEN
    &&& forall|i: int| 0 <= i < s.len() ==> spec_is_alnum(#[trigger] s[i])
}

/// Validate that the given session ID is of the proper form.
pub fn validate_session_id(session_id: &str) -> (r: bool)
    ensures
        r == spec_valid_session_id(session_id@),
{
    let len = session_id.unicode_len();
    if len != SESSION_ID_LEN {
        return false;
    }
    let mut i: usize = 0;
    while i < len
        invariant
            len == session_id@.len(),
            i <= len,
            forall|j: int| 0 <= j < i ==> spec_is_alnum(#[trigger] session_id@[j]),
        decreases len - i,
    {
        let c = session_id.get_char(i);
        if !is_alnum(c) {
            return false;
        }
        i = i + 1;
    }
    true
}

/// A handle to a session: its ID and the path of its directory.
pub struct SessionInfo {
    /// The 32-character alphanumeric session ID.
    pub id: String,
    /// The path of the session directory.
    pub path: String,
}

impl Clone for SessionInfo {
    fn clone(&self) -> (r: Self)
        ensures
            r.id@ == self.id@,
            r.path@ == self.path@,
    {
        SessionInfo { id: self.id.clone(), path: self.path.clone() }
    }
}

/// Why resuming a session was refused.
#[derive(Clone, Copy, Debug, PartialEq, Eq, Structural)]
pub enum ResumeSessionErrorKind {
    /// The ID is not 32 alphanumeric characters.
    InvalidId,
    /// No session directory with this ID exists.
    DoesNotExist,
    /// The session directory has no `profile/` directory.
    MissingProfile,
    /// The session directory has no browser binary under `firefox/`.
    MissingFirefox,
}

impl ResumeSessionErrorKind {
    /// The reason as human-readable text.
    pub fn message(&self) -> (r: &'static str)
        ensures
            r@ == spec_resume_kind_message(*self),
    {
        match self {
            ResumeSessionErrorKind::InvalidId => "ID contains invalid characters",
            ResumeSessionErrorKind::DoesNotExist => "does not exist to resume",
            ResumeSessionErrorKind::MissingProfile => "missing a profile directory",
            ResumeSessionErrorKind::MissingFirefox => "missing a Firefox binary",
        }
    }
}

/// The text of each resume refusal reason.
pub open spec fn spec_resume_kind_message(kind: ResumeSessionErrorKind) -> Seq<char> {
    match kind {
        ResumeSessionErrorKind::InvalidId => "ID contains invalid characters"@,
        ResumeSessionErrorKind::DoesNotExist => "does not exist to resume"@,
        ResumeSessionErrorKind::MissingProfile => "missing a profile directory"@,
        ResumeSessionErrorKind::MissingFirefox => "missing a Firefox binary"@,
    }
}

/// A refusal to resume a session, with the offending ID.
#[derive(Debug)]
pub struct ResumeSessionError {
    /// The ID from the resume request.
    pub session_id: String,
    /// Why the resume was refused.
    pub kind: ResumeSessionErrorKind,
}

/// The text of a [`ResumeSessionError`]:
/// ``Invalid session ID `ID': REASON``.
pub open spec fn spec_resume_error_message(id: Seq<char>, kind: ResumeSessionErrorKind) -> Seq<
    char,
> {
    "Invalid session ID `"@ + id + "': "@ + spec_resume_kind_message(kind)
}

impl ResumeSessionError {
    /// Render the error as human-readable text.
    pub fn message(&self) -> (r: String)
        ensures
            r@ == spec_resume_error_message(self.session_id@, self.kind),
    {
        let mut out = String::new();
        out.append("Invalid session ID `");
        out.append(self.session_id.as_str());
        out.append("': ");
        out.append(self.kind.message());
        out
    }
}

/// An error from creating a new session.
#[derive(Debug)]
pub enum NewSessionError {
    /// An underlying filesystem failure, as text.
    Io(ErrorMessage),
    /// No unused session directory name was found in the given number of
    /// attempts.
    TooManyAttempts(u64),
}

/// The text of a [`NewSessionError`].
pub open spec fn spec_new_session_error_message(e: NewSessionError) -> Seq<char> {
    match e {
        NewSessionError::Io(m) => m.0@,
        NewSessionError::TooManyAttempts(n) => "Could not create a request directory after "@
            + dec_rep(n as nat) + " attempts"@,
    }
}

impl NewSessionError {
    /// Render the error as human-readable text.
    pub fn message(&self) -> (r: String)
        ensures
            r@ == spec_new_session_error_message(*self),
    {
        match self {
            NewSessionError::Io(m) => m.0.clone(),
            NewSessionError::TooManyAttempts(n) => {
                let mut out = String::new();
                out.append("Could not create a request directory after ");
                push_decimal(&mut out, *n);
                out.append(" attempts");
                out
            },
        }
    }
}

/// How many directory names `new_session` tries before giving up.
pub const NEW_SESSION_TRIES: u64 = 30;

/// Relies on rand's `Alphanumeric` distribution: every sample is an ASCII
/// letter or digit.
#[verifier::external_body]
fn sample_alphanumeric() -> (c: char)
    ensures
        spec_is_alnum(c),
{
    let b: u8 = rand::Rng::sample(&mut rand::thread_rng(), rand::distributions::Alphanumeric);
    b as char
}

/// Draw a fresh random session ID: 32 alphanumeric characters.
pub fn new_session_id() -> (r: String)
    ensures
        spec_valid_session_id(r@),
{
    let mut id = String::new();
    let mut i: usize = 0;
    while i < SESSION_ID_LEN
        invariant
            i <= SESSION_ID_LEN,
            id@.len() == i,
            forall|j: int| 0 <= j < i ==> spec_is_alnum(#[trigger] id@[j]),
        decreases SESSION_ID_LEN - i,
    {
        let c = sample_alphanumeric();
        id.push(c);
        i = i + 1;
    }
    id
}

/// Join a directory path and an entry name with a `/` separator.
pub open spec fn spec_path_join(dir: Seq<char>, name: Seq<char>) -> Seq<char> {
    dir + "/"@ + name
}

/// Join a directory path and an entry name with a `/` separator.
pub fn path_join(dir: &str, name: &str) -> (r: String)
    ensures
        r@ == spec_path_join(dir@, name@),
{
    let mut out = String::new();
    out.append(dir);
    out.append("/");
    out.append(name);
    out
}

/// The decision at the heart of `resume_session`: given the probe results
/// for a session ID, decide whether the resume is valid, and if not, why.
///
/// The probes mirror the on-disk layout rule: the session directory itself,
/// then `profile/`, then `firefox/` with the browser binary in it.
pub fn resume_session_decision(
    session_id: &str,
    dir_exists: bool,
    profile_is_dir: bool,
    firefox_is_dir: bool,
    binary_is_file: bool,
) -> (r: Result<(), ResumeSessionErrorKind>)
    ensures
        r == spec_resume_decision(
            session_id@,
            dir_exists,
            profile_is_dir,
            firefox_is_dir,
            binary_is_file,
        ),
        r is Ok <==> spec_valid_session_id(session_id@) && dir_exists && profile_is_dir
            && firefox_is_dir && binary_is_file,
{
    if !validate_session_id(session_id) {
        Err(ResumeSessionErrorKind::InvalidId)
    } else if !dir_exists {
        Err(ResumeSessionErrorKind::DoesNotExist)
    } else if !profile_is_dir {
        Err(ResumeSessionErrorKind::MissingProfile)
    } else if !firefox_is_dir || !binary_is_file {
        Err(ResumeSessionErrorKind::MissingFirefox)
    } else {
        Ok(())
    }
}

/// The resume decision as a function: each refusal reason comes exactly on
/// the inputs that show it, checked in layout order.
pub open spec fn spec_resume_decision(
    id: Seq<char>,
    dir_exists: bool,
    profile_is_dir: bool,
    firefox_is_dir: bool,
    binary_is_file: bool,
) -> Result<(), ResumeSessionErrorKind> {
    if !spec_valid_session_id(id) {
        Err(ResumeSessionErrorKind::InvalidId)
    } else if !dir_exists {
        Err(ResumeSessionErrorKind::DoesNotExist)
    } else if !profile_is_dir {
        Err(ResumeSessionErrorKind::MissingProfile)
    } else if !firefox_is_dir || !binary_is_file {
        Err(ResumeSessionErrorKind::MissingFirefox)
    } else {
        Ok(())
    }
}

/// A new session followed by its cleanup leaves the session store exactly
/// as it was; in particular, on a fresh store the session root ends up
/// empty again.
pub proof fn lemma_new_session_then_cleanup(sessions: Set<Seq<char>>, id: Seq<char>)
    requires
        !sessions.contains(id),
    ensures
        sessions.insert(id).remove(id) == sessions,
{
    assert(sessions.insert(id).remove(id) =~= sessions);
}

/// A store of sessions: creates, validates, and destroys per-session
/// directories. The shipped implementation lives on the runner and works on
/// the real filesystem; tests substitute an in-memory store.
///
/// The abstract state is the set of session IDs that currently have a
/// directory, of which `complete_sessions()` are the ones that also hold a
/// profile and a browser binary.
pub trait SessionManager: Sized {
    /// The IDs of the sessions that currently exist in the store.
    ///
    /// An implementation that does not model its session set — such as a
    /// store on a real filesystem — leaves the default, and its callers
    /// learn nothing from it.
    open spec fn sessions(&self) -> Set<Seq<char>> {
        Set::empty()
    }

    /// The IDs of the sessions that are complete: they hold `profile/` and
    /// the browser binary under `firefox/`.
    open spec fn complete_sessions(&self) -> Set<Seq<char>> {
        Set::empty()
    }

    /// The log of file contents handed to the store, in order: one
    /// `(path, contents)` entry per `write_file` or `append_file` call.
    /// As with `sessions`, an unmodeled store leaves the default.
    open spec fn writes(&self) -> Seq<(Seq<char>, Seq<char>)> {
        Seq::empty()
    }

    /// Create a new session with a fresh random ID and an empty directory.
    fn new_session(&mut self) -> (r: Result<SessionInfo, NewSessionError>)
        ensures
            final(self).writes() == old(self).writes(),
            match r {
                Ok(info) => {
                    &&& spec_valid_session_id(info.id@)
                    &&& !old(self).sessions().contains(info.id@)
                    &&& !old(self).complete_sessions().contains(info.id@)
                    &&& final(self).sessions() == old(self).sessions().insert(info.id@)
                    &&& final(self).complete_sessions() == old(self).complete_sessions()
                },
                Err(_) => final(self).sessions() == old(self).sessions()
                    && final(self).complete_sessions() == old(self).complete_sessions(),
            },
    ;

    /// Attempt to resume the session with the given ID.
    ///
    /// Succeeds exactly when the ID is well formed and names a complete
    /// session. On a failed probe of an existing session the directory is
    /// destroyed.
    fn resume_session(&mut self, session_id: &str) -> (r: Result<
        SessionInfo,
        ResumeSessionError,
    >)
        ensures
            final(self).writes() == old(self).writes(),
            match r {
                Ok(info) => {
                    &&& info.id@ == session_id@
                    &&& spec_valid_session_id(session_id@)
                    &&& old(self).complete_sessions().contains(session_id@)
                    &&& final(self).sessions() == old(self).sessions()
                    &&& final(self).complete_sessions() == old(self).complete_sessions()
                },
                Err(e) => {
                    &&& e.session_id@ == session_id@
                    &&& (!old(self).complete_sessions().contains(session_id@)
                        || !spec_valid_session_id(session_id@))
                    &&& (e.kind == ResumeSessionErrorKind::InvalidId <==> !spec_valid_session_id(
                        session_id@,
                    ))
                    &&& final(self).sessions() == old(self).sessions().remove(session_id@)
                    &&& final(self).complete_sessions() == old(self).complete_sessions().remove(
                        session_id@,
                    )
                },
            },
    ;

    /// Ensure the profile directory of the given session exists and is
    /// empty; return its path. Fails if it already exists.
    fn ensure_valid_profile_dir(&mut self, session_info: &SessionInfo) -> (r: Result<
        String,
        ErrorMessage,
    >)
        ensures
            final(self).sessions() == old(self).sessions(),
            final(self).complete_sessions() == old(self).complete_sessions(),
            final(self).writes() == old(self).writes(),
            r matches Ok(p) ==> p@ == spec_path_join(session_info.path@, "profile"@),
    ;

    /// Recursively destroy the session directory.
    fn cleanup_session(&mut self, session_info: &SessionInfo)
        ensures
            final(self).sessions() == old(self).sessions().remove(session_info.id@),
            final(self).complete_sessions() == old(self).complete_sessions().remove(
                session_info.id@,
            ),
            final(self).writes() == old(self).writes(),
    ;

    /// Create a directory inside a session (parents must exist).
    fn create_dir(&mut self, path: &str) -> (r: Result<(), ErrorMessage>)
        ensures
            final(self).sessions() == old(self).sessions(),
            final(self).complete_sessions() == old(self).complete_sessions(),
            final(self).writes() == old(self).writes(),
    ;

    /// Create a file holding exactly `contents`, replacing any old file.
    fn write_file(&mut self, path: &str, contents: &str) -> (r: Result<(), ErrorMessage>)
        ensures
            final(self).sessions() == old(self).sessions(),
            final(self).complete_sessions() == old(self).complete_sessions(),
            r is Ok ==> final(self).writes() == old(self).writes().push((path@, contents@)),
            r is Err ==> final(self).writes() == old(self).writes(),
    ;

    /// Append `contents` to a file, creating it if missing.
    fn append_file(&mut self, path: &str, contents: &str) -> (r: Result<(), ErrorMessage>)
        ensures
            final(self).sessions() == old(self).sessions(),
            final(self).complete_sessions() == old(self).complete_sessions(),
            r is Ok ==> final(self).writes() == old(self).writes().push((path@, contents@)),
            r is Err ==> final(self).writes() == old(self).writes(),
    ;

    /// Move the file or directory at `from` to `to`.
    fn rename(&mut self, from: &str, to: &str) -> (r: Result<(), ErrorMessage>)
        ensures
            final(self).sessions() == old(self).sessions(),
            final(self).complete_sessions() == old(self).complete_sessions(),
            final(self).writes() == old(self).writes(),
    ;

    /// Extract the archive at `archive` under the directory `target` and
    /// report the extraction statistics.
    fn unzip(&mut self, archive: &str, target: &str) -> (r: Result<ZipStats, ZipError>)
        ensures
            final(self).sessions() == old(self).sessions(),
            final(self).complete_sessions() == old(self).complete_sessions(),
            final(self).writes() == old(self).writes(),
    ;

    /// Whether a regular file exists at `path`.
    fn is_file(&mut self, path: &str) -> (r: bool)
        ensures
            final(self).sessions() == old(self).sessions(),
            final(self).complete_sessions() == old(self).complete_sessions(),
            final(self).writes() == old(self).writes(),
    ;

    /// Whether a directory exists at `path`.
    fn is_dir(&mut self, path: &str) -> (r: bool)
        ensures
            final(self).sessions() == old(self).sessions(),
            final(self).complete_sessions() == old(self).complete_sessions(),
            final(self).writes() == old(self).writes(),
    ;

    /// Remove the file, or directory tree, at `path`. Used to drop the
    /// transient downloads once a phase has extracted them.
    fn remove_path(&mut self, path: &str) -> (r: Result<(), ErrorMessage>)
        ensures
            final(self).sessions() == old(self).sessions(),
            final(self).complete_sessions() == old(self).complete_sessions(),
            final(self).writes() == old(self).writes(),
    ;
}

} // verus!
