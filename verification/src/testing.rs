//! Test doubles for the collaborator seams: an in-memory filesystem, a
//! session store over it, a canned artifact provider, scripted performance
//! counters, a shutdown provider that only records, and buffer transports
//! for both protocol sides.

use vstd::prelude::*;

use crate::message::{RecorderMessage, RunnerMessage};
use crate::osapi::{IoCounters, PerfProvider, ShutdownProvider};
use crate::recorder_proto::RecorderTransport;
use crate::runner_proto::Transport;
use crate::session::{
    path_join, spec_path_join, validate_session_id, spec_valid_session_id, NewSessionError,
    ResumeSessionError, ResumeSessionErrorKind, SessionInfo, SessionManager,
};
use crate::taskcluster::Taskcluster;
use crate::zip::{strings_equal, ZipError, ZipStats};
use crate::ErrorMessage;

verus! {

/// The only session ID the test session store knows.
pub const VALID_SESSION_ID: &'static str = "REQUESTID0REQUESTID0REQUESTID012";

/// The directory the test session store keeps its one session under.
pub const TEST_SESSION_ROOT: &'static str = "/sessions";

/// The test session ID is well formed.
proof fn valid_session_id_fact()
    ensures
        spec_valid_session_id(VALID_SESSION_ID@),
{
    reveal_strlit("REQUESTID0REQUESTID0REQUESTID012");
    assert(VALID_SESSION_ID@.len() == 32);
    assert forall|i: int| 0 <= i < VALID_SESSION_ID@.len() implies crate::text::spec_is_alnum(
        #[trigger] VALID_SESSION_ID@[i],
    ) by {
        if i < 16 {
            assert(crate::text::spec_is_alnum(VALID_SESSION_ID@[i]));
        } else {
            assert(crate::text::spec_is_alnum(VALID_SESSION_ID@[i]));
        }
    }
}

// --- In-memory filesystem ----------------------------------------------------

/// One entry of the in-memory filesystem.
pub enum FsNode {
    /// A directory.
    Dir,
    /// A regular file with text contents.
    File(String),
    /// An archive whose entries are `(path, is_dir)` pairs.
    Archive(Vec<(String, bool)>),
}

/// A small in-memory filesystem: a flat list of `(path, node)` entries.
pub struct InMemoryFs {
    /// The entries, in insertion order.
    pub entries: Vec<(String, FsNode)>,
}

/// Whether `s` starts with `prefix`.
pub fn str_starts_with(s: &str, prefix: &str) -> (r: bool)
    ensures
        r == (prefix@.len() <= s@.len() && s@.take(prefix@.len() as int) == prefix@),
{
    let ls = s.unicode_len();
    let lp = prefix.unicode_len();
    if lp > ls {
        return false;
    }
    let head = s.substring_char(0, lp);
    proof {
        assert(head@ =~= s@.take(prefix@.len() as int));
    }
    strings_equal(head, prefix)
}

impl InMemoryFs {
    /// An empty filesystem.
    pub fn new() -> InMemoryFs {
        InMemoryFs { entries: Vec::new() }
    }

    /// The index of the entry at `path`, if any.
    fn find(&self, path: &str) -> (r: Option<usize>)
        ensures
            r matches Some(i) ==> i < self.entries@.len(),
    {
        let mut i: usize = 0;
        while i < self.entries.len()
            invariant
                i <= self.entries@.len(),
            decreases self.entries@.len() - i,
        {
            if strings_equal(self.entries[i].0.as_str(), path) {
                return Some(i);
            }
            i = i + 1;
        }
        None
    }

    /// Whether a directory exists at `path`.
    pub fn is_dir(&self, path: &str) -> bool {
        match self.find(path) {
            Some(i) => matches!(&self.entries[i].1, FsNode::Dir),
            None => false,
        }
    }

    /// Whether a regular file exists at `path`.
    pub fn is_file(&self, path: &str) -> bool {
        match self.find(path) {
            Some(i) => matches!(&self.entries[i].1, FsNode::File(_)),
            None => false,
        }
    }

    /// The contents of the file at `path`, if one exists.
    pub fn read_file(&self, path: &str) -> Option<String> {
        match self.find(path) {
            Some(i) => match &self.entries[i].1 {
                FsNode::File(contents) => Some(contents.clone()),
                _ => None,
            },
            None => None,
        }
    }

    /// How many entries lie strictly under the directory at `path`.
    pub fn count_under(&self, path: &str) -> usize {
        let prefix = path_join(path, "");
        let mut count: usize = 0;
        let mut i: usize = 0;
        while i < self.entries.len()
            invariant
                i <= self.entries@.len(),
                count <= i,
            decreases self.entries@.len() - i,
        {
            if str_starts_with(self.entries[i].0.as_str(), prefix.as_str()) {
                count = count + 1;
            }
            i = i + 1;
        }
        count
    }

    /// Put `node` at `path`, replacing any old entry.
    fn put(&mut self, path: &str, node: FsNode) {
        let found = self.find(path);
        match found {
            Some(i) => {
                let _ = self.entries.remove(i);
            },
            None => {},
        }
        self.entries.push((path.to_owned(), node));
    }

    /// Register an archive for later extraction.
    pub fn put_archive(&mut self, path: &str, entries: Vec<(String, bool)>) {
        self.put(path, FsNode::Archive(entries));
    }

    /// Register a plain file.
    pub fn put_file(&mut self, path: &str, contents: &str) {
        self.put(path, FsNode::File(contents.to_owned()));
    }

    /// Create a directory; fails if an entry already exists there.
    pub fn create_dir(&mut self, path: &str) -> Result<(), ErrorMessage> {
        if self.find(path).is_some() {
            return Err(ErrorMessage("File exists".to_owned()));
        }
        self.entries.push((path.to_owned(), FsNode::Dir));
        Ok(())
    }

    /// Append to the file at `path`, creating it if missing.
    pub fn append_file(&mut self, path: &str, contents: &str) -> Result<(), ErrorMessage> {
        let found = self.find(path);
        match found {
            Some(i) => {
                let combined = match &self.entries[i].1 {
                    FsNode::File(old_contents) => {
                        let mut c = old_contents.clone();
                        c.append(contents);
                        c
                    },
                    _ => {
                        return Err(ErrorMessage("not a file".to_owned()));
                    },
                };
                let _ = self.entries.remove(i);
                self.entries.push((path.to_owned(), FsNode::File(combined)));
                Ok(())
            },
            None => {
                self.entries.push((path.to_owned(), FsNode::File(contents.to_owned())));
                Ok(())
            },
        }
    }

    /// Remove the entry at `path` and everything under it.
    pub fn remove_path(&mut self, path: &str) -> Result<(), ErrorMessage> {
        if self.find(path).is_none() {
            return Err(ErrorMessage("No such file or directory".to_owned()));
        }
        let prefix = path_join(path, "");
        let mut kept: Vec<(String, FsNode)> = Vec::new();
        loop
            decreases self.entries@.len(),
        {
            let next = self.entries.pop();
            let (entry_path, node) = match next {
                Some(p) => p,
                None => {
                    break;
                },
            };
            if strings_equal(entry_path.as_str(), path)
                || str_starts_with(entry_path.as_str(), prefix.as_str()) {
                continue;
            }
            kept.push((entry_path, node));
        }
        self.entries = kept;
        Ok(())
    }

    /// Move the entry at `from`, and everything under it, to `to`.
    pub fn rename(&mut self, from: &str, to: &str) -> Result<(), ErrorMessage> {
        if self.find(from).is_none() {
            return Err(ErrorMessage("No such file or directory".to_owned()));
        }
        let from_prefix = path_join(from, "");
        let mut renamed: Vec<(String, FsNode)> = Vec::new();
        loop
            decreases self.entries@.len(),
        {
            let next = self.entries.pop();
            let (path, node) = match next {
                Some(p) => p,
                None => {
                    break;
                },
            };
            if strings_equal(path.as_str(), from) {
                renamed.push((to.to_owned(), node));
            } else if str_starts_with(path.as_str(), from_prefix.as_str()) {
                let from_len = from_prefix.unicode_len();
                let path_len = path.as_str().unicode_len();
                let suffix = path.as_str().substring_char(from_len, path_len);
                let new_path = path_join(to, suffix);
                renamed.push((new_path, node));
            } else {
                renamed.push((path, node));
            }
        }
        self.entries = renamed;
        Ok(())
    }

    /// Extract the archive registered at `archive` under `target` and
    /// report the statistics.
    pub fn unzip(&mut self, archive: &str, target: &str) -> Result<ZipStats, ZipError> {
        let found = self.find(archive);
        let entry_list: Vec<(String, bool)> = match found {
            Some(i) => match &self.entries[i].1 {
                FsNode::Archive(entries) => {
                    let mut copied: Vec<(String, bool)> = Vec::new();
                    let mut j: usize = 0;
                    while j < entries.len()
                        invariant
                            j <= entries@.len(),
                        decreases entries@.len() - j,
                    {
                        copied.push((entries[j].0.clone(), entries[j].1));
                        j = j + 1;
                    }
                    copied
                },
                _ => {
                    return Err(
                        ZipError::ReadArchive {
                            archive: archive.to_owned(),
                            message: ErrorMessage(
                                "Invalid Zip archive: Could not find central directory end".to_owned(),
                            ),
                        },
                    );
                },
            },
            None => {
                return Err(
                    ZipError::OpenArchive {
                        archive: archive.to_owned(),
                        message: ErrorMessage("No such file or directory".to_owned()),
                    },
                );
            },
        };
        if self.find(target).is_none() {
            self.entries.push((target.to_owned(), FsNode::Dir));
        }
        let mut stats = ZipStats::new();
        let mut i: usize = 0;
        while i < entry_list.len()
            invariant
                i <= entry_list@.len(),
                stats.extracted <= i,
            decreases entry_list@.len() - i,
        {
            let name = entry_list[i].0.clone();
            let is_dir = entry_list[i].1;
            let dest = path_join(target, name.as_str());
            if is_dir {
                self.put(dest.as_str(), FsNode::Dir);
            } else {
                self.put(dest.as_str(), FsNode::File(String::new()));
            }
            stats.record_entry(i, name.as_str(), is_dir);
            i = i + 1;
        }
        Ok(stats)
    }
}

// --- Session store over the in-memory filesystem ------------------------------

/// How the test session store should fail.
pub enum SessionFailureMode {
    /// `new_session` fails with this error.
    NewSession(NewSessionError),
    /// `resume_session` fails with this refusal reason.
    ResumeSession(ResumeSessionErrorKind),
    /// `ensure_valid_profile_dir` fails with this message.
    EnsureProfileDir(&'static str),
}

/// A session store over an in-memory filesystem, knowing at most the one
/// session [`VALID_SESSION_ID`].
pub struct TestSessionManager {
    /// How the store should fail, if at all.
    pub failure_mode: Option<SessionFailureMode>,
    /// The in-memory filesystem behind the store.
    pub fs: InMemoryFs,
    /// Whether the one session's directory currently exists.
    pub session_exists: bool,
    /// Whether the one session is complete: profile and browser present.
    pub session_complete: bool,
    /// The session handle most recently given out.
    pub last_session_info: Option<SessionInfo>,
    /// The log of file contents handed to the store.
    pub write_log: Ghost<Seq<(Seq<char>, Seq<char>)>>,
}

impl TestSessionManager {
    /// A store with no session yet, ready for a new-session request, with
    /// the canned build archives registered.
    pub fn default() -> (r: TestSessionManager)
        ensures
            r.sessions() == Set::<Seq<char>>::empty(),
            r.complete_sessions() == Set::<Seq<char>>::empty(),
            r.writes() == Seq::<(Seq<char>, Seq<char>)>::empty(),
    {
        let mut fs = InMemoryFs::new();
        let mut firefox_entries: Vec<(String, bool)> = Vec::new();
        firefox_entries.push(("firefox".to_owned(), true));
        firefox_entries.push(("firefox/firefox.exe".to_owned(), false));
        fs.put_archive("/testdata/firefox.zip", firefox_entries);
        let mut bad_entries: Vec<(String, bool)> = Vec::new();
        bad_entries.push(("dir".to_owned(), true));
        bad_entries.push(("dir/test.txt".to_owned(), false));
        fs.put_archive("/testdata/test.zip", bad_entries);
        fs.put_file("/testdata/README.md", "not an archive");
        TestSessionManager {
            failure_mode: None,
            fs,
            session_exists: false,
            session_complete: false,
            last_session_info: None,
            write_log: Ghost(Seq::empty()),
        }
    }

    /// A store already holding the complete session, ready for a resume.
    pub fn with_complete_session() -> (r: TestSessionManager)
        ensures
            r.sessions() == Set::<Seq<char>>::empty().insert(VALID_SESSION_ID@),
            r.complete_sessions() == Set::<Seq<char>>::empty().insert(VALID_SESSION_ID@),
    {
        let mut mgr = TestSessionManager::default();
        mgr.session_exists = true;
        mgr.session_complete = true;
        mgr
    }

    /// A store that fails as `failure_mode` says.
    pub fn with_failure(failure_mode: SessionFailureMode) -> (r: TestSessionManager)
        ensures
            r.complete_sessions() == Set::<Seq<char>>::empty(),
    {
        let mut mgr = TestSessionManager::default();
        match &failure_mode {
            SessionFailureMode::ResumeSession(_) => {
                mgr.session_exists = true;
                mgr.session_complete = false;
            },
            _ => {},
        }
        mgr.failure_mode = Some(failure_mode);
        mgr
    }

    /// The path of the one session's directory.
    pub fn session_path() -> (r: String)
        ensures
            r@ == spec_path_join(TEST_SESSION_ROOT@, VALID_SESSION_ID@),
    {
        path_join(TEST_SESSION_ROOT, VALID_SESSION_ID)
    }
}

impl SessionManager for TestSessionManager {
    open spec fn sessions(&self) -> Set<Seq<char>> {
        if self.session_exists {
            Set::empty().insert(VALID_SESSION_ID@)
        } else {
            Set::empty()
        }
    }

    open spec fn complete_sessions(&self) -> Set<Seq<char>> {
        if self.session_exists && self.session_complete {
            Set::empty().insert(VALID_SESSION_ID@)
        } else {
            Set::empty()
        }
    }

    open spec fn writes(&self) -> Seq<(Seq<char>, Seq<char>)> {
        self.write_log@
    }

    fn new_session(&mut self) -> (r: Result<SessionInfo, NewSessionError>) {
        let failed: Option<NewSessionError> = match &self.failure_mode {
            Some(SessionFailureMode::NewSession(e)) => Some(clone_new_session_err(e)),
            _ => None,
        };
        if let Some(e) = failed {
            return Err(e);
        }
        if self.session_exists {
            return Err(NewSessionError::Io(ErrorMessage("session already exists".to_owned())));
        }
        let path = TestSessionManager::session_path();
        let _ = self.fs.create_dir(path.as_str());
        self.session_exists = true;
        self.session_complete = false;
        let info = SessionInfo { id: VALID_SESSION_ID.to_owned(), path };
        self.last_session_info = Some(info.clone());
        proof {
            valid_session_id_fact();
            assert(self.sessions() =~= old(self).sessions().insert(VALID_SESSION_ID@));
            assert(self.complete_sessions() =~= old(self).complete_sessions());
        }
        Ok(info)
    }

    fn resume_session(&mut self, session_id: &str) -> (r: Result<SessionInfo, ResumeSessionError>) {
        let valid = validate_session_id(session_id);
        if !valid {
            proof {
                valid_session_id_fact();
                assert(self.sessions() =~= old(self).sessions().remove(session_id@));
                assert(self.complete_sessions() =~= old(self).complete_sessions().remove(
                    session_id@,
                ));
            }
            return Err(
                ResumeSessionError {
                    session_id: session_id.to_owned(),
                    kind: ResumeSessionErrorKind::InvalidId,
                },
            );
        }
        let is_the_session = strings_equal(session_id, VALID_SESSION_ID);
        let configured: Option<ResumeSessionErrorKind> = match &self.failure_mode {
            Some(SessionFailureMode::ResumeSession(kind)) => {
                if matches!(kind, ResumeSessionErrorKind::InvalidId) {
                    None
                } else {
                    Some(*kind)
                }
            },
            _ => None,
        };
        if let Some(kind) = configured {
            if !(is_the_session && self.session_complete) {
                if is_the_session {
                    self.session_exists = false;
                    self.session_complete = false;
                }
                proof {
                    valid_session_id_fact();
                    assert(self.sessions() =~= old(self).sessions().remove(session_id@));
                    assert(self.complete_sessions() =~= old(self).complete_sessions().remove(
                        session_id@,
                    ));
                }
                return Err(ResumeSessionError { session_id: session_id.to_owned(), kind });
            }
        }
        if !is_the_session || !self.session_exists {
            proof {
                assert(self.sessions() =~= old(self).sessions().remove(session_id@));
                assert(self.complete_sessions() =~= old(self).complete_sessions().remove(
                    session_id@,
                ));
            }
            return Err(
                ResumeSessionError {
                    session_id: session_id.to_owned(),
                    kind: ResumeSessionErrorKind::DoesNotExist,
                },
            );
        }
        if !self.session_complete {
            self.session_exists = false;
            self.session_complete = false;
            proof {
                assert(self.sessions() =~= old(self).sessions().remove(session_id@));
                assert(self.complete_sessions() =~= old(self).complete_sessions().remove(
                    session_id@,
                ));
            }
            return Err(
                ResumeSessionError {
                    session_id: session_id.to_owned(),
                    kind: ResumeSessionErrorKind::MissingProfile,
                },
            );
        }
        let path = TestSessionManager::session_path();
        let info = SessionInfo { id: VALID_SESSION_ID.to_owned(), path };
        self.last_session_info = Some(info.clone());
        proof {
            assert(self.sessions() =~= old(self).sessions());
            assert(self.complete_sessions() =~= old(self).complete_sessions());
        }
        Ok(info)
    }

    fn ensure_valid_profile_dir(&mut self, session_info: &SessionInfo) -> (r: Result<
        String,
        ErrorMessage,
    >) {
        let failed: Option<&'static str> = match &self.failure_mode {
            Some(SessionFailureMode::EnsureProfileDir(msg)) => Some(*msg),
            _ => None,
        };
        if let Some(msg) = failed {
            return Err(ErrorMessage(msg.to_owned()));
        }
        let profile_path = path_join(session_info.path.as_str(), "profile");
        match self.fs.create_dir(profile_path.as_str()) {
            Ok(()) => Ok(profile_path),
            Err(e) => Err(e),
        }
    }

    fn cleanup_session(&mut self, session_info: &SessionInfo) {
        if strings_equal(session_info.id.as_str(), VALID_SESSION_ID) {
            self.session_exists = false;
            self.session_complete = false;
            let path = TestSessionManager::session_path();
            let _ = self.fs.rename(path.as_str(), "/deleted");
        }
        proof {
            assert(self.sessions() =~= old(self).sessions().remove(session_info.id@));
            assert(self.complete_sessions() =~= old(self).complete_sessions().remove(
                session_info.id@,
            ));
        }
    }

    fn create_dir(&mut self, path: &str) -> (r: Result<(), ErrorMessage>) {
        self.fs.create_dir(path)
    }

    fn write_file(&mut self, path: &str, contents: &str) -> (r: Result<(), ErrorMessage>) {
        self.fs.put_file(path, contents);
        proof {
            self.write_log@ = self.write_log@.push((path@, contents@));
        }
        Ok(())
    }

    fn append_file(&mut self, path: &str, contents: &str) -> (r: Result<(), ErrorMessage>) {
        match self.fs.append_file(path, contents) {
            Ok(()) => {
                proof {
                    self.write_log@ = self.write_log@.push((path@, contents@));
                }
                Ok(())
            },
            Err(e) => Err(e),
        }
    }

    fn rename(&mut self, from: &str, to: &str) -> (r: Result<(), ErrorMessage>) {
        self.fs.rename(from, to)
    }

    fn unzip(&mut self, archive: &str, target: &str) -> (r: Result<ZipStats, ZipError>) {
        self.fs.unzip(archive, target)
    }

    fn is_file(&mut self, path: &str) -> (r: bool) {
        self.fs.is_file(path)
    }

    fn is_dir(&mut self, path: &str) -> (r: bool) {
        self.fs.is_dir(path)
    }

    fn remove_path(&mut self, path: &str) -> (r: Result<(), ErrorMessage>) {
        self.fs.remove_path(path)
    }
}

/// Clone a `NewSessionError`; the I/O case keeps only the message.
fn clone_new_session_err(err: &NewSessionError) -> (r: NewSessionError)
    ensures
        crate::session::spec_new_session_error_message(r)
            == crate::session::spec_new_session_error_message(*err),
{
    match err {
        NewSessionError::TooManyAttempts(a) => NewSessionError::TooManyAttempts(*a),
        NewSessionError::Io(inner) => NewSessionError::Io(inner.clone()),
    }
}

// --- Other collaborators -------------------------------------------------------

/// A shutdown provider that records nothing and fails on demand.
pub struct TestShutdownProvider {
    /// The error to fail with, if any.
    pub error: Option<&'static str>,
}

impl TestShutdownProvider {
    /// A provider whose restart succeeds.
    pub fn default() -> TestShutdownProvider {
        TestShutdownProvider { error: None }
    }

    /// A provider whose restart fails with the given message.
    pub fn with_error(s: &'static str) -> (r: TestShutdownProvider)
        ensures
            r.error == Some(s),
    {
        TestShutdownProvider { error: Some(s) }
    }
}

impl ShutdownProvider for TestShutdownProvider {
    fn initiate_restart(&self, _reason: &str) -> (r: Result<(), ErrorMessage>)
        ensures
            r is Ok <==> self.error is None,
            self.error matches Some(s) ==> r matches Err(m) && m.0@ == s@,
    {
        match self.error {
            Some(e) => Err(ErrorMessage(e.to_owned())),
            None => Ok(()),
        }
    }
}

/// How the canned artifact provider should fail.
pub enum TaskclusterFailureMode {
    /// Hand out an archive with no browser binary in it.
    BadZip,
    /// Hand out a file that is not an archive at all.
    NotZip,
    /// Fail outright with this message.
    Generic(&'static str),
}

/// An artifact provider that hands out archives registered in the test
/// filesystem.
pub struct TestTaskcluster {
    /// How the provider should fail, if at all.
    pub failure_mode: Option<TaskclusterFailureMode>,
}

impl TestTaskcluster {
    /// A provider that hands out the good build archive.
    pub fn default() -> (r: TestTaskcluster)
        ensures
            r.failure_mode is None,
    {
        TestTaskcluster { failure_mode: None }
    }

    /// A provider that fails as `failure_mode` says.
    pub fn with_failure(failure_mode: TaskclusterFailureMode) -> (r: TestTaskcluster)
        ensures
            r.failure_mode == Some(failure_mode),
    {
        TestTaskcluster { failure_mode: Some(failure_mode) }
    }
}

impl Taskcluster for TestTaskcluster {
    fn download_build_artifact(&mut self, _task_id: &str, _download_dir: &str) -> (r: Result<
        String,
        ErrorMessage,
    >)
        ensures
            final(self).failure_mode == old(self).failure_mode,
            match old(self).failure_mode {
                Some(TaskclusterFailureMode::Generic(e)) => r matches Err(m) && m.0@ == e@,
                Some(TaskclusterFailureMode::BadZip) => r matches Ok(p) && p@
                    == "/testdata/test.zip"@,
                Some(TaskclusterFailureMode::NotZip) => r matches Ok(p) && p@
                    == "/testdata/README.md"@,
                None => r matches Ok(p) && p@ == "/testdata/firefox.zip"@,
            },
    {
        match &self.failure_mode {
            Some(TaskclusterFailureMode::Generic(e)) => Err(ErrorMessage((*e).to_owned())),
            Some(TaskclusterFailureMode::BadZip) => Ok("/testdata/test.zip".to_owned()),
            Some(TaskclusterFailureMode::NotZip) => Ok("/testdata/README.md".to_owned()),
            None => Ok("/testdata/firefox.zip".to_owned()),
        }
    }
}

/// A helper that checks an operation either was or was not invoked.
pub struct AssertInvoked {
    /// The name of the operation, for messages.
    pub name: &'static str,
    /// Whether the operation has been invoked.
    pub invoked: bool,
    /// Whether the operation should be invoked.
    pub should_be_invoked: bool,
}

impl AssertInvoked {
    /// A fresh helper for an operation that should be invoked exactly when
    /// `should_be_invoked` says.
    pub fn new(name: &'static str, should_be_invoked: bool) -> (r: AssertInvoked)
        ensures
            r.name == name,
            !r.invoked,
            r.should_be_invoked == should_be_invoked,
    {
        AssertInvoked { name, invoked: false, should_be_invoked }
    }

    /// Record an invocation.
    pub fn invoked(&mut self)
        ensures
            final(self).invoked,
            final(self).name == old(self).name,
            final(self).should_be_invoked == old(self).should_be_invoked,
    {
        self.invoked = true;
    }

    /// Whether what happened matches what should have happened.
    pub fn check(&self) -> (r: bool)
        ensures
            r == (self.invoked == self.should_be_invoked),
    {
        self.invoked == self.should_be_invoked
    }
}

/// How the scripted performance counters should fail.
pub enum PerfFailureMode {
    /// Fail disk sampling with this message.
    DiskIoError(&'static str),
    /// Fail CPU sampling with this message.
    CpuTimeError(&'static str),
    /// Report ever-growing disk counters.
    DiskNeverIdle,
    /// Report a CPU that is never idle.
    CpuNeverIdle,
}

/// A performance provider with scripted samples.
pub struct TestPerfProvider {
    /// How sampling should fail, if at all.
    pub failure_mode: Option<PerfFailureMode>,
    /// The current disk counters.
    pub io_counters: IoCounters,
    /// Records whether sampling was invoked when it should have been.
    pub assert_invoked: Option<AssertInvoked>,
    /// How many samples were taken.
    pub samples: u64,
}

impl TestPerfProvider {
    /// A provider that reports an idle system.
    pub fn default() -> (r: TestPerfProvider)
        ensures
            r.failure_mode is None,
            r.io_counters.reads == 0 && r.io_counters.writes == 0,
            r.assert_invoked is None,
            r.samples == 0,
    {
        TestPerfProvider {
            failure_mode: None,
            io_counters: IoCounters { reads: 0, writes: 0 },
            assert_invoked: None,
            samples: 0,
        }
    }

    /// A provider that fails as `mode` says, and must be invoked.
    pub fn with_failure(mode: PerfFailureMode) -> (r: TestPerfProvider)
        ensures
            r.failure_mode == Some(mode),
            r.io_counters.reads == 0 && r.io_counters.writes == 0,
            r.assert_invoked matches Some(ai) && ai.should_be_invoked && !ai.invoked,
            r.samples == 0,
    {
        TestPerfProvider {
            failure_mode: Some(mode),
            io_counters: IoCounters { reads: 0, writes: 0 },
            assert_invoked: Some(AssertInvoked::new("TestPerfProvider", true)),
            samples: 0,
        }
    }

    /// A provider that reports idle and must be invoked.
    pub fn asserting_invoked() -> (r: TestPerfProvider)
        ensures
            r.failure_mode is None,
            r.io_counters.reads == 0 && r.io_counters.writes == 0,
            r.assert_invoked matches Some(ai) && ai.should_be_invoked && !ai.invoked,
            r.samples == 0,
    {
        TestPerfProvider {
            failure_mode: None,
            io_counters: IoCounters { reads: 0, writes: 0 },
            assert_invoked: Some(AssertInvoked::new("TestPerfProvider", true)),
            samples: 0,
        }
    }

    /// A provider that must not be invoked at all.
    pub fn asserting_not_invoked() -> (r: TestPerfProvider)
        ensures
            r.failure_mode is None,
            r.io_counters.reads == 0 && r.io_counters.writes == 0,
            r.assert_invoked matches Some(ai) && !ai.should_be_invoked && !ai.invoked,
            r.samples == 0,
    {
        TestPerfProvider {
            failure_mode: None,
            io_counters: IoCounters { reads: 0, writes: 0 },
            assert_invoked: Some(AssertInvoked::new("TestPerfProvider", false)),
            samples: 0,
        }
    }

    /// Whether the invocation expectation was met: sampling happened
    /// exactly when it should have.
    pub fn check_invocations(&self) -> (r: bool)
        ensures
            r == match self.assert_invoked {
                Some(ai) => ai.invoked == ai.should_be_invoked,
                None => true,
            },
    {
        match &self.assert_invoked {
            Some(ai) => ai.check(),
            None => true,
        }
    }

    /// Record one sampling call.
    fn note_invoked(&mut self)
        ensures
            final(self).failure_mode == old(self).failure_mode,
            final(self).io_counters == old(self).io_counters,
            old(self).samples < u64::MAX ==> final(self).samples == old(self).samples + 1,
            old(self).samples == u64::MAX ==> final(self).samples == old(self).samples,
            match old(self).assert_invoked {
                Some(ai) => final(self).assert_invoked matches Some(ai2) && ai2.invoked
                    && ai2.should_be_invoked == ai.should_be_invoked,
                None => final(self).assert_invoked is None,
            },
    {
        if self.samples < u64::MAX {
            self.samples = self.samples + 1;
        }
        match &mut self.assert_invoked {
            Some(ai) => {
                ai.invoked();
            },
            None => {},
        }
    }
}

impl PerfProvider for TestPerfProvider {
    fn get_disk_io_counters(&mut self) -> (r: Result<IoCounters, ErrorMessage>)
        ensures
            final(self).failure_mode == old(self).failure_mode,
            match old(self).failure_mode {
                Some(PerfFailureMode::DiskIoError(s)) => r matches Err(m) && m.0@ == s@
                    && final(self).io_counters == old(self).io_counters,
                Some(PerfFailureMode::DiskNeverIdle) => r matches Ok(c)
                    && c == final(self).io_counters && (old(self).io_counters.reads < u32::MAX
                    && old(self).io_counters.writes < u32::MAX
                    ==> c.reads == old(self).io_counters.reads + 1
                    && c.writes == old(self).io_counters.writes + 1),
                _ => r matches Ok(c) && c == old(self).io_counters && final(self).io_counters
                    == old(self).io_counters,
            },
    {
        self.note_invoked();
        match &self.failure_mode {
            Some(PerfFailureMode::DiskIoError(s)) => Err(ErrorMessage((*s).to_owned())),
            Some(PerfFailureMode::DiskNeverIdle) => {
                if self.io_counters.reads < u32::MAX && self.io_counters.writes < u32::MAX {
                    self.io_counters.reads = self.io_counters.reads + 1;
                    self.io_counters.writes = self.io_counters.writes + 1;
                }
                Ok(self.io_counters)
            },
            _ => Ok(self.io_counters),
        }
    }

    fn get_cpu_idle_permille(&mut self) -> (r: Result<u32, ErrorMessage>)
        ensures
            final(self).failure_mode == old(self).failure_mode,
            final(self).io_counters == old(self).io_counters,
            match old(self).failure_mode {
                Some(PerfFailureMode::CpuTimeError(s)) => r matches Err(m) && m.0@ == s@,
                Some(PerfFailureMode::CpuNeverIdle) => r matches Ok(f) && f == 0
                    && f < crate::osapi::TARGET_CPU_IDLE_PERMILLE,
                _ => r matches Ok(f) && f == 990 && f >= crate::osapi::TARGET_CPU_IDLE_PERMILLE,
            },
    {
        self.note_invoked();
        match &self.failure_mode {
            Some(PerfFailureMode::CpuTimeError(s)) => Err(ErrorMessage((*s).to_owned())),
            Some(PerfFailureMode::CpuNeverIdle) => Ok(0),
            _ => Ok(990),
        }
    }

    fn attempt_count(&self) -> (r: usize)
        ensures
            r == 1,
    {
        1
    }

    fn wait_poll_interval(&mut self)
        ensures
            *final(self) == *old(self),
    {
    }
}

// --- Buffer transports ---------------------------------------------------------

/// A runner-side transport that collects the sent messages in a buffer.
pub struct TestTransport {
    /// The messages sent so far, in order.
    pub sent: Vec<RunnerMessage>,
}

impl TestTransport {
    /// An empty transport.
    pub fn new() -> TestTransport {
        TestTransport { sent: Vec::new() }
    }
}

impl Transport for TestTransport {
    fn send(&mut self, msg: RunnerMessage) -> (r: Result<(), ErrorMessage>) {
        self.sent.push(msg);
        Ok(())
    }

    fn recv_profile_raw(&mut self, _dest_path: &str, _size: u64) -> (r: Result<(), ErrorMessage>) {
        Ok(())
    }
}

/// A recorder-side transport that replays a scripted list of runner
/// messages and collects the requests sent.
pub struct TestRecorderTransport {
    /// The messages to hand out, in reverse order (popped from the back).
    pub incoming: Vec<RunnerMessage>,
    /// The requests sent so far.
    pub sent: Vec<RecorderMessage>,
}

impl TestRecorderTransport {
    /// A transport that will hand out `incoming` front to back.
    pub fn new(incoming: Vec<RunnerMessage>) -> TestRecorderTransport {
        let mut reversed: Vec<RunnerMessage> = Vec::new();
        let mut source = incoming;
        loop
            decreases source@.len(),
        {
            match source.pop() {
                Some(m) => {
                    reversed.push(m);
                },
                None => {
                    break;
                },
            }
        }
        TestRecorderTransport { incoming: reversed, sent: Vec::new() }
    }
}

impl RecorderTransport for TestRecorderTransport {
    fn send(&mut self, msg: RecorderMessage) -> (r: Result<(), ErrorMessage>) {
        self.sent.push(msg);
        Ok(())
    }

    fn recv(&mut self) -> (r: Result<Option<RunnerMessage>, ErrorMessage>) {
        Ok(self.incoming.pop())
    }

    fn send_profile_raw(&mut self, _profile_path: &str) -> (r: Result<(), ErrorMessage>) {
        Ok(())
    }
}

} // verus!
