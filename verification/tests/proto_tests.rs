//! End-to-end exercises of the worker state machine and the recorder
//! client over buffer transports and the in-memory session store.

use fxrecord::message::{
    DownloadBuild, DownloadStatus, Idle, NewSessionRequest, NewSessionResponse, ResumeResponse,
    ResumeSessionRequest, RunnerMessage, Session, WaitForIdle,
};
use fxrecord::prefs::PrefValue;
use fxrecord::recorder_proto::{RecorderProto, RecorderProtoError};
use fxrecord::runner_proto::{RunnerProto, RunnerProtoError, DISABLE_UPDATE_POLICY};
use fxrecord::session::{path_join, ResumeSessionErrorKind};
use fxrecord::testing::{
    PerfFailureMode, SessionFailureMode, TaskclusterFailureMode, TestPerfProvider,
    TestRecorderTransport, TestSessionManager, TestShutdownProvider, TestTaskcluster,
    TestTransport, VALID_SESSION_ID,
};
use fxrecord::session::NewSessionError;
use fxrecord::ErrorMessage;

type TestRunner = RunnerProto<
    TestShutdownProvider,
    TestTaskcluster,
    TestPerfProvider,
    TestSessionManager,
    TestTransport,
>;

fn new_runner(
    shutdown: TestShutdownProvider,
    tc: TestTaskcluster,
    perf: TestPerfProvider,
    sm: TestSessionManager,
) -> TestRunner {
    RunnerProto::new(TestTransport::new(), shutdown, tc, perf, sm)
}

fn new_session_request(profile_size: Option<u64>, prefs: Vec<(String, PrefValue)>) -> Session {
    Session::NewSession(NewSessionRequest {
        build_task_id: "task_id".to_string(),
        profile_size,
        prefs,
    })
}

fn profile_zip_path() -> String {
    path_join(&TestSessionManager::session_path(), "profile.zip")
}

#[test]
fn test_new_session_ok() {
    // No profile, no prefs.
    let mut runner = new_runner(
        TestShutdownProvider::default(),
        TestTaskcluster::default(),
        TestPerfProvider::default(),
        TestSessionManager::default(),
    );
    let result = runner.handle_request(new_session_request(None, vec![]));
    assert!(matches!(result, Ok(true)));

    let session_path = TestSessionManager::session_path();
    let sm = &runner.session_manager;
    let info = sm.last_session_info.as_ref().unwrap();
    assert_eq!(info.id, VALID_SESSION_ID);
    assert!(sm.session_exists);
    assert!(sm.fs.is_file(&path_join(&path_join(&session_path, "firefox"), "firefox.exe")));
    let dist = path_join(&path_join(&session_path, "firefox"), "distribution");
    let policies = sm.fs.read_file(&path_join(&dist, "policies.json")).unwrap();
    assert_eq!(policies, DISABLE_UPDATE_POLICY);
    let profile_dir = path_join(&session_path, "profile");
    assert!(sm.fs.is_dir(&profile_dir));
    assert_eq!(sm.fs.count_under(&profile_dir), 0);

    let sent = &runner.proto.inner.sent;
    assert_eq!(sent.len(), 8);
    assert!(matches!(
        &sent[0],
        RunnerMessage::NewSessionResponse(NewSessionResponse { session_id: Ok(id) })
            if id == VALID_SESSION_ID
    ));
    assert!(matches!(
        &sent[1],
        RunnerMessage::DownloadBuild(DownloadBuild { result: Ok(DownloadStatus::Downloading) })
    ));
    assert!(matches!(
        &sent[2],
        RunnerMessage::DownloadBuild(DownloadBuild { result: Ok(DownloadStatus::Downloaded) })
    ));
    assert!(matches!(
        &sent[3],
        RunnerMessage::DownloadBuild(DownloadBuild { result: Ok(DownloadStatus::Extracted) })
    ));
    assert!(matches!(&sent[4], RunnerMessage::DisableUpdates(c) if c.result.is_ok()));
    assert!(matches!(&sent[5], RunnerMessage::CreateProfile(c) if c.result.is_ok()));
    assert!(matches!(&sent[6], RunnerMessage::WritePrefs(c) if c.result.is_ok()));
    assert!(matches!(&sent[7], RunnerMessage::Restarting(c) if c.result.is_ok()));

    // With a profile archive and prefs.
    let mut sm = TestSessionManager::default();
    sm.fs.put_archive(
        &profile_zip_path(),
        vec![
            ("places.sqlite".to_string(), false),
            ("prefs.js".to_string(), false),
            ("user.js".to_string(), false),
        ],
    );
    let mut runner = new_runner(
        TestShutdownProvider::default(),
        TestTaskcluster::default(),
        TestPerfProvider::default(),
        sm,
    );
    let prefs = vec![
        ("foo".to_string(), PrefValue::Str("bar".to_string())),
        ("bar".to_string(), PrefValue::Bool(true)),
        ("baz".to_string(), PrefValue::Num("1".to_string())),
    ];
    let result = runner.handle_request(new_session_request(Some(1024), prefs));
    assert!(matches!(result, Ok(true)));

    let session_path = TestSessionManager::session_path();
    let sm = &runner.session_manager;
    let profile_dir = path_join(&session_path, "profile");
    assert!(sm.fs.is_dir(&profile_dir));
    assert!(sm.fs.is_file(&path_join(&profile_dir, "places.sqlite")));
    assert!(sm.fs.is_file(&path_join(&profile_dir, "prefs.js")));
    assert!(sm.fs.is_file(&path_join(&profile_dir, "user.js")));
    // The transient downloads are gone before the phases complete.
    assert!(!sm.fs.is_file(&profile_zip_path()));
    assert!(!sm.fs.is_dir(&path_join(&session_path, "unzipped_profile")));
    let user_js = sm.fs.read_file(&path_join(&profile_dir, "user.js")).unwrap();
    assert_eq!(
        user_js,
        "pref(\"foo\", \"bar\");\npref(\"bar\", true);\npref(\"baz\", 1);\n"
    );
    assert_eq!(runner.proto.inner.sent.len(), 10);
}

#[test]
fn test_new_session_with_nested_profile() {
    // The archive holds one top-level directory; it becomes the profile.
    let mut sm = TestSessionManager::default();
    sm.fs.put_archive(
        &profile_zip_path(),
        vec![
            ("profile".to_string(), true),
            ("profile/places.sqlite".to_string(), false),
            ("profile/prefs.js".to_string(), false),
            ("profile/user.js".to_string(), false),
        ],
    );
    let mut runner = new_runner(
        TestShutdownProvider::default(),
        TestTaskcluster::default(),
        TestPerfProvider::default(),
        sm,
    );
    let result = runner.handle_request(new_session_request(Some(512), vec![]));
    assert!(matches!(result, Ok(true)));
    let session_path = TestSessionManager::session_path();
    let profile_dir = path_join(&session_path, "profile");
    let sm = &runner.session_manager;
    assert!(sm.fs.is_file(&path_join(&profile_dir, "places.sqlite")));
    assert!(sm.fs.is_file(&path_join(&profile_dir, "prefs.js")));
    assert!(sm.fs.is_file(&path_join(&profile_dir, "user.js")));
    assert!(!sm.fs.is_file(&profile_zip_path()));
    assert!(!sm.fs.is_dir(&path_join(&session_path, "unzipped_profile")));
}

#[test]
fn test_new_session_err_request_manager() {
    let mut runner = new_runner(
        TestShutdownProvider::default(),
        TestTaskcluster::default(),
        TestPerfProvider::default(),
        TestSessionManager::with_failure(SessionFailureMode::NewSession(
            NewSessionError::TooManyAttempts(32),
        )),
    );
    let result = runner.handle_request(new_session_request(None, vec![]));
    assert!(matches!(
        result,
        Err(RunnerProtoError::NewSession(NewSessionError::TooManyAttempts(32)))
    ));
    let sent = &runner.proto.inner.sent;
    assert_eq!(sent.len(), 1);
    assert!(matches!(
        &sent[0],
        RunnerMessage::NewSessionResponse(NewSessionResponse { session_id: Err(ErrorMessage(m)) })
            if m == "Could not create a request directory after 32 attempts"
    ));
    assert!(runner.session_manager.last_session_info.is_none());

    let mut runner = new_runner(
        TestShutdownProvider::default(),
        TestTaskcluster::default(),
        TestPerfProvider::default(),
        TestSessionManager::with_failure(SessionFailureMode::EnsureProfileDir(
            "could not ensure profile directory",
        )),
    );
    let result = runner.handle_request(new_session_request(None, vec![]));
    assert!(matches!(
        result,
        Err(RunnerProtoError::EnsureProfile(ErrorMessage(m))) if m == "could not ensure profile directory"
    ));
    let sm = &runner.session_manager;
    assert_eq!(sm.last_session_info.as_ref().unwrap().id, VALID_SESSION_ID);
    assert!(!sm.session_exists);
}

#[test]
fn test_new_session_err_downloadbuild() {
    // An archive without the browser binary.
    let mut runner = new_runner(
        TestShutdownProvider::default(),
        TestTaskcluster::with_failure(TaskclusterFailureMode::BadZip),
        TestPerfProvider::default(),
        TestSessionManager::default(),
    );
    let result = runner.handle_request(new_session_request(None, vec![]));
    assert!(matches!(result, Err(RunnerProtoError::MissingFirefox)));
    let sent = &runner.proto.inner.sent;
    assert_eq!(sent.len(), 4);
    assert!(matches!(
        &sent[3],
        RunnerMessage::DownloadBuild(DownloadBuild { result: Err(ErrorMessage(m)) })
            if m == "No browser binary in build artifact"
    ));
    assert!(!runner.session_manager.session_exists);

    // The artifact provider fails outright.
    let mut runner = new_runner(
        TestShutdownProvider::default(),
        TestTaskcluster::with_failure(TaskclusterFailureMode::Generic("404 Not Found")),
        TestPerfProvider::default(),
        TestSessionManager::default(),
    );
    let result = runner.handle_request(new_session_request(None, vec![]));
    assert!(matches!(
        result,
        Err(RunnerProtoError::Taskcluster(ErrorMessage(m))) if m == "404 Not Found"
    ));
    assert!(!runner.session_manager.session_exists);

    // The downloaded file is not an archive.
    let mut runner = new_runner(
        TestShutdownProvider::default(),
        TestTaskcluster::with_failure(TaskclusterFailureMode::NotZip),
        TestPerfProvider::default(),
        TestSessionManager::default(),
    );
    let result = runner.handle_request(new_session_request(None, vec![]));
    match result {
        Err(RunnerProtoError::Zip(e)) => {
            let msg = e.message();
            assert!(msg.starts_with("could not read zip archive"));
            assert!(msg.ends_with("Invalid Zip archive: Could not find central directory end"));
        }
        other => panic!("expected a zip error, got {:?}", other),
    }
    assert!(!runner.session_manager.session_exists);
}

#[test]
fn test_new_session_err_recvprofile() {
    // The streamed profile is not an archive.
    let mut sm = TestSessionManager::default();
    sm.fs.put_file(&profile_zip_path(), "not an archive");
    let mut runner = new_runner(
        TestShutdownProvider::default(),
        TestTaskcluster::default(),
        TestPerfProvider::default(),
        sm,
    );
    let result = runner.handle_request(new_session_request(Some(64), vec![]));
    match result {
        Err(RunnerProtoError::Zip(e)) => {
            let msg = e.message();
            assert!(msg.starts_with("could not read zip archive"));
            assert!(msg.ends_with("Invalid Zip archive: Could not find central directory end"));
        }
        other => panic!("expected a zip error, got {:?}", other),
    }
    assert!(!runner.session_manager.session_exists);

    // The profile archive extracts zero files.
    let mut sm = TestSessionManager::default();
    sm.fs.put_archive(&profile_zip_path(), vec![]);
    let mut runner = new_runner(
        TestShutdownProvider::default(),
        TestTaskcluster::default(),
        TestPerfProvider::default(),
        sm,
    );
    let result = runner.handle_request(new_session_request(Some(64), vec![]));
    assert!(matches!(result, Err(RunnerProtoError::EmptyProfile)));
    let sent = &runner.proto.inner.sent;
    assert_eq!(sent.len(), 8);
    assert!(matches!(
        &sent[5],
        RunnerMessage::RecvProfile(c) if matches!(&c.result, Ok(DownloadStatus::Downloading))
    ));
    assert!(matches!(
        &sent[6],
        RunnerMessage::RecvProfile(c) if matches!(&c.result, Ok(DownloadStatus::Downloaded))
    ));
    assert!(matches!(
        &sent[7],
        RunnerMessage::RecvProfile(c) if matches!(&c.result, Err(ErrorMessage(m)) if m == "empty profile")
    ));
    assert!(!runner.session_manager.session_exists);
}

#[test]
fn test_new_session_err_restarting() {
    let mut runner = new_runner(
        TestShutdownProvider::with_error("could not shut down"),
        TestTaskcluster::default(),
        TestPerfProvider::default(),
        TestSessionManager::default(),
    );
    let result = runner.handle_request(new_session_request(None, vec![]));
    assert!(matches!(
        result,
        Err(RunnerProtoError::Shutdown(ErrorMessage(m))) if m == "could not shut down"
    ));
    let sent = &runner.proto.inner.sent;
    assert!(matches!(
        sent.last().unwrap(),
        RunnerMessage::Restarting(c) if matches!(&c.result, Err(ErrorMessage(m)) if m == "could not shut down")
    ));
    assert!(!runner.session_manager.session_exists);
}

#[test]
fn test_resume_session_ok() {
    // Waiting for idle samples the performance counters.
    let mut runner = new_runner(
        TestShutdownProvider::default(),
        TestTaskcluster::default(),
        TestPerfProvider::asserting_invoked(),
        TestSessionManager::with_complete_session(),
    );
    let request = Session::ResumeSession(ResumeSessionRequest {
        session_id: VALID_SESSION_ID.to_string(),
        idle: Idle::Wait,
    });
    let result = runner.handle_request(request);
    assert!(matches!(result, Ok(false)));
    assert!(runner.perf_provider.inner.check_invocations());
    let sm = &runner.session_manager;
    assert_eq!(sm.last_session_info.as_ref().unwrap().id, VALID_SESSION_ID);
    // The session directory is destroyed after a successful resume.
    assert!(!sm.session_exists);
    let sent = &runner.proto.inner.sent;
    assert_eq!(sent.len(), 2);
    assert!(matches!(&sent[0], RunnerMessage::ResumeResponse(c) if c.result.is_ok()));
    assert!(matches!(&sent[1], RunnerMessage::WaitForIdle(c) if c.result.is_ok()));

    // Skipping idle never touches the performance counters.
    let mut runner = new_runner(
        TestShutdownProvider::default(),
        TestTaskcluster::default(),
        TestPerfProvider::asserting_not_invoked(),
        TestSessionManager::with_complete_session(),
    );
    let request = Session::ResumeSession(ResumeSessionRequest {
        session_id: VALID_SESSION_ID.to_string(),
        idle: Idle::Skip,
    });
    let result = runner.handle_request(request);
    assert!(matches!(result, Ok(false)));
    assert!(runner.perf_provider.inner.check_invocations());
    assert_eq!(runner.proto.inner.sent.len(), 1);
}

#[test]
fn test_resume_session_err_request_manager() {
    // An ill-formed session ID.
    let mut runner = new_runner(
        TestShutdownProvider::default(),
        TestTaskcluster::default(),
        TestPerfProvider::default(),
        TestSessionManager::with_complete_session(),
    );
    let request = Session::ResumeSession(ResumeSessionRequest {
        session_id: "foobar".to_string(),
        idle: Idle::Skip,
    });
    let result = runner.handle_request(request);
    match result {
        Err(RunnerProtoError::ResumeSession(e)) => {
            assert_eq!(e.kind, ResumeSessionErrorKind::InvalidId);
            assert_eq!(e.session_id, "foobar");
            assert_eq!(
                e.message(),
                "Invalid session ID `foobar': ID contains invalid characters"
            );
        }
        other => panic!("expected a resume error, got {:?}", other),
    }
    let sent = &runner.proto.inner.sent;
    assert!(matches!(
        &sent[0],
        RunnerMessage::ResumeResponse(ResumeResponse { result: Err(ErrorMessage(m)) })
            if m == "Invalid session ID `foobar': ID contains invalid characters"
    ));

    // A session whose profile is missing.
    let mut runner = new_runner(
        TestShutdownProvider::default(),
        TestTaskcluster::default(),
        TestPerfProvider::default(),
        TestSessionManager::with_failure(SessionFailureMode::ResumeSession(
            ResumeSessionErrorKind::MissingProfile,
        )),
    );
    let request = Session::ResumeSession(ResumeSessionRequest {
        session_id: VALID_SESSION_ID.to_string(),
        idle: Idle::Skip,
    });
    let result = runner.handle_request(request);
    match result {
        Err(RunnerProtoError::ResumeSession(e)) => {
            assert_eq!(e.kind, ResumeSessionErrorKind::MissingProfile);
            assert_eq!(e.session_id, VALID_SESSION_ID);
            let expected =
                format!("Invalid session ID `{}': missing a profile directory", VALID_SESSION_ID);
            assert_eq!(e.message(), expected);
        }
        other => panic!("expected a resume error, got {:?}", other),
    }
}

#[test]
fn test_resume_session_err_waitforidle() {
    let mut runner = new_runner(
        TestShutdownProvider::default(),
        TestTaskcluster::default(),
        TestPerfProvider::with_failure(PerfFailureMode::DiskIoError("disk io error")),
        TestSessionManager::with_complete_session(),
    );
    let request = Session::ResumeSession(ResumeSessionRequest {
        session_id: VALID_SESSION_ID.to_string(),
        idle: Idle::Wait,
    });
    let result = runner.handle_request(request);
    assert!(matches!(
        result,
        Err(RunnerProtoError::WaitForIdle(fxrecord::osapi::WaitForIdleError::DiskIoError(
            ErrorMessage(m)
        ))) if m == "disk io error"
    ));

    let mut runner = new_runner(
        TestShutdownProvider::default(),
        TestTaskcluster::default(),
        TestPerfProvider::with_failure(PerfFailureMode::CpuTimeError("cpu time error")),
        TestSessionManager::with_complete_session(),
    );
    let request = Session::ResumeSession(ResumeSessionRequest {
        session_id: VALID_SESSION_ID.to_string(),
        idle: Idle::Wait,
    });
    let result = runner.handle_request(request);
    assert!(matches!(
        result,
        Err(RunnerProtoError::WaitForIdle(fxrecord::osapi::WaitForIdleError::CpuTimeError(
            ErrorMessage(m)
        ))) if m == "cpu time error"
    ));

    // Disk traffic never stops: the wait times out after the sample budget.
    let mut runner = new_runner(
        TestShutdownProvider::default(),
        TestTaskcluster::default(),
        TestPerfProvider::with_failure(PerfFailureMode::DiskNeverIdle),
        TestSessionManager::with_complete_session(),
    );
    let request = Session::ResumeSession(ResumeSessionRequest {
        session_id: VALID_SESSION_ID.to_string(),
        idle: Idle::Wait,
    });
    let result = runner.handle_request(request);
    assert!(matches!(
        result,
        Err(RunnerProtoError::WaitForIdle(fxrecord::osapi::WaitForIdleError::TimeoutError))
    ));
    // One baseline disk sample, then one disk and one CPU sample for the
    // single attempt the test provider allows.
    assert_eq!(runner.perf_provider.inner.samples, 3);
    let sent = &runner.proto.inner.sent;
    assert!(matches!(
        &sent[1],
        RunnerMessage::WaitForIdle(WaitForIdle { result: Err(ErrorMessage(m)) })
            if m == "timed out waiting for CPU and disk to become idle"
    ));

    let mut runner = new_runner(
        TestShutdownProvider::default(),
        TestTaskcluster::default(),
        TestPerfProvider::with_failure(PerfFailureMode::CpuNeverIdle),
        TestSessionManager::with_complete_session(),
    );
    let request = Session::ResumeSession(ResumeSessionRequest {
        session_id: VALID_SESSION_ID.to_string(),
        idle: Idle::Wait,
    });
    let result = runner.handle_request(request);
    assert!(matches!(
        result,
        Err(RunnerProtoError::WaitForIdle(fxrecord::osapi::WaitForIdleError::TimeoutError))
    ));
}

#[test]
fn test_recorder_round_trip() {
    // Run a whole new-session exchange through the worker, then feed what
    // it sent into the recorder client.
    let mut runner = new_runner(
        TestShutdownProvider::default(),
        TestTaskcluster::default(),
        TestPerfProvider::default(),
        TestSessionManager::default(),
    );
    let result = runner.handle_request(new_session_request(None, vec![]));
    assert!(matches!(result, Ok(true)));
    let sent = runner.proto.inner.sent;

    let mut recorder = RecorderProto::new(TestRecorderTransport::new(sent));
    let sid = recorder.new_session("task_id", None, vec![]).unwrap();
    assert_eq!(sid, VALID_SESSION_ID);

    // And the same for a resume exchange.
    let mut runner = new_runner(
        TestShutdownProvider::default(),
        TestTaskcluster::default(),
        TestPerfProvider::default(),
        TestSessionManager::with_complete_session(),
    );
    let request = Session::ResumeSession(ResumeSessionRequest {
        session_id: VALID_SESSION_ID.to_string(),
        idle: Idle::Wait,
    });
    let result = runner.handle_request(request);
    assert!(matches!(result, Ok(false)));
    let sent = runner.proto.inner.sent;
    let mut recorder = RecorderProto::new(TestRecorderTransport::new(sent));
    recorder.resume_session(VALID_SESSION_ID, Idle::Wait).unwrap();
}

#[test]
fn test_recorder_sequence_mismatch() {
    // The runner acknowledges out of order: the recorder refuses.
    let incoming = vec![
        RunnerMessage::NewSessionResponse(NewSessionResponse {
            session_id: Ok(VALID_SESSION_ID.to_string()),
        }),
        RunnerMessage::DownloadBuild(DownloadBuild {
            result: Ok(DownloadStatus::Downloaded),
        }),
    ];
    let mut recorder = RecorderProto::new(TestRecorderTransport::new(incoming));
    let result = recorder.new_session("task_id", None, vec![]);
    assert!(matches!(
        result,
        Err(RecorderProtoError::SequenceMismatch {
            expected: DownloadStatus::Downloading,
            received: DownloadStatus::Downloaded,
        })
    ));
}

#[test]
fn test_recorder_kind_mismatch() {
    // A wait-for-idle acknowledgement where a build acknowledgement is
    // due is a protocol error.
    let incoming = vec![
        RunnerMessage::NewSessionResponse(NewSessionResponse {
            session_id: Ok(VALID_SESSION_ID.to_string()),
        }),
        RunnerMessage::WaitForIdle(WaitForIdle { result: Ok(()) }),
    ];
    let mut recorder = RecorderProto::new(TestRecorderTransport::new(incoming));
    let result = recorder.new_session("task_id", None, vec![]);
    match result {
        Err(RecorderProtoError::Proto(fxrecord::recorder_proto::ProtoError::Unexpected(km))) => {
            assert_eq!(km.expected, fxrecord::message::RunnerMessageKind::DownloadBuild);
            assert_eq!(km.actual, fxrecord::message::RunnerMessageKind::WaitForIdle);
        }
        other => panic!("expected a kind mismatch, got {:?}", other),
    }
}

#[test]
fn test_recorder_foreign_error() {
    // The runner reports a failure; the recorder surfaces it as foreign.
    let incoming = vec![RunnerMessage::NewSessionResponse(NewSessionResponse {
        session_id: Err(ErrorMessage("could not create a session".to_string())),
    })];
    let mut recorder = RecorderProto::new(TestRecorderTransport::new(incoming));
    let result = recorder.new_session("task_id", None, vec![]);
    assert!(matches!(
        result,
        Err(RecorderProtoError::Proto(fxrecord::recorder_proto::ProtoError::Foreign(
            ErrorMessage(m)
        ))) if m == "could not create a session"
    ));
}

#[test]
fn test_recorder_end_of_stream() {
    let incoming: Vec<RunnerMessage> = vec![];
    let mut recorder = RecorderProto::new(TestRecorderTransport::new(incoming));
    let result = recorder.new_session("task_id", None, vec![]);
    assert!(matches!(
        result,
        Err(RecorderProtoError::Proto(fxrecord::recorder_proto::ProtoError::EndOfStream))
    ));
}
