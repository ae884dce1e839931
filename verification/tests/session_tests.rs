//! Tests for session ID validation, the resume decision, message kinds,
//! the idle detector, the backoff schedule, and wire framing.

use fxrecord::framing::{decode_frame, encode_frame, Decoded};
use fxrecord::message::{
    DownloadBuild, DownloadStatus, MessageContent, RunnerMessage, RunnerMessageKind, WaitForIdle,
};
use fxrecord::osapi::{IdleDetector, IdleStep, IoCounters, is_idle_sample};
use fxrecord::retry::backoff_schedule;
use fxrecord::session::{
    new_session_id, path_join, resume_session_decision, validate_session_id,
    ResumeSessionErrorKind, NewSessionError, ResumeSessionError,
};

#[test]
fn test_validate_session_id() {
    // Exactly 32 ASCII alphanumeric characters.
    assert!(validate_session_id("abcdefghijklmnopqrstuvwxyz012345"));
    assert!(validate_session_id("ABCDEFGHIJKLMNOPQRSTUVWXYZ543210"));

    // One character short and one long.
    assert!(!validate_session_id("abcdefghijklmnopqrstuvwxyz01234"));
    assert!(!validate_session_id("abcdefghijklmnopqrstuvwxyz0123456"));

    // A non-alphanumeric character.
    assert!(!validate_session_id("abcdefghijklmnopqrstuvwxyz01234!"));
    assert!(!validate_session_id("abcdefghijklmnopqrst uvwxyz01234"));
    assert!(!validate_session_id("short"));
    assert!(!validate_session_id(""));
}

#[test]
fn test_resume_session_decision() {
    let good = "abcdefghijklmnopqrstuvwxyz012345";
    assert_eq!(resume_session_decision(good, true, true, true, true), Ok(()));
    assert_eq!(
        resume_session_decision("short", true, true, true, true),
        Err(ResumeSessionErrorKind::InvalidId),
    );
    assert_eq!(
        resume_session_decision(good, false, true, true, true),
        Err(ResumeSessionErrorKind::DoesNotExist),
    );
    assert_eq!(
        resume_session_decision(good, true, false, true, true),
        Err(ResumeSessionErrorKind::MissingProfile),
    );
    assert_eq!(
        resume_session_decision(good, true, true, false, true),
        Err(ResumeSessionErrorKind::MissingFirefox),
    );
    assert_eq!(
        resume_session_decision(good, true, true, true, false),
        Err(ResumeSessionErrorKind::MissingFirefox),
    );
}

#[test]
fn test_error_messages() {
    let e = ResumeSessionError {
        session_id: "short".to_string(),
        kind: ResumeSessionErrorKind::InvalidId,
    };
    assert_eq!(e.message(), "Invalid session ID `short': ID contains invalid characters");

    let e = ResumeSessionError {
        session_id: "x".to_string(),
        kind: ResumeSessionErrorKind::DoesNotExist,
    };
    assert_eq!(e.message(), "Invalid session ID `x': does not exist to resume");

    let e = NewSessionError::TooManyAttempts(30);
    assert_eq!(e.message(), "Could not create a request directory after 30 attempts");
}

#[test]
fn test_new_session_id() {
    // Fresh IDs are always well formed, and distinct draws almost surely
    // differ.
    let a = new_session_id();
    let b = new_session_id();
    assert!(validate_session_id(&a));
    assert!(validate_session_id(&b));
    assert_eq!(a.len(), 32);
}

#[test]
fn test_path_join() {
    assert_eq!(path_join("/sessions", "abc"), "/sessions/abc");
    assert_eq!(path_join("a", "b"), "a/b");
}

#[test]
fn test_download_status_next() {
    assert_eq!(DownloadStatus::Downloading.next(), Some(DownloadStatus::Downloaded));
    assert_eq!(DownloadStatus::Downloaded.next(), Some(DownloadStatus::Extracted));
    assert_eq!(DownloadStatus::Extracted.next(), None);
}

#[test]
fn test_status_wire_spelling() {
    assert_eq!(DownloadStatus::Downloading.as_str(), "Downloading");
    assert_eq!(DownloadStatus::Downloaded.as_str(), "Downloaded");
    assert_eq!(DownloadStatus::Extracted.as_str(), "Extracted");
}

#[test]
fn test_message_kinds() {
    let m = DownloadBuild { result: Ok(DownloadStatus::Downloading) }.into_message();
    assert_eq!(m.kind(), RunnerMessageKind::DownloadBuild);
    assert!(DownloadBuild::try_extract(m).is_ok());

    let m = WaitForIdle { result: Ok(()) }.into_message();
    assert_eq!(m.kind(), RunnerMessageKind::WaitForIdle);
    match DownloadBuild::try_extract(m) {
        Err(km) => {
            assert_eq!(km.expected, RunnerMessageKind::DownloadBuild);
            assert_eq!(km.actual, RunnerMessageKind::WaitForIdle);
        }
        Ok(_) => panic!("extraction should have refused the kind"),
    }
}

#[test]
fn test_idle_detector_samples() {
    // A busy system: the detector spends exactly its budget, one sample
    // per observation, and times out on the last.
    let attempts: usize = 30;
    let mut detector = IdleDetector::new(IoCounters { reads: 0, writes: 0 }, attempts);
    let mut steps: usize = 0;
    loop {
        steps += 1;
        let cur = IoCounters { reads: steps as u32, writes: steps as u32 };
        match detector.observe(cur, 990) {
            IdleStep::BecameIdle => panic!("a busy system never becomes idle"),
            IdleStep::StillBusy => continue,
            IdleStep::TimedOut => break,
        }
    }
    assert_eq!(steps, attempts);

    // An idle system is detected on the first sample.
    let mut detector = IdleDetector::new(IoCounters { reads: 7, writes: 9 }, attempts);
    let step = detector.observe(IoCounters { reads: 7, writes: 9 }, 990);
    assert_eq!(step, IdleStep::BecameIdle);

    // A quiet disk with a busy CPU is not idle.
    assert!(!is_idle_sample(
        IoCounters { reads: 1, writes: 1 },
        IoCounters { reads: 1, writes: 1 },
        900,
    ));
    // The threshold itself counts as idle.
    assert!(is_idle_sample(
        IoCounters { reads: 1, writes: 1 },
        IoCounters { reads: 1, writes: 1 },
        950,
    ));
}

#[test]
fn test_backoff_schedule() {
    // The reconnection schedule: 30 s, 60 s, 120 s, 240 s.
    let schedule = backoff_schedule(30_000, 4);
    assert_eq!(schedule, vec![30_000, 60_000, 120_000, 240_000]);

    let schedule = backoff_schedule(500, 0);
    assert!(schedule.is_empty());
}

#[test]
fn test_framing_round_trip() {
    let payload: Vec<u8> = vec![1, 2, 3, 250, 251, 252];
    let mut wire: Vec<u8> = Vec::new();
    encode_frame(&mut wire, &payload);
    assert_eq!(wire.len(), 4 + payload.len());
    assert_eq!(&wire[0..4], &[0, 0, 0, 6]);
    // Trailing bytes of the next frame do not confuse the decoder.
    wire.push(99);
    match decode_frame(&wire) {
        Decoded::Frame(decoded, used) => {
            assert_eq!(decoded, payload);
            assert_eq!(used, 10);
        }
        Decoded::Incomplete => panic!("a whole frame was present"),
    }
}

#[test]
fn test_framing_incomplete() {
    let mut wire: Vec<u8> = vec![0, 0, 0, 5, 1, 2];
    assert!(matches!(decode_frame(&wire), Decoded::Incomplete));
    wire.clear();
    wire.push(0);
    assert!(matches!(decode_frame(&wire), Decoded::Incomplete));
}
