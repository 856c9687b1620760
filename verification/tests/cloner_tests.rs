use std::time::Duration;

use mcp_scanner::cloner::{
    settle_clone, CloneAction, CloneEvent, CloneOutcome, ClonePhase, CloneSession, Cloner,
};
use mcp_scanner::error::{ErrorCode, ScanError};

fn expect_failure(action: CloneAction) -> ScanError {
    match action {
        CloneAction::Fail(e) => e,
        _ => panic!("expected a failure"),
    }
}

#[test]
fn cloner_keeps_its_timeout() {
    let cloner = Cloner::new(Duration::from_secs(30));
    assert_eq!(cloner.timeout(), Duration::from_secs(30));
}

#[test]
fn clone_without_sha_is_shallow_then_resolves_head() {
    let mut s = CloneSession::new("/srv/repo", None, None);
    assert!(matches!(s.begin(), CloneAction::CreateTempDir));
    assert!(matches!(s.step(CloneEvent::TempDirCreated), CloneAction::ShallowClone));
    assert!(matches!(s.step(CloneEvent::Cloned), CloneAction::ResolveHead));
    match s.step(CloneEvent::HeadResolved("abc".to_string())) {
        CloneAction::Done(sha) => assert_eq!(sha, "abc"),
        _ => panic!("expected the clone to be done"),
    }
    assert_eq!(s.phase(), ClonePhase::Finished);
}

#[test]
fn failed_shallow_clone_falls_back_to_a_full_clone() {
    let mut s = CloneSession::new("/srv/repo", Some("main"), None);
    assert_eq!(s.branch(), Some("main"));
    assert_eq!(s.repo_url(), "/srv/repo");
    s.begin();
    s.step(CloneEvent::TempDirCreated);
    assert!(matches!(
        s.step(CloneEvent::CloneFailed("shallow fetch is not supported".to_string())),
        CloneAction::RetryFullClone
    ));
    match expect_failure(s.step(CloneEvent::CloneFailed("not found".to_string()))) {
        ScanError::Domain { code, message, retryable } => {
            assert_eq!(code, ErrorCode::ScannerCloneFailed);
            assert_eq!(message, "clone of /srv/repo (shallow and full both failed): not found");
            assert!(retryable);
        }
        other => panic!("unexpected error {:?}", other),
    }
}

#[test]
fn clone_with_sha_is_full_and_checks_out_the_commit() {
    let sha = "0123456789abcdef0123456789abcdef01234567";
    let mut s = CloneSession::new("/srv/repo", None, Some(sha));
    s.begin();
    assert!(matches!(s.step(CloneEvent::TempDirCreated), CloneAction::FullClone));
    assert!(matches!(s.step(CloneEvent::Cloned), CloneAction::OpenRepo));
    match s.step(CloneEvent::Opened) {
        CloneAction::CheckoutCommit(oid) => assert_eq!(
            oid,
            vec![
                0x01, 0x23, 0x45, 0x67, 0x89, 0xab, 0xcd, 0xef, 0x01, 0x23, 0x45, 0x67, 0x89, 0xab,
                0xcd, 0xef, 0x01, 0x23, 0x45, 0x67
            ]
        ),
        _ => panic!("expected a checkout"),
    }
    assert!(matches!(s.step(CloneEvent::CheckedOut), CloneAction::ResolveHead));
}

fn opened_with_sha(sha: &str) -> CloneAction {
    let mut s = CloneSession::new("/srv/repo", None, Some(sha));
    s.begin();
    s.step(CloneEvent::TempDirCreated);
    s.step(CloneEvent::Cloned);
    s.step(CloneEvent::Opened)
}

#[test]
fn invalid_commit_sha_is_a_clone_failure() {
    let long = "a".repeat(41);
    let cases = [
        ("not-a-sha", "contains invalid characters"),
        ("", "too short"),
        (long.as_str(), "too long"),
        ("abcé", "contains invalid characters"),
    ];
    for (sha, reason) in cases {
        match expect_failure(opened_with_sha(sha)) {
            ScanError::Domain { code, message, retryable } => {
                assert_eq!(code, ErrorCode::ScannerCloneFailed);
                assert_eq!(
                    message,
                    format!("invalid commit_sha {sha}: unable to parse OID - {reason}; class=Invalid (3)")
                );
                assert!(retryable);
            }
            other => panic!("unexpected error {:?}", other),
        }
    }
}

#[test]
fn short_hex_prefix_is_padded_with_zeros() {
    let mut expected = vec![0xab, 0xc1, 0x23];
    expected.resize(20, 0);
    match opened_with_sha("ABC123") {
        CloneAction::CheckoutCommit(oid) => assert_eq!(oid, expected),
        _ => panic!("expected a checkout"),
    }
    let mut expected = vec![0x12, 0x30];
    expected.resize(20, 0);
    match opened_with_sha("123") {
        CloneAction::CheckoutCommit(oid) => assert_eq!(oid, expected),
        _ => panic!("expected a checkout"),
    }
}

#[test]
fn checkout_failures_name_the_commit() {
    let cases = [
        (CloneEvent::CommitNotFound("odb".to_string()), "commit abc123 not found: odb"),
        (CloneEvent::SetHeadFailed("locked".to_string()), "set HEAD to abc123: locked"),
        (CloneEvent::CheckoutFailed("conflict".to_string()), "checkout abc123: conflict"),
    ];
    for (event, expected) in cases {
        let mut s = CloneSession::new("/srv/repo", None, Some("abc123"));
        s.begin();
        s.step(CloneEvent::TempDirCreated);
        s.step(CloneEvent::Cloned);
        s.step(CloneEvent::Opened);
        match expect_failure(s.step(event)) {
            ScanError::Domain { code, message, retryable } => {
                assert_eq!(code, ErrorCode::ScannerCloneFailed);
                assert_eq!(message, expected);
                assert!(retryable);
            }
            other => panic!("unexpected error {:?}", other),
        }
    }
}

#[test]
fn other_clone_failures() {
    let mut s = CloneSession::new("/srv/repo", None, None);
    s.begin();
    let e = expect_failure(s.step(CloneEvent::TempDirFailed("disk full".to_string())));
    assert_eq!(e.message(), "create temp dir: disk full");
    assert!(matches!(e, ScanError::Internal { .. }));

    let mut s = CloneSession::new("/srv/repo", None, Some("abc"));
    s.begin();
    s.step(CloneEvent::TempDirCreated);
    let e = expect_failure(s.step(CloneEvent::CloneFailed("refused".to_string())));
    assert_eq!(e.message(), "full clone of /srv/repo: refused");

    let mut s = CloneSession::new("/srv/repo", None, Some("abc"));
    s.begin();
    s.step(CloneEvent::TempDirCreated);
    s.step(CloneEvent::Cloned);
    let e = expect_failure(s.step(CloneEvent::OpenFailed("corrupt".to_string())));
    assert_eq!(e.message(), "open cloned repo: corrupt");

    let mut s = CloneSession::new("/srv/repo", None, None);
    s.begin();
    s.step(CloneEvent::TempDirCreated);
    s.step(CloneEvent::Cloned);
    let e = expect_failure(s.step(CloneEvent::HeadUnresolved("unborn".to_string())));
    assert_eq!(e.message(), "resolve HEAD commit: unborn");
}

#[test]
fn events_out_of_turn_end_the_session() {
    let mut s = CloneSession::new("/srv/repo", None, None);
    let e = expect_failure(s.step(CloneEvent::Cloned));
    assert_eq!(e.message(), "unexpected clone event");
    assert_eq!(s.phase(), ClonePhase::Finished);
    assert!(matches!(s.begin(), CloneAction::Fail(_)));
}

#[test]
fn timed_out_clone_is_a_retryable_timeout() {
    let r: Result<(), ScanError> = settle_clone(CloneOutcome::TimedOut, 60);
    match r {
        Err(ScanError::Domain { code, message, retryable }) => {
            assert_eq!(code, ErrorCode::ScannerTimeout);
            assert_eq!(message, "git clone exceeded 60s timeout");
            assert!(retryable);
        }
        other => panic!("unexpected result {:?}", other),
    }
    let r: Result<(), ScanError> = settle_clone(CloneOutcome::TimedOut, 0);
    assert_eq!(r.unwrap_err().message(), "git clone exceeded 0s timeout");
}

#[test]
fn settled_clone_passes_results_through() {
    let r: Result<u32, ScanError> = settle_clone(CloneOutcome::Completed(Ok(7)), 60);
    assert_eq!(r.unwrap(), 7);
    let r: Result<u32, ScanError> = settle_clone(CloneOutcome::Panicked("boom".to_string()), 60);
    assert_eq!(r.unwrap_err().message(), "clone task panicked: boom");
}
