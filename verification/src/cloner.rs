//! The decisions of cloning a repository: which git operation comes next,
//! and what each failure is reported as. The caller performs the git and
//! file-system work each [`CloneAction`] asks for and reports the outcome
//! back as a [`CloneEvent`].
//!
//! Without a commit sha the clone is shallow (depth 1) first and falls back
//! to a full clone, since not every transport can fetch shallowly. With a
//! commit sha the clone is full, because a shallow fetch of a branch tip
//! cannot reach an arbitrary older commit, and the commit is then checked
//! out on a detached HEAD.

use vstd::prelude::*;
use core::time::Duration;
use crate::error::{ErrorCode, ErrorView, ScanError};
use crate::number::{decimal_digits, format_u64};
use crate::text::{owned, push_str};
use vstd::utf8::encode_utf8;

verus! {

/// Clones repositories, giving up after a timeout.
pub struct Cloner {
    timeout: Duration,
}

impl Cloner {
    pub closed spec fn configured_timeout(&self) -> Duration {
        self.timeout
    }

    pub fn new(timeout: Duration) -> (c: Cloner)
        ensures
            c.configured_timeout() == timeout,
    {
        Cloner { timeout }
    }

    /// How long a clone may take.
    pub fn timeout(&self) -> (d: Duration)
        ensures
            d == self.configured_timeout(),
    {
        self.timeout
    }
}

/// A hexadecimal object id as `git2::Oid::from_str` accepts it: one to
/// forty hexadecimal digits.
pub open spec fn is_hex_oid(s: Seq<char>) -> bool {
    1 <= s.len() <= 40 && forall|i: int|
        0 <= i < s.len() ==> {
            let u = #[trigger] s[i] as u32;
            (48 <= u <= 57) || (65 <= u <= 70) || (97 <= u <= 102)
        }
}

/// The value of a hexadecimal digit (0 for any other character).
pub open spec fn hex_value(c: char) -> int {
    let u = c as u32;
    if 48 <= u <= 57 {
        u - 48
    } else if 65 <= u <= 70 {
        u - 55
    } else if 97 <= u <= 102 {
        u - 87
    } else {
        0
    }
}

/// The `k`-th hexadecimal digit of `s`, with `s` padded by zeros.
pub open spec fn nibble(s: Seq<char>, k: int) -> int {
    if 0 <= k < s.len() {
        hex_value(s[k])
    } else {
        0
    }
}

/// The twenty bytes of the object id that the hexadecimal digits `s` name,
/// `s` padded with zeros to forty digits.
pub open spec fn oid_bytes(s: Seq<char>) -> Seq<u8> {
    Seq::new(20, |i: int| (nibble(s, 2 * i) * 16 + nibble(s, 2 * i + 1)) as u8)
}

/// Why libgit2 refuses `s` as an object id.
pub open spec fn oid_refusal(s: Seq<char>) -> Seq<char> {
    if s.len() == 0 {
        "too short"@
    } else if encode_utf8(s).len() > 40 {
        "too long"@
    } else {
        "contains invalid characters"@
    }
}

/// The text (`Display`) of the error that `git2::Oid::from_str` reports
/// for a string it refuses.
pub open spec fn oid_parse_error(s: Seq<char>) -> Seq<char> {
    "unable to parse OID - "@ + oid_refusal(s) + "; class=Invalid (3)"@
}

/// `git2::Oid::from_str`, handing out the bytes of the object id. libgit2
/// accepts a non-empty string of at most forty hexadecimal digits (the
/// length counted in bytes), fills the id with those digits padded by
/// zeros, and rejects every other string with an error of class `Invalid`
/// whose message says whether the string was empty, too long, or held a
/// non-hexadecimal character. The message stated here assumes that libgit2
/// could allocate its per-thread error state.
#[verifier::external_body]
fn parse_commit_oid(sha: &str) -> (r: Result<Vec<u8>, String>)
    ensures
        r is Ok <==> is_hex_oid(sha@),
        r matches Ok(b) ==> b@ == oid_bytes(sha@),
        r matches Err(m) ==> m@ == oid_parse_error(sha@),
{
    match git2::Oid::from_str(sha) {
        Ok(oid) => Ok(oid.as_bytes().to_vec()),
        Err(e) => Err(e.to_string()),
    }
}

/// Where a clone stands.
#[derive(Debug, Clone, Copy, PartialEq, Eq, Structural)]
pub enum ClonePhase {
    /// Nothing has been asked for yet.
    Start,
    /// Waiting for the temporary directory.
    CreatingDir,
    /// Waiting for the depth-1 clone.
    ShallowCloning,
    /// Waiting for the full clone that follows a failed shallow one.
    FullCloningAfterShallow,
    /// Waiting for the full clone that a commit sha needs.
    FullCloningForCommit,
    /// Waiting for the cloned repository to be opened.
    Opening,
    /// Waiting for the commit to be checked out.
    CheckingOut,
    /// Waiting for HEAD to be resolved to a commit.
    ResolvingHead,
    /// Done, one way or the other.
    Finished,
}

/// What the caller is to do next.
pub enum CloneAction {
    /// Create the temporary directory to clone into.
    CreateTempDir,
    /// Clone with depth 1 (at the branch, if any).
    ShallowClone,
    /// Empty the directory and clone with full history (at the branch, if any).
    RetryFullClone,
    /// Clone with full history (at the branch, if any).
    FullClone,
    /// Open the cloned repository.
    OpenRepo,
    /// Find the commit with this object id, detach HEAD on it, and
    /// force-check it out.
    CheckoutCommit(Vec<u8>),
    /// Resolve HEAD to the sha of its commit.
    ResolveHead,
    /// The clone is complete at this commit sha.
    Done(String),
    /// The clone failed.
    Fail(ScanError),
}

/// What the caller's last piece of work came to.
pub enum CloneEvent {
    TempDirCreated,
    TempDirFailed(String),
    Cloned,
    CloneFailed(String),
    Opened,
    OpenFailed(String),
    CheckedOut,
    CommitNotFound(String),
    SetHeadFailed(String),
    CheckoutFailed(String),
    HeadResolved(String),
    HeadUnresolved(String),
}

pub enum ActionView {
    CreateTempDir,
    ShallowClone,
    RetryFullClone,
    FullClone,
    OpenRepo,
    CheckoutCommit(Seq<u8>),
    ResolveHead,
    Done(Seq<char>),
    Fail(ErrorView),
}

impl View for CloneAction {
    type V = ActionView;

    open spec fn view(&self) -> ActionView {
        match self {
            CloneAction::CreateTempDir => ActionView::CreateTempDir,
            CloneAction::ShallowClone => ActionView::ShallowClone,
            CloneAction::RetryFullClone => ActionView::RetryFullClone,
            CloneAction::FullClone => ActionView::FullClone,
            CloneAction::OpenRepo => ActionView::OpenRepo,
            CloneAction::CheckoutCommit(oid) => ActionView::CheckoutCommit(oid@),
            CloneAction::ResolveHead => ActionView::ResolveHead,
            CloneAction::Done(sha) => ActionView::Done(sha@),
            CloneAction::Fail(e) => ActionView::Fail(e@),
        }
    }
}

pub enum EventView {
    TempDirCreated,
    TempDirFailed(Seq<char>),
    Cloned,
    CloneFailed(Seq<char>),
    Opened,
    OpenFailed(Seq<char>),
    CheckedOut,
    CommitNotFound(Seq<char>),
    SetHeadFailed(Seq<char>),
    CheckoutFailed(Seq<char>),
    HeadResolved(Seq<char>),
    HeadUnresolved(Seq<char>),
}

impl View for CloneEvent {
    type V = EventView;

    open spec fn view(&self) -> EventView {
        match self {
            CloneEvent::TempDirCreated => EventView::TempDirCreated,
            CloneEvent::TempDirFailed(m) => EventView::TempDirFailed(m@),
            CloneEvent::Cloned => EventView::Cloned,
            CloneEvent::CloneFailed(m) => EventView::CloneFailed(m@),
            CloneEvent::Opened => EventView::Opened,
            CloneEvent::OpenFailed(m) => EventView::OpenFailed(m@),
            CloneEvent::CheckedOut => EventView::CheckedOut,
            CloneEvent::CommitNotFound(m) => EventView::CommitNotFound(m@),
            CloneEvent::SetHeadFailed(m) => EventView::SetHeadFailed(m@),
            CloneEvent::CheckoutFailed(m) => EventView::CheckoutFailed(m@),
            CloneEvent::HeadResolved(s) => EventView::HeadResolved(s@),
            CloneEvent::HeadUnresolved(m) => EventView::HeadUnresolved(m@),
        }
    }
}

/// One clone of `repo_url` at `branch` (the remote's default branch when
/// none), checked out at `commit_sha` when one is given.
pub struct CloneSession {
    repo_url: String,
    branch: Option<String>,
    commit_sha: Option<String>,
    phase: ClonePhase,
}

pub struct SessionView {
    pub repo_url: Seq<char>,
    pub branch: Option<Seq<char>>,
    pub commit_sha: Option<Seq<char>>,
    pub phase: ClonePhase,
}

pub open spec fn opt_view(o: Option<String>) -> Option<Seq<char>> {
    match o {
        Some(s) => Some(s@),
        None => None,
    }
}

impl View for CloneSession {
    type V = SessionView;

    closed spec fn view(&self) -> SessionView {
        SessionView {
            repo_url: self.repo_url@,
            branch: opt_view(self.branch),
            commit_sha: opt_view(self.commit_sha),
            phase: self.phase,
        }
    }
}

/// The phases that only a clone without a commit sha passes through, and
/// those that only a clone with one passes through.
pub open spec fn phase_fits(phase: ClonePhase, commit_sha: Option<Seq<char>>) -> bool {
    &&& (phase == ClonePhase::ShallowCloning || phase == ClonePhase::FullCloningAfterShallow)
        ==> commit_sha is None
    &&& (phase == ClonePhase::FullCloningForCommit || phase == ClonePhase::Opening || phase
        == ClonePhase::CheckingOut) ==> commit_sha is Some
}

/// A failure of a git operation of the clone.
pub open spec fn clone_failed(message: Seq<char>) -> ActionView {
    ActionView::Fail(ErrorView::Domain(ErrorCode::ScannerCloneFailed, message, true))
}

/// The phase a session moves to and the action it asks for when `event`
/// comes in. An event that does not answer the action last asked for ends
/// the session with an internal error.
pub open spec fn transition(s: SessionView, event: EventView) -> (ClonePhase, ActionView) {
    match (s.phase, event) {
        (ClonePhase::CreatingDir, EventView::TempDirCreated) => if s.commit_sha is Some {
            (ClonePhase::FullCloningForCommit, ActionView::FullClone)
        } else {
            (ClonePhase::ShallowCloning, ActionView::ShallowClone)
        },
        (ClonePhase::CreatingDir, EventView::TempDirFailed(m)) => (
            ClonePhase::Finished,
            ActionView::Fail(ErrorView::Internal("create temp dir: "@ + m)),
        ),
        (ClonePhase::ShallowCloning, EventView::Cloned) => (
            ClonePhase::ResolvingHead,
            ActionView::ResolveHead,
        ),
        (ClonePhase::ShallowCloning, EventView::CloneFailed(_)) => (
            ClonePhase::FullCloningAfterShallow,
            ActionView::RetryFullClone,
        ),
        (ClonePhase::FullCloningAfterShallow, EventView::Cloned) => (
            ClonePhase::ResolvingHead,
            ActionView::ResolveHead,
        ),
        (ClonePhase::FullCloningAfterShallow, EventView::CloneFailed(m)) => (
            ClonePhase::Finished,
            clone_failed("clone of "@ + s.repo_url + " (shallow and full both failed): "@ + m),
        ),
        (ClonePhase::FullCloningForCommit, EventView::Cloned) => (
            ClonePhase::Opening,
            ActionView::OpenRepo,
        ),
        (ClonePhase::FullCloningForCommit, EventView::CloneFailed(m)) => (
            ClonePhase::Finished,
            clone_failed("full clone of "@ + s.repo_url + ": "@ + m),
        ),
        (ClonePhase::Opening, EventView::Opened) => {
            let sha = s.commit_sha->0;
            if is_hex_oid(sha) {
                (ClonePhase::CheckingOut, ActionView::CheckoutCommit(oid_bytes(sha)))
            } else {
                (
                    ClonePhase::Finished,
                    clone_failed("invalid commit_sha "@ + sha + ": "@ + oid_parse_error(sha)),
                )
            }
        },
        (ClonePhase::Opening, EventView::OpenFailed(m)) => (
            ClonePhase::Finished,
            clone_failed("open cloned repo: "@ + m),
        ),
        (ClonePhase::CheckingOut, EventView::CheckedOut) => (
            ClonePhase::ResolvingHead,
            ActionView::ResolveHead,
        ),
        (ClonePhase::CheckingOut, EventView::CommitNotFound(m)) => (
            ClonePhase::Finished,
            clone_failed("commit "@ + s.commit_sha->0 + " not found: "@ + m),
        ),
        (ClonePhase::CheckingOut, EventView::SetHeadFailed(m)) => (
            ClonePhase::Finished,
            clone_failed("set HEAD to "@ + s.commit_sha->0 + ": "@ + m),
        ),
        (ClonePhase::CheckingOut, EventView::CheckoutFailed(m)) => (
            ClonePhase::Finished,
            clone_failed("checkout "@ + s.commit_sha->0 + ": "@ + m),
        ),
        (ClonePhase::ResolvingHead, EventView::HeadResolved(sha)) => (
            ClonePhase::Finished,
            ActionView::Done(sha),
        ),
        (ClonePhase::ResolvingHead, EventView::HeadUnresolved(m)) => (
            ClonePhase::Finished,
            clone_failed("resolve HEAD commit: "@ + m),
        ),
        _ => (
            ClonePhase::Finished,
            ActionView::Fail(ErrorView::Internal("unexpected clone event"@)),
        ),
    }
}

fn message2(a: &str, b: &str) -> (m: String)
    ensures
        m@ == a@ + b@,
{
    let mut m = owned(a);
    push_str(&mut m, b);
    m
}

fn message3(a: &str, b: &str, c: &str) -> (m: String)
    ensures
        m@ == a@ + b@ + c@,
{
    let mut m = owned(a);
    push_str(&mut m, b);
    push_str(&mut m, c);
    m
}

fn message4(a: &str, b: &str, c: &str, d: &str) -> (m: String)
    ensures
        m@ == a@ + b@ + c@ + d@,
{
    let mut m = owned(a);
    push_str(&mut m, b);
    push_str(&mut m, c);
    push_str(&mut m, d);
    m
}

fn fail_clone(message: String) -> (a: CloneAction)
    ensures
        a@ == clone_failed(message@),
{
    CloneAction::Fail(
        ScanError::Domain { code: ErrorCode::ScannerCloneFailed, message, retryable: true },
    )
}

impl CloneSession {
    #[verifier::type_invariant]
    spec fn phase_consistent(&self) -> bool {
        phase_fits(self.phase, opt_view(self.commit_sha))
    }

    /// A clone that has not started yet.
    pub fn new(repo_url: &str, branch: Option<&str>, commit_sha: Option<&str>) -> (s: CloneSession)
        ensures
            s@.repo_url == repo_url@,
            s@.branch == match branch {
                Some(b) => Some(b@),
                None => None::<Seq<char>>,
            },
            s@.commit_sha == match commit_sha {
                Some(c) => Some(c@),
                None => None::<Seq<char>>,
            },
            s@.phase == ClonePhase::Start,
    {
        let branch = match branch {
            Some(b) => Some(owned(b)),
            None => None,
        };
        let commit_sha = match commit_sha {
            Some(c) => Some(owned(c)),
            None => None,
        };
        CloneSession { repo_url: owned(repo_url), branch, commit_sha, phase: ClonePhase::Start }
    }

    /// The repository being cloned.
    pub fn repo_url(&self) -> (u: &str)
        ensures
            u@ == self@.repo_url,
    {
        self.repo_url.as_str()
    }

    /// The branch to clone, if one was asked for.
    pub fn branch(&self) -> (b: Option<&str>)
        ensures
            match self@.branch {
                Some(v) => b is Some && b->0@ == v,
                None => b is None,
            },
    {
        match &self.branch {
            Some(b) => Some(b.as_str()),
            None => None,
        }
    }

    /// Where the clone stands.
    pub fn phase(&self) -> (p: ClonePhase)
        ensures
            p == self@.phase,
    {
        self.phase
    }

    /// The first action: create the temporary directory. A session that
    /// has already started is ended with an internal error instead.
    pub fn begin(&mut self) -> (a: CloneAction)
        ensures
            final(self)@.repo_url == old(self)@.repo_url,
            final(self)@.branch == old(self)@.branch,
            final(self)@.commit_sha == old(self)@.commit_sha,
            old(self)@.phase == ClonePhase::Start ==> final(self)@.phase == ClonePhase::CreatingDir
                && a@ == ActionView::CreateTempDir,
            old(self)@.phase != ClonePhase::Start ==> final(self)@.phase == ClonePhase::Finished
                && a@ == ActionView::Fail(ErrorView::Internal("unexpected clone event"@)),
    {
        if self.phase == ClonePhase::Start {
            self.phase = ClonePhase::CreatingDir;
            CloneAction::CreateTempDir
        } else {
            self.phase = ClonePhase::Finished;
            CloneAction::Fail(ScanError::Internal { message: owned("unexpected clone event") })
        }
    }

    /// Takes in the outcome of the last action and gives the next one.
    pub fn step(&mut self, event: CloneEvent) -> (a: CloneAction)
        ensures
            final(self)@.repo_url == old(self)@.repo_url,
            final(self)@.branch == old(self)@.branch,
            final(self)@.commit_sha == old(self)@.commit_sha,
            (final(self)@.phase, a@) == transition(old(self)@, event@),
    {
        proof {
            use_type_invariant(&*self);
        }
        let ghost s = self@;
        let (phase, action) = match (self.phase, event) {
            (ClonePhase::CreatingDir, CloneEvent::TempDirCreated) => {
                if self.commit_sha.is_some() {
                    (ClonePhase::FullCloningForCommit, CloneAction::FullClone)
                } else {
                    (ClonePhase::ShallowCloning, CloneAction::ShallowClone)
                }
            },
            (ClonePhase::CreatingDir, CloneEvent::TempDirFailed(m)) => (
                ClonePhase::Finished,
                CloneAction::Fail(
                    ScanError::Internal { message: message2("create temp dir: ", m.as_str()) },
                ),
            ),
            (ClonePhase::ShallowCloning, CloneEvent::Cloned) => (
                ClonePhase::ResolvingHead,
                CloneAction::ResolveHead,
            ),
            (ClonePhase::ShallowCloning, CloneEvent::CloneFailed(_)) => (
                ClonePhase::FullCloningAfterShallow,
                CloneAction::RetryFullClone,
            ),
            (ClonePhase::FullCloningAfterShallow, CloneEvent::Cloned) => (
                ClonePhase::ResolvingHead,
                CloneAction::ResolveHead,
            ),
            (ClonePhase::FullCloningAfterShallow, CloneEvent::CloneFailed(m)) => (
                ClonePhase::Finished,
                fail_clone(
                    message4(
                        "clone of ",
                        self.repo_url.as_str(),
                        " (shallow and full both failed): ",
                        m.as_str(),
                    ),
                ),
            ),
            (ClonePhase::FullCloningForCommit, CloneEvent::Cloned) => (
                ClonePhase::Opening,
                CloneAction::OpenRepo,
            ),
            (ClonePhase::FullCloningForCommit, CloneEvent::CloneFailed(m)) => (
                ClonePhase::Finished,
                fail_clone(message4("full clone of ", self.repo_url.as_str(), ": ", m.as_str())),
            ),
            (ClonePhase::Opening, CloneEvent::Opened) => {
                let sha = self.commit_sha.as_ref().unwrap();
                match parse_commit_oid(sha.as_str()) {
                    Ok(oid) => (ClonePhase::CheckingOut, CloneAction::CheckoutCommit(oid)),
                    Err(pm) => (
                        ClonePhase::Finished,
                        fail_clone(message4("invalid commit_sha ", sha.as_str(), ": ", pm.as_str())),
                    ),
                }
            },
            (ClonePhase::Opening, CloneEvent::OpenFailed(m)) => (
                ClonePhase::Finished,
                fail_clone(message2("open cloned repo: ", m.as_str())),
            ),
            (ClonePhase::CheckingOut, CloneEvent::CheckedOut) => (
                ClonePhase::ResolvingHead,
                CloneAction::ResolveHead,
            ),
            (ClonePhase::CheckingOut, CloneEvent::CommitNotFound(m)) => {
                let sha = self.commit_sha.as_ref().unwrap();
                (
                    ClonePhase::Finished,
                    fail_clone(message4("commit ", sha.as_str(), " not found: ", m.as_str())),
                )
            },
            (ClonePhase::CheckingOut, CloneEvent::SetHeadFailed(m)) => {
                let sha = self.commit_sha.as_ref().unwrap();
                (
                    ClonePhase::Finished,
                    fail_clone(message4("set HEAD to ", sha.as_str(), ": ", m.as_str())),
                )
            },
            (ClonePhase::CheckingOut, CloneEvent::CheckoutFailed(m)) => {
                let sha = self.commit_sha.as_ref().unwrap();
                (
                    ClonePhase::Finished,
                    fail_clone(message4("checkout ", sha.as_str(), ": ", m.as_str())),
                )
            },
            (ClonePhase::ResolvingHead, CloneEvent::HeadResolved(sha)) => (
                ClonePhase::Finished,
                CloneAction::Done(sha),
            ),
            (ClonePhase::ResolvingHead, CloneEvent::HeadUnresolved(m)) => (
                ClonePhase::Finished,
                fail_clone(message2("resolve HEAD commit: ", m.as_str())),
            ),
            _ => (
                ClonePhase::Finished,
                CloneAction::Fail(ScanError::Internal { message: owned("unexpected clone event") }),
            ),
        };
        self.phase = phase;
        action
    }
}

/// How the clone task ended: with its own result, by panicking, or by
/// running past the timeout.
pub enum CloneOutcome<T> {
    Completed(Result<T, ScanError>),
    Panicked(String),
    TimedOut,
}

/// The result of a clone given how its task ended: its own result when it
/// completed; an internal error when it panicked; a retryable
/// `ScannerTimeout` naming the timeout in whole seconds when it ran out of
/// time.
pub fn settle_clone<T>(outcome: CloneOutcome<T>, timeout_secs: u64) -> (r: Result<T, ScanError>)
    ensures
        match outcome {
            CloneOutcome::Completed(done) => r == done,
            CloneOutcome::Panicked(m) => r is Err && r->Err_0@ == ErrorView::Internal(
                "clone task panicked: "@ + m@,
            ),
            CloneOutcome::TimedOut => r is Err && r->Err_0@ == ErrorView::Domain(
                ErrorCode::ScannerTimeout,
                "git clone exceeded "@ + decimal_digits(timeout_secs as nat) + "s timeout"@,
                true,
            ),
        },
{
    match outcome {
        CloneOutcome::Completed(done) => done,
        CloneOutcome::Panicked(m) => Err(
            ScanError::Internal { message: message2("clone task panicked: ", m.as_str()) },
        ),
        CloneOutcome::TimedOut => {
            let secs = format_u64(timeout_secs);
            Err(
                ScanError::Domain {
                    code: ErrorCode::ScannerTimeout,
                    message: message3("git clone exceeded ", secs.as_str(), "s timeout"),
                    retryable: true,
                },
            )
        },
    }
}

/// A session finishes exactly when it gives its final action: the sha it
/// cloned at, or a failure.
pub proof fn lemma_finishes_with_final_action(s: SessionView, event: EventView)
    ensures
        transition(s, event).0 == ClonePhase::Finished <==> (transition(s, event).1 is Done
            || transition(s, event).1 is Fail),
{
}

/// A shallow clone, and its full-clone fallback, happen only for a clone
/// without a commit sha; a checkout happens only for a clone with a commit
/// sha that parses as an object id; and the phases stay consistent with the
/// request.
pub proof fn lemma_actions_fit_request(s: SessionView, event: EventView)
    requires
        phase_fits(s.phase, s.commit_sha),
    ensures
        (transition(s, event).1 is ShallowClone || transition(s, event).1 is RetryFullClone)
            ==> s.commit_sha is None,
        (transition(s, event).1 is FullClone || transition(s, event).1 is OpenRepo)
            ==> s.commit_sha is Some,
        transition(s, event).1 is CheckoutCommit ==> s.commit_sha is Some && is_hex_oid(
            s.commit_sha->0,
        ) && transition(s, event).1 == ActionView::CheckoutCommit(oid_bytes(s.commit_sha->0)),
        phase_fits(transition(s, event).0, s.commit_sha),
{
}

/// A failed shallow clone is always retried as a full clone; a failure of
/// any other git operation of the clone, a commit sha that git cannot parse
/// among them, ends it with a retryable `ScannerCloneFailed`.
pub proof fn lemma_git_failures(s: SessionView, m: Seq<char>)
    ensures
        s.phase == ClonePhase::ShallowCloning ==> transition(s, EventView::CloneFailed(m))
            == (ClonePhase::FullCloningAfterShallow, ActionView::RetryFullClone),
        (s.phase == ClonePhase::FullCloningAfterShallow || s.phase
            == ClonePhase::FullCloningForCommit) ==> transition(s, EventView::CloneFailed(m)).1
            matches ActionView::Fail(ErrorView::Domain(ErrorCode::ScannerCloneFailed, _, true)),
        s.phase == ClonePhase::Opening ==> transition(s, EventView::OpenFailed(m)).1 matches ActionView::Fail(
            ErrorView::Domain(ErrorCode::ScannerCloneFailed, _, true),
        ),
        s.phase == ClonePhase::Opening && s.commit_sha is Some && !is_hex_oid(s.commit_sha->0)
            ==> transition(s, EventView::Opened).1 matches ActionView::Fail(
            ErrorView::Domain(ErrorCode::ScannerCloneFailed, _, true),
        ),
        s.phase == ClonePhase::CheckingOut ==> {
            &&& transition(s, EventView::CommitNotFound(m)).1 matches ActionView::Fail(
                ErrorView::Domain(ErrorCode::ScannerCloneFailed, _, true),
            )
            &&& transition(s, EventView::SetHeadFailed(m)).1 matches ActionView::Fail(
                ErrorView::Domain(ErrorCode::ScannerCloneFailed, _, true),
            )
            &&& transition(s, EventView::CheckoutFailed(m)).1 matches ActionView::Fail(
                ErrorView::Domain(ErrorCode::ScannerCloneFailed, _, true),
            )
        },
        s.phase == ClonePhase::ResolvingHead ==> transition(s, EventView::HeadUnresolved(m)).1 matches ActionView::Fail(
            ErrorView::Domain(ErrorCode::ScannerCloneFailed, _, true),
        ),
{
}

/// A finished session only ever answers with a failure.
pub proof fn lemma_finished_stays_finished(s: SessionView, event: EventView)
    requires
        s.phase == ClonePhase::Finished,
    ensures
        transition(s, event) == (
            ClonePhase::Finished,
            ActionView::Fail(ErrorView::Internal("unexpected clone event"@)),
        ),
{
}

/// Every successful step moves the clone on, never to a failure: the
/// temporary directory leads to a shallow clone (no sha) or a full clone
/// (sha); a shallow clone, its full-clone fallback, and a checkout lead to
/// resolving HEAD; a full clone for a sha leads to opening the repository;
/// opening it leads to checking out the commit the sha names; and a resolved
/// HEAD completes the clone at exactly that commit.
pub proof fn lemma_successes_move_on(s: SessionView, sha: Seq<char>)
    ensures
        s.phase == ClonePhase::CreatingDir && s.commit_sha is None ==> transition(
            s,
            EventView::TempDirCreated,
        ) == (ClonePhase::ShallowCloning, ActionView::ShallowClone),
        s.phase == ClonePhase::CreatingDir && s.commit_sha is Some ==> transition(
            s,
            EventView::TempDirCreated,
        ) == (ClonePhase::FullCloningForCommit, ActionView::FullClone),
        s.phase == ClonePhase::ShallowCloning ==> transition(s, EventView::Cloned) == (
            ClonePhase::ResolvingHead,
            ActionView::ResolveHead,
        ),
        s.phase == ClonePhase::FullCloningAfterShallow ==> transition(s, EventView::Cloned) == (
            ClonePhase::ResolvingHead,
            ActionView::ResolveHead,
        ),
        s.phase == ClonePhase::FullCloningForCommit ==> transition(s, EventView::Cloned) == (
            ClonePhase::Opening,
            ActionView::OpenRepo,
        ),
        s.phase == ClonePhase::Opening && s.commit_sha is Some && is_hex_oid(s.commit_sha->0)
            ==> transition(s, EventView::Opened) == (
            ClonePhase::CheckingOut,
            ActionView::CheckoutCommit(oid_bytes(s.commit_sha->0)),
        ),
        s.phase == ClonePhase::CheckingOut ==> transition(s, EventView::CheckedOut) == (
            ClonePhase::ResolvingHead,
            ActionView::ResolveHead,
        ),
        s.phase == ClonePhase::ResolvingHead ==> transition(s, EventView::HeadResolved(sha)) == (
            ClonePhase::Finished,
            ActionView::Done(sha),
        ),
{
}

/// The state a session is in after `begin`.
pub open spec fn begun(s: SessionView) -> SessionView {
    SessionView { phase: ClonePhase::CreatingDir, ..s }
}

/// The state a session moves to on `event`.
pub open spec fn after(s: SessionView, event: EventView) -> SessionView {
    SessionView { phase: transition(s, event).0, ..s }
}

/// A clone without a sha whose shallow clone fails and whose full clone
/// then succeeds resolves HEAD and completes at the commit HEAD names; one
/// whose shallow clone succeeds does the same without the fallback.
pub proof fn lemma_clone_without_sha_completes(
    s: SessionView,
    shallow_error: Seq<char>,
    head: Seq<char>,
)
    requires
        s.phase == ClonePhase::Start,
        s.commit_sha is None,
    ensures
        ({
            let s1 = begun(s);
            let s2 = after(s1, EventView::TempDirCreated);
            let s3 = after(s2, EventView::CloneFailed(shallow_error));
            let s4 = after(s3, EventView::Cloned);
            &&& transition(s1, EventView::TempDirCreated).1 == ActionView::ShallowClone
            &&& transition(s2, EventView::CloneFailed(shallow_error)).1 == ActionView::RetryFullClone
            &&& transition(s3, EventView::Cloned).1 == ActionView::ResolveHead
            &&& transition(s4, EventView::HeadResolved(head)) == (
                ClonePhase::Finished,
                ActionView::Done(head),
            )
        }),
        ({
            let s1 = begun(s);
            let s2 = after(s1, EventView::TempDirCreated);
            let s3 = after(s2, EventView::Cloned);
            &&& transition(s2, EventView::Cloned).1 == ActionView::ResolveHead
            &&& transition(s3, EventView::HeadResolved(head)) == (
                ClonePhase::Finished,
                ActionView::Done(head),
            )
        }),
{
}

/// A clone at a sha that parses as an object id clones in full, opens the
/// repository, checks out the commit the sha names, and completes at the
/// commit HEAD then names.
pub proof fn lemma_clone_with_sha_completes(s: SessionView, head: Seq<char>)
    requires
        s.phase == ClonePhase::Start,
        s.commit_sha is Some,
        is_hex_oid(s.commit_sha->0),
    ensures
        ({
            let s1 = begun(s);
            let s2 = after(s1, EventView::TempDirCreated);
            let s3 = after(s2, EventView::Cloned);
            let s4 = after(s3, EventView::Opened);
            let s5 = after(s4, EventView::CheckedOut);
            &&& transition(s1, EventView::TempDirCreated).1 == ActionView::FullClone
            &&& transition(s2, EventView::Cloned).1 == ActionView::OpenRepo
            &&& transition(s3, EventView::Opened).1 == ActionView::CheckoutCommit(
                oid_bytes(s.commit_sha->0),
            )
            &&& transition(s4, EventView::CheckedOut).1 == ActionView::ResolveHead
            &&& transition(s5, EventView::HeadResolved(head)) == (
                ClonePhase::Finished,
                ActionView::Done(head),
            )
        }),
{
}

/// The object id handed to the checkout holds the sha's hexadecimal digits,
/// two to a byte, most significant first, padded with zeros.
pub proof fn lemma_oid_bytes_digits(sha: Seq<char>, i: int)
    requires
        is_hex_oid(sha),
        0 <= i < 20,
    ensures
        oid_bytes(sha).len() == 20,
        oid_bytes(sha)[i] as int == 16 * (if 2 * i < sha.len() {
            hex_value(sha[2 * i])
        } else {
            0
        }) + (if 2 * i + 1 < sha.len() {
            hex_value(sha[2 * i + 1])
        } else {
            0
        }),
        forall|k: int| 0 <= k < sha.len() ==> 0 <= #[trigger] hex_value(sha[k]) < 16,
{
    assert forall|k: int| 0 <= k < sha.len() implies 0 <= #[trigger] hex_value(sha[k]) < 16 by {
        let u = sha[k] as u32;
        assert((48 <= u <= 57) || (65 <= u <= 70) || (97 <= u <= 102));
    }
    let a = nibble(sha, 2 * i);
    let b = nibble(sha, 2 * i + 1);
    assert(0 <= a < 16 && 0 <= b < 16);
    assert(0 <= a * 16 + b < 256) by (nonlinear_arith)
        requires
            0 <= a < 16,
            0 <= b < 16,
    ;
}

} // verus!
