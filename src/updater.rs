//! The decisions around a workspace update: whether the repository offers a
//! newer version, and which progress snapshots of a running update reach
//! the shell.
use vstd::prelude::*;

use crate::errors::SparusError;

verus! {

/// Declares `semver::Version`, carried opaque inside a parsed [`SemVer`].
#[verifier::external_type_specification]
#[verifier::external_body]
pub struct ExVersion(semver::Version);

/// Declares `semver::Error`, the failure of `semver::Version::parse`.
#[verifier::external_type_specification]
#[verifier::external_body]
pub struct ExSemverError(semver::Error);

/// A failure of a workspace update, as reported to the shell.
#[derive(Debug, Clone, PartialEq)]
pub enum UpdateErr {
    Io(String),
    UpdateErr { description: String },
}

/// The parts of a semantic version: major, minor, patch, pre-release text
/// and build-metadata text.
pub type VersionParts = (u64, u64, u64, Seq<char>, Seq<char>);

/// What `semver::Version::parse` makes of a text: its parts, or `None`
/// where the text is not a semantic version.
pub uninterp spec fn semver_parse(text: Seq<char>) -> Option<(u64, u64, u64, Seq<char>, Seq<char>)>;

/// Whether version `a` orders after version `b` in `semver::Version`'s
/// order.
pub uninterp spec fn semver_newer(a: (u64, u64, u64, Seq<char>, Seq<char>), b: (u64, u64, u64, Seq<char>, Seq<char>)) -> bool;

/// A semantic version, as parsed from its text.
pub struct SemVer {
    major: u64,
    minor: u64,
    patch: u64,
    pre: String,
    build: String,
    parsed: semver::Version,
}

impl View for SemVer {
    type V = VersionParts;

    closed spec fn view(&self) -> VersionParts {
        (self.major, self.minor, self.patch, self.pre@, self.build@)
    }
}

/// Relies on `semver::Version::parse`: the parts of the version a text
/// denotes, or its error where the text is not a semantic version.
#[verifier::external_body]
fn parse_semver(text: &str) -> (r: Result<SemVer, semver::Error>)
    ensures
        match semver_parse(text@) {
            Some(v) => r is Ok && r->Ok_0@ == v,
            None => r is Err,
        },
{
    match semver::Version::parse(text) {
        Ok(v) => Ok(SemVer {
            major: v.major,
            minor: v.minor,
            patch: v.patch,
            pre: v.pre.as_str().to_string(),
            build: v.build.as_str().to_string(),
            parsed: v,
        }),
        Err(e) => Err(e),
    }
}

/// Relies on the order `semver::Version` derives: the fields compared one
/// after another, major, minor and patch first, then the pre-release and
/// the build metadata; equal versions are not ordered after each other.
#[verifier::external_body]
fn newer_than(a: &SemVer, b: &SemVer) -> (r: bool)
    ensures
        r == semver_newer(a@, b@),
        a@.0 != b@.0 ==> r == (a@.0 > b@.0),
        a@.0 == b@.0 && a@.1 != b@.1 ==> r == (a@.1 > b@.1),
        a@.0 == b@.0 && a@.1 == b@.1 && a@.2 != b@.2 ==> r == (a@.2 > b@.2),
        a@ == b@ ==> !r,
{
    a.parsed > b.parsed
}

/// Relies on the `Display` text of `semver::Error`, used as the message of
/// the error reported to the shell.
#[verifier::external_body]
fn semver_error_text(e: &semver::Error) -> (r: String) {
    e.to_string()
}

impl SemVer {
    /// Parses a semantic version; a text that is not one gives a `semver`
    /// error.
    pub fn parse(text: &str) -> (r: Result<SemVer, SparusError>)
        ensures
            match semver_parse(text@) {
                Some(v) => r is Ok && r->Ok_0@ == v,
                None => r is Err && r->Err_0 is Semver,
            },
    {
        match parse_semver(text) {
            Ok(v) => Ok(v),
            Err(e) => Err(SparusError::Semver(semver_error_text(&e))),
        }
    }

    /// Whether this version orders after `other`.
    pub fn is_newer_than(&self, other: &SemVer) -> (r: bool)
        ensures
            r == semver_newer(self@, other@),
            self@.0 != other@.0 ==> r == (self@.0 > other@.0),
            self@.0 == other@.0 && self@.1 != other@.1 ==> r == (self@.1 > other@.1),
            self@.0 == other@.0 && self@.1 == other@.1 && self@.2 != other@.2 ==> r == (self@.2 > other@.2),
            self@ == other@ ==> !r,
    {
        newer_than(self, other)
    }

    /// The major version number.
    pub fn major(&self) -> (r: u64)
        ensures
            r == self@.0,
    {
        self.major
    }

    /// The minor version number.
    pub fn minor(&self) -> (r: u64)
        ensures
            r == self@.1,
    {
        self.minor
    }

    /// The patch number.
    pub fn patch(&self) -> (r: u64)
        ensures
            r == self@.2,
    {
        self.patch
    }

    /// The pre-release text, empty for a release.
    pub fn pre(&self) -> (r: &str)
        ensures
            r@ == self@.3,
    {
        self.pre.as_str()
    }

    /// The build-metadata text, empty where there is none.
    pub fn build(&self) -> (r: &str)
        ensures
            r@ == self@.4,
    {
        self.build.as_str()
    }
}

/// Whether the repository, whose current version descriptor reads
/// `remote_version`, offers an update over the installed version `local`:
/// the remote version must order after the local one. A descriptor that is
/// not a semantic version gives a `semver` error.
pub fn update_available(local: &SemVer, remote_version: &str) -> (r: Result<bool, SparusError>)
    ensures
        match semver_parse(remote_version@) {
            Some(v) => r is Ok && r->Ok_0 == semver_newer(v, local@),
            None => r is Err && r->Err_0 is Semver,
        },
{
    match SemVer::parse(remote_version) {
        Ok(remote) => Ok(remote.is_newer_than(local)),
        Err(e) => Err(e),
    }
}

/// Whether the repository offers an update over the installed version,
/// both given as text. An installed version that is not a semantic version
/// is a `semver` error as well.
pub fn update_available_from_text(local_version: &str, remote_version: &str) -> (r: Result<bool, SparusError>)
    ensures
        match (semver_parse(local_version@), semver_parse(remote_version@)) {
            (Some(l), Some(v)) => r is Ok && r->Ok_0 == semver_newer(v, l),
            _ => r is Err && r->Err_0 is Semver,
        },
{
    match SemVer::parse(local_version) {
        Ok(local) => update_available(&local, remote_version),
        Err(e) => Err(e),
    }
}

/// One progress snapshot of a running update, as the shell receives it:
/// each `*_start` counter is the amount done so far and the matching
/// `*_end` the amount to do.
#[derive(Debug, Clone, Copy, PartialEq, Eq)]
pub struct DownloadInfos {
    pub packages_start: usize,
    pub packages_end: usize,
    pub downloaded_files_start: usize,
    pub downloaded_files_end: usize,
    pub downloaded_bytes_start: u64,
    pub downloaded_bytes_end: u64,
    pub applied_files_start: usize,
    pub applied_files_end: usize,
    pub applied_input_bytes_start: u64,
    pub applied_input_bytes_end: u64,
    pub applied_output_bytes_start: u64,
    pub applied_output_bytes_end: u64,
    pub failed_files: usize,
}

/// Every amount done is within the amount to do.
pub open spec fn within_target(s: DownloadInfos) -> bool {
    &&& s.packages_start <= s.packages_end
    &&& s.downloaded_files_start <= s.downloaded_files_end
    &&& s.downloaded_bytes_start <= s.downloaded_bytes_end
    &&& s.applied_files_start <= s.applied_files_end
    &&& s.applied_input_bytes_start <= s.applied_input_bytes_end
    &&& s.applied_output_bytes_start <= s.applied_output_bytes_end
}

/// Snapshot `b` is no step back from `a`: no amount done, and not the number
/// of failed files, went down.
pub open spec fn advances(a: DownloadInfos, b: DownloadInfos) -> bool {
    &&& a.packages_start <= b.packages_start
    &&& a.downloaded_files_start <= b.downloaded_files_start
    &&& a.downloaded_bytes_start <= b.downloaded_bytes_start
    &&& a.applied_files_start <= b.applied_files_start
    &&& a.applied_input_bytes_start <= b.applied_input_bytes_start
    &&& a.applied_output_bytes_start <= b.applied_output_bytes_start
    &&& a.failed_files <= b.failed_files
}

fn within_target_exec(s: &DownloadInfos) -> (r: bool)
    ensures
        r == within_target(*s),
{
    s.packages_start <= s.packages_end && s.downloaded_files_start <= s.downloaded_files_end
        && s.downloaded_bytes_start <= s.downloaded_bytes_end && s.applied_files_start
        <= s.applied_files_end && s.applied_input_bytes_start <= s.applied_input_bytes_end
        && s.applied_output_bytes_start <= s.applied_output_bytes_end
}

fn advances_exec(a: &DownloadInfos, b: &DownloadInfos) -> (r: bool)
    ensures
        r == advances(*a, *b),
{
    a.packages_start <= b.packages_start && a.downloaded_files_start <= b.downloaded_files_start
        && a.downloaded_bytes_start <= b.downloaded_bytes_start && a.applied_files_start
        <= b.applied_files_start && a.applied_input_bytes_start <= b.applied_input_bytes_start
        && a.applied_output_bytes_start <= b.applied_output_bytes_start && a.failed_files
        <= b.failed_files
}

/// What to do with one snapshot of the updater: whether to pass it on to the
/// shell, and whether the update goes on.
#[derive(Debug, Clone, Copy, PartialEq, Eq)]
pub struct ProgressStep {
    pub emit: Option<DownloadInfos>,
    pub proceed: bool,
}

/// The progress reporting of one update run. It passes a snapshot on only
/// when it is within its targets and no step back from the last snapshot
/// passed on, so what the shell sees never goes backwards; a snapshot that
/// would is dropped. Once cancelled, it tells the updater to stop at its
/// next snapshot.
pub struct ProgressTracker {
    last: Option<DownloadInfos>,
    cancelled: bool,
    sent: Ghost<Seq<DownloadInfos>>,
}

impl ProgressTracker {
    /// The snapshots passed on so far, in order.
    pub closed spec fn emitted(&self) -> Seq<DownloadInfos> {
        self.sent@
    }

    /// Whether the run was cancelled.
    pub closed spec fn is_cancelled(&self) -> bool {
        self.cancelled
    }

    /// The tracker's invariant: the last snapshot kept is the last one passed
    /// on, every snapshot passed on is within its targets, and each one is no
    /// step back from every earlier one.
    pub closed spec fn wf(&self) -> bool {
        &&& (self.last is None <==> self.sent@.len() == 0)
        &&& (self.last is Some ==> self.last->Some_0 == self.sent@.last())
        &&& forall|i: int| 0 <= i < self.sent@.len() ==> within_target(#[trigger] self.sent@[i])
        &&& forall|i: int, j: int| 0 <= i < j < self.sent@.len() ==> advances(self.sent@[i], self.sent@[j])
    }

    /// A tracker for a new run: nothing passed on, not cancelled.
    pub fn new() -> (r: Self)
        ensures
            r.wf(),
            r.emitted() == Seq::<DownloadInfos>::empty(),
            !r.is_cancelled(),
    {
        ProgressTracker { last: None, cancelled: false, sent: Ghost(Seq::empty()) }
    }

    /// Asks the run to stop at the next snapshot.
    pub fn cancel(&mut self)
        requires
            old(self).wf(),
        ensures
            final(self).wf(),
            final(self).is_cancelled(),
            final(self).emitted() == old(self).emitted(),
    {
        self.cancelled = true;
    }

    /// Whether the run was cancelled.
    pub fn cancelled(&self) -> (r: bool)
        ensures
            r == self.is_cancelled(),
    {
        self.cancelled
    }

    /// Handles one snapshot of the updater. It is passed on when it is within
    /// its targets and, unless it is the first, no step back from the last
    /// one passed on; the update goes on unless the run was cancelled.
    pub fn observe(&mut self, s: DownloadInfos) -> (r: ProgressStep)
        requires
            old(self).wf(),
        ensures
            final(self).wf(),
            final(self).is_cancelled() == old(self).is_cancelled(),
            r.proceed == !old(self).is_cancelled(),
            r.emit is Some <==> within_target(s) && (old(self).emitted().len() == 0 || advances(
                old(self).emitted().last(),
                s,
            )),
            r.emit is Some ==> r.emit->Some_0 == s && final(self).emitted() == old(self).emitted().push(s),
            r.emit is None ==> final(self).emitted() == old(self).emitted(),
    {
        let ok = within_target_exec(&s) && match &self.last {
            Some(prev) => advances_exec(prev, &s),
            None => true,
        };
        let proceed = !self.cancelled;
        if ok {
            let ghost before = self.sent@;
            self.last = Some(s);
            self.sent = Ghost(before.push(s));
            proof {
                let after = self.sent@;
                assert forall|i: int, j: int| 0 <= i < j < after.len() implies advances(after[i], after[j]) by {
                    if j == after.len() - 1 && i < before.len() - 1 {
                        assert(advances(before[i], before[before.len() - 1]));
                    }
                }
                assert forall|i: int| 0 <= i < after.len() implies within_target(#[trigger] after[i]) by {
                    if i < before.len() {
                        assert(after[i] == before[i]);
                    }
                }
            }
            ProgressStep { emit: Some(s), proceed }
        } else {
            ProgressStep { emit: None, proceed }
        }
    }
}

/// What the shell sees of an update run never goes backwards: every snapshot
/// passed on is within its targets, and every later one is no step back
/// from every earlier one.
pub proof fn lemma_progress_monotone(t: &ProgressTracker)
    requires
        t.wf(),
    ensures
        forall|i: int| 0 <= i < t.emitted().len() ==> within_target(#[trigger] t.emitted()[i]),
        forall|i: int, j: int| 0 <= i < j < t.emitted().len() ==> advances(t.emitted()[i], t.emitted()[j]),
{
}

} // verus!
