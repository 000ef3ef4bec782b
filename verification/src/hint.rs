//! Guidance for the failures of podman that are typical of a development
//! container.

use color_eyre::eyre::Report;
use vstd::prelude::*;
use vstd::string::StringExecFns;

use crate::container::{failure_line, DevContainer, IoFailure};
use crate::log::{Level, LogLine};
use crate::path::{host_path, HOST_ROOT};
use crate::{path, text};

verus! {

/// Documentation for running bcvk from a toolbox or distrobox.
pub const DOCS_URL: &'static str =
    "https://github.com/bootc-dev/bcvk/blob/main/docs/src/installation.md#toolbox-and-distrobox";

/// How podman reports a bind mount source that doesn't exist, e.g.
/// `Error: statfs /usr/bin/bcvk: no such file or directory`.
pub const PODMAN_STATFS_PREFIX: &'static str = "statfs ";

/// The end of such a report.
pub const ENOENT_MESSAGE: &'static str = "no such file or directory";

/// The guidance, before it says where bcvk runs.
pub const HINT_START: &'static str = "bcvk is running ";

/// The guidance, from there to the second mention of the container.
pub const HINT_CAUSE: &'static str = ", and podman could not find a path \
    it was asked to bind-mount. If podman is forwarded to the host, the bcvk binary \
    and any bind mount sources must exist at the same path on the host, not just in \
    this container.\n\
    \n\
    Consider installing bcvk on the host alongside podman and QEMU (e.g. \
    `sudo dnf install bcvk`, or add it to your image on image-based systems) and \
    running it there; from a ";

/// The guidance, from there to the link at its end.
pub const HINT_REMEDY: &'static str = " you can use `flatpak-spawn --host bcvk ...`.\n\
    See ";

/// An error as the program reports it.
#[verifier::external_type_specification]
#[verifier::external_body]
pub struct ExReport(Report);

/// The messages in a report, as [`Report::chain`] visits them: the error itself
/// first, then the cause of each.
pub uninterp spec fn report_messages(report: Report) -> Seq<Seq<char>>;

/// Calls [`Report::wrap_err`], which puts a new error with the given message in
/// front of the ones in the report. That the backtrace captured with the report
/// moves along is left unsaid.
#[verifier::external_body]
fn wrap_err(err: Report, message: String) -> (wrapped: Report)
    ensures
        report_messages(wrapped) == seq![message@] + report_messages(err),
{
    err.wrap_err(message)
}

/// Whether `line` reports a bind mount source that doesn't exist.
pub open spec fn reports_missing_source(line: Seq<char>) -> bool {
    text::has_part(line, PODMAN_STATFS_PREFIX@) && text::has_part(line, ENOENT_MESSAGE@)
}

/// Whether a line of `stderr` reports a bind mount source that doesn't exist.
pub open spec fn missing_bind_source(stderr: Seq<char>) -> bool {
    exists|i: int|
        0 <= i < text::lines_of(stderr).len() && reports_missing_source(
            #[trigger] text::lines_of(stderr)[i],
        )
}

/// Where a process in a container of this kind runs, in words.
pub open spec fn place_text(kind: DevContainer) -> Seq<char> {
    "inside a "@ + kind.label() + " container"@
}

/// The guidance for a failure inside a container of this kind.
pub open spec fn hint_text(kind: DevContainer) -> Seq<char> {
    HINT_START@ + place_text(kind) + HINT_CAUSE@ + kind.label() + HINT_REMEDY@ + DOCS_URL@
}

/// The guidance that a failure of podman with this output calls for.
pub open spec fn hint_for(kind: Option<DevContainer>, stderr: Seq<char>) -> Option<Seq<char>> {
    match kind {
        Some(k) if missing_bind_source(stderr) => Some(hint_text(k)),
        _ => None,
    }
}

/// Whether podman's stderr says a bind mount source doesn't exist.
pub fn is_missing_bind_source(stderr: &str) -> (missing: bool)
    ensures
        missing == missing_bind_source(stderr@),
{
    let lines = text::lines(stderr);
    let mut i: usize = 0;
    while i < lines.len()
        invariant
            i <= lines@.len(),
            text::views(lines@) == text::lines_of(stderr@),
            forall|j: int|
                0 <= j < i ==> !reports_missing_source(#[trigger] text::lines_of(stderr@)[j]),
        decreases lines@.len() - i,
    {
        assert(text::lines_of(stderr@)[i as int] == lines@[i as int]@);
        if text::contains(lines[i], PODMAN_STATFS_PREFIX) && text::contains(
            lines[i],
            ENOENT_MESSAGE,
        ) {
            return true;
        }
        i = i + 1;
    }
    false
}

/// The guidance for a failure inside a container of this kind.
fn hint_message(kind: DevContainer) -> (message: String)
    ensures
        message@ == hint_text(kind),
{
    let place = "inside a ".to_owned().concat(kind.as_str()).concat(" container");
    HINT_START.to_owned().concat(place.as_str()).concat(HINT_CAUSE).concat(kind.as_str()).concat(
        HINT_REMEDY,
    ).concat(DOCS_URL)
}

/// Wrap `err` with guidance if `kind` is set and `stderr` shows a missing
/// bind mount source. Whatever the report said before stays in it, as the cause.
pub fn with_hint_for(kind: Option<DevContainer>, err: Report, stderr: &str) -> (report: Report)
    ensures
        match hint_for(kind, stderr@) {
            Some(hint) => report_messages(report) == seq![hint] + report_messages(err),
            None => report == err,
        },
{
    if let Some(k) = kind {
        if is_missing_bind_source(stderr) {
            return wrap_err(err, hint_message(k));
        }
    }
    err
}

/// What to do with the error of a failed podman invocation.
#[derive(Debug)]
pub enum FailureStep {
    /// Report it as it is.
    Done(Report),
    /// Find out in which container the process runs, then go on with
    /// [`with_hint_for`].
    Detect(Report),
}

/// Start adding guidance to the error for a failed podman invocation. Unless
/// podman failed to find a bind mount source there is none to add, and no need
/// to find out about the container.
pub fn with_podman_failure_hint(err: Report, stderr: &str) -> (step: FailureStep)
    ensures
        step == if missing_bind_source(stderr@) {
            FailureStep::Detect(err)
        } else {
            FailureStep::Done(err)
        },
{
    if is_missing_bind_source(stderr) {
        FailureStep::Detect(err)
    } else {
        FailureStep::Done(err)
    }
}

/// A question about our own binary: is there anything at `on_host`, where the
/// host's file of the same path is visible?
#[derive(Debug)]
pub struct HostProbe {
    /// The container that we run in.
    pub kind: DevContainer,
    /// The path of our own binary.
    pub self_exe: String,
    /// Where the same path on the host is visible.
    pub on_host: String,
}

/// What a [`HostProbe`] says.
pub struct HostProbeView {
    pub kind: DevContainer,
    pub self_exe: Seq<char>,
    pub on_host: Seq<char>,
}

impl View for HostProbe {
    type V = HostProbeView;

    open spec fn view(&self) -> HostProbeView {
        HostProbeView { kind: self.kind, self_exe: self.self_exe@, on_host: self.on_host@ }
    }
}

/// How to go on after the answer to a [`HostProbe`].
#[derive(Debug)]
pub enum ProbeStep {
    /// Log the line, and be done.
    Log(LogLine),
    /// Find out whether [`HOST_ROOT`] is a directory, then go on with
    /// [`HostProbe::host_root_checked`].
    CheckHostRoot(HostProbe),
}

/// What a [`ProbeStep`] says.
pub enum ProbeStepView {
    Log((Level, Seq<char>)),
    CheckHostRoot(HostProbeView),
}

impl View for ProbeStep {
    type V = ProbeStepView;

    open spec fn view(&self) -> ProbeStepView {
        match self {
            ProbeStep::Log(line) => ProbeStepView::Log(line@),
            ProbeStep::CheckHostRoot(probe) => ProbeStepView::CheckHostRoot(probe@),
        }
    }
}

/// The text of the question about the binary at `self_exe`; none outside of a
/// development container.
pub open spec fn probe_for(kind: Option<DevContainer>, self_exe: Seq<char>) -> Option<
    HostProbeView,
> {
    match kind {
        Some(k) => Some(
            HostProbeView { kind: k, self_exe, on_host: path::path_on_host(self_exe) },
        ),
        None => None,
    }
}

impl HostProbeView {
    /// How to go on when the look for `on_host` gave this answer, or failed with
    /// this message.
    pub open spec fn after_exists(self, exists: Result<bool, Seq<char>>) -> ProbeStepView {
        match exists {
            Ok(true) => ProbeStepView::Log(
                (
                    Level::Debug,
                    "Running in a "@ + self.kind.label() + "; "@ + self.self_exe
                        + " also exists on the host"@,
                ),
            ),
            Ok(false) => ProbeStepView::CheckHostRoot(self),
            Err(message) => ProbeStepView::Log(
                (Level::Debug, "Checking for "@ + self.on_host + ": "@ + message),
            ),
        }
    }

    /// What to log when nothing is at `on_host`. Only where the host's root is
    /// mounted does that say anything of the host.
    pub open spec fn after_host_root(self, is_dir: bool) -> (Level, Seq<char>) {
        if is_dir {
            (
                Level::Info,
                "Running in a "@ + self.kind.label() + ", and "@ + self.self_exe
                    + " is not present on the host; this will fail if podman is forwarded to the host. See "@
                    + DOCS_URL@,
            )
        } else {
            (
                Level::Debug,
                "Running in a "@ + self.kind.label() + " without "@ + HOST_ROOT@
                    + "; can't check the host"@,
            )
        }
    }
}

/// The answer in `exists`, with the failure as its message.
pub open spec fn answer(exists: Result<bool, IoFailure>) -> Result<bool, Seq<char>> {
    match exists {
        Ok(there) => Ok(there),
        Err(e) => Err(e.message@),
    }
}

/// Start a hint up front: if we are inside a toolbox or distrobox, find out
/// whether our own binary is visible at the same path on the host, which is
/// where a host-forwarded podman will look for it.
pub fn log_self_exe_hint(kind: Option<DevContainer>, self_exe: &str) -> (probe: Option<HostProbe>)
    ensures
        match probe_for(kind, self_exe@) {
            Some(question) => probe is Some && probe->0@ == question,
            None => probe is None,
        },
        probe is Some <==> kind is Some,
        probe is Some ==> probe->0.kind == kind->0 && probe->0.self_exe@ == self_exe@,
        probe is Some ==> path::components(probe->0.on_host@) == path::components(HOST_ROOT@)
            + path::names(self_exe@),
{
    match kind {
        Some(k) => Some(
            HostProbe { kind: k, self_exe: self_exe.to_owned(), on_host: host_path(self_exe) },
        ),
        None => None,
    }
}

impl HostProbe {
    /// Go on with the answer to whether anything is at `on_host`.
    pub fn exists_checked(self, exists: Result<bool, IoFailure>) -> (step: ProbeStep)
        ensures
            step@ == self@.after_exists(answer(exists)),
    {
        match exists {
            Ok(true) => {
                let message = "Running in a ".to_owned().concat(self.kind.as_str()).concat(
                    "; ",
                ).concat(self.self_exe.as_str()).concat(" also exists on the host");
                ProbeStep::Log(LogLine { level: Level::Debug, message })
            },
            Ok(false) => ProbeStep::CheckHostRoot(self),
            Err(e) => ProbeStep::Log(failure_line("Checking for ", self.on_host.as_str(), &e)),
        }
    }

    /// Finish with the answer to whether [`HOST_ROOT`] is a directory.
    pub fn host_root_checked(self, is_dir: bool) -> (line: LogLine)
        ensures
            line@ == self@.after_host_root(is_dir),
    {
        if is_dir {
            let message = "Running in a ".to_owned().concat(self.kind.as_str()).concat(
                ", and ",
            ).concat(self.self_exe.as_str()).concat(
                " is not present on the host; this will fail if podman is forwarded to the host. See ",
            ).concat(DOCS_URL);
            LogLine { level: Level::Info, message }
        } else {
            let message = "Running in a ".to_owned().concat(self.kind.as_str()).concat(
                " without ",
            ).concat(HOST_ROOT).concat("; can't check the host");
            LogLine { level: Level::Debug, message }
        }
    }
}

} // verus!
