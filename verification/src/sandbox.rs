//! The decisions behind the container backends: which backend a host gets,
//! which docker commands bring a container up or move a stage3 in and out of
//! it, and what each command's outcome means.  The caller runs the commands
//! and feeds their outcomes back; nothing here touches a process.
use vstd::prelude::*;
use crate::text;
use crate::text::{concat, concat3, contains_text, owned, split_of, string_of, text_eq, trim_str};

verus! {

/// Why a sandbox operation failed.
#[derive(Debug)]
pub enum SandboxError {
    BackendUnavailable(String),
    ContainerCreationFailed(String),
    CommandExecutionFailed(String),
    Stage3OperationFailed(String),
}

/// A [`SandboxError`] as text values.
pub enum SandboxErrorView {
    BackendUnavailable(Seq<char>),
    ContainerCreationFailed(Seq<char>),
    CommandExecutionFailed(Seq<char>),
    Stage3OperationFailed(Seq<char>),
}

impl View for SandboxError {
    type V = SandboxErrorView;

    open spec fn view(&self) -> SandboxErrorView {
        match self {
            SandboxError::BackendUnavailable(m) => SandboxErrorView::BackendUnavailable(m@),
            SandboxError::ContainerCreationFailed(m) => SandboxErrorView::ContainerCreationFailed(
                m@,
            ),
            SandboxError::CommandExecutionFailed(m) => SandboxErrorView::CommandExecutionFailed(
                m@,
            ),
            SandboxError::Stage3OperationFailed(m) => SandboxErrorView::Stage3OperationFailed(m@),
        }
    }
}

/// Owned strings for a list of texts.
pub fn strings(parts: &[&str]) -> (r: Vec<String>)
    ensures
        r.deep_view() == parts@.map_values(|s: &str| s@),
{
    let mut out: Vec<String> = Vec::new();
    let mut i: usize = 0;
    while i < parts.len()
        invariant
            i <= parts@.len(),
            out.deep_view() == parts@.take(i as int).map_values(|s: &str| s@),
        decreases parts@.len() - i,
    {
        let ghost before = out.deep_view();
        out.push(owned(parts[i]));
        assert(out.deep_view() =~= before.push(parts@[i as int]@));
        assert(parts@.take(i + 1).map_values(|s: &str| s@) =~= parts@.take(i as int).map_values(
            |s: &str| s@,
        ).push(parts@[i as int]@));
        i = i + 1;
    }
    assert(parts@.take(parts@.len() as int) =~= parts@);
    out
}

// ── Backend selection ───────────────────────────────────────────────────────

/// A sandbox backend.
#[derive(Debug, Clone, Copy, PartialEq, Eq, Structural)]
pub enum BackendKind {
    Docker,
    Bubblewrap,
}

impl BackendKind {
    /// The backend's name.
    pub fn name(&self) -> (r: &'static str)
        ensures
            r@ == match self {
                BackendKind::Docker => "docker"@,
                BackendKind::Bubblewrap => "bubblewrap"@,
            },
    {
        match self {
            BackendKind::Docker => "docker",
            BackendKind::Bubblewrap => "bubblewrap",
        }
    }
}

/// The bubblewrap backend.
#[derive(Debug, Clone, Copy)]
pub struct BubblewrapBackend;

/// The docker backend.
#[derive(Debug, Clone, Copy)]
pub struct DockerBackend;

/// The docker command line, used directly for image and container
/// management.
#[derive(Debug, Clone, Copy)]
pub struct DockerWrapper;

impl BubblewrapBackend {
    /// The backend's kind.
    pub fn kind(&self) -> (r: BackendKind)
        ensures
            r == BackendKind::Bubblewrap,
    {
        BackendKind::Bubblewrap
    }
}

impl DockerBackend {
    /// The backend's kind.
    pub fn kind(&self) -> (r: BackendKind)
        ensures
            r == BackendKind::Docker,
    {
        BackendKind::Docker
    }
}

pub open spec fn no_backend_msg() -> Seq<char> {
    "No available sandbox backend. Enable 'docker' or 'bubblewrap' feature"@
}

/// The best backend this host offers, docker first, given whether the
/// `docker` and `bwrap` commands answer here.
pub fn auto_detect_backend(docker_available: bool, bubblewrap_available: bool) -> (r: Result<
    BackendKind,
    SandboxError,
>)
    ensures
        docker_available ==> r == Ok::<BackendKind, SandboxError>(BackendKind::Docker),
        !docker_available && bubblewrap_available ==> r == Ok::<BackendKind, SandboxError>(
            BackendKind::Bubblewrap,
        ),
        !docker_available && !bubblewrap_available ==> (r matches Err(e) && e@
            == SandboxErrorView::BackendUnavailable(no_backend_msg())),
{
    if docker_available {
        Ok(BackendKind::Docker)
    } else if bubblewrap_available {
        Ok(BackendKind::Bubblewrap)
    } else {
        Err(
            SandboxError::BackendUnavailable(
                owned("No available sandbox backend. Enable 'docker' or 'bubblewrap' feature"),
            ),
        )
    }
}

/// What a backend that cannot be used answers (`new` on a host without it).
pub fn unavailable(kind: BackendKind) -> (r: SandboxError)
    ensures
        r@ == SandboxErrorView::BackendUnavailable(
            match kind {
                BackendKind::Docker => "Docker not available on this system"@,
                BackendKind::Bubblewrap => "Bubblewrap not available on this system"@,
            },
        ),
{
    match kind {
        BackendKind::Docker => SandboxError::BackendUnavailable(
            owned("Docker not available on this system"),
        ),
        BackendKind::Bubblewrap => SandboxError::BackendUnavailable(
            owned("Bubblewrap not available on this system"),
        ),
    }
}

} // verus!

verus! {

// ── Commands and their outcomes ─────────────────────────────────────────────

/// How a `docker` command ended.
pub enum Outcome {
    /// It ran; its exit status and its output as text.
    Ran { success: bool, stdout: String, stderr: String },
    /// It could not be started; the reason.
    SpawnFailed(String),
}

pub enum OutcomeView {
    Ran(bool, Seq<char>, Seq<char>),
    SpawnFailed(Seq<char>),
}

impl View for Outcome {
    type V = OutcomeView;

    open spec fn view(&self) -> OutcomeView {
        match self {
            Outcome::Ran { success, stdout, stderr } => OutcomeView::Ran(*success, stdout@, stderr@),
            Outcome::SpawnFailed(e) => OutcomeView::SpawnFailed(e@),
        }
    }
}

/// What the caller does next.
pub enum Step {
    /// Run `docker` with these arguments and report the outcome.
    Run(Vec<String>),
    /// Sleep a tenth of a second and report whether the deadline has passed.
    Pause,
    /// Stop, with this result.
    Finish(Result<(), SandboxError>),
}

pub enum StepView {
    Run(Seq<Seq<char>>),
    Pause,
    Done,
    Fail(SandboxErrorView),
}

impl View for Step {
    type V = StepView;

    open spec fn view(&self) -> StepView {
        match self {
            Step::Run(a) => StepView::Run(a.deep_view()),
            Step::Pause => StepView::Pause,
            Step::Finish(Ok(())) => StepView::Done,
            Step::Finish(Err(e)) => StepView::Fail(e@),
        }
    }
}

// ── Bringing a container up ─────────────────────────────────────────────────

/// Where `ensure_container_ready` is.
#[derive(Debug, Clone, Copy, PartialEq, Eq, Structural)]
pub enum ReadyState {
    /// Listing containers by name.
    Lookup,
    /// Asking whether the existing container runs.
    Inspect,
    /// Starting the existing, stopped container.
    StartExisting,
    /// Polling until the started container reports running.
    Waiting,
    /// Removing a container that could not be used.
    Removing,
    /// Creating a fresh container.
    Create,
    /// Starting the fresh container.
    StartNew,
    /// Finished.
    Done,
}

/// What the caller reports back.
pub enum ReadyEvent {
    Ran(Outcome),
    /// A pause is over; whether the five-second deadline has passed.
    Paused { expired: bool },
}

pub enum ReadyEventView {
    Ran(OutcomeView),
    Paused(bool),
}

impl View for ReadyEvent {
    type V = ReadyEventView;

    open spec fn view(&self) -> ReadyEventView {
        match self {
            ReadyEvent::Ran(o) => ReadyEventView::Ran(o@),
            ReadyEvent::Paused { expired } => ReadyEventView::Paused(*expired),
        }
    }
}

pub open spec fn lookup_args(id: Seq<char>) -> Seq<Seq<char>> {
    seq!["ps"@, "-a"@, "--filter"@, "name="@ + id, "--format"@, "{{.Names}}"@]
}

pub open spec fn running_args(id: Seq<char>) -> Seq<Seq<char>> {
    seq!["inspect"@, "-f"@, "{{.State.Running}}"@, id]
}

pub open spec fn start_args(id: Seq<char>) -> Seq<Seq<char>> {
    seq!["start"@, id]
}

pub open spec fn remove_args(id: Seq<char>) -> Seq<Seq<char>> {
    seq!["rm"@, "-f"@, id]
}

pub open spec fn create_args(id: Seq<char>) -> Seq<Seq<char>> {
    seq!["create"@, "--name"@, id, "gentoo/stage3"@, "sleep"@, "infinity"@]
}

pub open spec fn exec_failed(m: Seq<char>) -> StepView {
    StepView::Fail(SandboxErrorView::CommandExecutionFailed(m))
}

/// The command output says the container runs.
pub open spec fn says_running(out: Seq<char>) -> bool {
    text::trim(out) == "true"@
}

/// One step of bringing container `id` up: list it; if it exists, ask
/// whether it runs; start it if stopped and poll for five seconds; remove and
/// recreate it when it cannot be asked or started; otherwise create and start
/// a fresh one.
pub open spec fn ready_transition(id: Seq<char>, s: ReadyState, e: ReadyEventView) -> (
    ReadyState,
    StepView,
) {
    match (s, e) {
        (ReadyState::Lookup, ReadyEventView::Ran(OutcomeView::Ran(true, out, _)))
            if text::trim(out) == id => (ReadyState::Inspect, StepView::Run(running_args(id))),
        (ReadyState::Lookup, _) => (ReadyState::Create, StepView::Run(create_args(id))),
        (ReadyState::Inspect, ReadyEventView::Ran(OutcomeView::SpawnFailed(_))) => (
            ReadyState::Removing,
            StepView::Run(remove_args(id)),
        ),
        (ReadyState::Inspect, ReadyEventView::Ran(OutcomeView::Ran(true, out, _))) => if says_running(out) {
            (ReadyState::Done, StepView::Done)
        } else {
            (ReadyState::StartExisting, StepView::Run(start_args(id)))
        },
        (ReadyState::Inspect, _) => (ReadyState::Create, StepView::Run(create_args(id))),
        (ReadyState::StartExisting, ReadyEventView::Ran(OutcomeView::Ran(true, _, _))) => (
            ReadyState::Waiting,
            StepView::Run(running_args(id)),
        ),
        (ReadyState::StartExisting, _) => (ReadyState::Removing, StepView::Run(remove_args(id))),
        (ReadyState::Waiting, ReadyEventView::Ran(OutcomeView::Ran(true, out, _)))
            if says_running(out) => (ReadyState::Done, StepView::Done),
        (ReadyState::Waiting, ReadyEventView::Ran(_)) => (ReadyState::Waiting, StepView::Pause),
        (ReadyState::Waiting, ReadyEventView::Paused(false)) => (
            ReadyState::Waiting,
            StepView::Run(running_args(id)),
        ),
        (ReadyState::Waiting, ReadyEventView::Paused(true)) => (
            ReadyState::Done,
            exec_failed("Container '"@ + id + "' did not become ready within 5 seconds"@),
        ),
        (ReadyState::Removing, _) => (ReadyState::Create, StepView::Run(create_args(id))),
        (ReadyState::Create, ReadyEventView::Ran(OutcomeView::Ran(true, _, _))) => (
            ReadyState::StartNew,
            StepView::Run(start_args(id)),
        ),
        (ReadyState::Create, ReadyEventView::Ran(OutcomeView::Ran(false, _, err))) => (
            ReadyState::Done,
            exec_failed("Failed to create container '"@ + id + "': "@ + err),
        ),
        (ReadyState::Create, ReadyEventView::Ran(OutcomeView::SpawnFailed(m))) => (
            ReadyState::Done,
            exec_failed("Failed to execute docker create: "@ + m),
        ),
        (ReadyState::StartNew, ReadyEventView::Ran(OutcomeView::Ran(true, _, _))) => (
            ReadyState::Done,
            StepView::Done,
        ),
        (ReadyState::StartNew, ReadyEventView::Ran(OutcomeView::Ran(false, _, err))) => (
            ReadyState::Done,
            exec_failed("Failed to start container '"@ + id + "': "@ + err),
        ),
        (ReadyState::StartNew, ReadyEventView::Ran(OutcomeView::SpawnFailed(m))) => (
            ReadyState::Done,
            exec_failed("Failed to start container '"@ + id + "': "@ + m),
        ),
        _ => (ReadyState::Done, exec_failed("unexpected event"@)),
    }
}

fn lookup_cmd(id: &str) -> (r: Vec<String>)
    ensures
        r.deep_view() == lookup_args(id@),
{
    let f = concat("name=", id);
    let r = strings(&["ps", "-a", "--filter", f.as_str(), "--format", "{{.Names}}"]);
    assert(r.deep_view() =~= lookup_args(id@));
    r
}

fn running_cmd(id: &str) -> (r: Vec<String>)
    ensures
        r.deep_view() == running_args(id@),
{
    let r = strings(&["inspect", "-f", "{{.State.Running}}", id]);
    assert(r.deep_view() =~= running_args(id@));
    r
}

fn start_cmd(id: &str) -> (r: Vec<String>)
    ensures
        r.deep_view() == start_args(id@),
{
    let r = strings(&["start", id]);
    assert(r.deep_view() =~= start_args(id@));
    r
}

fn remove_cmd(id: &str) -> (r: Vec<String>)
    ensures
        r.deep_view() == remove_args(id@),
{
    let r = strings(&["rm", "-f", id]);
    assert(r.deep_view() =~= remove_args(id@));
    r
}

fn create_cmd(id: &str) -> (r: Vec<String>)
    ensures
        r.deep_view() == create_args(id@),
{
    let r = strings(&["create", "--name", id, "gentoo/stage3", "sleep", "infinity"]);
    assert(r.deep_view() =~= create_args(id@));
    r
}

fn exec_failure(m: String) -> (r: Step)
    ensures
        r@ == exec_failed(m@),
{
    Step::Finish(Err(SandboxError::CommandExecutionFailed(m)))
}

/// The first step of bringing container `id` up.
pub fn ready_start(id: &str) -> (r: (ReadyState, Step))
    ensures
        r.0 == ReadyState::Lookup,
        r.1@ == StepView::Run(lookup_args(id@)),
{
    (ReadyState::Lookup, Step::Run(lookup_cmd(id)))
}

/// The next step of bringing container `id` up, after `e`.
pub fn ready_next(id: &str, s: ReadyState, e: &ReadyEvent) -> (r: (ReadyState, Step))
    ensures
        (r.0, r.1@) == ready_transition(id@, s, e@),
{
    match (s, e) {
        (ReadyState::Lookup, ReadyEvent::Ran(Outcome::Ran { success: true, stdout, .. })) => {
            let t = trim_str(stdout.as_str());
            if text_eq(t.as_str(), id) {
                (ReadyState::Inspect, Step::Run(running_cmd(id)))
            } else {
                (ReadyState::Create, Step::Run(create_cmd(id)))
            }
        },
        (ReadyState::Lookup, _) => (ReadyState::Create, Step::Run(create_cmd(id))),
        (ReadyState::Inspect, ReadyEvent::Ran(Outcome::SpawnFailed(_))) => (
            ReadyState::Removing,
            Step::Run(remove_cmd(id)),
        ),
        (ReadyState::Inspect, ReadyEvent::Ran(Outcome::Ran { success: true, stdout, .. })) => {
            let t = trim_str(stdout.as_str());
            if text_eq(t.as_str(), "true") {
                (ReadyState::Done, Step::Finish(Ok(())))
            } else {
                (ReadyState::StartExisting, Step::Run(start_cmd(id)))
            }
        },
        (ReadyState::Inspect, _) => (ReadyState::Create, Step::Run(create_cmd(id))),
        (ReadyState::StartExisting, ReadyEvent::Ran(Outcome::Ran { success: true, .. })) => (
            ReadyState::Waiting,
            Step::Run(running_cmd(id)),
        ),
        (ReadyState::StartExisting, _) => (ReadyState::Removing, Step::Run(remove_cmd(id))),
        (ReadyState::Waiting, ReadyEvent::Ran(o)) => {
            let ready = match o {
                Outcome::Ran { success: true, stdout, .. } => {
                    let t = trim_str(stdout.as_str());
                    text_eq(t.as_str(), "true")
                },
                _ => false,
            };
            if ready {
                (ReadyState::Done, Step::Finish(Ok(())))
            } else {
                (ReadyState::Waiting, Step::Pause)
            }
        },
        (ReadyState::Waiting, ReadyEvent::Paused { expired: false }) => (
            ReadyState::Waiting,
            Step::Run(running_cmd(id)),
        ),
        (ReadyState::Waiting, ReadyEvent::Paused { expired: true }) => {
            let m = concat3("Container '", id, "' did not become ready within 5 seconds");
            (ReadyState::Done, exec_failure(m))
        },
        (ReadyState::Removing, _) => (ReadyState::Create, Step::Run(create_cmd(id))),
        (ReadyState::Create, ReadyEvent::Ran(Outcome::Ran { success: true, .. })) => (
            ReadyState::StartNew,
            Step::Run(start_cmd(id)),
        ),
        (ReadyState::Create, ReadyEvent::Ran(Outcome::Ran { success: false, stderr, .. })) => {
            let m1 = concat3("Failed to create container '", id, "': ");
            (ReadyState::Done, exec_failure(concat(m1.as_str(), stderr.as_str())))
        },
        (ReadyState::Create, ReadyEvent::Ran(Outcome::SpawnFailed(m))) => {
            (ReadyState::Done, exec_failure(concat("Failed to execute docker create: ", m.as_str())))
        },
        (ReadyState::StartNew, ReadyEvent::Ran(Outcome::Ran { success: true, .. })) => (
            ReadyState::Done,
            Step::Finish(Ok(())),
        ),
        (ReadyState::StartNew, ReadyEvent::Ran(Outcome::Ran { success: false, stderr, .. })) => {
            let m1 = concat3("Failed to start container '", id, "': ");
            (ReadyState::Done, exec_failure(concat(m1.as_str(), stderr.as_str())))
        },
        (ReadyState::StartNew, ReadyEvent::Ran(Outcome::SpawnFailed(m))) => {
            let m1 = concat3("Failed to start container '", id, "': ");
            (ReadyState::Done, exec_failure(concat(m1.as_str(), m.as_str())))
        },
        _ => (ReadyState::Done, exec_failure(owned("unexpected event"))),
    }
}

/// The container is reported ready only after docker said so: a `true`
/// from the running check, or a successful start of a fresh container.
pub proof fn law_ready_only_when_running(id: Seq<char>, s: ReadyState, e: ReadyEventView)
    requires
        ready_transition(id, s, e).1 == StepView::Done,
    ensures
        e matches ReadyEventView::Ran(OutcomeView::Ran(true, out, _)) && (s == ReadyState::StartNew
            || ((s == ReadyState::Inspect || s == ReadyState::Waiting) && says_running(out))),
{
}

/// An existing container is never removed after docker reported it running.
pub proof fn law_running_container_kept(id: Seq<char>, s: ReadyState, out: Seq<char>, err: Seq<char>)
    requires
        says_running(out),
        s == ReadyState::Inspect || s == ReadyState::Waiting,
    ensures
        ready_transition(id, s, ReadyEventView::Ran(OutcomeView::Ran(true, out, err))).1
            == StepView::Done,
{
}

} // verus!

verus! {

// ── Moving a stage3 in and out of a container ───────────────────────────────

/// One command of a stage3 operation, and what its failure means: a prefix
/// for the error (`None`: the failure is ignored).
pub struct OpCommand {
    pub args: Vec<String>,
    /// Prefix of the error when the command cannot be started.
    pub spawn_error: Option<String>,
    /// Prefix of the error when the command fails.
    pub fail_error: Option<String>,
}

pub struct OpCommandView {
    pub args: Seq<Seq<char>>,
    pub spawn_error: Option<Seq<char>>,
    pub fail_error: Option<Seq<char>>,
}

impl View for OpCommand {
    type V = OpCommandView;

    open spec fn view(&self) -> OpCommandView {
        OpCommandView {
            args: self.args.deep_view(),
            spawn_error: self.spawn_error.deep_view(),
            fail_error: self.fail_error.deep_view(),
        }
    }
}

pub open spec fn op_cmd(args: Seq<Seq<char>>, spawn: Option<Seq<char>>, fail: Option<Seq<char>>) -> OpCommandView {
    OpCommandView { args, spawn_error: spawn, fail_error: fail }
}

/// The directory a loaded stage3 is unpacked into: `/stages/<arch>-<flavor>-<tag>`
/// with arch and flavor the second and third `-` fields of the archive's
/// name (`unknown` when it has fewer).
pub open spec fn stage_dir(filename: Seq<char>, tag: Seq<char>) -> Seq<char> {
    let parts = text::split(filename, '-');
    let arch = if parts.len() > 1 { parts[1] } else { "unknown"@ };
    let flavor = if parts.len() > 2 { parts[2] } else { "unknown"@ };
    "/stages/"@ + arch + "-"@ + flavor + "-"@ + tag
}

pub open spec fn load_script(dir: Seq<char>, filename: Seq<char>) -> Seq<char> {
    "mkdir -p "@ + dir + " && cd "@ + dir
        + " && tar -xJpf /tmp/stage3.tar.xz --exclude dev/* && echo '"@ + filename
        + "' > .origin"@
}

/// The commands that load archive `path` (named `filename`) into container
/// `id`, after the container is up: copy it in, unpack it into its own
/// directory with a `.origin` note, remove the copy.
pub open spec fn load_commands(id: Seq<char>, path: Seq<char>, filename: Seq<char>, tag: Seq<char>) -> Seq<OpCommandView> {
    seq![
        op_cmd(
            seq!["cp"@, path, id + ":/tmp/stage3.tar.xz"@],
            Some("Failed to copy stage3 to container"@),
            Some("Failed to copy stage3 to container"@),
        ),
        op_cmd(
            seq!["exec"@, id, "sh"@, "-c"@, load_script(stage_dir(filename, tag), filename)],
            Some("Failed to extract stage3 in container"@),
            Some("Stage3 extraction in container failed"@),
        ),
        op_cmd(seq!["exec"@, id, "rm"@, "/tmp/stage3.tar.xz"@], None, None),
    ]
}

/// The commands that save container `id`'s stages to `target`: archive them
/// inside, copy the archive out, remove it.
pub open spec fn save_commands(id: Seq<char>, target: Seq<char>) -> Seq<OpCommandView> {
    seq![
        op_cmd(
            seq!["exec"@, id, "sh"@, "-c"@, "cd /mnt/stages && tar -cJpf /tmp/stage3-save.tar.xz ."@],
            Some("Failed to create stage3 archive in container"@),
            Some("Stage3 archive creation in container failed"@),
        ),
        op_cmd(
            seq!["cp"@, id + ":/tmp/stage3-save.tar.xz"@, target],
            Some("Failed to copy stage3 archive from container"@),
            Some("Failed to copy stage3 archive from container"@),
        ),
        op_cmd(seq!["exec"@, id, "rm"@, "/tmp/stage3-save.tar.xz"@], None, None),
    ]
}

/// The command that empties container `id`'s stages.
pub open spec fn wipe_commands(id: Seq<char>) -> Seq<OpCommandView> {
    seq![
        op_cmd(
            seq!["exec"@, id, "sh"@, "-c"@, "rm -rf /mnt/stages/* && mkdir -p /mnt/stages"@],
            Some("Failed to wipe stage3 in container"@),
            Some("Stage3 wipe in container failed"@),
        ),
    ]
}

fn op_command(args: Vec<String>, spawn: Option<&str>, fail: Option<&str>) -> (r: OpCommand)
    ensures
        r@ == op_cmd(
            args.deep_view(),
            match spawn {
                Some(s) => Some(s@),
                None => None,
            },
            match fail {
                Some(s) => Some(s@),
                None => None,
            },
        ),
{
    let spawn_error = match spawn {
        Some(s) => Some(owned(s)),
        None => None,
    };
    let fail_error = match fail {
        Some(s) => Some(owned(s)),
        None => None,
    };
    OpCommand { args, spawn_error, fail_error }
}

/// The directory a loaded stage3 goes to.
pub fn load_stage_dir(filename: &str, tag: &str) -> (r: String)
    ensures
        r@ == stage_dir(filename@, tag@),
{
    let cs = text::chars_of(filename);
    let parts = split_of(cs.as_slice(), '-');
    let arch = if parts.len() > 1 {
        string_of(parts[1].as_slice())
    } else {
        owned("unknown")
    };
    let flavor = if parts.len() > 2 {
        string_of(parts[2].as_slice())
    } else {
        owned("unknown")
    };
    let a = concat3("/stages/", arch.as_str(), "-");
    let b = concat3(a.as_str(), flavor.as_str(), "-");
    concat(b.as_str(), tag)
}

/// The commands of loading a stage3 archive into container `id`.
/// `filename` is the archive's file name and `tag` the time stamp
/// (`%Y%m%dT%H%M`) that keeps two loads apart.
pub fn load_stage3_commands(id: &str, path: &str, filename: &str, tag: &str) -> (r: Vec<OpCommand>)
    ensures
        r@.map_values(|c: OpCommand| c@) == load_commands(id@, path@, filename@, tag@),
{
    let dest = concat(id, ":/tmp/stage3.tar.xz");
    let cp = strings(&["cp", path, dest.as_str()]);
    assert(cp.deep_view() =~= seq!["cp"@, path@, id@ + ":/tmp/stage3.tar.xz"@]);
    let dir = load_stage_dir(filename, tag);
    let s1 = concat3("mkdir -p ", dir.as_str(), " && cd ");
    let s2 = concat3(s1.as_str(), dir.as_str(), " && tar -xJpf /tmp/stage3.tar.xz --exclude dev/* && echo '");
    let script = concat3(s2.as_str(), filename, "' > .origin");
    let ex = strings(&["exec", id, "sh", "-c", script.as_str()]);
    assert(ex.deep_view() =~= seq!["exec"@, id@, "sh"@, "-c"@, load_script(stage_dir(filename@, tag@), filename@)]);
    let rm = strings(&["exec", id, "rm", "/tmp/stage3.tar.xz"]);
    assert(rm.deep_view() =~= seq!["exec"@, id@, "rm"@, "/tmp/stage3.tar.xz"@]);
    let mut out: Vec<OpCommand> = Vec::new();
    out.push(op_command(cp, Some("Failed to copy stage3 to container"), Some("Failed to copy stage3 to container")));
    out.push(op_command(ex, Some("Failed to extract stage3 in container"), Some("Stage3 extraction in container failed")));
    out.push(op_command(rm, None, None));
    assert(out@.map_values(|c: OpCommand| c@) =~= load_commands(id@, path@, filename@, tag@));
    out
}

/// The commands of loading a stage3 archive into container `id`, tagged
/// with the current time (`%Y%m%dT%H%M`); of the tag only its being a
/// single text is known.
pub fn load_stage3_commands_now(id: &str, path: &str, filename: &str) -> (r: Vec<OpCommand>)
    ensures
        exists|tag: Seq<char>|
            r@.map_values(|c: OpCommand| c@) == load_commands(id@, path@, filename@, tag),
{
    let now = crate::stage::timestamp_now();
    let tag = crate::stage::format_timestamp(&now, "%Y%m%dT%H%M");
    load_stage3_commands(id, path, filename, tag.as_str())
}

/// The commands of saving container `id`'s stages to `target`.
pub fn save_stage3_commands(id: &str, target: &str) -> (r: Vec<OpCommand>)
    ensures
        r@.map_values(|c: OpCommand| c@) == save_commands(id@, target@),
{
    let ar = strings(&["exec", id, "sh", "-c", "cd /mnt/stages && tar -cJpf /tmp/stage3-save.tar.xz ."]);
    assert(ar.deep_view() =~= seq!["exec"@, id@, "sh"@, "-c"@, "cd /mnt/stages && tar -cJpf /tmp/stage3-save.tar.xz ."@]);
    let src = concat(id, ":/tmp/stage3-save.tar.xz");
    let cp = strings(&["cp", src.as_str(), target]);
    assert(cp.deep_view() =~= seq!["cp"@, id@ + ":/tmp/stage3-save.tar.xz"@, target@]);
    let rm = strings(&["exec", id, "rm", "/tmp/stage3-save.tar.xz"]);
    assert(rm.deep_view() =~= seq!["exec"@, id@, "rm"@, "/tmp/stage3-save.tar.xz"@]);
    let mut out: Vec<OpCommand> = Vec::new();
    out.push(op_command(ar, Some("Failed to create stage3 archive in container"), Some("Stage3 archive creation in container failed")));
    out.push(op_command(cp, Some("Failed to copy stage3 archive from container"), Some("Failed to copy stage3 archive from container")));
    out.push(op_command(rm, None, None));
    assert(out@.map_values(|c: OpCommand| c@) =~= save_commands(id@, target@));
    out
}

/// The command of wiping container `id`'s stages.
pub fn wipe_stage3_commands(id: &str) -> (r: Vec<OpCommand>)
    ensures
        r@.map_values(|c: OpCommand| c@) == wipe_commands(id@),
{
    let w = strings(&["exec", id, "sh", "-c", "rm -rf /mnt/stages/* && mkdir -p /mnt/stages"]);
    assert(w.deep_view() =~= seq!["exec"@, id@, "sh"@, "-c"@, "rm -rf /mnt/stages/* && mkdir -p /mnt/stages"@]);
    let mut out: Vec<OpCommand> = Vec::new();
    out.push(op_command(w, Some("Failed to wipe stage3 in container"), Some("Stage3 wipe in container failed")));
    assert(out@.map_values(|c: OpCommand| c@) =~= wipe_commands(id@));
    out
}

} // verus!

verus! {

/// Where a stage3 operation is.
#[derive(Debug, Clone, Copy, PartialEq, Eq, Structural)]
pub enum OpState {
    /// Asking whether the container runs.
    Inspect,
    /// Starting a container docker did not know as running.
    Start,
    /// Running command `i` of the operation.
    Body(usize),
    /// Finished.
    Done,
}

pub open spec fn status_args(id: Seq<char>) -> Seq<Seq<char>> {
    seq!["inspect"@, "--format"@, "{{.State.Running}}"@, id]
}

pub open spec fn op_failed(m: Seq<char>) -> StepView {
    StepView::Fail(SandboxErrorView::Stage3OperationFailed(m))
}

/// Command `i` of `cmds`, or the end of the operation.
pub open spec fn body_step(cmds: Seq<OpCommandView>, i: int) -> (OpState, StepView) {
    if 0 <= i < cmds.len() {
        (OpState::Body(i as usize), StepView::Run(cmds[i].args))
    } else {
        (OpState::Done, StepView::Done)
    }
}

/// One step of a stage3 operation on container `id`: make sure docker knows
/// the container (starting it when docker reports no such container), then
/// run `cmds` in order, stopping at the first failure that is not ignored.
pub open spec fn op_transition(id: Seq<char>, cmds: Seq<OpCommandView>, s: OpState, o: OutcomeView) -> (
    OpState,
    StepView,
) {
    match (s, o) {
        (OpState::Inspect, OutcomeView::SpawnFailed(m)) => (
            OpState::Done,
            op_failed("Failed to check container status: "@ + m),
        ),
        (OpState::Inspect, OutcomeView::Ran(true, _, _)) => body_step(cmds, 0),
        (OpState::Inspect, OutcomeView::Ran(false, _, err)) => if text::has_infix(
            err,
            "No such container"@,
        ) {
            (OpState::Start, StepView::Run(start_args(id)))
        } else {
            (OpState::Done, op_failed("Failed to check container status: "@ + err))
        },
        (OpState::Start, OutcomeView::SpawnFailed(m)) => (
            OpState::Done,
            op_failed("Failed to start container: "@ + m),
        ),
        (OpState::Start, OutcomeView::Ran(false, _, err)) => (
            OpState::Done,
            op_failed("Failed to start container: "@ + err),
        ),
        (OpState::Start, OutcomeView::Ran(true, _, _)) => body_step(cmds, 0),
        (OpState::Body(i), o) => if i < cmds.len() {
            match o {
                OutcomeView::SpawnFailed(m) => match cmds[i as int].spawn_error {
                    Some(p) => (OpState::Done, op_failed(p + ": "@ + m)),
                    None => body_step(cmds, i + 1),
                },
                OutcomeView::Ran(false, _, err) => match cmds[i as int].fail_error {
                    Some(p) => (OpState::Done, op_failed(p + ": "@ + err)),
                    None => body_step(cmds, i + 1),
                },
                OutcomeView::Ran(true, _, _) => body_step(cmds, i + 1),
            }
        } else {
            (OpState::Done, StepView::Done)
        },
        (OpState::Done, _) => (OpState::Done, StepView::Done),
    }
}

fn op_failure(m: String) -> (r: Step)
    ensures
        r@ == op_failed(m@),
{
    Step::Finish(Err(SandboxError::Stage3OperationFailed(m)))
}

fn run_body(cmds: &Vec<OpCommand>, i: usize) -> (r: (OpState, Step))
    ensures
        (r.0, r.1@) == body_step(cmds@.map_values(|c: OpCommand| c@), i as int),
{
    if i < cmds.len() {
        let args = clone_strings(&cmds[i].args);
        (OpState::Body(i), Step::Run(args))
    } else {
        (OpState::Done, Step::Finish(Ok(())))
    }
}

/// A copy of a list of strings.
pub fn clone_strings(v: &Vec<String>) -> (r: Vec<String>)
    ensures
        r.deep_view() == v.deep_view(),
{
    let mut out: Vec<String> = Vec::new();
    let mut i: usize = 0;
    while i < v.len()
        invariant
            i <= v@.len(),
            out.deep_view() == v.deep_view().take(i as int),
        decreases v@.len() - i,
    {
        let ghost before = out.deep_view();
        out.push(text::copy_string(&v[i]));
        assert(out.deep_view() =~= before.push(v@[i as int]@));
        assert(v.deep_view().take(i + 1) =~= v.deep_view().take(i as int).push(v@[i as int]@));
        i = i + 1;
    }
    assert(v.deep_view().take(i as int) =~= v.deep_view());
    out
}

/// The first step of a stage3 operation on container `id`.
pub fn op_start(id: &str) -> (r: (OpState, Step))
    ensures
        r.0 == OpState::Inspect,
        r.1@ == StepView::Run(status_args(id@)),
{
    let a = strings(&["inspect", "--format", "{{.State.Running}}", id]);
    assert(a.deep_view() =~= status_args(id@));
    (OpState::Inspect, Step::Run(a))
}

/// The next step of a stage3 operation on container `id` running `cmds`,
/// after the last command ended with `o`.
pub fn op_next(id: &str, cmds: &Vec<OpCommand>, s: OpState, o: &Outcome) -> (r: (OpState, Step))
    ensures
        (r.0, r.1@) == op_transition(id@, cmds@.map_values(|c: OpCommand| c@), s, o@),
{
    let ghost cv = cmds@.map_values(|c: OpCommand| c@);
    match (s, o) {
        (OpState::Inspect, Outcome::SpawnFailed(m)) => (
            OpState::Done,
            op_failure(concat("Failed to check container status: ", m.as_str())),
        ),
        (OpState::Inspect, Outcome::Ran { success: true, .. }) => run_body(cmds, 0),
        (OpState::Inspect, Outcome::Ran { success: false, stderr, .. }) => {
            if contains_text(stderr.as_str(), "No such container") {
                (OpState::Start, Step::Run(start_cmd(id)))
            } else {
                (
                    OpState::Done,
                    op_failure(concat("Failed to check container status: ", stderr.as_str())),
                )
            }
        },
        (OpState::Start, Outcome::SpawnFailed(m)) => (
            OpState::Done,
            op_failure(concat("Failed to start container: ", m.as_str())),
        ),
        (OpState::Start, Outcome::Ran { success: false, stderr, .. }) => (
            OpState::Done,
            op_failure(concat("Failed to start container: ", stderr.as_str())),
        ),
        (OpState::Start, Outcome::Ran { success: true, .. }) => run_body(cmds, 0),
        (OpState::Body(i), o) => {
            if i < cmds.len() {
                assert(cv[i as int] == cmds@[i as int]@);
                match o {
                    Outcome::SpawnFailed(m) => match &cmds[i].spawn_error {
                        Some(p) => {
                            let a = concat3(p.as_str(), ": ", m.as_str());
                            (OpState::Done, op_failure(a))
                        },
                        None => run_body(cmds, i + 1),
                    },
                    Outcome::Ran { success: false, stderr, .. } => match &cmds[i].fail_error {
                        Some(p) => {
                            let a = concat3(p.as_str(), ": ", stderr.as_str());
                            (OpState::Done, op_failure(a))
                        },
                        None => run_body(cmds, i + 1),
                    },
                    Outcome::Ran { success: true, .. } => run_body(cmds, i + 1),
                }
            } else {
                (OpState::Done, Step::Finish(Ok(())))
            }
        },
        (OpState::Done, _) => (OpState::Done, Step::Finish(Ok(()))),
    }
}

/// A stage3 operation never reports success before every command that
/// must succeed has succeeded: `Done` comes only from the end of the list.
pub proof fn law_op_done_at_end(id: Seq<char>, cmds: Seq<OpCommandView>, i: usize, o: OutcomeView)
    requires
        i < cmds.len(),
        op_transition(id, cmds, OpState::Body(i), o).1 == StepView::Done,
    ensures
        i + 1 == cmds.len(),
        o matches OutcomeView::Ran(true, _, _) || (o matches OutcomeView::SpawnFailed(_)
            && cmds[i as int].spawn_error is None) || (o matches OutcomeView::Ran(false, _, _)
            && cmds[i as int].fail_error is None),
{
}

} // verus!

verus! {

// ── Running commands in a container ─────────────────────────────────────────

pub open spec fn workdir_args(wd: Option<Seq<char>>) -> Seq<Seq<char>> {
    match wd {
        Some(w) => seq!["-w"@, w],
        None => seq![],
    }
}

/// `docker exec [-w wd] id command args...`.
pub open spec fn run_args(id: Seq<char>, command: Seq<char>, args: Seq<Seq<char>>, wd: Option<Seq<char>>) -> Seq<Seq<char>> {
    seq!["exec"@] + workdir_args(wd) + seq![id, command] + args
}

/// `docker exec -it [-w wd] id command...`.
pub open spec fn interactive_args(id: Seq<char>, command: Seq<Seq<char>>, wd: Option<Seq<char>>) -> Seq<Seq<char>> {
    seq!["exec"@, "-it"@] + workdir_args(wd) + seq![id] + command
}

fn push_all(out: &mut Vec<String>, items: &[&str])
    ensures
        final(out).deep_view() == old(out).deep_view() + items@.map_values(|s: &str| s@),
{
    let mut i: usize = 0;
    while i < items.len()
        invariant
            i <= items@.len(),
            out.deep_view() == old(out).deep_view() + items@.take(i as int).map_values(|s: &str| s@),
        decreases items@.len() - i,
    {
        let ghost before = out.deep_view();
        out.push(owned(items[i]));
        assert(out.deep_view() =~= before.push(items@[i as int]@));
        assert(items@.take(i + 1).map_values(|s: &str| s@) =~= items@.take(i as int).map_values(
            |s: &str| s@,
        ).push(items@[i as int]@));
        i = i + 1;
    }
    assert(items@.take(items@.len() as int) =~= items@);
}

/// The `docker` arguments that run `command args...` in container `id`,
/// in `working_dir` when one is given.
pub fn run_command_args(id: &str, command: &str, args: &[&str], working_dir: Option<&str>) -> (r:
    Vec<String>)
    ensures
        r.deep_view() == run_args(
            id@,
            command@,
            args@.map_values(|s: &str| s@),
            match working_dir {
                Some(w) => Some(w@),
                None => None,
            },
        ),
{
    let mut out = strings(&["exec"]);
    match working_dir {
        Some(w) => push_all(&mut out, &["-w", w]),
        None => {},
    }
    push_all(&mut out, &[id, command]);
    push_all(&mut out, args);
    let ghost wd = match working_dir {
        Some(w) => Some(w@),
        None => None,
    };
    assert(out.deep_view() =~= run_args(id@, command@, args@.map_values(|s: &str| s@), wd));
    out
}

/// What a `docker exec` that ran a command gives back: its output, or why
/// it failed.
pub fn run_command_result(o: Outcome) -> (r: Result<String, SandboxError>)
    ensures
        match o@ {
            OutcomeView::Ran(true, out, _) => r matches Ok(s) && s@ == out,
            OutcomeView::Ran(false, _, err) => r matches Err(e) && e@
                == SandboxErrorView::CommandExecutionFailed("Command failed: "@ + err),
            OutcomeView::SpawnFailed(m) => r matches Err(e) && e@
                == SandboxErrorView::CommandExecutionFailed("Failed to execute command: "@ + m),
        },
{
    match o {
        Outcome::Ran { success: true, stdout, .. } => Ok(stdout),
        Outcome::Ran { success: false, stderr, .. } => Err(
            SandboxError::CommandExecutionFailed(concat("Command failed: ", stderr.as_str())),
        ),
        Outcome::SpawnFailed(m) => Err(
            SandboxError::CommandExecutionFailed(concat("Failed to execute command: ", m.as_str())),
        ),
    }
}

/// The `docker` arguments of an interactive session in container `id`.
pub fn exec_interactive_args(id: &str, command: &[&str], working_dir: Option<&str>) -> (r: Vec<
    String,
>)
    ensures
        r.deep_view() == interactive_args(
            id@,
            command@.map_values(|s: &str| s@),
            match working_dir {
                Some(w) => Some(w@),
                None => None,
            },
        ),
{
    let mut out = strings(&["exec", "-it"]);
    match working_dir {
        Some(w) => push_all(&mut out, &["-w", w]),
        None => {},
    }
    push_all(&mut out, &[id]);
    push_all(&mut out, command);
    let ghost wd = match working_dir {
        Some(w) => Some(w@),
        None => None,
    };
    assert(out.deep_view() =~= interactive_args(id@, command@.map_values(|s: &str| s@), wd));
    out
}

/// An interactive session succeeds whatever its exit status (a user leaves
/// a shell as they like); it fails only when it cannot be started.
pub fn exec_interactive_result(spawn_error: Option<&str>) -> (r: Result<(), SandboxError>)
    ensures
        match spawn_error {
            None => r is Ok,
            Some(m) => r matches Err(e) && e@ == SandboxErrorView::CommandExecutionFailed(
                "Failed to start interactive session: "@ + m@,
            ),
        },
{
    match spawn_error {
        None => Ok(()),
        Some(m) => Err(
            SandboxError::CommandExecutionFailed(
                concat("Failed to start interactive session: ", m),
            ),
        ),
    }
}

/// The error for a docker daemon that cannot be reached.
pub fn connect_error(m: &str) -> (r: SandboxError)
    ensures
        r@ == SandboxErrorView::ContainerCreationFailed(m@),
{
    SandboxError::ContainerCreationFailed(owned(m))
}

// ── Making sure an image is there ───────────────────────────────────────────

/// What a failed test-container creation says about the image: it is
/// missing (pull it) when the message says `No such image` or `not found`.
pub open spec fn image_missing(msg: Seq<char>) -> bool {
    text::has_infix(msg, "No such image"@) || text::has_infix(msg, "not found"@)
}

/// After trying to create a test container from `image`: `None` when that
/// worked (the image is there), else the error docker gave.
pub fn image_check(image: &str, create_error: Option<&str>) -> (r: Step)
    ensures
        match create_error {
            None => r@ == StepView::Done,
            Some(m) => if image_missing(m@) {
                r@ == StepView::Run(seq!["pull"@, image@])
            } else {
                r@ == StepView::Fail(
                    SandboxErrorView::ContainerCreationFailed("Image check failed: "@ + m@),
                )
            },
        },
{
    match create_error {
        None => Step::Finish(Ok(())),
        Some(m) => {
            if contains_text(m, "No such image") || contains_text(m, "not found") {
                let a = strings(&["pull", image]);
                assert(a.deep_view() =~= seq!["pull"@, image@]);
                Step::Run(a)
            } else {
                Step::Finish(
                    Err(SandboxError::ContainerCreationFailed(concat("Image check failed: ", m))),
                )
            }
        },
    }
}

/// After `docker pull`.
pub fn image_pull_result(o: &Outcome) -> (r: Result<(), SandboxError>)
    ensures
        match o@ {
            OutcomeView::Ran(true, _, _) => r is Ok,
            OutcomeView::Ran(false, _, err) => r matches Err(e) && e@
                == SandboxErrorView::ContainerCreationFailed("Failed to pull image: "@ + err),
            OutcomeView::SpawnFailed(m) => r matches Err(e) && e@
                == SandboxErrorView::ContainerCreationFailed("Failed to execute docker pull: "@ + m),
        },
{
    match o {
        Outcome::Ran { success: true, .. } => Ok(()),
        Outcome::Ran { success: false, stderr, .. } => Err(
            SandboxError::ContainerCreationFailed(concat("Failed to pull image: ", stderr.as_str())),
        ),
        Outcome::SpawnFailed(m) => Err(
            SandboxError::ContainerCreationFailed(
                concat("Failed to execute docker pull: ", m.as_str()),
            ),
        ),
    }
}

// ── What bubblewrap does not do ─────────────────────────────────────────────

/// Bubblewrap has no interactive exec.
pub fn bubblewrap_interactive_error() -> (r: SandboxError)
    ensures
        r@ == SandboxErrorView::BackendUnavailable(
            "Interactive exec not implemented for bubblewrap"@,
        ),
{
    SandboxError::BackendUnavailable(owned("Interactive exec not implemented for bubblewrap"))
}

/// Bubblewrap has no stage3 operations.
pub fn bubblewrap_stage3_error() -> (r: SandboxError)
    ensures
        r@ == SandboxErrorView::BackendUnavailable(
            "Stage3 operations not implemented for bubblewrap backend"@,
        ),
{
    SandboxError::BackendUnavailable(
        owned("Stage3 operations not implemented for bubblewrap backend"),
    )
}

} // verus!

verus! {

// ── Making sure an image is there ───────────────────────────────────────────

/// Where `ensure_image_available` is.
#[derive(Debug, Clone, Copy, PartialEq, Eq, Structural)]
pub enum ImageState {
    /// Asking docker whether it has the image.
    Inspect,
    /// Pulling the image.
    Pull,
    Done,
}

pub open spec fn inspect_image_args(image: Seq<char>) -> Seq<Seq<char>> {
    seq!["inspect"@, "--type=image"@, image]
}

pub open spec fn pull_args(image: Seq<char>) -> Seq<Seq<char>> {
    seq!["pull"@, image]
}

pub open spec fn creation_failed(m: Seq<char>) -> StepView {
    StepView::Fail(SandboxErrorView::ContainerCreationFailed(m))
}

/// One step of making sure `image` is there: an image docker can inspect
/// is; any other is pulled, and a pull that fails says why.
pub open spec fn image_transition(image: Seq<char>, s: ImageState, o: OutcomeView) -> (ImageState, StepView) {
    match (s, o) {
        (ImageState::Inspect, OutcomeView::Ran(true, _, _)) => (ImageState::Done, StepView::Done),
        (ImageState::Inspect, _) => (ImageState::Pull, StepView::Run(pull_args(image))),
        (ImageState::Pull, OutcomeView::Ran(true, _, _)) => (ImageState::Done, StepView::Done),
        (ImageState::Pull, OutcomeView::Ran(false, _, err)) => (
            ImageState::Done,
            creation_failed("Failed to pull image: "@ + err),
        ),
        (ImageState::Pull, OutcomeView::SpawnFailed(m)) => (
            ImageState::Done,
            creation_failed("Failed to execute docker pull: "@ + m),
        ),
        (ImageState::Done, _) => (ImageState::Done, exec_failed("unexpected event"@)),
    }
}

/// The first step of making sure `image` is there.
pub fn image_start(image: &str) -> (r: (ImageState, Step))
    ensures
        r.0 == ImageState::Inspect,
        r.1@ == StepView::Run(inspect_image_args(image@)),
{
    let a = strings(&["inspect", "--type=image", image]);
    assert(a.deep_view() =~= inspect_image_args(image@));
    (ImageState::Inspect, Step::Run(a))
}

/// The next step of making sure `image` is there, after the outcome `o`.
pub fn image_next(image: &str, s: ImageState, o: &Outcome) -> (r: (ImageState, Step))
    ensures
        (r.0, r.1@) == image_transition(image@, s, o@),
{
    match (s, o) {
        (ImageState::Inspect, Outcome::Ran { success: true, .. }) => (ImageState::Done, Step::Finish(Ok(()))),
        (ImageState::Inspect, _) => {
            let a = strings(&["pull", image]);
            assert(a.deep_view() =~= pull_args(image@));
            (ImageState::Pull, Step::Run(a))
        },
        (ImageState::Pull, Outcome::Ran { success: true, .. }) => (ImageState::Done, Step::Finish(Ok(()))),
        (ImageState::Pull, Outcome::Ran { success: false, stderr, .. }) => (
            ImageState::Done,
            Step::Finish(Err(SandboxError::ContainerCreationFailed(concat("Failed to pull image: ", stderr.as_str())))),
        ),
        (ImageState::Pull, Outcome::SpawnFailed(m)) => (
            ImageState::Done,
            Step::Finish(
                Err(SandboxError::ContainerCreationFailed(concat("Failed to execute docker pull: ", m.as_str()))),
            ),
        ),
        (ImageState::Done, _) => (ImageState::Done, exec_failure(owned("unexpected event"))),
    }
}

/// An image is reported available only after docker inspected it or
/// pulled it successfully.
pub proof fn law_image_available_only_when_docker_says_so(image: Seq<char>, s: ImageState, o: OutcomeView)
    requires
        image_transition(image, s, o).1 == StepView::Done,
    ensures
        o matches OutcomeView::Ran(true, _, _),
        s == ImageState::Inspect || s == ImageState::Pull,
{
}

// ── Single docker commands ──────────────────────────────────────────────────

/// The error of a docker command that could not be started or failed:
/// `prefix` and the reason (its standard error where it ran).
pub open spec fn failure_text(prefix: Seq<char>, o: OutcomeView) -> Seq<char> {
    match o {
        OutcomeView::Ran(_, _, err) => prefix + err,
        OutcomeView::SpawnFailed(m) => prefix + m,
    }
}

pub open spec fn succeeded(o: OutcomeView) -> bool {
    o matches OutcomeView::Ran(true, _, _)
}

fn failure_reason(prefix: &str, o: &Outcome) -> (r: String)
    ensures
        r@ == failure_text(prefix@, o@),
{
    match o {
        Outcome::Ran { stderr, .. } => concat(prefix, stderr.as_str()),
        Outcome::SpawnFailed(m) => concat(prefix, m.as_str()),
    }
}

pub open spec fn opt_dir_args(wd: Option<&str>) -> Seq<Seq<char>> {
    match wd {
        Some(d) => seq!["-w"@, d@],
        None => seq![],
    }
}

fn push_dir(out: &mut Vec<String>, wd: Option<&str>)
    ensures
        final(out).deep_view() == old(out).deep_view() + opt_dir_args(wd),
{
    let ghost start = out.deep_view();
    match wd {
        Some(d) => {
            out.push(owned("-w"));
            out.push(owned(d));
            assert(out.deep_view() =~= start + opt_dir_args(wd));
        },
        None => {
            assert(out.deep_view() =~= start + opt_dir_args(wd));
        },
    }
}

impl DockerWrapper {
    /// `docker create --name <name> <image> [-w <dir>] <command…>`.
    pub fn create_container_args(name: &str, image: &str, command: &[&str], working_dir: Option<&str>) -> (r:
        Vec<String>)
        ensures
            r.deep_view() == seq!["create"@, "--name"@, name@, image@] + opt_dir_args(working_dir)
                + command@.map_values(|s: &str| s@),
    {
        let mut args = strings(&["create", "--name", name, image]);
        push_dir(&mut args, working_dir);
        push_all(&mut args, command);
        args
    }

    /// What `docker create` answered: the new container's id (its output,
    /// trimmed), or why it could not be created.
    pub fn create_container_result(o: &Outcome) -> (r: Result<String, SandboxError>)
        ensures
            match r {
                Ok(id) => o@ matches OutcomeView::Ran(true, out, _) && id@ == text::trim(out),
                Err(e) => !succeeded(o@) && e@ == SandboxErrorView::ContainerCreationFailed(
                    failure_text("Failed to create container: "@, o@),
                ),
            },
    {
        match o {
            Outcome::Ran { success: true, stdout, .. } => Ok(trim_str(stdout.as_str())),
            _ => Err(SandboxError::ContainerCreationFailed(failure_reason("Failed to create container: ", o))),
        }
    }

    /// `docker start <name>`.
    pub fn start_container_args(name: &str) -> (r: Vec<String>)
        ensures
            r.deep_view() == start_args(name@),
    {
        let r = strings(&["start", name]);
        assert(r.deep_view() =~= start_args(name@));
        r
    }

    /// What `docker start` answered.
    pub fn start_container_result(o: &Outcome) -> (r: Result<(), SandboxError>)
        ensures
            r is Ok <==> succeeded(o@),
            r matches Err(e) ==> e@ == SandboxErrorView::ContainerCreationFailed(
                failure_text("Failed to start container: "@, o@),
            ),
    {
        match o {
            Outcome::Ran { success: true, .. } => Ok(()),
            _ => Err(SandboxError::ContainerCreationFailed(failure_reason("Failed to start container: ", o))),
        }
    }

    /// `docker exec [-w <dir>] <container> <command…>`.
    pub fn exec_command_args(container: &str, command: &[&str], working_dir: Option<&str>) -> (r: Vec<String>)
        ensures
            r.deep_view() == seq!["exec"@] + opt_dir_args(working_dir) + seq![container@]
                + command@.map_values(|s: &str| s@),
    {
        let mut args = strings(&["exec"]);
        push_dir(&mut args, working_dir);
        let ghost before = args.deep_view();
        args.push(owned(container));
        assert(args.deep_view() =~= before + seq![container@]);
        push_all(&mut args, command);
        args
    }

    /// What `docker exec` answered: the command's output, or why it failed.
    pub fn exec_command_result(o: &Outcome) -> (r: Result<String, SandboxError>)
        ensures
            match r {
                Ok(out) => o@ matches OutcomeView::Ran(true, s, _) && out@ == s,
                Err(e) => !succeeded(o@) && e@ == SandboxErrorView::CommandExecutionFailed(
                    match o@ {
                        OutcomeView::Ran(_, _, err) => "Command failed: "@ + err,
                        OutcomeView::SpawnFailed(m) => "Failed to execute command: "@ + m,
                    },
                ),
            },
    {
        match o {
            Outcome::Ran { success: true, stdout, .. } => Ok(crate::text::copy_string(stdout)),
            Outcome::Ran { stderr, .. } => Err(
                SandboxError::CommandExecutionFailed(concat("Command failed: ", stderr.as_str())),
            ),
            Outcome::SpawnFailed(m) => Err(
                SandboxError::CommandExecutionFailed(concat("Failed to execute command: ", m.as_str())),
            ),
        }
    }

    /// `docker rm [-f] <name>`.
    pub fn remove_container_args(name: &str, force: bool) -> (r: Vec<String>)
        ensures
            r.deep_view() == seq!["rm"@] + (if force {
                seq!["-f"@]
            } else {
                seq![]
            }) + seq![name@],
    {
        let r = if force {
            strings(&["rm", "-f", name])
        } else {
            strings(&["rm", name])
        };
        assert(r.deep_view() =~= seq!["rm"@] + (if force {
            seq!["-f"@]
        } else {
            seq![]
        }) + seq![name@]);
        r
    }

    /// What `docker rm` answered.
    pub fn remove_container_result(o: &Outcome) -> (r: Result<(), SandboxError>)
        ensures
            r is Ok <==> succeeded(o@),
            r matches Err(e) ==> e@ == SandboxErrorView::ContainerCreationFailed(
                failure_text("Failed to remove container: "@, o@),
            ),
    {
        match o {
            Outcome::Ran { success: true, .. } => Ok(()),
            _ => Err(SandboxError::ContainerCreationFailed(failure_reason("Failed to remove container: ", o))),
        }
    }

    /// `docker --version`, which answers where docker is installed.
    pub fn version_args() -> (r: Vec<String>)
        ensures
            r.deep_view() == seq!["--version"@],
    {
        let r = strings(&["--version"]);
        assert(r.deep_view() =~= seq!["--version"@]);
        r
    }

    /// Docker is available when `docker --version` ran and succeeded.
    pub fn is_available(o: &Outcome) -> (r: bool)
        ensures
            r == succeeded(o@),
    {
        match o {
            Outcome::Ran { success: true, .. } => true,
            _ => false,
        }
    }
}

} // verus!
