//! Setting up a crossdev environment inside the sandbox: initialising the
//! target, choosing its profile, writing its make.conf and the Portage
//! configuration files it needs.
//!
//! The setup is a fixed list of sandbox commands. `setup_next` decides, after
//! each command comes back, which runs next: the list is run in order, the
//! first failure ends the run with the error of that step, and the run
//! succeeds only when every command did.
use vstd::prelude::*;
use crate::sandbox::strings;
use crate::text::{concat, concat3, contains_text, copy_string, has_infix, owned};

verus! {

/// Why setting up the environment failed.
#[derive(Debug)]
pub enum CrossdevError {
    InitializationFailed(String),
    ProfileConfigurationFailed(String),
    ConfigFileError(String),
    DirectoryCreationFailed(String),
    IoError(String),
}

/// Which step a setup command is, and so which error its failure gives.
#[derive(Debug, Clone, Copy, PartialEq, Eq, Structural)]
pub enum SetupFailure {
    Init,
    Profile,
    MakeConf,
    Directory,
    PlainConf,
    PackageEnv,
    BusyboxUse,
    ClangUse,
    GitUse,
    RustUse,
    BinDirectory,
}

/// One setup command: `program` with `args` in the default sandbox.
#[derive(Debug)]
pub struct SetupStep {
    pub program: String,
    pub args: Vec<String>,
    pub failure: SetupFailure,
}

pub open spec fn step_is(s: SetupStep, program: Seq<char>, args: Seq<Seq<char>>, f: SetupFailure) -> bool {
    s.program@ == program && s.args.deep_view() == args && s.failure == f
}

/// The crossdev environment of one target, rooted at `root`.
#[derive(Debug)]
pub struct CrossdevEnvironment {
    target: String,
    root: String,
    profile: String,
    cflags: String,
    target_llvm_target: String,
}

/// `sh -c cmd`.
pub open spec fn sh(cmd: Seq<char>) -> Seq<Seq<char>> {
    seq!["-c"@, cmd]
}

/// The shell line that writes `content` to `path`.
pub open spec fn echo_to(content: Seq<char>, path: Seq<char>) -> Seq<char> {
    "echo '"@ + content + "' > "@ + path
}

/// The make.conf rewrite: CFLAGS replaced, CXXFLAGS following CFLAGS, and
/// LLVM_TARGETS holding the target's and the host's backends.
pub open spec fn make_conf_cmd(root: Seq<char>, cflags: Seq<char>, tllvm: Seq<char>, hllvm: Seq<char>) -> Seq<
    char,
> {
    let mk = root + "/etc/portage/make.conf"@;
    "sed -i '/^CFLAGS=/d' "@ + mk + " && echo 'CFLAGS=\""@ + cflags + "\"' >> "@ + mk
        + " && sed -i '/^CXXFLAGS=/d' "@ + mk + " && echo 'CXXFLAGS=\"${CFLAGS}\"' >> "@ + mk
        + " && echo 'LLVM_TARGETS=\""@ + tllvm + " "@ + hllvm + "\"' >> "@ + mk
}

/// The package.use settings for busybox and its crypt libraries.
pub open spec fn busybox_use() -> Seq<char> {
    ">=virtual/libcrypt-2-r1 static-libs\n>=sys-libs/libxcrypt-4.4.36-r3 static-libs\n>=sys-apps/busybox-1.36.1-r3 -pam static"@
}

/// The generic flags of `plain.conf`, for packages that need safe flags.
pub open spec fn plain_conf() -> Seq<char> {
    "CFLAGS=\"-O3 -pipe\"\nCXXFLAGS=\"-O3 -pipe\""@
}

impl CrossdevEnvironment {
    pub closed spec fn target_name(&self) -> Seq<char> {
        self.target@
    }

    pub closed spec fn root_dir(&self) -> Seq<char> {
        self.root@
    }

    pub closed spec fn profile_name(&self) -> Seq<char> {
        self.profile@
    }

    pub closed spec fn cflags_text(&self) -> Seq<char> {
        self.cflags@
    }

    pub closed spec fn llvm_target(&self) -> Seq<char> {
        self.target_llvm_target@
    }

    /// The environment for `target` rooted at `root`.
    pub fn new(target: &str, root: &str, profile: &str, cflags: &str, target_llvm_target: &str) -> (r:
        CrossdevEnvironment)
        ensures
            r.target_name() == target@,
            r.root_dir() == root@,
            r.profile_name() == profile@,
            r.cflags_text() == cflags@,
            r.llvm_target() == target_llvm_target@,
    {
        CrossdevEnvironment {
            target: owned(target),
            root: owned(root),
            profile: owned(profile),
            cflags: owned(cflags),
            target_llvm_target: owned(target_llvm_target),
        }
    }

    /// The LLVM backends to build: the target's, and the host's unless it
    /// is already named.
    pub fn llvm_targets(&self, host_llvm_target: &str) -> (r: String)
        ensures
            r@ == (if has_infix(self.llvm_target(), host_llvm_target@) {
                self.llvm_target()
            } else {
                self.llvm_target() + " "@ + host_llvm_target@
            }),
    {
        if contains_text(self.target_llvm_target.as_str(), host_llvm_target) {
            copy_string(&self.target_llvm_target)
        } else {
            concat3(self.target_llvm_target.as_str(), " ", host_llvm_target)
        }
    }

    fn shell_step(cmd: String, failure: SetupFailure) -> (s: SetupStep)
        ensures
            step_is(s, "sh"@, sh(cmd@), failure),
    {
        let mut args: Vec<String> = Vec::new();
        args.push(owned("-c"));
        let ghost c = cmd@;
        args.push(cmd);
        assert(args.deep_view() =~= sh(c));
        SetupStep { program: owned("sh"), args, failure }
    }

    fn mkdir_step(path: String, failure: SetupFailure) -> (s: SetupStep)
        ensures
            step_is(s, "mkdir"@, seq!["-p"@, path@], failure),
    {
        let mut args: Vec<String> = Vec::new();
        args.push(owned("-p"));
        let ghost p = path@;
        args.push(path);
        assert(args.deep_view() =~= seq!["-p"@, p]);
        SetupStep { program: owned("mkdir"), args, failure }
    }

    /// The package.use steps: busybox (written with `echo -e`), clang, git
    /// and rust, in that order.
    pub open spec fn package_use_ok(&self, r: Seq<SetupStep>) -> bool {
        &&& r.len() == 4
        &&& step_is(
                r[0],
                "sh"@,
                sh(
                    "echo -e '"@ + busybox_use() + "' > "@ + self.root_dir()
                        + "/etc/portage/package.use/busybox"@,
                ),
                SetupFailure::BusyboxUse,
            )
        &&& step_is(
                r[1],
                "sh"@,
                sh(
                    echo_to(
                        "llvm-core/clang -extra"@,
                        self.root_dir() + "/etc/portage/package.use/clang"@,
                    ),
                ),
                SetupFailure::ClangUse,
            )
        &&& step_is(
                r[2],
                "sh"@,
                sh(echo_to("dev-vcs/git -iconv"@, self.root_dir() + "/etc/portage/package.use/git"@)),
                SetupFailure::GitUse,
            )
        &&& step_is(
                r[3],
                "sh"@,
                sh(
                    echo_to(
                        "dev-lang/rust rustfmt -system-llvm"@,
                        self.root_dir() + "/etc/portage/package.use/rust"@,
                    ),
                ),
                SetupFailure::RustUse,
            )
    }

    /// The package.use files: busybox (written with `echo -e`), clang, git
    /// and rust.
    pub fn package_use_steps(&self) -> (r: Vec<SetupStep>)
        ensures
            self.package_use_ok(r@),
    {
        let root = self.root.as_str();
        let mut out: Vec<SetupStep> = Vec::new();
        let bb = concat3(
            "echo -e '",
            ">=virtual/libcrypt-2-r1 static-libs\n>=sys-libs/libxcrypt-4.4.36-r3 static-libs\n>=sys-apps/busybox-1.36.1-r3 -pam static",
            "' > ",
        );
        let bb2 = concat3(bb.as_str(), root, "/etc/portage/package.use/busybox");
        out.push(Self::shell_step(bb2, SetupFailure::BusyboxUse));
        let c = concat3("echo 'llvm-core/clang -extra' > ", root, "/etc/portage/package.use/clang");
        out.push(Self::shell_step(c, SetupFailure::ClangUse));
        let g = concat3("echo 'dev-vcs/git -iconv' > ", root, "/etc/portage/package.use/git");
        out.push(Self::shell_step(g, SetupFailure::GitUse));
        let rs = concat3(
            "echo 'dev-lang/rust rustfmt -system-llvm' > ",
            root,
            "/etc/portage/package.use/rust",
        );
        out.push(Self::shell_step(rs, SetupFailure::RustUse));
        proof {
            reveal_strlit("echo '");
            reveal_strlit("' > ");
            reveal_strlit("llvm-core/clang -extra");
            reveal_strlit("dev-vcs/git -iconv");
            reveal_strlit("dev-lang/rust rustfmt -system-llvm");
            reveal_strlit("echo 'llvm-core/clang -extra' > ");
            reveal_strlit("echo 'dev-vcs/git -iconv' > ");
            reveal_strlit("echo 'dev-lang/rust rustfmt -system-llvm' > ");
            assert("echo 'llvm-core/clang -extra' > "@ =~= "echo '"@ + "llvm-core/clang -extra"@
                + "' > "@);
            assert("echo 'dev-vcs/git -iconv' > "@ =~= "echo '"@ + "dev-vcs/git -iconv"@ + "' > "@);
            assert("echo 'dev-lang/rust rustfmt -system-llvm' > "@ =~= "echo '"@
                + "dev-lang/rust rustfmt -system-llvm"@ + "' > "@);
            assert(echo_to(
                "llvm-core/clang -extra"@,
                self.root_dir() + "/etc/portage/package.use/clang"@,
            ) =~= "echo 'llvm-core/clang -extra' > "@ + self.root_dir()
                + "/etc/portage/package.use/clang"@);
            assert(echo_to("dev-vcs/git -iconv"@, self.root_dir() + "/etc/portage/package.use/git"@)
                =~= "echo 'dev-vcs/git -iconv' > "@ + self.root_dir()
                + "/etc/portage/package.use/git"@);
            assert(echo_to(
                "dev-lang/rust rustfmt -system-llvm"@,
                self.root_dir() + "/etc/portage/package.use/rust"@,
            ) =~= "echo 'dev-lang/rust rustfmt -system-llvm' > "@ + self.root_dir()
                + "/etc/portage/package.use/rust"@);
        }
        out
    }

    /// Every setup command, in the order they run: initialise crossdev for
    /// the target, set the profile, rewrite make.conf (with the host's LLVM
    /// backend `host_llvm_target` beside the target's), make the Portage
    /// configuration directories, write plain.conf, package.env and the
    /// package.use files, and make the bin directory.
    pub fn setup_steps(&self, host_llvm_target: &str) -> (r: Vec<SetupStep>)
        ensures
            r@.len() == 14,
            step_is(
                r@[0],
                "crossdev"@,
                seq!["--ov-output"@, "/var/db/repos/crossdev"@, self.target_name(), "--init-target"@],
                SetupFailure::Init,
            ),
            step_is(
                r@[1],
                "sh"@,
                sh("PORTAGE_CONFIGROOT="@ + self.root_dir() + " eselect profile set "@ + self.profile_name()),
                SetupFailure::Profile,
            ),
            step_is(
                r@[2],
                "sh"@,
                sh(make_conf_cmd(self.root_dir(), self.cflags_text(), self.llvm_target(), host_llvm_target@)),
                SetupFailure::MakeConf,
            ),
            step_is(r@[3], "mkdir"@, seq!["-p"@, self.root_dir() + "/etc/portage/env"@], SetupFailure::Directory),
            step_is(
                r@[4],
                "mkdir"@,
                seq!["-p"@, self.root_dir() + "/etc/portage/package.env"@],
                SetupFailure::Directory,
            ),
            step_is(
                r@[5],
                "mkdir"@,
                seq!["-p"@, self.root_dir() + "/etc/portage/package.use"@],
                SetupFailure::Directory,
            ),
            step_is(
                r@[6],
                "mkdir"@,
                seq!["-p"@, self.root_dir() + "/etc/portage/package.accept_keywords"@],
                SetupFailure::Directory,
            ),
            step_is(
                r@[7],
                "sh"@,
                sh(echo_to(plain_conf(), self.root_dir() + "/etc/portage/env/plain.conf"@)),
                SetupFailure::PlainConf,
            ),
            step_is(
                r@[8],
                "sh"@,
                sh(echo_to("dev-lang/rust plain.conf"@, self.root_dir() + "/etc/portage/package.env/rust"@)),
                SetupFailure::PackageEnv,
            ),
            self.package_use_ok(r@.subrange(9, 13)),
            step_is(r@[13], "mkdir"@, seq!["-p"@, self.root_dir() + "/bin"@], SetupFailure::BinDirectory),
    {
        let root = self.root.as_str();
        let mut out: Vec<SetupStep> = Vec::new();
        let mut a: Vec<String> = Vec::new();
        a.push(owned("--ov-output"));
        a.push(owned("/var/db/repos/crossdev"));
        a.push(copy_string(&self.target));
        a.push(owned("--init-target"));
        assert(a.deep_view() =~= seq![
            "--ov-output"@,
            "/var/db/repos/crossdev"@,
            self.target_name(),
            "--init-target"@,
        ]);
        out.push(SetupStep { program: owned("crossdev"), args: a, failure: SetupFailure::Init });
        let p = concat3("PORTAGE_CONFIGROOT=", root, " eselect profile set ");
        out.push(Self::shell_step(concat(p.as_str(), self.profile.as_str()), SetupFailure::Profile));
        let mk = concat(root, "/etc/portage/make.conf");
        let m1 = concat3("sed -i '/^CFLAGS=/d' ", mk.as_str(), " && echo 'CFLAGS=\"");
        let m2 = concat3(m1.as_str(), self.cflags.as_str(), "\"' >> ");
        let m3 = concat3(m2.as_str(), mk.as_str(), " && sed -i '/^CXXFLAGS=/d' ");
        let m4 = concat3(m3.as_str(), mk.as_str(), " && echo 'CXXFLAGS=\"${CFLAGS}\"' >> ");
        let m5 = concat3(m4.as_str(), mk.as_str(), " && echo 'LLVM_TARGETS=\"");
        let m6 = concat3(m5.as_str(), self.target_llvm_target.as_str(), " ");
        let m7 = concat3(m6.as_str(), host_llvm_target, "\"' >> ");
        let m8 = concat(m7.as_str(), mk.as_str());
        out.push(Self::shell_step(m8, SetupFailure::MakeConf));
        out.push(Self::mkdir_step(concat(root, "/etc/portage/env"), SetupFailure::Directory));
        out.push(Self::mkdir_step(concat(root, "/etc/portage/package.env"), SetupFailure::Directory));
        out.push(Self::mkdir_step(concat(root, "/etc/portage/package.use"), SetupFailure::Directory));
        out.push(
            Self::mkdir_step(concat(root, "/etc/portage/package.accept_keywords"), SetupFailure::Directory),
        );
        let pc = concat3("echo '", "CFLAGS=\"-O3 -pipe\"\nCXXFLAGS=\"-O3 -pipe\"", "' > ");
        out.push(
            Self::shell_step(
                concat3(pc.as_str(), root, "/etc/portage/env/plain.conf"),
                SetupFailure::PlainConf,
            ),
        );
        assert(echo_to(plain_conf(), self.root_dir() + "/etc/portage/env/plain.conf"@) =~= pc@
            + self.root_dir() + "/etc/portage/env/plain.conf"@);
        let pe = concat3("echo '", "dev-lang/rust plain.conf", "' > ");
        out.push(
            Self::shell_step(
                concat3(pe.as_str(), root, "/etc/portage/package.env/rust"),
                SetupFailure::PackageEnv,
            ),
        );
        assert(echo_to("dev-lang/rust plain.conf"@, self.root_dir() + "/etc/portage/package.env/rust"@)
            =~= pe@ + self.root_dir() + "/etc/portage/package.env/rust"@);
        let mut uses = self.package_use_steps();
        let ghost uv = uses@;
        out.append(&mut uses);
        out.push(Self::mkdir_step(concat(root, "/bin"), SetupFailure::BinDirectory));
        assert(out@.subrange(9, 13) =~= uv);
        assert(self.package_use_ok(out@.subrange(9, 13)));
        out
    }
}

/// The error a failed setup step gives, `reason` being what the sandbox
/// reported.
/// Given as the error's variant (by the names of `error_parts`) and its
/// message.
pub open spec fn spec_step_error(f: SetupFailure, path: Seq<char>, reason: Seq<char>) -> (Seq<char>, Seq<char>) {
    match f {
        SetupFailure::Init => ("init"@, reason),
        SetupFailure::Profile => ("profile"@, reason),
        SetupFailure::MakeConf => ("config"@, reason),
        SetupFailure::Directory => ("directory"@, "Failed to create "@ + path + ": "@ + reason),
        SetupFailure::PlainConf => ("config"@, "Failed to create plain.conf: "@ + reason),
        SetupFailure::PackageEnv => ("config"@, "Failed to create package.env: "@ + reason),
        SetupFailure::BusyboxUse => ("config"@, "Failed to create busybox package.use"@),
        SetupFailure::ClangUse => ("config"@, "Failed to create clang package.use"@),
        SetupFailure::GitUse => ("config"@, "Failed to create git package.use"@),
        SetupFailure::RustUse => ("config"@, "Failed to create rust package.use: "@ + reason),
        SetupFailure::BinDirectory => ("directory"@, "Failed to create bin directory: "@ + reason),
    }
}

/// The variant name and message of a setup error.
pub open spec fn error_parts(e: CrossdevError) -> (Seq<char>, Seq<char>) {
    match e {
        CrossdevError::InitializationFailed(m) => ("init"@, m@),
        CrossdevError::ProfileConfigurationFailed(m) => ("profile"@, m@),
        CrossdevError::ConfigFileError(m) => ("config"@, m@),
        CrossdevError::DirectoryCreationFailed(m) => ("directory"@, m@),
        CrossdevError::IoError(m) => ("io"@, m@),
    }
}

/// The error for `step` having failed with `reason`; a directory step names
/// the directory it tried to make.
pub fn step_error(step: &SetupStep, reason: &str) -> (e: CrossdevError)
    requires
        step.failure == SetupFailure::Directory ==> step.args@.len() >= 2,
    ensures
        error_parts(e) == spec_step_error(
            step.failure,
            if step.args@.len() >= 2 {
                step.args@[1]@
            } else {
                seq![]
            },
            reason@,
        ),
{
    match step.failure {
        SetupFailure::Init => CrossdevError::InitializationFailed(owned(reason)),
        SetupFailure::Profile => CrossdevError::ProfileConfigurationFailed(owned(reason)),
        SetupFailure::MakeConf => CrossdevError::ConfigFileError(owned(reason)),
        SetupFailure::Directory => {
            let a = concat3("Failed to create ", step.args[1].as_str(), ": ");
            CrossdevError::DirectoryCreationFailed(concat(a.as_str(), reason))
        },
        SetupFailure::PlainConf => CrossdevError::ConfigFileError(
            concat("Failed to create plain.conf: ", reason),
        ),
        SetupFailure::PackageEnv => CrossdevError::ConfigFileError(
            concat("Failed to create package.env: ", reason),
        ),
        SetupFailure::BusyboxUse => CrossdevError::ConfigFileError(
            owned("Failed to create busybox package.use"),
        ),
        SetupFailure::ClangUse => CrossdevError::ConfigFileError(
            owned("Failed to create clang package.use"),
        ),
        SetupFailure::GitUse => CrossdevError::ConfigFileError(owned("Failed to create git package.use")),
        SetupFailure::RustUse => CrossdevError::ConfigFileError(
            concat("Failed to create rust package.use: ", reason),
        ),
        SetupFailure::BinDirectory => CrossdevError::DirectoryCreationFailed(
            concat("Failed to create bin directory: ", reason),
        ),
    }
}

/// Where a run of setup steps goes after one step came back.
#[derive(Debug)]
pub enum SetupProgress {
    /// Run the step at this index next.
    Next(usize),
    /// Every step succeeded.
    Done,
    /// The step failed; the run ends with this error.
    Failed(CrossdevError),
}

/// The shape of a decision in a run of setup steps: the step to run next,
/// success, or failure at the step with this index.
pub enum RunStep {
    Next(usize),
    Done,
    Failed(usize),
}

/// After step `i` of `n` came back (`ok` or not): a failure ends the run, a
/// success moves on to the following step, and success of the last step
/// ends the run well.
pub open spec fn spec_setup_next(n: nat, i: usize, ok: bool) -> RunStep {
    if !ok {
        RunStep::Failed(i)
    } else if i + 1 < n {
        RunStep::Next((i + 1) as usize)
    } else {
        RunStep::Done
    }
}

/// The decision a `SetupProgress` made after step `i`.
pub open spec fn progress_shape(p: SetupProgress, i: usize) -> RunStep {
    match p {
        SetupProgress::Next(j) => RunStep::Next(j),
        SetupProgress::Done => RunStep::Done,
        SetupProgress::Failed(_) => RunStep::Failed(i),
    }
}

/// The directory a step names (its second argument), for the error of a
/// directory step.
pub open spec fn step_path(step: SetupStep) -> Seq<char> {
    if step.args@.len() >= 2 {
        step.args@[1]@
    } else {
        seq![]
    }
}

/// Decides what follows step `i` of `steps`, given what running it gave:
/// `Ok` moves on to step `i + 1` (or ends the run well after the last step),
/// `Err(reason)` ends the run with the step's error.
pub fn setup_next(steps: &Vec<SetupStep>, i: usize, outcome: &Result<(), String>) -> (r: SetupProgress)
    requires
        i < steps@.len(),
        steps@[i as int].failure == SetupFailure::Directory ==> steps@[i as int].args@.len() >= 2,
    ensures
        progress_shape(r, i) == spec_setup_next(steps@.len(), i, outcome is Ok),
        outcome matches Err(m) ==> (r matches SetupProgress::Failed(e) && error_parts(e)
            == spec_step_error(steps@[i as int].failure, step_path(steps@[i as int]), m@)),
{
    match outcome {
        Err(m) => SetupProgress::Failed(step_error(&steps[i], m.as_str())),
        Ok(()) => {
            if i < steps.len() - 1 {
                SetupProgress::Next(i + 1)
            } else {
                SetupProgress::Done
            }
        },
    }
}

/// How a run that starts at step `i` ends when the steps come back `oks` in
/// turn, each decision taken by `spec_setup_next`.
pub open spec fn run_end(oks: Seq<bool>, i: usize) -> RunStep
    decreases oks.len() - i,
{
    if i >= oks.len() {
        RunStep::Done
    } else {
        match spec_setup_next(oks.len(), i, oks[i as int]) {
            RunStep::Next(j) => if i < j {
                run_end(oks, j)
            } else {
                RunStep::Done
            },
            other => other,
        }
    }
}

/// A run of setup steps, driven by `setup_next` from the first step,
/// succeeds exactly when every step succeeded; where it fails, it fails at
/// the first step that failed, and no later step was run.
pub proof fn law_setup_run_stops_at_first_failure(oks: Seq<bool>)
    requires
        0 < oks.len() <= usize::MAX,
    ensures
        run_end(oks, 0) is Done <==> (forall|k: int| 0 <= k < oks.len() ==> oks[k]),
        run_end(oks, 0) matches RunStep::Failed(k) ==> (k < oks.len() && !oks[k as int]
            && forall|m: int| 0 <= m < k ==> oks[m]),
        !(run_end(oks, 0) is Next),
{
    lemma_run_end(oks, 0);
}

proof fn lemma_run_end(oks: Seq<bool>, i: usize)
    requires
        i < oks.len() <= usize::MAX,
    ensures
        run_end(oks, i) is Done <==> (forall|k: int| i <= k < oks.len() ==> oks[k]),
        run_end(oks, i) matches RunStep::Failed(k) ==> (i <= k < oks.len() && !oks[k as int]
            && forall|m: int| i <= m < k ==> oks[m]),
        !(run_end(oks, i) is Next),
    decreases oks.len() - i,
{
    if oks[i as int] && i + 1 < oks.len() {
        lemma_run_end(oks, (i + 1) as usize);
        assert forall|k: int| i <= k < oks.len() && (forall|k2: int| i + 1 <= k2 < oks.len() ==> oks[k2]) implies oks[k] by {
            if k > i {
                assert(oks[k]);
            }
        }
    }
}

} // verus!
