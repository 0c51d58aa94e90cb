//! The decisions of an image build, apart from running anything: what one
//! step does given its hooks and whether it already ran, what the build
//! prints around each step, and which of the checks after `assemble` stops
//! the build.
use vstd::prelude::*;
use crate::assemble::spec_step_marker;
use crate::error::Error;
use crate::hash::{decimal, decimal_string};
use crate::image::{duration_text, format_duration};
use crate::text::{concat, concat3, owned};

verus! {

/// Which hook of a step a script is: it replaces the step, runs before it,
/// or runs after it.
#[derive(Debug, Clone, Copy, PartialEq, Eq, Structural)]
pub enum HookKind {
    Override,
    Pre,
    Post,
}

pub open spec fn hook_prefix(kind: HookKind) -> Seq<char> {
    match kind {
        HookKind::Override => "override-"@,
        HookKind::Pre => "pre-"@,
        HookKind::Post => "post-"@,
    }
}

/// The file name of a step's hook in the board directory:
/// `override-<step>.sh`, `pre-<step>.sh` or `post-<step>.sh`.
pub open spec fn hook_name(kind: HookKind, step: Seq<char>) -> Seq<char> {
    hook_prefix(kind) + step + ".sh"@
}

pub fn hook_script(kind: HookKind, step: &str) -> (r: String)
    ensures
        r@ == hook_name(kind, step@),
{
    let p = match kind {
        HookKind::Override => "override-",
        HookKind::Pre => "pre-",
        HookKind::Post => "post-",
    };
    concat3(p, step, ".sh")
}

/// One thing a step does, in order.
#[derive(Debug, Clone, PartialEq, Eq)]
pub enum StepAction {
    /// Run the board's hook script of this name.
    RunScript(String),
    /// Run the step's own work.
    RunDefault,
    /// Write the step's marker, so a resumed build skips it.
    MarkDone,
}

pub enum StepActionView {
    RunScript(Seq<char>),
    RunDefault,
    MarkDone,
}

impl View for StepAction {
    type V = StepActionView;

    open spec fn view(&self) -> StepActionView {
        match self {
            StepAction::RunScript(s) => StepActionView::RunScript(s@),
            StepAction::RunDefault => StepActionView::RunDefault,
            StepAction::MarkDone => StepActionView::MarkDone,
        }
    }
}

pub open spec fn action_views(s: Seq<StepAction>) -> Seq<StepActionView> {
    s.map_values(|a: StepAction| a@)
}

/// What a step does: nothing once its marker is written; its override hook
/// in place of everything else where the board has one; else its pre hook,
/// its own work and its post hook, each hook only where the board has it.
/// Every step that runs ends by writing its marker.
pub open spec fn spec_step_actions(
    step: Seq<char>,
    done: bool,
    has_override: bool,
    has_pre: bool,
    has_post: bool,
) -> Seq<StepActionView> {
    if done {
        seq![]
    } else if has_override {
        seq![
            StepActionView::RunScript(hook_name(HookKind::Override, step)),
            StepActionView::MarkDone,
        ]
    } else {
        (if has_pre {
            seq![StepActionView::RunScript(hook_name(HookKind::Pre, step))]
        } else {
            seq![]
        }) + seq![StepActionView::RunDefault] + (if has_post {
            seq![StepActionView::RunScript(hook_name(HookKind::Post, step))]
        } else {
            seq![]
        }) + seq![StepActionView::MarkDone]
    }
}

/// The actions of `step`, or none for a step the build does not know
/// (which it skips with a warning).  `done` says whether the step's marker
/// exists, the flags whether the board directory holds each hook.
pub fn step_actions(step: &str, done: bool, has_override: bool, has_pre: bool, has_post: bool) -> (r:
    Option<Vec<StepAction>>)
    ensures
        match r {
            Some(v) => spec_step_marker(step@) is Some && action_views(v@) == spec_step_actions(
                step@,
                done,
                has_override,
                has_pre,
                has_post,
            ),
            None => spec_step_marker(step@) is None,
        },
{
    if crate::assemble::step_marker(step).is_none() {
        return None;
    }
    let mut out: Vec<StepAction> = Vec::new();
    if done {
        assert(action_views(out@) =~= spec_step_actions(step@, done, has_override, has_pre, has_post));
        return Some(out);
    }
    if has_override {
        out.push(StepAction::RunScript(hook_script(HookKind::Override, step)));
        out.push(StepAction::MarkDone);
        assert(action_views(out@) =~= spec_step_actions(step@, done, has_override, has_pre, has_post));
        return Some(out);
    }
    if has_pre {
        out.push(StepAction::RunScript(hook_script(HookKind::Pre, step)));
    }
    out.push(StepAction::RunDefault);
    if has_post {
        out.push(StepAction::RunScript(hook_script(HookKind::Post, step)));
    }
    out.push(StepAction::MarkDone);
    assert(action_views(out@) =~= spec_step_actions(step@, done, has_override, has_pre, has_post));
    Some(out)
}

/// The line announcing step `i` (counted from zero) of `total`.
pub open spec fn banner_text(i: nat, total: nat, step: Seq<char>) -> Seq<char> {
    "==> ["@ + decimal(i + 1) + "/"@ + decimal(total) + "] "@ + step + "..."@
}

pub fn step_banner(i: u64, total: u64, step: &str) -> (r: String)
    requires
        i < u64::MAX,
    ensures
        r@ == banner_text(i as nat, total as nat, step@),
{
    let a = concat3("==> [", decimal_string(i + 1).as_str(), "/");
    let b = concat3(a.as_str(), decimal_string(total).as_str(), "] ");
    concat3(b.as_str(), step, "...")
}

/// The line closing a step that took `secs` seconds.
pub fn step_done_line(step: &str, secs: u64) -> (r: String)
    ensures
        r@ == "    "@ + step@ + " done ("@ + duration_text(secs) + ")"@,
{
    let a = concat3("    ", step, " done (");
    concat3(a.as_str(), format_duration(secs).as_str(), ")")
}

/// Why the checks after `assemble` stop a build.
pub open spec fn abi_failure_msg() -> Seq<char> {
    "the image cannot load its own binaries"@
}

pub open spec fn isa_failure_msg() -> Seq<char> {
    "binaries use extensions this board does not have"@
}

pub open spec fn failed_with(r: Result<(), Error>, msg: Seq<char>) -> bool {
    r matches Err(Error::CommandFailed { code, reason }) && code == 1 && reason@ == msg
}

/// The verdict of the checks that follow `assemble`.  `abi_fatal` is what
/// the ABI check found (none where it could not run); `isa_illegal` what
/// the ISA check found, asked only of boards it applies to.  A binary the
/// image cannot load always stops the build; one using extensions the
/// board lacks stops it only where the board asks for a strict check.  A
/// check that could not run stops nothing.
pub fn assemble_verdict(abi_fatal: Option<bool>, isa_applies: bool, isa_illegal: Option<bool>, isa_strict: bool) -> (r:
    Result<(), Error>)
    ensures
        abi_fatal == Some(true) ==> failed_with(r, abi_failure_msg()),
        abi_fatal != Some(true) && isa_applies && isa_illegal == Some(true) && isa_strict ==> failed_with(
            r,
            isa_failure_msg(),
        ),
        r is Ok <==> !(abi_fatal == Some(true) || (isa_applies && isa_illegal == Some(true) && isa_strict)),
{
    if matches!(abi_fatal, Some(true)) {
        return Err(Error::CommandFailed { code: 1, reason: owned("the image cannot load its own binaries") });
    }
    if isa_applies && matches!(isa_illegal, Some(true)) && isa_strict {
        return Err(
            Error::CommandFailed { code: 1, reason: owned("binaries use extensions this board does not have") },
        );
    }
    Ok(())
}

/// The closing line of a build that took `secs` seconds.
pub fn build_complete_line(secs: u64) -> (r: String)
    ensures
        r@ == "Build complete: "@ + duration_text(secs),
{
    concat("Build complete: ", format_duration(secs).as_str())
}

} // verus!

verus! {

/// A step's override hook replaces the step entirely: where the board has
/// one, neither the step's own work nor its pre or post hook runs.
pub proof fn law_override_replaces_the_step(step: Seq<char>, has_pre: bool, has_post: bool)
    ensures
        !spec_step_actions(step, false, true, has_pre, has_post).contains(StepActionView::RunDefault),
        spec_step_actions(step, false, true, has_pre, has_post) == seq![
            StepActionView::RunScript(hook_name(HookKind::Override, step)),
            StepActionView::MarkDone,
        ],
{
    let a = spec_step_actions(step, false, true, has_pre, has_post);
    assert(a[0] != StepActionView::RunDefault && a[1] != StepActionView::RunDefault);
}

/// Every step that runs ends by writing its marker, and a step whose marker
/// is written runs nothing: a resumed build never repeats a finished step.
pub proof fn law_finished_steps_are_not_repeated(step: Seq<char>, o: bool, pre: bool, post: bool)
    ensures
        spec_step_actions(step, true, o, pre, post).len() == 0,
        spec_step_actions(step, false, o, pre, post).len() > 0,
        spec_step_actions(step, false, o, pre, post).last() == StepActionView::MarkDone,
{
}

} // verus!
