//! Stage management: updating a stage3 inside the sandbox, and the registry
//! of sandboxes with the state each is in.
use vstd::prelude::*;
use crate::config::PlatformConfig;
use crate::crossdev::CrossdevError;
use crate::sandbox::{strings, SandboxError};
use crate::stage3::Stage3Error;
use crate::text::{concat, concat3, owned, text_eq};

verus! {

/// Why a stage operation failed.
#[derive(Debug)]
pub enum StageError {
    Stage3Error(Stage3Error),
    ConfigError(String),
    IoError(String),
    SandboxError(SandboxError),
    CrossdevError(CrossdevError),
}

/// One command for the sandbox: a program and its arguments.
#[derive(Debug)]
pub struct SandboxCommand {
    pub program: String,
    pub args: Vec<String>,
}

pub open spec fn command_is(c: SandboxCommand, program: Seq<char>, args: Seq<Seq<char>>) -> bool {
    c.program@ == program && c.args.deep_view() == args
}

/// Updates the stage3 of one platform.
#[derive(Debug)]
pub struct StageManager {
    config: PlatformConfig,
}

impl StageManager {
    pub closed spec fn platform(&self) -> PlatformConfig {
        self.config
    }

    /// A manager for the platform `config`.  The cache directory and mirror
    /// are not used by the update.
    pub fn new(config: PlatformConfig, cache_dir: &str, mirror_url: &str) -> (r: StageManager)
        ensures
            r.platform() == config,
    {
        StageManager { config }
    }

    fn emerge(&self, args: &[&str]) -> (r: SandboxCommand)
        ensures
            command_is(
                r,
                self.platform().target.chost@ + "-emerge"@,
                args@.map_values(|s: &str| s@),
            ),
    {
        SandboxCommand {
            program: concat(self.config.target.chost.as_str(), "-emerge"),
            args: strings(args),
        }
    }

    /// The commands that update a stage3, in order, with the target's
    /// `<chost>-emerge`: gcc, binutils-libs, the system set (all as binary
    /// packages where available), then the world set rebuilt.
    pub fn update_stage3_commands(&self) -> (r: Vec<SandboxCommand>)
        ensures
            ({
                let em = self.platform().target.chost@ + "-emerge"@;
                &&& r@.len() == 4
                &&& command_is(r@[0], em, seq!["-b"@, "-k"@, "gcc"@])
                &&& command_is(r@[1], em, seq!["-b"@, "-k"@, "sys-libs/binutils-libs"@])
                &&& command_is(r@[2], em, seq!["-b"@, "-k"@, "-u"@, "system"@])
                &&& command_is(r@[3], em, seq!["-k"@, "-e"@, "@world"@])
            }),
    {
        let mut out: Vec<SandboxCommand> = Vec::new();
        let c0 = self.emerge(&["-b", "-k", "gcc"]);
        assert(c0.args.deep_view() =~= seq!["-b"@, "-k"@, "gcc"@]);
        out.push(c0);
        let c1 = self.emerge(&["-b", "-k", "sys-libs/binutils-libs"]);
        assert(c1.args.deep_view() =~= seq!["-b"@, "-k"@, "sys-libs/binutils-libs"@]);
        out.push(c1);
        let c2 = self.emerge(&["-b", "-k", "-u", "system"]);
        assert(c2.args.deep_view() =~= seq!["-b"@, "-k"@, "-u"@, "system"@]);
        out.push(c2);
        let c3 = self.emerge(&["-k", "-e", "@world"]);
        assert(c3.args.deep_view() =~= seq!["-k"@, "-e"@, "@world"@]);
        out.push(c3);
        out
    }

    /// The command that rebuilds the library cache of the stage at
    /// `stage_dir`.
    pub fn update_ldconfig_command(&self, stage_dir: &str) -> (r: SandboxCommand)
        ensures
            command_is(r, "ldconfig"@, seq!["-v"@, "-r"@, stage_dir@]),
    {
        let mut args: Vec<String> = Vec::new();
        args.push(owned("-v"));
        args.push(owned("-r"));
        args.push(owned(stage_dir));
        assert(args.deep_view() =~= seq!["-v"@, "-r"@, stage_dir@]);
        SandboxCommand { program: owned("ldconfig"), args }
    }
}

/// What state a sandbox is in.
#[derive(Debug, Clone, Copy, PartialEq, Eq, Structural)]
pub enum SandboxStatus {
    New,
    Prepared,
    StageLoaded,
    Updating,
    Error,
}

/// One tracked sandbox.
#[derive(Debug, Clone)]
pub struct SandboxState {
    pub name: String,
    pub state: SandboxStatus,
    /// The stage loaded into it, if any.
    pub loaded_stage: Option<String>,
    pub last_updated: String,
    pub created_at: String,
}

#[verifier::external_type_specification]
#[verifier::external_body]
pub struct ExTimestamp(jiff::Timestamp);

/// Calls `jiff::Timestamp::now()`: the current time, of which nothing is
/// claimed.
#[verifier::external_body]
pub(crate) fn timestamp_now() -> jiff::Timestamp {
    jiff::Timestamp::now()
}

/// Formats a timestamp with `jiff`'s `strftime(format)`, rendered with
/// `to_string`; nothing is claimed of the text.
#[verifier::external_body]
pub(crate) fn format_timestamp(t: &jiff::Timestamp, format: &str) -> String {
    t.strftime(format).to_string()
}

/// Every sandbox and its state, in the order they were last recorded.
#[derive(Debug)]
pub struct SandboxRegistry {
    sandboxes: Vec<SandboxState>,
}

/// `s` without the entries named `name`, in order.
pub open spec fn without_name(s: Seq<SandboxState>, name: Seq<char>) -> Seq<SandboxState>
    decreases s.len(),
{
    if s.len() == 0 {
        seq![]
    } else {
        let rest = without_name(s.drop_last(), name);
        if s.last().name@ == name {
            rest
        } else {
            rest.push(s.last())
        }
    }
}

/// Index of the first entry of `s` named `name`, or -1.
pub open spec fn first_named(s: Seq<SandboxState>, name: Seq<char>) -> int
    decreases s.len(),
{
    if s.len() == 0 {
        -1
    } else if s[0].name@ == name {
        0
    } else {
        let r = first_named(s.drop_first(), name);
        if r < 0 {
            -1
        } else {
            r + 1
        }
    }
}

/// The message for removing a sandbox the registry does not hold.
pub open spec fn not_found_msg(name: Seq<char>) -> Seq<char> {
    "Sandbox '"@ + name + "' not found"@
}

pub proof fn lemma_first_named(s: Seq<SandboxState>, name: Seq<char>)
    ensures
        -1 <= first_named(s, name) < s.len(),
        first_named(s, name) >= 0 ==> s[first_named(s, name)].name@ == name,
        forall|k: int|
            0 <= k < s.len() && (first_named(s, name) < 0 || k < first_named(s, name)) ==> #[trigger] s[k].name@
                != name,
    decreases s.len(),
{
    if s.len() > 0 && s[0].name@ != name {
        lemma_first_named(s.drop_first(), name);
        assert forall|k: int|
            0 <= k < s.len() && (first_named(s, name) < 0 || k < first_named(s, name)) implies #[trigger] s[k].name@
            != name by {
            if k > 0 {
                assert(s[k] == s.drop_first()[k - 1]);
            }
        }
    }
}

proof fn lemma_first_named_absent(s: Seq<SandboxState>, name: Seq<char>)
    requires
        forall|k: int| 0 <= k < s.len() ==> #[trigger] s[k].name@ != name,
    ensures
        first_named(s, name) == -1,
    decreases s.len(),
{
    if s.len() > 0 {
        lemma_first_named_absent(s.drop_first(), name);
    }
}

/// Nothing named `name` is left once it is filtered out.
pub proof fn lemma_without_name(s: Seq<SandboxState>, name: Seq<char>)
    ensures
        forall|k: int| 0 <= k < without_name(s, name).len() ==> #[trigger] without_name(s, name)[k].name@
            != name,
        without_name(s, name).len() <= s.len(),
    decreases s.len(),
{
    if s.len() > 0 {
        lemma_without_name(s.drop_last(), name);
    }
}

/// Filtering out a name that no entry has changes nothing.
pub proof fn lemma_without_absent_name(s: Seq<SandboxState>, name: Seq<char>)
    requires
        forall|k: int| 0 <= k < s.len() ==> #[trigger] s[k].name@ != name,
    ensures
        without_name(s, name) == s,
    decreases s.len(),
{
    if s.len() > 0 {
        lemma_without_absent_name(s.drop_last(), name);
        assert(s.drop_last().push(s.last()) =~= s);
    }
}

impl SandboxRegistry {
    pub closed spec fn entries(&self) -> Seq<SandboxState> {
        self.sandboxes@
    }

    /// An empty registry.
    pub fn new() -> (r: SandboxRegistry)
        ensures
            r.entries().len() == 0,
            r.entries() == apply_ops(seq![], seq![]),
    {
        SandboxRegistry { sandboxes: Vec::new() }
    }

    /// Record `sandbox`, replacing every entry with its name; it becomes
    /// the last entry.
    pub fn upsert_sandbox(&mut self, sandbox: SandboxState) -> (r: Result<(), StageError>)
        ensures
            r is Ok,
            final(self).entries() == without_name(old(self).entries(), sandbox.name@).push(sandbox),
            final(self).entries() == apply_op(old(self).entries(), RegistryOp::Upsert(sandbox)),
    {
        let ghost v = self.sandboxes@;
        let mut kept: Vec<SandboxState> = Vec::new();
        let mut old_list: Vec<SandboxState> = Vec::new();
        std::mem::swap(&mut old_list, &mut self.sandboxes);
        let ghost mut i: int = 0;
        assert(v.take(0) =~= Seq::<SandboxState>::empty());
        assert(v.skip(0) =~= v);
        while old_list.len() > 0
            invariant
                0 <= i <= v.len(),
                old_list@ == v.skip(i),
                kept@ == without_name(v.take(i), sandbox.name@),
            decreases old_list@.len(),
        {
            assert(v.take(i + 1).drop_last() =~= v.take(i));
            let x = old_list.remove(0);
            assert(x == v[i]);
            if !text_eq(x.name.as_str(), sandbox.name.as_str()) {
                kept.push(x);
            }
            proof {
                assert(old_list@ =~= v.skip(i + 1));
                i = i + 1;
            }
        }
        assert(v.take(i) =~= v);
        kept.push(sandbox);
        self.sandboxes = kept;
        Ok(())
    }

    /// The first sandbox named `name`.
    pub fn get_sandbox(&self, name: &str) -> (r: Option<&SandboxState>)
        ensures
            ({
                let i = first_named(self.entries(), name@);
                if i >= 0 {
                    r == Some(&self.entries()[i])
                } else {
                    r is None
                }
            }),
    {
        match self.position(name) {
            Some(i) => Some(&self.sandboxes[i]),
            None => None,
        }
    }

    fn position(&self, name: &str) -> (r: Option<usize>)
        ensures
            match r {
                Some(i) => i == first_named(self.entries(), name@) && i < self.entries().len(),
                None => first_named(self.entries(), name@) == -1,
            },
    {
        let mut i: usize = 0;
        while i < self.sandboxes.len()
            invariant
                i <= self.sandboxes@.len(),
                forall|k: int| 0 <= k < i ==> #[trigger] self.sandboxes@[k].name@ != name@,
            decreases self.sandboxes@.len() - i,
        {
            if text_eq(self.sandboxes[i].name.as_str(), name) {
                proof {
                    lemma_first_named(self.entries(), name@);
                    let j = first_named(self.entries(), name@);
                    if j >= 0 && j < i {
                        assert(self.sandboxes@[j].name@ != name@);
                    }
                }
                return Some(i);
            }
            i = i + 1;
        }
        proof {
            lemma_first_named_absent(self.entries(), name@);
        }
        None
    }

    /// Every sandbox, in order.
    pub fn list_sandboxes(&self) -> (r: &[SandboxState])
        ensures
            r@ == self.entries(),
    {
        self.sandboxes.as_slice()
    }

    /// Remove the first sandbox named `name`, handing it back.
    pub fn remove_sandbox(&mut self, name: &str) -> (r: Result<SandboxState, StageError>)
        ensures
            ({
                let i = first_named(old(self).entries(), name@);
                if i >= 0 {
                    r == Ok::<SandboxState, StageError>(old(self).entries()[i])
                        && final(self).entries() == old(self).entries().remove(i)
                } else {
                    final(self).entries() == old(self).entries() && (r matches Err(
                        StageError::ConfigError(m),
                    ) && m@ == not_found_msg(name@))
                }
            }),
            final(self).entries() == apply_op(old(self).entries(), RegistryOp::Remove(name@)),
    {
        match self.position(name) {
            Some(i) => Ok(self.sandboxes.remove(i)),
            None => Err(StageError::ConfigError(concat3("Sandbox '", name, "' not found"))),
        }
    }
}

impl SandboxRegistry {
    /// A new state for the sandbox `name`: nothing loaded, created and
    /// updated now (both stamped with the same hour).
    pub fn create_sandbox_state(name: &str, status: SandboxStatus) -> (r: SandboxState)
        ensures
            r.name@ == name@,
            r.state == status,
            r.loaded_stage is None,
            r.last_updated@ == r.created_at@,
    {
        let now = timestamp_now();
        let stamp = format_timestamp(&now, "%Y%m%dT%H");
        SandboxState {
            name: owned(name),
            state: status,
            loaded_stage: None,
            last_updated: crate::text::copy_string(&stamp),
            created_at: stamp,
        }
    }
}

/// After recording a sandbox, looking up its name finds exactly it.
pub proof fn law_upserted_sandbox_is_found(before: Seq<SandboxState>, s: SandboxState)
    ensures
        ({
            let after = without_name(before, s.name@).push(s);
            let i = first_named(after, s.name@);
            i >= 0 && after[i] == s
        }),
{
    let w = without_name(before, s.name@);
    lemma_without_name(before, s.name@);
    let after = w.push(s);
    lemma_first_named(after, s.name@);
    assert forall|k: int| 0 <= k < w.len() implies #[trigger] after[k].name@ != s.name@ by {
        assert(after[k] == w[k]);
    }
    if first_named(after, s.name@) < 0 {
        assert(after[w.len() as int] == s);
    } else if first_named(after, s.name@) < w.len() {
        let i = first_named(after, s.name@);
        assert(after[i] == w[i]);
    }
}

/// Recording the same sandbox twice leaves the registry as recording it
/// once.
pub proof fn law_upsert_is_idempotent(before: Seq<SandboxState>, s: SandboxState)
    ensures
        ({
            let once = without_name(before, s.name@).push(s);
            without_name(once, s.name@).push(s) == once
        }),
{
    let w = without_name(before, s.name@);
    lemma_without_name(before, s.name@);
    let once = w.push(s);
    assert(once.drop_last() =~= w);
    lemma_without_absent_name(w, s.name@);
}

/// Removing a sandbox right after recording it under a new name gives it
/// back and leaves the registry as it was.
pub proof fn law_remove_undoes_new_upsert(before: Seq<SandboxState>, s: SandboxState)
    requires
        forall|k: int| 0 <= k < before.len() ==> #[trigger] before[k].name@ != s.name@,
    ensures
        ({
            let after = without_name(before, s.name@).push(s);
            let i = first_named(after, s.name@);
            i >= 0 && after[i] == s && after.remove(i) == before
        }),
{
    lemma_without_absent_name(before, s.name@);
    let after = before.push(s);
    lemma_first_named(after, s.name@);
    assert forall|k: int| 0 <= k < before.len() implies #[trigger] after[k].name@ != s.name@ by {
        assert(after[k] == before[k]);
    }
    let i = first_named(after, s.name@);
    if i < 0 {
        assert(after[before.len() as int] == s);
    } else if i < before.len() {
        assert(after[i] == before[i]);
    }
    assert(i == before.len());
    assert(after.remove(i) =~= before);
}

/// No two entries of `s` share a name.
pub open spec fn names_distinct(s: Seq<SandboxState>) -> bool {
    forall|i: int, j: int| 0 <= i < j < s.len() ==> #[trigger] s[i].name@ != #[trigger] s[j].name@
}

/// A call that changes a registry: recording a sandbox, or removing the one
/// with a name.
pub enum RegistryOp {
    Upsert(SandboxState),
    Remove(Seq<char>),
}

/// The entries after `op`, as `upsert_sandbox` and `remove_sandbox` state
/// them.
pub open spec fn apply_op(s: Seq<SandboxState>, op: RegistryOp) -> Seq<SandboxState> {
    match op {
        RegistryOp::Upsert(x) => without_name(s, x.name@).push(x),
        RegistryOp::Remove(name) => {
            let i = first_named(s, name);
            if i >= 0 {
                s.remove(i)
            } else {
                s
            }
        },
    }
}

/// The entries after `ops`, applied in turn to `s`.
pub open spec fn apply_ops(s: Seq<SandboxState>, ops: Seq<RegistryOp>) -> Seq<SandboxState>
    decreases ops.len(),
{
    if ops.len() == 0 {
        s
    } else {
        apply_op(apply_ops(s, ops.drop_last()), ops.last())
    }
}

proof fn lemma_without_name_keeps(s: Seq<SandboxState>, name: Seq<char>)
    ensures
        forall|k: int|
            0 <= k < without_name(s, name).len() ==> s.contains(#[trigger] without_name(s, name)[k]),
        names_distinct(s) ==> names_distinct(without_name(s, name)),
    decreases s.len(),
{
    if s.len() > 0 {
        let p = s.drop_last();
        lemma_without_name_keeps(p, name);
        let w = without_name(p, name);
        assert forall|k: int| 0 <= k < without_name(s, name).len() implies s.contains(
            #[trigger] without_name(s, name)[k],
        ) by {
            if k < w.len() {
                assert(without_name(s, name)[k] == w[k]);
                let j = choose|j: int| 0 <= j < p.len() && p[j] == w[k];
                assert(s[j] == p[j]);
            } else {
                assert(s[s.len() - 1] == s.last());
            }
        }
        if names_distinct(s) {
            assert forall|i: int, j: int| 0 <= i < j < p.len() implies #[trigger] p[i].name@
                != #[trigger] p[j].name@ by {
                assert(p[i] == s[i] && p[j] == s[j]);
            }
            if s.last().name@ != name {
                let r = without_name(s, name);
                assert forall|i: int, j: int| 0 <= i < j < r.len() implies #[trigger] r[i].name@
                    != #[trigger] r[j].name@ by {
                    if j == w.len() {
                        assert(r[i] == w[i]);
                        let m = choose|m: int| 0 <= m < p.len() && p[m] == w[i];
                        assert(s[m] == p[m]);
                        assert(s[s.len() - 1] == s.last());
                    } else {
                        assert(r[i] == w[i] && r[j] == w[j]);
                    }
                }
            }
        }
    }
}

/// Recording a sandbox keeps the names of a registry distinct: every other
/// entry with its name is replaced.
pub proof fn law_upsert_keeps_names_distinct(before: Seq<SandboxState>, s: SandboxState)
    requires
        names_distinct(before),
    ensures
        names_distinct(without_name(before, s.name@).push(s)),
{
    let w = without_name(before, s.name@);
    lemma_without_name(before, s.name@);
    lemma_without_name_keeps(before, s.name@);
    let after = w.push(s);
    assert forall|i: int, j: int| 0 <= i < j < after.len() implies #[trigger] after[i].name@
        != #[trigger] after[j].name@ by {
        assert(after[i] == w[i]);
        if j < w.len() {
            assert(after[j] == w[j]);
        }
    }
}

/// Removing a sandbox keeps the names of a registry distinct.
pub proof fn law_remove_keeps_names_distinct(before: Seq<SandboxState>, name: Seq<char>)
    requires
        names_distinct(before),
    ensures
        names_distinct(apply_op(before, RegistryOp::Remove(name))),
{
    lemma_first_named(before, name);
    let i = first_named(before, name);
    if i >= 0 {
        let after = before.remove(i);
        assert forall|a: int, b: int| 0 <= a < b < after.len() implies #[trigger] after[a].name@
            != #[trigger] after[b].name@ by {
            let a2 = if a < i { a } else { a + 1 };
            let b2 = if b < i { b } else { b + 1 };
            assert(after[a] == before[a2] && after[b] == before[b2]);
        }
    }
}

/// Whatever upserts and removals a registry goes through from empty, no two
/// of its sandboxes share a name.
pub proof fn law_registry_names_stay_distinct(ops: Seq<RegistryOp>)
    ensures
        names_distinct(apply_ops(seq![], ops)),
    decreases ops.len(),
{
    if ops.len() > 0 {
        law_registry_names_stay_distinct(ops.drop_last());
        let s = apply_ops(seq![], ops.drop_last());
        match ops.last() {
            RegistryOp::Upsert(x) => law_upsert_keeps_names_distinct(s, x),
            RegistryOp::Remove(n) => law_remove_keeps_names_distinct(s, n),
        }
    }
}

/// The platform whose configuration is used when none is named.
pub fn default_platform() -> (r: &'static str)
    ensures
        r@ == "riscv64-k1"@,
{
    "riscv64-k1"
}

} // verus!
