//! The bootloader pipeline: which stages a board runs, in what order, and
//! what each stage hands to the ones after it.
//!
//! Each stage (opensbi, uboot, tfa, rkbin, amlogic-fip) says what it checks
//! out, how it is built, and which environment settings it exports to the
//! stages after it.  A board's `BOOT_PIPELINE` orders them; without one the
//! default pipeline is `opensbi uboot`.
pub mod amlogic_fip;
pub mod opensbi;
pub mod rkbin;
pub mod tfa;
pub mod uboot;

use vstd::prelude::*;
use crate::board::BoardConfig;
use crate::error::{is_board_error, Error};
use crate::sandbox::clone_strings;
use crate::text::{concat3, copy_string, owned, text_eq};

verus! {

/// The stages a `BOOT_PIPELINE` may name.
pub open spec fn is_stage(s: Seq<char>) -> bool {
    s == "opensbi"@ || s == "uboot"@ || s == "tfa"@ || s == "rkbin"@ || s == "amlogic-fip"@
}

/// The five stage names differ from one another.
proof fn lemma_stage_names_distinct()
    ensures
        "opensbi"@ != "uboot"@,
        "opensbi"@ != "tfa"@,
        "opensbi"@ != "rkbin"@,
        "opensbi"@ != "amlogic-fip"@,
        "uboot"@ != "tfa"@,
        "uboot"@ != "rkbin"@,
        "uboot"@ != "amlogic-fip"@,
        "tfa"@ != "rkbin"@,
        "tfa"@ != "amlogic-fip"@,
        "rkbin"@ != "amlogic-fip"@,
{
    reveal_strlit("opensbi");
    reveal_strlit("uboot");
    reveal_strlit("tfa");
    reveal_strlit("rkbin");
    reveal_strlit("amlogic-fip");
    assert("opensbi"@[0] != "uboot"@[0]);
    assert("opensbi"@[0] != "tfa"@[0]);
    assert("opensbi"@[0] != "rkbin"@[0]);
    assert("opensbi"@[0] != "amlogic-fip"@[0]);
    assert("uboot"@[0] != "tfa"@[0]);
    assert("uboot"@[0] != "rkbin"@[0]);
    assert("uboot"@[0] != "amlogic-fip"@[0]);
    assert("tfa"@[0] != "rkbin"@[0]);
    assert("tfa"@[0] != "amlogic-fip"@[0]);
    assert("rkbin"@[0] != "amlogic-fip"@[0]);
}

/// The stage names, space separated, as error messages list them.
pub open spec fn stages_joined() -> Seq<char> {
    "opensbi uboot tfa rkbin amlogic-fip"@
}

/// Whether `s` names a bootloader stage.
pub fn is_known_stage(s: &str) -> (r: bool)
    ensures
        r == is_stage(s@),
{
    text_eq(s, "opensbi") || text_eq(s, "uboot") || text_eq(s, "tfa") || text_eq(s, "rkbin")
        || text_eq(s, "amlogic-fip")
}

/// The stage names, space separated.
pub fn stages_text() -> (r: String)
    ensures
        r@ == stages_joined(),
{
    owned("opensbi uboot tfa rkbin amlogic-fip")
}

/// The text of an optional setting, or `d` where it is unset.
pub open spec fn spec_text_or(o: Option<String>, d: Seq<char>) -> Seq<char> {
    match o {
        Some(s) => s@,
        None => d,
    }
}

/// An optional setting's text, or `d`.
pub fn text_or(o: &Option<String>, d: &str) -> (r: String)
    ensures
        r@ == spec_text_or(*o, d@),
{
    match o {
        Some(s) => copy_string(s),
        None => owned(d),
    }
}

/// A source checkout a stage needs: `repo` at `tag` into `dest`, cached
/// under `name`.
#[derive(Debug, Clone)]
pub struct CloneRequest {
    pub repo: String,
    pub tag: String,
    pub dest: String,
    pub name: String,
}

/// A checkout as plain text.
pub struct CloneView {
    pub repo: Seq<char>,
    pub tag: Seq<char>,
    pub dest: Seq<char>,
    pub name: Seq<char>,
}

impl View for CloneRequest {
    type V = CloneView;

    open spec fn view(&self) -> CloneView {
        CloneView { repo: self.repo@, tag: self.tag@, dest: self.dest@, name: self.name@ }
    }
}

pub open spec fn opt_clone(o: Option<CloneRequest>) -> Option<CloneView> {
    match o {
        Some(c) => Some(c@),
        None => None,
    }
}

/// The pipeline of a board: its `BOOT_PIPELINE` where declared (an empty
/// one runs no stage), else `opensbi uboot`.
pub open spec fn spec_pipeline(b: BoardConfig) -> Seq<Seq<char>> {
    match b.boot_pipeline {
        Some(v) => v.deep_view(),
        None => seq!["opensbi"@, "uboot"@],
    }
}

/// The pipeline used when a board declares none.
pub fn default_pipeline() -> (r: Vec<String>)
    ensures
        r.deep_view() == seq!["opensbi"@, "uboot"@],
{
    let mut v: Vec<String> = Vec::new();
    v.push(owned("opensbi"));
    v.push(owned("uboot"));
    assert(v.deep_view() =~= seq!["opensbi"@, "uboot"@]);
    v
}

/// The stages `board` runs, in order.
pub fn pipeline(board: &BoardConfig) -> (r: Vec<String>)
    ensures
        r.deep_view() == spec_pipeline(*board),
{
    match &board.boot_pipeline {
        Some(v) => clone_strings(v),
        None => default_pipeline(),
    }
}

/// The message for a stage name no stage answers to.
pub open spec fn unknown_msg(name: Seq<char>) -> Seq<char> {
    "unknown BOOT_PIPELINE stage '"@ + name + "'"@
}

fn unknown(name: &str, board: &BoardConfig) -> (e: Error)
    ensures
        is_board_error(e, board.name@, unknown_msg(name@)),
{
    Error::BoardConfigParse {
        file: copy_string(&board.name),
        msg: concat3("unknown BOOT_PIPELINE stage '", name, "'"),
    }
}

/// The build command of the stage `name`, given the earlier exports `env`.
pub open spec fn stage_build(name: Seq<char>, b: BoardConfig, env: Seq<Seq<char>>) -> Option<
    Seq<char>,
> {
    if name == "opensbi"@ {
        opensbi::spec_build(b, env)
    } else if name == "uboot"@ {
        uboot::spec_build(b, env)
    } else if name == "tfa"@ {
        tfa::spec_build(b)
    } else if name == "amlogic-fip"@ {
        amlogic_fip::spec_build(b)
    } else {
        None
    }
}

/// The settings the stage `name` exports to the stages after it.
pub open spec fn stage_exports(name: Seq<char>, b: BoardConfig) -> Seq<Seq<char>> {
    if name == "tfa"@ {
        tfa::spec_exports(b)
    } else if name == "rkbin"@ {
        rkbin::spec_exports(b)
    } else {
        seq![]
    }
}

/// The checkout of the stage `name`.
pub open spec fn stage_clone(name: Seq<char>, b: BoardConfig) -> Option<CloneView> {
    if name == "opensbi"@ {
        opensbi::spec_clone(b)
    } else if name == "uboot"@ {
        uboot::spec_clone(b)
    } else if name == "tfa"@ {
        tfa::spec_clone(b)
    } else if name == "rkbin"@ {
        rkbin::spec_clone(b)
    } else if name == "amlogic-fip"@ {
        amlogic_fip::spec_clone(b)
    } else {
        None
    }
}

/// The stage `name` cannot say what to check out: U-Boot with a repo and
/// no tag.
pub open spec fn stage_clone_fails(name: Seq<char>, b: BoardConfig) -> bool {
    name == "uboot"@ && b.u_boot_repo is Some && b.u_boot_tag is None
}

/// Everything the stages `s` export, in order.
pub open spec fn exports_of(s: Seq<Seq<char>>, b: BoardConfig) -> Seq<Seq<char>>
    decreases s.len(),
{
    if s.len() == 0 {
        seq![]
    } else {
        exports_of(s.drop_last(), b) + stage_exports(s.last(), b)
    }
}

/// The build commands of the stages `s`, each given what the stages before
/// it exported.
pub open spec fn commands_of(s: Seq<Seq<char>>, b: BoardConfig) -> Seq<Seq<char>>
    decreases s.len(),
{
    if s.len() == 0 {
        seq![]
    } else {
        let prev = commands_of(s.drop_last(), b);
        match stage_build(s.last(), b, exports_of(s.drop_last(), b)) {
            Some(c) => prev.push(c),
            None => prev,
        }
    }
}

/// The checkouts of the stages `s`.
pub open spec fn clones_of(s: Seq<Seq<char>>, b: BoardConfig) -> Seq<CloneView>
    decreases s.len(),
{
    if s.len() == 0 {
        seq![]
    } else {
        let prev = clones_of(s.drop_last(), b);
        match stage_clone(s.last(), b) {
            Some(c) => prev.push(c),
            None => prev,
        }
    }
}

/// Index of the first name in `s` that is no stage, or its length.
pub open spec fn first_unknown(s: Seq<Seq<char>>) -> int
    decreases s.len(),
{
    if s.len() == 0 || !is_stage(s[0]) {
        0
    } else {
        first_unknown(s.drop_first()) + 1
    }
}

/// Index of the first stage of `s` that stops the checkouts (an unknown
/// name, or U-Boot without a tag), or its length.
pub open spec fn first_clone_stop(s: Seq<Seq<char>>, b: BoardConfig) -> int
    decreases s.len(),
{
    if s.len() == 0 || !is_stage(s[0]) || stage_clone_fails(s[0], b) {
        0
    } else {
        first_clone_stop(s.drop_first(), b) + 1
    }
}

proof fn lemma_first_unknown(s: Seq<Seq<char>>)
    ensures
        0 <= first_unknown(s) <= s.len(),
        forall|k: int| 0 <= k < first_unknown(s) ==> is_stage(#[trigger] s[k]),
        first_unknown(s) < s.len() ==> !is_stage(s[first_unknown(s)]),
    decreases s.len(),
{
    if s.len() > 0 && is_stage(s[0]) {
        lemma_first_unknown(s.drop_first());
        assert forall|k: int| 0 <= k < first_unknown(s) implies is_stage(#[trigger] s[k]) by {
            if k > 0 {
                assert(s[k] == s.drop_first()[k - 1]);
            }
        }
    }
}

proof fn lemma_first_clone_stop(s: Seq<Seq<char>>, b: BoardConfig)
    ensures
        0 <= first_clone_stop(s, b) <= s.len(),
        forall|k: int|
            0 <= k < first_clone_stop(s, b) ==> is_stage(#[trigger] s[k]) && !stage_clone_fails(
                s[k],
                b,
            ),
        first_clone_stop(s, b) < s.len() ==> !is_stage(s[first_clone_stop(s, b)])
            || stage_clone_fails(s[first_clone_stop(s, b)], b),
    decreases s.len(),
{
    if s.len() > 0 && is_stage(s[0]) && !stage_clone_fails(s[0], b) {
        lemma_first_clone_stop(s.drop_first(), b);
        assert forall|k: int| 0 <= k < first_clone_stop(s, b) implies is_stage(#[trigger] s[k])
            && !stage_clone_fails(s[k], b) by {
            if k > 0 {
                assert(s[k] == s.drop_first()[k - 1]);
            }
        }
    }
}

/// The build commands of a pipeline, in order, and the error that stops
/// it: the commands of the stages before the first unknown one, then that
/// stage's error.
#[derive(Debug)]
pub struct BuildPlan {
    pub commands: Vec<String>,
    pub error: Option<Error>,
}

/// The checkouts of a pipeline, in order, and the error that stops them.
#[derive(Debug)]
pub struct ClonePlan {
    pub requests: Vec<CloneRequest>,
    pub error: Option<Error>,
}

fn build_stage(name: &str, board: &BoardConfig, env: &Vec<String>) -> (r: Option<String>)
    requires
        is_stage(name@),
    ensures
        r.deep_view() == stage_build(name@, *board, env.deep_view()),
{
    proof {
        lemma_stage_names_distinct();
    }
    if text_eq(name, "opensbi") {
        opensbi::build_command(board, env)
    } else if text_eq(name, "uboot") {
        uboot::build_command(board, env)
    } else if text_eq(name, "tfa") {
        tfa::build_command(board, env)
    } else if text_eq(name, "rkbin") {
        rkbin::build_command(board, env)
    } else {
        amlogic_fip::build_command(board, env)
    }
}

fn exports_of_stage(name: &str, board: &BoardConfig) -> (r: Vec<String>)
    requires
        is_stage(name@),
    ensures
        r.deep_view() == stage_exports(name@, *board),
{
    proof {
        lemma_stage_names_distinct();
    }
    let r = if text_eq(name, "opensbi") {
        opensbi::exports(board)
    } else if text_eq(name, "uboot") {
        uboot::exports(board)
    } else if text_eq(name, "tfa") {
        tfa::exports(board)
    } else if text_eq(name, "rkbin") {
        rkbin::exports(board)
    } else {
        amlogic_fip::exports(board)
    };
    proof {
        if r@.len() == 0 {
            assert(r.deep_view() =~= Seq::<Seq<char>>::empty());
        }
    }
    r
}

fn clone_stage(name: &str, board: &BoardConfig) -> (r: Result<Option<CloneRequest>, Error>)
    requires
        is_stage(name@),
    ensures
        stage_clone_fails(name@, *board) <==> r is Err,
        r matches Ok(c) ==> opt_clone(c) == stage_clone(name@, *board),
        r matches Err(e) ==> is_board_error(e, board.name@, uboot::missing_tag_msg()),
{
    proof {
        lemma_stage_names_distinct();
    }
    if text_eq(name, "opensbi") {
        Ok(opensbi::clone_request(board))
    } else if text_eq(name, "uboot") {
        uboot::clone_request(board)
    } else if text_eq(name, "tfa") {
        Ok(tfa::clone_request(board))
    } else if text_eq(name, "rkbin") {
        Ok(rkbin::clone_request(board))
    } else {
        Ok(amlogic_fip::clone_request(board))
    }
}

/// The build commands of `board`'s pipeline, each with the exports of the
/// stages before it in front, up to the first unknown stage.
pub fn build_plan(board: &BoardConfig) -> (r: BuildPlan)
    ensures
        ({
            let s = spec_pipeline(*board);
            let u = first_unknown(s);
            &&& r.commands.deep_view() == commands_of(s.take(u), *board)
            &&& (r.error is Some <==> u < s.len())
            &&& r.error matches Some(e) ==> is_board_error(e, board.name@, unknown_msg(s[u]))
        }),
{
    let stages = pipeline(board);
    let ghost s = stages.deep_view();
    proof {
        lemma_first_unknown(s);
    }
    let mut commands: Vec<String> = Vec::new();
    let mut env: Vec<String> = Vec::new();
    let mut i: usize = 0;
    assert(s.take(0) =~= Seq::<Seq<char>>::empty());
    assert(commands.deep_view() =~= Seq::<Seq<char>>::empty());
    assert(env.deep_view() =~= Seq::<Seq<char>>::empty());
    while i < stages.len()
        invariant
            i <= stages@.len(),
            s == stages.deep_view(),
            s == spec_pipeline(*board),
            0 <= first_unknown(s) <= s.len(),
            forall|k: int| 0 <= k < first_unknown(s) ==> is_stage(#[trigger] s[k]),
            first_unknown(s) < s.len() ==> !is_stage(s[first_unknown(s)]),
            i <= first_unknown(s),
            commands.deep_view() == commands_of(s.take(i as int), *board),
            env.deep_view() == exports_of(s.take(i as int), *board),
        decreases stages@.len() - i,
    {
        let name = stages[i].as_str();
        assert(name@ == s[i as int]);
        if !is_known_stage(name) {
            return BuildPlan { commands, error: Some(unknown(name, board)) };
        }
        assert(s.take(i + 1).drop_last() =~= s.take(i as int));
        assert(s.take(i + 1).last() == s[i as int]);
        match build_stage(name, board, &env) {
            Some(cmd) => {
                let ghost before = commands.deep_view();
                commands.push(cmd);
                assert(commands.deep_view() =~= before.push(cmd@));
            },
            None => {},
        }
        let more = exports_of_stage(name, board);
        let ghost env_before = env.deep_view();
        let mut j: usize = 0;
        while j < more.len()
            invariant
                j <= more@.len(),
                env.deep_view() == env_before + more.deep_view().take(j as int),
            decreases more@.len() - j,
        {
            let ghost eb = env.deep_view();
            env.push(copy_string(&more[j]));
            assert(more.deep_view().take(j + 1) =~= more.deep_view().take(j as int).push(
                more@[j as int]@,
            ));
            assert(env.deep_view() =~= eb.push(more@[j as int]@));
            j = j + 1;
        }
        assert(more.deep_view().take(more@.len() as int) =~= more.deep_view());
        i = i + 1;
    }
    assert(s.take(i as int) =~= s);
    BuildPlan { commands, error: None }
}

/// The checkouts of `board`'s pipeline, up to the first stage that is
/// unknown or cannot say what to check out.
pub fn clone_plan(board: &BoardConfig) -> (r: ClonePlan)
    ensures
        ({
            let s = spec_pipeline(*board);
            let u = first_clone_stop(s, *board);
            &&& r.requests@.map_values(|c: CloneRequest| c@) == clones_of(s.take(u), *board)
            &&& (r.error is Some <==> u < s.len())
            &&& r.error matches Some(e) ==> (if is_stage(s[u]) {
                is_board_error(e, board.name@, uboot::missing_tag_msg())
            } else {
                is_board_error(e, board.name@, unknown_msg(s[u]))
            })
        }),
{
    let stages = pipeline(board);
    let ghost s = stages.deep_view();
    proof {
        lemma_first_clone_stop(s, *board);
    }
    let mut requests: Vec<CloneRequest> = Vec::new();
    let mut i: usize = 0;
    assert(s.take(0) =~= Seq::<Seq<char>>::empty());
    assert(requests@.map_values(|c: CloneRequest| c@) =~= Seq::<CloneView>::empty());
    while i < stages.len()
        invariant
            i <= stages@.len(),
            s == stages.deep_view(),
            s == spec_pipeline(*board),
            0 <= first_clone_stop(s, *board) <= s.len(),
            forall|k: int|
                0 <= k < first_clone_stop(s, *board) ==> is_stage(#[trigger] s[k])
                    && !stage_clone_fails(s[k], *board),
            first_clone_stop(s, *board) < s.len() ==> !is_stage(s[first_clone_stop(s, *board)])
                || stage_clone_fails(s[first_clone_stop(s, *board)], *board),
            i <= first_clone_stop(s, *board),
            requests@.map_values(|c: CloneRequest| c@) == clones_of(s.take(i as int), *board),
        decreases stages@.len() - i,
    {
        let name = stages[i].as_str();
        assert(name@ == s[i as int]);
        if !is_known_stage(name) {
            return ClonePlan { requests, error: Some(unknown(name, board)) };
        }
        assert(s.take(i + 1).drop_last() =~= s.take(i as int));
        assert(s.take(i + 1).last() == s[i as int]);
        match clone_stage(name, board) {
            Err(e) => {
                return ClonePlan { requests, error: Some(e) };
            },
            Ok(Some(req)) => {
                let ghost before = requests@.map_values(|c: CloneRequest| c@);
                let ghost rv = req@;
                requests.push(req);
                assert(requests@.map_values(|c: CloneRequest| c@) =~= before.push(rv));
            },
            Ok(None) => {},
        }
        i = i + 1;
    }
    assert(s.take(i as int) =~= s);
    ClonePlan { requests, error: None }
}

} // verus!
