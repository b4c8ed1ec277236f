//! What holds of the configuration, of the outline, and of what commands do to the state.
use vstd::prelude::*;
use crate::cli::commands::{history_text, rules_text, ReplCommandView};
use crate::cli::config::{
    default_config, file_to_read, overlaid, with_file, workspace_of, AppConfigView,
    PartialAppConfigView,
};
use crate::cli::main_loop::{
    command_move, plan_follow, plan_move, plan_next, plan_ran, plan_ran_text, provider_of,
    resumed_text, CommandStepView, MainLoopView, PlanStepView,
};
use crate::cli::outline::{
    in_order, is_ignored, is_sorted, outline_text, outlined, OutlineNode,
};
use crate::cli::plan::{first_runnable, plan_command, PlanCommandView, WorkflowPlanView};
use crate::number::decimal;
use crate::path::{all_names, is_plain_name, joined_path, rendered};
use crate::path_laws::last_names_are_files;
use crate::session::SessionView;
use crate::text::joined;
use crate::tools::grep::regex_refusal;
use crate::tools::registry::{pattern_of_request, refusal_of_request};
use crate::tools::tool::ToolRequestView;

verus! {

/// A setting that is given takes the place of the one before, and one that is not leaves it.
pub proof fn settings_take_the_place_of_others(config: AppConfigView, set: PartialAppConfigView)
    ensures
        ({
            let after = overlaid(config, set);
            &&& set.profile is Some ==> after.profile == set.profile->0
            &&& set.profile is None ==> after.profile == config.profile
            &&& set.workspace is Some ==> after.workspace == set.workspace->0
            &&& set.workspace is None ==> after.workspace == config.workspace
            &&& set.log_level is Some ==> after.log_level == set.log_level->0
            &&& set.log_level is None ==> after.log_level == config.log_level
            &&& set.provider_name is Some ==> after.provider.name == set.provider_name->0
            &&& set.provider_name is None ==> after.provider.name == config.provider.name
            &&& set.provider_model is Some ==> after.provider.model == set.provider_model->0
            &&& set.provider_model is None ==> after.provider.model == config.provider.model
            &&& set.api_base is Some ==> after.provider.api_base == set.api_base
            &&& set.api_base is None ==> after.provider.api_base == config.provider.api_base
            &&& set.api_key is Some ==> after.provider.api_key == set.api_key
            &&& set.api_key is None ==> after.provider.api_key == config.provider.api_key
            &&& with_file(config, Some(set)) == after
            &&& with_file(config, None) == config
        }),
{
}

/// Where nothing is set, the profile is `default` and the model is a stub without an address.
pub proof fn defaults_are_local(workspace: Seq<char>)
    ensures
        default_config(workspace).profile == "default"@,
        default_config(workspace).workspace == workspace,
        default_config(workspace).log_level == "warn"@,
        default_config(workspace).provider.name == "local"@,
        default_config(workspace).provider.model == "stub"@,
        default_config(workspace).provider.api_base is None,
        default_config(workspace).provider.api_key is None,
{
}

/// A file that is named is read; else the default one, where it exists.
pub proof fn named_files_are_read(path: Seq<char>, default_exists: bool)
    ensures
        file_to_read(Some(path), default_exists) == Some(path),
        file_to_read(None, true) == Some("rust-codingagent.toml"@),
        file_to_read(None, false) is None,
{
}

/// Work is done below the home directory where there is a place for it, else in the current
/// directory.
pub proof fn work_is_done_at_home(home: Seq<char>, current: Option<Seq<char>>)
    ensures
        workspace_of(Some(home), true, current) == joined_path(home, "workspace"@),
        workspace_of(Some(home), false, current) == workspace_of(None, false, current),
        workspace_of(None, true, current) == workspace_of(None, false, current),
        current is Some ==> workspace_of(None, false, current) == current->0,
        current is None ==> workspace_of(None, false, current) == "."@,
{
}

/// The first key there is counts: the configured one, the agent's own, the general one.
pub proof fn the_first_key_counts(
    config: AppConfigView,
    own_key: Option<Seq<char>>,
    general_key: Option<Seq<char>>,
)
    ensures
        ({
            let provider = provider_of(config, own_key, general_key);
            let configured = config.provider.api_key;
            &&& configured is None && own_key is None && general_key is None ==> provider is None
            &&& configured is Some || own_key is Some || general_key is Some ==> {
                &&& provider is Some
                &&& provider->0.name == config.provider.name
                &&& provider->0.model == config.provider.model
                &&& config.provider.api_base is Some ==> provider->0.api_base
                    == config.provider.api_base->0
                &&& config.provider.api_base is None ==> provider->0.api_base
                    == "https://api.deepseek.com/v1"@
            }
            &&& configured is Some ==> provider->0.api_key == configured->0
            &&& configured is None && own_key is Some ==> provider->0.api_key == own_key->0
            &&& configured is None && own_key is None && general_key is Some
                ==> provider->0.api_key == general_key->0
        }),
{
}

// ---------------------------------------------------------------------------
// The outline
// ---------------------------------------------------------------------------

/// What tools keep for themselves is left out of the outline, wherever it stands.
pub proof fn kept_entries_are_left_out(rooted: bool, names: Seq<Seq<char>>, name: Seq<char>)
    requires
        all_names(names),
        is_plain_name(name),
    ensures
        is_ignored(rendered(rooted, names.push(name))) <==> name == ".git"@ || name == "target"@
            || name == "node_modules"@ || name == ".rust-codingagent"@ || name == ".agents"@ || name
            == ".codex"@,
{
    last_names_are_files(rooted, names, name);
}

/// A file is one line of the outline; a directory is one with a slash at its end, and what
/// it holds follows before what stands beside it.
pub proof fn entries_are_outlined_in_order(
    nodes: Seq<OutlineNode>,
    i: int,
    depth: int,
    acc: Seq<Seq<char>>,
)
    requires
        0 <= i < nodes.len(),
        0 <= depth <= 2,
        acc.len() < 80,
    ensures
        !nodes[i].is_dir ==> outlined(nodes, i, depth, acc) == outlined(
            nodes,
            i + 1,
            depth,
            acc.push(nodes[i].path@),
        ),
        nodes[i].is_dir ==> outlined(nodes, i, depth, acc) == outlined(
            nodes,
            i + 1,
            depth,
            outlined(nodes[i].children@, 0, depth + 1, acc.push(nodes[i].path@ + "/"@)),
        ),
{
}

/// An outline goes two directories down, and has eighty lines at most.
pub proof fn outlines_end(nodes: Seq<OutlineNode>, i: int, depth: int, acc: Seq<Seq<char>>)
    ensures
        depth > 2 ==> outlined(nodes, i, depth, acc) == acc,
        acc.len() >= 80 ==> outlined(nodes, i, depth, acc) == acc,
        i >= nodes.len() ==> outlined(nodes, i, depth, acc) == acc,
        ({
            let all = outlined(nodes, 0, 0, Seq::empty());
            &&& all.len() > 0 ==> outline_text(nodes) == joined(all, "\n"@)
            &&& all.len() == 0 ==> outline_text(nodes) == "（工作区为空或无法读取）"@
        }),
{
}

/// Texts are in order by the first character in which they differ, and the shorter comes
/// first where they do not.
pub proof fn texts_are_ordered_by_first_difference(
    common: Seq<char>,
    a: Seq<char>,
    b: Seq<char>,
)
    ensures
        in_order(common, common + b),
        b.len() > 0 ==> !in_order(common + b, common),
        a.len() > 0 && b.len() > 0 && a[0] != b[0] ==> (in_order(common + a, common + b) <==> a[0]
            < b[0]),
    decreases common.len(),
{
    if common.len() == 0 {
        assert(common + a =~= a);
        assert(common + b =~= b);
    } else {
        let less = common.drop_first();
        assert((common + a).drop_first() =~= less + a);
        assert((common + b).drop_first() =~= less + b);
        texts_are_ordered_by_first_difference(less, a, b);
    }
}

// ---------------------------------------------------------------------------
// Commands
// ---------------------------------------------------------------------------

/// Changing the model changes the model, and when the session was changed, and nothing else.
pub proof fn models_are_changed_alone(state: MainLoopView, model: Seq<char>, now: u64, pid: u32)
    ensures
        ({
            let (after, step) = command_move(state, ReplCommandView::SetModel { model }, now, pid);
            &&& after.session.provider.model == model
            &&& after.session.provider.name == state.session.provider.name
            &&& after.session.provider.api_base == state.session.provider.api_base
            &&& after.session.id == state.session.id
            &&& after.session.profile == state.session.profile
            &&& after.session.workspace == state.session.workspace
            &&& after.session.history == state.session.history
            &&& after.session.created_at_ms == state.session.created_at_ms
            &&& after.session.updated_at_ms == now
            &&& step == (CommandStepView::SaveSession {
                text: "模型已切换为 "@ + (state.session.provider.name + "/"@ + model) + "\n"@,
            })
        }),
{
}

/// A command does what it names: what is shown is that of the session, what is loaded or
/// restored is what was named.
pub proof fn commands_do_what_they_name(
    state: MainLoopView,
    id: Seq<char>,
    path: Seq<char>,
    args: Seq<Seq<char>>,
    now: u64,
    pid: u32,
)
    ensures
        command_move(state, ReplCommandView::Nothing, now, pid).1 is Nothing,
        command_move(state, ReplCommandView::SwitchSession { id }, now, pid).1 == (
        CommandStepView::LoadSession { id }),
        command_move(state, ReplCommandView::SessionOverview, now, pid).1 is ShowSessions,
        command_move(state, ReplCommandView::SessionList, now, pid).1 is ListSessions,
        command_move(state, ReplCommandView::History, now, pid).1 == (CommandStepView::Print {
            text: history_text(state.session.history),
        }),
        command_move(state, ReplCommandView::ShowModel, now, pid).1 == (CommandStepView::Print {
            text: "当前模型："@ + (state.session.provider.name + "/"@
                + state.session.provider.model) + "\n"@,
        }),
        command_move(state, ReplCommandView::Plan { args }, now, pid).1 == (CommandStepView::Plan {
            command: plan_command(args),
        }),
        command_move(state, ReplCommandView::ShowApprovals, now, pid).1 == (
        CommandStepView::Print { text: rules_text(state.command_approval_rules) }),
        command_move(state, ReplCommandView::ClearApprovals, now, pid).0.command_approval_rules.len()
            == 0,
        command_move(state, ReplCommandView::ClearApprovals, now, pid).1 is SaveRules,
        command_move(state, ReplCommandView::RollbackList, now, pid).1 is RollbackList,
        command_move(state, ReplCommandView::RollbackPreview { id }, now, pid).1 == (
        CommandStepView::RollbackPreview { id }),
        command_move(state, ReplCommandView::RollbackApply { id }, now, pid).1 == (
        CommandStepView::RollbackApply { id }),
        command_move(state, ReplCommandView::RollbackFile { id, path }, now, pid).1 == (
        CommandStepView::RollbackFile { id, path }),
        command_move(state, ReplCommandView::Usage { text: id }, now, pid).1 == (
        CommandStepView::Complain { text: id }),
{
}

/// A session that is cleared is followed by a new one, and it is told how many messages are
/// left behind; a session that is resumed is told with its messages and its model.
pub proof fn session_changes_are_told(
    state: MainLoopView,
    session: SessionView,
    now: u64,
    pid: u32,
)
    ensures
        ({
            let (after, step) = command_move(state, ReplCommandView::NewSession, now, pid);
            &&& step == (CommandStepView::StartSession {
                text: "已清除 "@ + decimal(state.session.history.len()) + " 条消息，新会话="@
                    + after.session.id + "\n"@,
            })
            &&& after.session.id == crate::session::session_id(now, pid)
            &&& after.session.created_at_ms == now
        }),
        resumed_text(session) == "已切换到会话 "@ + session.id + "（"@ + decimal(
            session.history.len(),
        ) + " 条消息，模型="@ + (session.provider.name + "/"@ + session.provider.model) + "）\n"@,
{
}

/// The next step of a plan is the first that can run: it is marked as running, and its own
/// instruction is carried out. Without one, nothing runs.
pub proof fn the_next_step_runs(state: MainLoopView, plan: WorkflowPlanView, all: bool, now: u64)
    requires
        state.active_plan == Some(plan),
        plan.steps.len() <= usize::MAX,
    ensures
        match first_runnable(plan.steps, 0) {
            Some(pos) => {
                let (after, step) = plan_next(state, all, now);
                &&& step is Run
                &&& step->Run_pos == pos
                &&& step->Run_all == all
                &&& step->Run_instruction == plan.steps[pos].instruction
                &&& step->Run_text == "\n[计划] 正在执行第 "@ + decimal(
                    plan.steps[pos].index as nat,
                ) + " 步："@ + plan.steps[pos].instruction + "\n"@
                &&& after.active_plan is Some
                &&& after.active_plan->0.steps[pos].status is Running
                &&& after.session == state.session
                &&& after.command_approval_rules == state.command_approval_rules
            },
            None => plan_next(state, all, now).0 == state && plan_next(state, all, now).1 is Print,
        },
{
    crate::cli::plan::first_runnable_is_first(plan.steps, 0);
}

/// A step that succeeded is noted as done and told, one that failed as failed and not told;
/// only after a success does a run of all steps go on.
pub proof fn outcomes_are_noted(
    state: MainLoopView,
    plan: WorkflowPlanView,
    pos: int,
    all: bool,
    now: u64,
)
    requires
        state.active_plan == Some(plan),
        0 <= pos < plan.steps.len(),
    ensures
        plan_ran(state, pos, true, now).active_plan->0.steps[pos].status is Done,
        plan_ran(state, pos, false, now).active_plan->0.steps[pos].status is Failed,
        plan_ran(state, pos, true, now).session == state.session,
        plan_ran_text(state, pos, true) == "[计划] 第 "@ + decimal(plan.steps[pos].index as nat)
            + " 步已完成。\n"@,
        plan_ran_text(state, pos, false).len() == 0,
        plan_follow(state, all, false, now) == (state, PlanStepView::Stop),
        plan_follow(state, false, true, now) == (state, PlanStepView::Stop),
        plan_follow(state, true, true, now) == plan_next(state, true, now),
{
}

/// A plan command shows, forgets, runs or makes a plan, as it says.
pub proof fn plan_commands_do_what_they_say(state: MainLoopView, goal: Seq<char>, now: u64)
    ensures
        plan_move(state, PlanCommandView::Status, now) == (
            state,
            PlanStepView::Print { text: crate::cli::plan::plan_status(state.active_plan) },
        ),
        plan_move(state, PlanCommandView::Clear, now).1 is Forget,
        plan_move(state, PlanCommandView::Clear, now).0 == state,
        plan_move(state, PlanCommandView::RunAll, now) == plan_next(state, true, now),
        plan_move(state, PlanCommandView::RunNext, now) == plan_next(state, false, now),
        plan_move(state, PlanCommandView::Help, now).1 is Print,
        plan_move(state, PlanCommandView::Create { goal }, now).1 is Generate,
        plan_move(state, PlanCommandView::Create { goal }, now).1->Generate_goal == goal,
        plan_move(state, PlanCommandView::Create { goal }, now).0 == state,
{
}

/// In an outline no entry stands before one whose path comes first.
pub proof fn sorted_entries_are_in_order(nodes: Seq<OutlineNode>, i: int, j: int)
    requires
        is_sorted(nodes),
        0 <= i < j < nodes.len(),
    ensures
        in_order(nodes[i].path@, nodes[j].path@),
{
    let a = nodes[i].path@;
    let b = nodes[j].path@;
    assert(in_order(a, b));
}

/// The first pattern of a search that is refused is told with its reason, and no other
/// request has a pattern.
pub proof fn only_searches_have_patterns(request: ToolRequestView)
    ensures
        !(request is Grep) ==> refusal_of_request(request) is None && pattern_of_request(request)
            is None,
        request is Grep ==> refusal_of_request(request) == regex_refusal(request->Grep_pattern),
        request is Grep && regex_refusal(request->Grep_pattern) is None ==> pattern_of_request(
            request,
        ) == Some(request->Grep_pattern),
{
}

} // verus!
