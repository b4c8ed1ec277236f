//! What holds of every plan, from the reply of the model to its last step.
use vstd::prelude::*;
use crate::cli::approval::file_segment;
use crate::cli::approval_laws::kept_names_are_plain;
use crate::cli::plan::{
    clean_steps, field_at, find_last, first_runnable, outcome_status, plan_command, plan_error_text,
    plan_in_reply, plan_in_response, plan_of, plan_of_steps, plan_part, plan_file, plan_prompt, plan_status,
    step_lines, step_of, steps_of, steps_read, with_status, without_fence, PlanCommandView, PlanErrorView,
    PlanStepStatus, StepsReadView, TomlEntryView, TomlFieldView, WorkflowPlanView,
    WorkflowStepView,
};
use crate::message::ToolCallView;
use crate::number::decimal;
use crate::path::components;
use crate::path_laws::joined_name_is_below;
use crate::provider::ProviderResponseView;
use crate::text::{begins, find, joined, lemma_find_from, lines, occurs_at, occurs_in, trimmed};
use crate::text_laws::{
    ascii_spaces, joining_joins_joined, terminated, tight_texts_stay, written_lines_are_read,
};

verus! {

/// A plan has one to eight steps: each waits for its turn, with its own instruction and its
/// number, counted from one.
pub proof fn plans_hold_their_steps(
    goal: Seq<char>,
    instructions: Seq<Seq<char>>,
    now: u64,
    i: int,
)
    requires
        0 <= i < instructions.len(),
        instructions.len() <= usize::MAX,
    ensures
        plan_of(goal, Seq::empty(), now) == Err::<WorkflowPlanView, PlanErrorView>(
            PlanErrorView::NoSteps,
        ),
        instructions.len() > 8 ==> plan_of(goal, instructions, now) == Err::<
            WorkflowPlanView,
            PlanErrorView,
        >(PlanErrorView::TooManySteps { count: instructions.len() as usize }),
        instructions.len() <= 8 ==> {
            let r = plan_of(goal, instructions, now);
            &&& r is Ok
            &&& r->Ok_0.id == "plan-"@ + decimal(now as nat)
            &&& r->Ok_0.goal == goal
            &&& r->Ok_0.created_at_ms == now
            &&& r->Ok_0.updated_at_ms == now
            &&& r->Ok_0.steps.len() == instructions.len()
            &&& r->Ok_0.steps[i].index == i + 1
            &&& r->Ok_0.steps[i].instruction == instructions[i]
            &&& r->Ok_0.steps[i].status is Pending
        },
{
}

/// A step that changes its status changes nothing else: neither its instruction, nor another
/// step, nor the goal. The time of the change is kept.
pub proof fn steps_change_alone(
    plan: WorkflowPlanView,
    pos: int,
    status: PlanStepStatus,
    now: u64,
    j: int,
)
    requires
        0 <= pos < plan.steps.len(),
        0 <= j < plan.steps.len(),
    ensures
        ({
            let after = with_status(plan, pos, status, now);
            &&& after.steps.len() == plan.steps.len()
            &&& after.steps[pos].status == status
            &&& after.steps[pos].index == plan.steps[pos].index
            &&& after.steps[pos].instruction == plan.steps[pos].instruction
            &&& j != pos ==> after.steps[j] == plan.steps[j]
            &&& after.updated_at_ms == now
            &&& after.created_at_ms == plan.created_at_ms
            &&& after.goal == plan.goal
            &&& after.id == plan.id
        }),
        outcome_status(true) is Done,
        outcome_status(false) is Failed,
{
}

/// A step that failed is the one that runs next, before all that follow it.
pub proof fn failed_steps_run_again(plan: WorkflowPlanView, pos: int, now: u64)
    requires
        first_runnable(plan.steps, 0) == Some(pos),
    ensures
        first_runnable(with_status(plan, pos, outcome_status(false), now).steps, 0) == Some(pos),
{
    crate::cli::plan::first_runnable_is_first(plan.steps, 0);
    let after = with_status(plan, pos, outcome_status(false), now).steps;
    crate::cli::plan::first_runnable_is_first(after, 0);
    let k = first_runnable(after, 0);
    assert(crate::cli::plan::can_run(after[pos]));
    if k is Some && k->0 < pos {
        assert(after[k->0] == plan.steps[k->0]);
        assert(!crate::cli::plan::can_run(plan.steps[k->0]));
    }
}

/// Instructions are kept in order, each without the white space around it; blank ones are
/// left out.
pub proof fn blank_instructions_are_left_out(steps: Seq<Seq<char>>, step: Seq<char>)
    ensures
        clean_steps(Seq::empty()).len() == 0,
        trimmed(step).len() == 0 ==> clean_steps(steps.push(step)) == clean_steps(steps),
        trimmed(step).len() > 0 ==> clean_steps(steps.push(step)) == clean_steps(steps).push(
            trimmed(step),
        ),
{
    assert(steps.push(step).drop_last() =~= steps);
}

proof fn lemma_find_last(hay: Seq<char>, needle: Seq<char>, to: int)
    requires
        to <= hay.len(),
    ensures
        match find_last(hay, needle, to) {
            Some(i) => 0 <= i <= to && occurs_at(hay, needle, i) && forall|j: int|
                i < j <= to ==> !#[trigger] occurs_at(hay, needle, j),
            None => forall|j: int| j <= to ==> !#[trigger] occurs_at(hay, needle, j),
        },
    decreases to + 1,
{
    if to >= 0 && !occurs_at(hay, needle, to) {
        lemma_find_last(hay, needle, to - 1);
    }
}

/// A text without a fence is only trimmed.
pub proof fn texts_without_fence_stay(raw: Seq<char>)
    requires
        !begins(trimmed(raw), "```"@),
    ensures
        without_fence(raw) == trimmed(raw),
{
}

proof fn lemma_fence_line(tag: Seq<char>)
    requires
        !tag.contains('\n'),
        tag.len() == 0 || tag.last() != '\r',
    ensures
        !("```"@ + tag).contains('\n'),
        ("```"@ + tag).last() != '\r',
        !"```"@.contains('\n'),
        "```"@ == seq!['`', '`', '`'],
{
    reveal_strlit("```");
    let first = "```"@ + tag;
    assert("```"@ =~= seq!['`', '`', '`']);
    if first.contains('\n') {
        let k = choose|k: int| 0 <= k < first.len() && first[k] == '\n';
        if k >= 3 {
            assert(tag[k - 3] == '\n');
        }
    }
    if tag.len() > 0 {
        assert(first.last() == tag.last());
    } else {
        assert(first.last() == '`');
    }
}

proof fn lemma_fenced_lines(tag: Seq<char>, all: Seq<Seq<char>>)
    requires
        !tag.contains('\n'),
        tag.len() == 0 || tag.last() != '\r',
        forall|i: int|
            0 <= i < all.len() ==> !(#[trigger] all[i]).contains('\n') && (all[i].len() == 0
                || all[i].last() != '\r'),
    ensures
        lines(terminated(seq!["```"@ + tag] + all, seq!['\n']) + "```"@) == (seq!["```"@ + tag]
            + all).push("```"@),
{
    let written = seq!["```"@ + tag] + all;
    lemma_fence_line(tag);
    assert forall|i: int| 0 <= i < written.len() implies !(#[trigger] written[i]).contains('\n') && (
    written[i].len() == 0 || written[i].last() != '\r') by {
        if i > 0 {
            assert(written[i] == all[i - 1]);
        }
    }
    written_lines_are_read(written, "```"@, false);
}

proof fn lemma_fenced_ends(tag: Seq<char>, all: Seq<Seq<char>>)
    requires
        !tag.contains('\n'),
        tag.len() == 0 || tag.last() != '\r',
    ensures
        ({
            let raw = terminated(seq!["```"@ + tag] + all, seq!['\n']) + "```"@;
            trimmed(raw) == raw && begins(raw, "```"@)
        }),
{
    lemma_fence_line(tag);
    let written = seq!["```"@ + tag] + all;
    let raw = terminated(written, seq!['\n']) + "```"@;
    let rest = terminated(written.drop_first(), seq!['\n']);
    assert(terminated(written, seq!['\n']) == "```"@ + tag + seq!['\n'] + rest);
    assert(raw.take(3) =~= "```"@);
    ascii_spaces('`');
    assert(raw[0] == '`');
    assert(raw.last() == '`');
    tight_texts_stay(raw);
}

proof fn lemma_fenced_body(all: Seq<Seq<char>>)
    requires
        all.len() > 0,
    ensures
        ({
            let body = joined(all + seq!["```"@], "\n"@);
            let inner = joined(all, "\n"@) + "\n"@;
            &&& find_last(body, "```"@, body.len() as int) == Some(inner.len() as int)
            &&& body.take(inner.len() as int) == inner
        }),
{
    let fence = "```"@;
    reveal_strlit("```");
    let body = joined(all + seq![fence], "\n"@);
    let inner = joined(all, "\n"@) + "\n"@;
    joining_joins_joined(all, seq![fence], "\n"@);
    joining_joins_joined(seq![fence], all, "\n"@);
    assert(body == inner + fence);
    lemma_find_last(body, fence, body.len() as int);
    let at = inner.len() as int;
    assert(body.subrange(at, at + 3) =~= fence);
    assert(occurs_at(body, fence, at));
    assert(body.take(at) =~= inner);
}

/// A fence around lines is taken away, whatever language its first line names.
pub proof fn fences_are_taken_away(tag: Seq<char>, all: Seq<Seq<char>>)
    requires
        !tag.contains('\n'),
        tag.len() == 0 || tag.last() != '\r',
        all.len() > 0,
        forall|i: int|
            0 <= i < all.len() ==> !(#[trigger] all[i]).contains('\n') && (all[i].len() == 0
                || all[i].last() != '\r'),
    ensures
        without_fence(terminated(seq!["```"@ + tag] + all, seq!['\n']) + "```"@) == trimmed(
            joined(all, "\n"@) + "\n"@,
        ),
{
    lemma_fenced_lines(tag, all);
    lemma_fenced_ends(tag, all);
    lemma_fenced_body(all);
    assert((seq!["```"@ + tag] + all).push("```"@).drop_first() =~= all + seq!["```"@]);
}

proof fn lemma_first_header(before: Seq<char>, header: Seq<char>, rest: Seq<char>)
    requires
        forall|i: int|
            0 <= i < before.len() ==> !#[trigger] occurs_at(before + header + rest, header, i),
    ensures
        find(before + header + rest, header) == Some(before.len() as int),
        (before + header + rest).skip(before.len() as int) == header + rest,
{
    let text = before + header + rest;
    let at = before.len() as int;
    assert(text.subrange(at, at + header.len()) =~= header);
    assert(occurs_at(text, header, at));
    lemma_find_from(text, header, 0);
    assert(text.skip(at) =~= header + rest);
}

/// A reply that can be read whole is, without its fence; of another, what begins with the
/// first header of a step is read.
pub proof fn plans_are_found_in_replies(raw: Seq<char>, before: Seq<char>, rest: Seq<char>)
    requires
        without_fence(trimmed(raw)) == before + "[[steps]]"@ + rest,
        forall|i: int|
            0 <= i < before.len() ==> !#[trigger] occurs_at(
                before + "[[steps]]"@ + rest,
                "[[steps]]"@,
                i,
            ),
    ensures
        plan_part(raw, true) == Ok::<Seq<char>, PlanErrorView>(without_fence(trimmed(raw))),
        plan_part(raw, false) == Ok::<Seq<char>, PlanErrorView>(trimmed("[[steps]]"@ + rest)),
{
    lemma_first_header(before, "[[steps]]"@, rest);
}

/// A reply that can neither be read whole nor holds the header of a step has no plan.
pub proof fn replies_without_steps_have_no_plan(raw: Seq<char>)
    requires
        !occurs_in(without_fence(trimmed(raw)), "[[steps]]"@),
    ensures
        plan_part(raw, false) == Err::<Seq<char>, PlanErrorView>(PlanErrorView::NoToml),
{
    lemma_find_from(without_fence(trimmed(raw)), "[[steps]]"@, 0);
}

proof fn lemma_field_at(fields: Seq<TomlFieldView>, key: Seq<char>, from: int, i: int)
    requires
        0 <= from <= i < fields.len(),
        fields[i].key == key,
        forall|j: int| from <= j < i ==> (#[trigger] fields[j]).key != key,
    ensures
        field_at(fields, key, from) == Some(i),
    decreases i - from,
{
    if from < i {
        assert(fields[from].key != key);
        lemma_field_at(fields, key, from + 1, i);
    }
}

proof fn lemma_no_field(fields: Seq<TomlFieldView>, key: Seq<char>, from: int)
    requires
        0 <= from,
        forall|j: int| from <= j < fields.len() ==> (#[trigger] fields[j]).key != key,
    ensures
        field_at(fields, key, from) is None,
    decreases fields.len() - from,
{
    if from < fields.len() {
        assert(fields[from].key != key);
        lemma_no_field(fields, key, from + 1);
    }
}

/// The instruction of a step is its field of that name, wherever it stands in the table.
pub proof fn instructions_are_found_by_name(fields: Seq<TomlFieldView>, i: int)
    requires
        0 <= i < fields.len(),
        fields[i].key == "instruction"@,
        forall|j: int| 0 <= j < i ==> (#[trigger] fields[j]).key != "instruction"@,
    ensures
        step_of(TomlEntryView::Table { fields }) == fields[i].text,
{
    lemma_field_at(fields, "instruction"@, 0, i);
}

/// A table without an instruction is no step; of a list, the first item is the instruction.
pub proof fn steps_need_an_instruction(
    fields: Seq<TomlFieldView>,
    first: Option<Seq<char>>,
    items: Seq<Option<Seq<char>>>,
)
    requires
        forall|j: int| 0 <= j < fields.len() ==> (#[trigger] fields[j]).key != "instruction"@,
    ensures
        step_of(TomlEntryView::Table { fields }) is None,
        step_of(TomlEntryView::List { items: seq![first] + items }) == first,
        step_of(TomlEntryView::List { items: Seq::empty() }) is None,
        step_of(TomlEntryView::Other) is None,
{
    lemma_no_field(fields, "instruction"@, 0);
    assert((seq![first] + items)[0] == first);
}

/// Steps are read in order, and all of them or none.
pub proof fn all_steps_are_read(entries: Seq<TomlEntryView>, entry: TomlEntryView)
    ensures
        steps_of(Seq::empty()) == Some(Seq::<Seq<char>>::empty()),
        steps_of(entries) is None || step_of(entry) is None ==> steps_of(entries.push(entry))
            is None,
        steps_of(entries) is Some && step_of(entry) is Some ==> steps_of(entries.push(entry))
            == Some(steps_of(entries)->0.push(step_of(entry)->0)),
{
    assert(entries.push(entry).drop_last() =~= entries);
}

/// A plan needs two instructions that are not blank; a text that cannot be read, or whose
/// steps have no instruction, makes none.
pub proof fn plans_need_two_instructions(
    goal: Seq<char>,
    text: Seq<char>,
    all: Seq<Seq<char>>,
    reason: Seq<char>,
    now: u64,
)
    ensures
        plan_of_steps(goal, text, StepsReadView::Refused { reason }, now) == Err::<
            WorkflowPlanView,
            PlanErrorView,
        >(PlanErrorView::BadToml { reason }),
        plan_of_steps(goal, text, StepsReadView::Unfit, now) == Err::<
            WorkflowPlanView,
            PlanErrorView,
        >(PlanErrorView::BadSteps { text }),
        clean_steps(all).len() < 2 ==> plan_of_steps(
            goal,
            text,
            StepsReadView::Steps { steps: all },
            now,
        ) == Err::<WorkflowPlanView, PlanErrorView>(PlanErrorView::TooFewSteps),
        clean_steps(all).len() >= 2 ==> plan_of_steps(
            goal,
            text,
            StepsReadView::Steps { steps: all },
            now,
        ) == plan_of(goal, clean_steps(all), now),
{
}

/// Only a text can be a plan: of an answer that calls tools, none is made. Where a text is
/// none, the whole of it is told.
pub proof fn only_texts_are_plans(
    goal: Seq<char>,
    content: Seq<char>,
    calls: Seq<ToolCallView>,
    read: spec_fn(Seq<char>) -> StepsReadView,
    now: u64,
)
    ensures
        plan_in_response(goal, ProviderResponseView::ToolCalls { calls }, read, now) == Err::<
            WorkflowPlanView,
            PlanErrorView,
        >(PlanErrorView::ToolCalls),
        ({
            let inner = plan_in_reply(goal, content, read, now);
            let outer = plan_in_response(goal, ProviderResponseView::Text { content }, read, now);
            &&& inner is Ok ==> outer == inner
            &&& inner is Err ==> outer is Err && plan_error_text(outer->Err_0)
                == "无法解析模型返回的计划："@ + content + ": "@ + plan_error_text(inner->Err_0)
        }),
{
}

/// A reply whose text can be read as steps makes the plan of those steps.
pub proof fn readable_replies_make_plans(
    goal: Seq<char>,
    raw: Seq<char>,
    read: spec_fn(Seq<char>) -> StepsReadView,
    all: Seq<Seq<char>>,
    now: u64,
)
    requires
        read(without_fence(trimmed(raw))) == (StepsReadView::Steps { steps: all }),
    ensures
        plan_in_reply(goal, raw, read, now) == plan_of_steps(
            goal,
            without_fence(trimmed(raw)),
            StepsReadView::Steps { steps: all },
            now,
        ),
{
}

/// The model is given the task, the place and what is there.
pub proof fn prompts_hold_the_task(goal: Seq<char>, workspace: Seq<char>, outline: Seq<char>)
    ensures
        plan_prompt(goal, workspace, outline) == "User task:\n"@ + goal + ("\n\nWorkspace:\n"@
            + workspace) + ("\n\nWorkspace outline:\n"@ + outline)
            + "\n\nReturn only TOML following the schema."@,
{
    assert(plan_prompt(goal, workspace, outline) =~= "User task:\n"@ + goal + ("\n\nWorkspace:\n"@
        + workspace) + ("\n\nWorkspace outline:\n"@ + outline)
        + "\n\nReturn only TOML following the schema."@);
}

/// The words behind the plan command are one of its own, in either language, or the goal of a
/// new plan, whole.
pub proof fn plan_commands_are_words_or_goals(args: Seq<Seq<char>>)
    ensures
        args.len() == 0 ==> plan_command(args) is Status,
        args.len() > 0 ==> {
            let word = args[0];
            let means = plan_command(args);
            &&& word == "status"@ || word == "状态"@ ==> means is Status
            &&& word == "clear"@ || word == "清空"@ ==> means is Clear
            &&& word == "run"@ || word == "执行"@ ==> means is RunAll
            &&& word == "step"@ || word == "下一步"@ ==> means is RunNext
            &&& word == "help"@ || word == "帮助"@ ==> means is Help
            &&& word != "status"@ && word != "状态"@ && word != "clear"@ && word != "清空"@ && word
                != "run"@ && word != "执行"@ && word != "step"@ && word != "下一步"@ && word
                != "help"@ && word != "帮助"@ ==> means == (PlanCommandView::Create {
                goal: joined(args, " "@),
            })
        },
{
    reveal_strlit("status");
    reveal_strlit("状态");
    reveal_strlit("clear");
    reveal_strlit("清空");
    reveal_strlit("run");
    reveal_strlit("执行");
    reveal_strlit("step");
    reveal_strlit("下一步");
    reveal_strlit("help");
    reveal_strlit("帮助");
    assert("status"@.len() == 6 && "clear"@.len() == 5 && "run"@.len() == 3);
    assert("step"@.len() == 4 && "step"@[0] == 's');
    assert("help"@.len() == 4 && "help"@[0] == 'h');
    assert("下一步"@.len() == 3 && "下一步"@[0] == '下' && "run"@[0] == 'r');
    assert("状态"@.len() == 2 && "状态"@[0] == '状');
    assert("清空"@.len() == 2 && "清空"@[0] == '清');
    assert("执行"@.len() == 2 && "执行"@[0] == '执');
    assert("帮助"@.len() == 2 && "帮助"@[0] == '帮');
}

/// What is shown of a plan is its goal and every step, in order, with its number, its status
/// and its instruction.
pub proof fn plans_are_shown_in_full(
    plan: WorkflowPlanView,
    steps: Seq<WorkflowStepView>,
    step: WorkflowStepView,
)
    ensures
        plan_status(Some(plan)) == "计划："@ + plan.goal + "\n"@ + step_lines(plan.steps),
        plan_status(None) == "当前没有计划。可以用 /计划 <任务> 创建。\n"@,
        step_lines(Seq::empty()).len() == 0,
        step_lines(steps.push(step)) == step_lines(steps) + ("  "@ + decimal(step.index as nat)
            + ". ["@ + (match step.status {
            PlanStepStatus::Pending => "待执行"@,
            PlanStepStatus::Running => "执行中"@,
            PlanStepStatus::Done => "已完成"@,
            PlanStepStatus::Failed => "失败"@,
        }) + "] "@ + step.instruction + "\n"@),
{
    assert(steps.push(step).drop_last() =~= steps);
}

/// An array is read as steps where each of its entries is one; an array that is not there
/// does not fit, and a text that is refused stays refused for its reason.
pub proof fn arrays_are_read_as_steps(entries: Seq<TomlEntryView>, reason: Seq<char>)
    ensures
        steps_of(entries) is Some ==> steps_read(Ok(Some(entries))) == (StepsReadView::Steps {
            steps: steps_of(entries)->0,
        }),
        steps_of(entries) is None ==> steps_read(Ok(Some(entries))) is Unfit,
        steps_read(Ok(None)) is Unfit,
        steps_read(Err(reason)) == (StepsReadView::Refused { reason }),
{
}

/// A plan that cannot be made is told with the reason.
pub proof fn plan_errors_are_told(count: usize, content: Seq<char>, reason: Seq<char>)
    ensures
        plan_error_text(PlanErrorView::NoSteps) == "模型没有返回计划步骤"@,
        plan_error_text(PlanErrorView::TooManySteps { count }) == "模型返回了 "@ + decimal(
            count as nat,
        ) + " 个计划步骤，最多只能有 8 个"@,
        plan_error_text(PlanErrorView::TooFewSteps) == "模型计划至少需要包含 2 个非空步骤"@,
        plan_error_text(PlanErrorView::BadToml { reason }) == "模型计划不是合法的 TOML"@ + ": "@
            + reason,
        plan_error_text(PlanErrorView::NoToml) == "模型回复中没有找到 [[steps]] TOML"@,
        plan_error_text(PlanErrorView::BadReply { content, reason })
            == "无法解析模型返回的计划："@ + content + ": "@ + reason,
{
}

/// The plan of a profile is kept in a file of its own in the state directory.
pub proof fn plans_are_kept_by_profile(state_root: Seq<char>, profile: Seq<char>)
    ensures
        components(plan_file(state_root, profile)) == components(state_root).push(
            "active-plan-"@ + file_segment(profile) + ".toml"@,
        ),
{
    reveal_strlit("active-plan-");
    reveal_strlit(".toml");
    kept_names_are_plain("active-plan-"@, profile);
    joined_name_is_below(state_root, "active-plan-"@ + file_segment(profile) + ".toml"@);
}

} // verus!
