//! Lists of sessions.
use vstd::prelude::*;
use crate::cli::startup::{
    startup_session_item_views, StartupSessionItem, StartupSessionItemView,
};
use crate::cli::style::{BOLD_CYAN, BOLD_WHITE, CYAN, DIM, MUTED, RESET};
use crate::cli::width::{pad_to_width, padded, shortened, truncate_to_width};
use crate::number::{decimal, render_u64, render_usize};
use crate::session::{Session, SessionView};
use crate::text::{owned, replace_char, same, to_chars, with_char_replaced};

verus! {

/// The first line of a session in a list.
pub open spec fn item_line(label: Seq<char>, item: StartupSessionItemView, now: u64) -> Seq<char> {
    DIM@ + "│"@ + RESET@ + " "@ + BOLD_WHITE@ + padded(label, 5) + RESET@ + " "@ + CYAN@ + item.id
        + RESET@ + "  "@ + MUTED@ + decimal(item.message_count as nat) + " 条消息 · "@
        + item.model + " · "@ + age_text(item.updated_at_ms, now) + RESET@ + "\n"@
}

/// The first line of a session in a list.
fn render_item_line(label: &str, item: &StartupSessionItem, now: u64) -> (r: String)
    ensures
        r@ == item_line(label@, item@, now),
{
    owned(DIM).concat("│").concat(RESET).concat(" ").concat(BOLD_WHITE)
        .concat(pad_to_width(label, 5).as_str()).concat(RESET).concat(" ").concat(CYAN)
        .concat(item.id.as_str()).concat(RESET).concat("  ").concat(MUTED)
        .concat(render_usize(item.message_count).as_str()).concat(" 条消息 · ")
        .concat(item.model.as_str()).concat(" · ")
        .concat(format_age_at(item.updated_at_ms, now).as_str()).concat(RESET).concat("\n")
}

/// The second line of a session in a list.
pub open spec fn preview_line(preview: Seq<char>) -> Seq<char> {
    DIM@ + "│"@ + RESET@ + "       "@ + MUTED@ + "预览"@ + RESET@ + "  "@ + preview + "\n"@
}

/// The second line of a session in a list.
fn render_preview_line(preview: &str) -> (r: String)
    ensures
        r@ == preview_line(preview@),
{
    owned(DIM).concat("│").concat(RESET).concat("       ").concat(MUTED).concat("预览")
        .concat(RESET).concat("  ").concat(preview).concat("\n")
}

/// The head of the overview.
pub open spec fn overview_head() -> Seq<char> {
    "\n"@ + DIM@ + "╭─"@ + RESET@ + " "@ + BOLD_CYAN@ + "会话"@ + RESET@ + " "@ + MUTED@
        + "当前上下文"@ + RESET@ + "\n"@
}

/// The head of the overview.
fn render_overview_head() -> (r: String)
    ensures
        r@ == overview_head(),
{
    owned("\n").concat(DIM).concat("╭─").concat(RESET).concat(" ").concat(BOLD_CYAN)
        .concat("会话").concat(RESET).concat(" ").concat(MUTED).concat("当前上下文").concat(RESET)
        .concat("\n")
}

/// The line of the current session.
pub open spec fn current_line(session: SessionView, now: u64) -> Seq<char> {
    DIM@ + "│"@ + RESET@ + " "@ + MUTED@ + "当前"@ + RESET@ + "  "@ + CYAN@ + session.id + RESET@
        + "  "@ + MUTED@ + decimal(session.history.len()) + " 条消息 · "@ + session.provider.name
        + "/"@ + session.provider.model + " · "@ + age_text(session.updated_at_ms, now) + RESET@
        + "\n"@
}

/// The line of the current session.
fn render_current_line(session: &Session, now: u64) -> (r: String)
    ensures
        r@ == current_line(session@, now),
{
    owned(DIM).concat("│").concat(RESET).concat(" ").concat(MUTED).concat("当前").concat(RESET)
        .concat("  ").concat(CYAN).concat(session.id.as_str()).concat(RESET).concat("  ")
        .concat(MUTED).concat(render_usize(session.history.len()).as_str()).concat(" 条消息 · ")
        .concat(session.provider.name.as_str()).concat("/")
        .concat(session.provider.model.as_str()).concat(" · ")
        .concat(format_age_at(session.updated_at_ms, now).as_str()).concat(RESET).concat("\n")
}

/// The line of the workspace.
pub open spec fn workspace_line(workspace: Seq<char>) -> Seq<char> {
    DIM@ + "│"@ + RESET@ + " "@ + MUTED@ + "工作区"@ + RESET@ + " "@ + workspace + "\n"@
}

/// The line of the workspace.
fn render_workspace_line(workspace: &str) -> (r: String)
    ensures
        r@ == workspace_line(workspace@),
{
    owned(DIM).concat("│").concat(RESET).concat(" ").concat(MUTED).concat("工作区").concat(RESET)
        .concat(" ").concat(workspace).concat("\n")
}

/// The line where there is no other session.
pub open spec fn no_others_line() -> Seq<char> {
    DIM@ + "│"@ + RESET@ + " "@ + MUTED@ + "没有其他可切换会话。"@ + RESET@ + "\n"@
}

/// The line where there is no other session.
fn render_no_others_line() -> (r: String)
    ensures
        r@ == no_others_line(),
{
    owned(DIM).concat("│").concat(RESET).concat(" ").concat(MUTED).concat("没有其他可切换会话。")
        .concat(RESET).concat("\n")
}

/// The line before other sessions.
pub open spec fn others_line() -> Seq<char> {
    DIM@ + "│"@ + RESET@ + " "@ + MUTED@ + "可切换会话（复制 ID 到命令里）："@ + RESET@ + "\n"@
}

/// The line before other sessions.
fn render_others_line() -> (r: String)
    ensures
        r@ == others_line(),
{
    owned(DIM).concat("│").concat(RESET).concat(" ").concat(MUTED)
        .concat("可切换会话（复制 ID 到命令里）：").concat(RESET).concat("\n")
}

/// The line that says how to switch.
pub open spec fn switch_line() -> Seq<char> {
    DIM@ + "╰─"@ + RESET@ + " "@ + MUTED@ + "切换："@ + RESET@ + BOLD_WHITE@
        + "/会话 切换 <会话ID>"@ + RESET@ + "  "@ + MUTED@ + "新建："@ + RESET@ + BOLD_WHITE@
        + "/清空"@ + RESET@ + "\n\n"@
}

/// The line that says how to switch.
fn render_switch_line() -> (r: String)
    ensures
        r@ == switch_line(),
{
    owned(DIM).concat("╰─").concat(RESET).concat(" ").concat(MUTED).concat("切换：").concat(RESET)
        .concat(BOLD_WHITE).concat("/会话 切换 <会话ID>").concat(RESET).concat("  ").concat(MUTED)
        .concat("新建：").concat(RESET).concat(BOLD_WHITE).concat("/清空").concat(RESET)
        .concat("\n\n")
}

/// The head of the list of sessions.
pub open spec fn list_head(count: nat) -> Seq<char> {
    "\n"@ + DIM@ + "╭─"@ + RESET@ + " "@ + BOLD_CYAN@ + "会话列表"@ + RESET@ + " "@ + MUTED@
        + "共 "@ + decimal(count) + " 个"@ + RESET@ + "\n"@
}

/// The head of the list of sessions.
fn render_list_head(count: usize) -> (r: String)
    ensures
        r@ == list_head(count as nat),
{
    owned("\n").concat(DIM).concat("╭─").concat(RESET).concat(" ").concat(BOLD_CYAN)
        .concat("会话列表").concat(RESET).concat(" ").concat(MUTED).concat("共 ")
        .concat(render_usize(count).as_str()).concat(" 个").concat(RESET).concat("\n")
}


/// How long ago something was changed.
pub open spec fn age_text(updated_at_ms: u64, now: u64) -> Seq<char> {
    if updated_at_ms > now {
        "刚刚"@
    } else {
        let seconds = ((now - updated_at_ms) / 1000) as nat;
        if seconds <= 59 {
            "刚刚"@
        } else if seconds <= 3599 {
            decimal(seconds / 60) + " 分钟前"@
        } else if seconds <= 86_399 {
            decimal(seconds / 3600) + " 小时前"@
        } else if seconds <= 2_592_000 {
            decimal(seconds / 86_400) + " 天前"@
        } else {
            "较早"@
        }
    }
}

/// How long ago something was changed.
pub fn format_age_at(updated_at_ms: u64, now: u64) -> (r: String)
    ensures
        r@ == age_text(updated_at_ms, now),
{
    if updated_at_ms > now {
        return owned("刚刚");
    }
    let seconds: u64 = (now - updated_at_ms) / 1000;
    if seconds <= 59 {
        owned("刚刚")
    } else if seconds <= 3599 {
        render_u64(seconds / 60).concat(" 分钟前")
    } else if seconds <= 86_399 {
        render_u64(seconds / 3600).concat(" 小时前")
    } else if seconds <= 2_592_000 {
        render_u64(seconds / 86_400).concat(" 天前")
    } else {
        owned("较早")
    }
}

/// A session in a list.
pub open spec fn session_item(index: nat, item: StartupSessionItemView, now: u64) -> Seq<char> {
    let label = if item.active {
        "当前"@
    } else {
        decimal(index) + "."@
    };
    let preview = shortened(with_char_replaced(item.preview, '\n', ' '), 80);
    item_line(label, item, now) + if preview.len() > 0 {
        preview_line(preview)
    } else {
        Seq::empty()
    }
}

/// A session in a list.
pub fn render_session_item(index: usize, item: &StartupSessionItem, now: u64) -> (r: String)
    ensures
        r@ == session_item(index as nat, item@, now),
{
    let label = if item.active {
        owned("当前")
    } else {
        render_usize(index).concat(".")
    };
    let preview = truncate_to_width(replace_char(item.preview.as_str(), '\n', ' ').as_str(), 80);
    let line = render_item_line(label.as_str(), item, now);
    if to_chars(preview.as_str()).len() > 0 {
        line.concat(render_preview_line(preview.as_str()).as_str())
    } else {
        proof {
            assert(line@ + Seq::<char>::empty() =~= line@);
        }
        line
    }
}

/// The sessions of a list, counted from 1.
pub open spec fn session_items(items: Seq<StartupSessionItemView>, now: u64) -> Seq<char>
    decreases items.len(),
{
    if items.len() == 0 {
        Seq::empty()
    } else {
        session_items(items.drop_last(), now) + session_item(items.len(), items.last(), now)
    }
}

fn render_session_items(items: &Vec<StartupSessionItem>, now: u64) -> (r: String)
    ensures
        r@ == session_items(startup_session_item_views(items@), now),
{
    let mut r = String::new();
    let mut i: usize = 0;
    let ghost all = startup_session_item_views(items@);
    proof {
        assert(r@ =~= session_items(all.take(0), now));
    }
    while i < items.len()
        invariant
            i <= items@.len(),
            all == startup_session_item_views(items@),
            r@ == session_items(all.take(i as int), now),
        decreases items.len() - i,
    {
        proof {
            assert(all.take(i + 1).drop_last() =~= all.take(i as int));
            assert(all.take(i + 1).last() == items@[i as int]@);
        }
        r.append(render_session_item(i + 1, &items[i], now).as_str());
        i += 1;
    }
    proof {
        assert(all.take(items@.len() as int) =~= all);
    }
    r
}

/// The sessions other than one.
pub open spec fn other_sessions(items: Seq<StartupSessionItemView>, id: Seq<char>) -> Seq<
    StartupSessionItemView,
>
    decreases items.len(),
{
    if items.len() == 0 {
        items
    } else if items.last().id == id {
        other_sessions(items.drop_last(), id)
    } else {
        other_sessions(items.drop_last(), id).push(items.last())
    }
}

fn collect_others(items: &Vec<StartupSessionItem>, id: &str) -> (r: Vec<StartupSessionItem>)
    ensures
        startup_session_item_views(r@) == other_sessions(startup_session_item_views(items@), id@),
{
    let mut r: Vec<StartupSessionItem> = Vec::new();
    let mut i: usize = 0;
    let ghost all = startup_session_item_views(items@);
    proof {
        assert(startup_session_item_views(r@) =~= other_sessions(all.take(0), id@));
    }
    while i < items.len()
        invariant
            i <= items@.len(),
            all == startup_session_item_views(items@),
            startup_session_item_views(r@) == other_sessions(all.take(i as int), id@),
        decreases items.len() - i,
    {
        proof {
            assert(all.take(i + 1).drop_last() =~= all.take(i as int));
            assert(all.take(i + 1).last() == items@[i as int]@);
        }
        if !same(items[i].id.as_str(), id) {
            let item = items[i].clone();
            proof {
                assert(startup_session_item_views(r@.push(item)) =~= startup_session_item_views(
                    r@,
                ).push(item@));
            }
            r.push(item);
        }
        i += 1;
    }
    proof {
        assert(all.take(items@.len() as int) =~= all);
    }
    r
}

/// How many sessions the overview looks at.
pub const OVERVIEW_SESSIONS: usize = 12;

/// How many other sessions the overview shows.
pub const OVERVIEW_OTHERS: usize = 6;

/// How many sessions the list shows.
pub const LISTED_SESSIONS: usize = 20;

/// The overview of the current session and those that can be switched to.
pub open spec fn session_overview(
    session: SessionView,
    items: Seq<StartupSessionItemView>,
    now: u64,
) -> Seq<char> {
    let others = other_sessions(items, session.id);
    let shown = if others.len() > OVERVIEW_OTHERS {
        others.take(OVERVIEW_OTHERS as int)
    } else {
        others
    };
    overview_head() + current_line(session, now) + workspace_line(session.workspace)
        + if others.len()
        == 0 {
        no_others_line()
    } else {
        others_line() + session_items(shown, now)
    } + switch_line()
}

/// The overview of the current session and those that can be switched to.
pub fn render_session_overview(session: &Session, items: &Vec<StartupSessionItem>, now: u64) -> (r:
    String)
    ensures
        r@ == session_overview(session@, startup_session_item_views(items@), now),
{
    let mut others = collect_others(items, session.id.as_str());
    let head = render_overview_head().concat(render_current_line(session, now).as_str()).concat(
        render_workspace_line(session.workspace.as_str()).as_str(),
    );
    let ghost all = startup_session_item_views(others@);
    proof {
        assert(all.len() == others@.len());
    }
    let middle = if others.len() == 0 {
        render_no_others_line()
    } else {
        if others.len() > OVERVIEW_OTHERS {
            others.truncate(OVERVIEW_OTHERS);
            proof {
                assert(startup_session_item_views(others@) =~= all.take(OVERVIEW_OTHERS as int));
            }
        }
        render_others_line().concat(render_session_items(&others, now).as_str())
    };
    head.concat(middle.as_str()).concat(render_switch_line().as_str())
}

/// The list of sessions.
pub open spec fn session_list(items: Seq<StartupSessionItemView>, now: u64) -> Seq<char> {
    if items.len() == 0 {
        "没有已保存的会话。\n"@
    } else {
        list_head(items.len()) + session_items(items, now) + switch_line()
    }
}

/// The list of sessions.
pub fn render_session_list(items: &Vec<StartupSessionItem>, now: u64) -> (r: String)
    ensures
        r@ == session_list(startup_session_item_views(items@), now),
{
    proof {
        assert(startup_session_item_views(items@).len() == items@.len());
    }
    if items.len() == 0 {
        return owned("没有已保存的会话。\n");
    }
    render_list_head(items.len()).concat(render_session_items(items, now).as_str()).concat(
        render_switch_line().as_str(),
    )
}

} // verus!
