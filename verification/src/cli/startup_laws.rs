//! What holds of the sessions that are offered at the start.
use vstd::prelude::*;
use crate::cli::approval::MenuKey;
use crate::cli::cards::{card_bottom, card_row, card_separator, card_top};
use crate::cli::main_loop::offered_sessions;
use crate::cli::startup::{
    after_startup_key, choice_of_line, first_active, is_forced, item_rows, last_user_text,
    preview_of, startup_menu, startup_question, with_messages, StartupChoice, StartupSessionItemView,
};
use crate::cli::style::{BOLD_CYAN, CYAN, MUTED, WHITE};
use crate::cli::width::{shortened, two_columns};
use crate::message::{MessageRole, MessageView};
use crate::number::decimal;
use crate::session::SessionSummary;
use crate::text::{lower, opt_view, trimmed};
use crate::text_laws::decimals_are_read_back;

verus! {

/// A session is shown by what its user said last, whatever was said after that by others.
pub proof fn sessions_are_shown_by_the_last_word(messages: Seq<MessageView>, m: MessageView)
    ensures
        last_user_text(Seq::empty()) is None,
        m.role == MessageRole::User ==> last_user_text(messages.push(m)) == Some(m.content),
        m.role != MessageRole::User ==> last_user_text(messages.push(m)) == last_user_text(
            messages,
        ),
{
    assert(messages.push(m).drop_last() =~= messages);
}

/// What is shown of a session is seventy-two columns of that, or that the session is empty.
pub proof fn previews_are_short(messages: Seq<MessageView>)
    ensures
        last_user_text(messages) is None ==> preview_of(messages) == "（空会话）"@,
        last_user_text(messages) is Some ==> {
            let text = shortened(trimmed(last_user_text(messages)->0), 72);
            &&& text.len() > 0 ==> preview_of(messages) == text
            &&& text.len() == 0 ==> preview_of(messages) == "（空会话）"@
        },
{
}

/// Only sessions with messages are offered, in their order.
pub proof fn empty_sessions_are_not_offered(
    items: Seq<StartupSessionItemView>,
    item: StartupSessionItemView,
)
    ensures
        with_messages(Seq::empty()).len() == 0,
        item.message_count > 0 ==> with_messages(items.push(item)) == with_messages(items).push(
            item,
        ),
        item.message_count == 0 ==> with_messages(items.push(item)) == with_messages(items),
{
    assert(items.push(item).drop_last() =~= items);
}

/// The default is the first session that is active.
pub proof fn the_first_active_session_is_found(items: Seq<StartupSessionItemView>, i: int)
    requires
        0 <= i,
    ensures
        match first_active(items, i) {
            Some(k) => i <= k < items.len() && items[k].active && forall|j: int|
                i <= j < k ==> !(#[trigger] items[j]).active,
            None => forall|j: int| i <= j < items.len() ==> !(#[trigger] items[j]).active,
        },
    decreases items.len() - i,
{
    if i < items.len() && !items[i].active {
        the_first_active_session_is_found(items, i + 1);
    }
}

/// The newest sessions are offered, up to a limit, each as it is; the one of the given id is
/// the active one.
pub proof fn offered_sessions_are_the_first(
    sessions: Seq<SessionSummary>,
    previews: Seq<Option<String>>,
    active_id: Seq<char>,
    limit: usize,
    i: int,
)
    requires
        0 <= i < sessions.len(),
        i < limit,
    ensures
        ({
            let offered = offered_sessions(sessions, previews, active_id, limit);
            &&& offered.len() <= limit
            &&& sessions.len() <= limit ==> offered.len() == sessions.len()
            &&& sessions.len() > limit ==> offered.len() == limit
            &&& offered[i].id == sessions[i].id@
            &&& offered[i].message_count == sessions[i].message_count
            &&& offered[i].model == sessions[i].model@
            &&& offered[i].updated_at_ms == sessions[i].updated_at_ms
            &&& offered[i].active <==> sessions[i].id@ == active_id
            &&& opt_view(previews[i]) is Some ==> offered[i].preview == opt_view(previews[i])->0
            &&& opt_view(previews[i]) is None ==> offered[i].preview
                == "(unable to load preview)"@
        }),
{
}

/// In the menu the arrows go round through all sessions and the new one, a digit takes the
/// session of that number, and the escape key the default.
pub proof fn startup_keys_choose(
    selected: StartupChoice,
    count: nat,
    default_index: usize,
    index: usize,
    c: char,
)
    requires
        0 < count <= usize::MAX,
        index < count,
    ensures
        ({
            let down = after_startup_key(
                StartupChoice::Existing(index),
                MenuKey::Down,
                count,
                default_index,
            );
            let up = after_startup_key(
                StartupChoice::Existing(index),
                MenuKey::Up,
                count,
                default_index,
            );
            &&& !down.1 && !up.1
            &&& index + 1 < count ==> down.0 == StartupChoice::Existing((index + 1) as usize)
            &&& index + 1 == count ==> down.0 == StartupChoice::NewSession
            &&& index > 0 ==> up.0 == StartupChoice::Existing((index - 1) as usize)
            &&& index == 0 ==> up.0 == StartupChoice::NewSession
        }),
        after_startup_key(StartupChoice::NewSession, MenuKey::Down, count, default_index) == (
            StartupChoice::Existing(0),
            false,
        ),
        after_startup_key(StartupChoice::NewSession, MenuKey::Up, count, default_index) == (
            StartupChoice::Existing((count - 1) as usize),
            false,
        ),
        after_startup_key(selected, MenuKey::Enter, count, default_index) == (selected, true),
        after_startup_key(selected, MenuKey::Escape, count, default_index) == (
            StartupChoice::Existing(default_index),
            true,
        ),
        after_startup_key(selected, MenuKey::Other, count, default_index) == (selected, false),
        c == 'n' || c == 'N' ==> after_startup_key(
            selected,
            MenuKey::Letter(c),
            count,
            default_index,
        ) == (StartupChoice::NewSession, true),
        index < 9 && c as u32 == '1' as u32 + index ==> after_startup_key(
            selected,
            MenuKey::Letter(c),
            count,
            default_index,
        ) == (StartupChoice::Existing(index), true),
        c != 'n' && c != 'N' && !('1' <= c && c <= '9') ==> after_startup_key(
            selected,
            MenuKey::Letter(c),
            count,
            default_index,
        ) == (selected, false),
{
}

/// A line chooses the session whose number it is, or a new one; every other line chooses the
/// default.
pub proof fn startup_lines_choose(
    line: Seq<char>,
    count: nat,
    default_index: usize,
    index: usize,
)
    requires
        index < usize::MAX,
    ensures
        lower(trimmed(line)) == "n"@ ==> choice_of_line(line, count, default_index)
            == StartupChoice::NewSession,
        trimmed(line) == decimal((index + 1) as nat) && lower(trimmed(line)) != "n"@ && index
            < count ==> choice_of_line(line, count, default_index) == StartupChoice::Existing(
            index,
        ),
        trimmed(line) == decimal((index + 1) as nat) && lower(trimmed(line)) != "n"@ && index
            >= count ==> choice_of_line(line, count, default_index) == StartupChoice::Existing(
            default_index,
        ),
        trimmed(line).len() == 0 ==> choice_of_line(line, count, default_index)
            == StartupChoice::Existing(default_index),
        startup_question(index) == "选择上下文 [回车="@ + decimal((index + 1) as nat) + "]："@,
{
    decimals_are_read_back((index + 1) as nat);
    reveal_strlit("n");
    assert("n"@.len() == 1);
    assert(lower(trimmed(line)).len() == trimmed(line).len());
}

/// Every session has a row of its own, in order: its number and its preview at the left, its
/// details at the right; the selected one is marked.
pub proof fn every_session_has_its_row(
    inner: usize,
    items: Seq<StartupSessionItemView>,
    item: StartupSessionItemView,
    selected: Option<StartupChoice>,
)
    requires
        items.len() < usize::MAX,
    ensures
        item_rows(inner, Seq::empty(), selected).len() == 0,
        ({
            let chosen = selected == Some(StartupChoice::Existing(items.len() as usize));
            let mark = if chosen {
                ">"@
            } else {
                " "@
            };
            let left = mark + " "@ + decimal(items.len() + 1) + ". "@ + item.preview;
            let right = "消息 "@ + decimal(item.message_count as nat) + " · 模型 "@ + item.model
                + (if item.active {
                " · 当前"@
            } else {
                ""@
            });
            let style = if selected is None {
                WHITE@
            } else if chosen {
                BOLD_CYAN@
            } else {
                MUTED@
            };
            item_rows(inner, items.push(item), selected) == item_rows(inner, items, selected)
                + card_row(inner, two_columns(left, right, inner), style)
        }),
{
    assert(items.push(item).drop_last() =~= items);
}

/// The menu is forced by three settings and no others.
pub proof fn three_settings_force_the_menu(value: Seq<char>)
    ensures
        is_forced(Some(value)) <==> value == "1"@ || value == "true"@ || value == "always"@,
        !is_forced(None),
{
}

/// The menu offers every session and a new one, and says how to choose; where nothing is
/// marked, a number is typed.
pub proof fn menus_offer_every_session(
    width: usize,
    items: Seq<StartupSessionItemView>,
    selected: Option<StartupChoice>,
)
    requires
        width >= 4,
    ensures
        ({
            let inner = (width - 4) as usize;
            let new_chosen = selected == Some(StartupChoice::NewSession);
            let head = "\n"@ + card_top(width) + card_row(
                inner,
                "▌ NKU·RS   南开 Rust 编程助手"@,
                BOLD_CYAN@,
            ) + card_row(inner, "  选择要继续的会话上下文"@, CYAN@);
            let how = if selected is Some {
                "  ↑/↓ 切换，回车确认，n 新建。"@
            } else {
                "  输入序号确认，n 新建。"@
            };
            let mark = if new_chosen {
                ">"@
            } else {
                " "@
            };
            let style = if selected is None {
                WHITE@
            } else if new_chosen {
                BOLD_CYAN@
            } else {
                MUTED@
            };
            startup_menu(width, items, selected) == head + card_row(inner, how, MUTED@)
                + card_separator(width) + item_rows(inner, items, selected) + card_row(
                inner,
                mark + " n. 新建会话"@,
                style,
            ) + card_bottom(width)
        }),
{
}

} // verus!
