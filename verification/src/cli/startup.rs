//! Choosing a session at the start.
use vstd::prelude::*;
use crate::cli::approval::MenuKey;
use crate::cli::cards::{
    card_bottom, card_row, card_separator, card_top, render_card_bottom, render_card_row,
    render_card_separator, render_card_top,
};
use crate::cli::style::{BOLD_CYAN, CYAN, MUTED, WHITE};
use crate::cli::width::{
    less, less_or_none, shortened, truncate_str, two_column_line, two_columns,
};
use crate::message::{message_views, MessageRole, MessageView};
use crate::number::{decimal, parse_usize, parsed_usize, render_u128, render_usize};
use crate::session::{Session, SessionSummary};
use crate::text::{lower, opt_view, owned, same, to_chars, to_lower, trim, trimmed};

verus! {

/// A session that can be gone on with.
#[derive(Debug, PartialEq, Eq)]
pub struct StartupSessionItem {
    pub id: String,
    pub message_count: usize,
    pub model: String,
    pub updated_at_ms: u64,
    pub preview: String,
    pub active: bool,
}

/// The value of a `StartupSessionItem`.
pub struct StartupSessionItemView {
    pub id: Seq<char>,
    pub message_count: usize,
    pub model: Seq<char>,
    pub updated_at_ms: u64,
    pub preview: Seq<char>,
    pub active: bool,
}

impl View for StartupSessionItem {
    type V = StartupSessionItemView;

    open spec fn view(&self) -> StartupSessionItemView {
        StartupSessionItemView {
            id: self.id@,
            message_count: self.message_count,
            model: self.model@,
            updated_at_ms: self.updated_at_ms,
            preview: self.preview@,
            active: self.active,
        }
    }
}

impl Clone for StartupSessionItem {
    fn clone(&self) -> (r: Self)
        ensures
            r@ == self@,
    {
        StartupSessionItem {
            id: self.id.clone(),
            message_count: self.message_count,
            model: self.model.clone(),
            updated_at_ms: self.updated_at_ms,
            preview: self.preview.clone(),
            active: self.active,
        }
    }
}

/// The values of a list of `StartupSessionItem`.
pub open spec fn startup_session_item_views(s: Seq<StartupSessionItem>) -> Seq<StartupSessionItemView> {
    Seq::new(s.len(), |i: int| s[i]@)
}

/// What the user chose at the start.
#[derive(Debug, Clone, Copy, PartialEq, Eq, Structural)]
pub enum StartupChoice {
    Existing(usize),
    NewSession,
}

/// How many sessions the menu at the start offers.
pub const MAX_STARTUP_SESSIONS: usize = 8;

// ---------------------------------------------------------------------------
// Sessions
// ---------------------------------------------------------------------------

/// The last message of the user.
pub open spec fn last_user_text(messages: Seq<MessageView>) -> Option<Seq<char>>
    decreases messages.len(),
{
    if messages.len() == 0 {
        None
    } else if messages.last().role is User {
        Some(messages.last().content)
    } else {
        last_user_text(messages.drop_last())
    }
}

/// What is shown of a session: the start of the last message of the user.
pub open spec fn preview_of(messages: Seq<MessageView>) -> Seq<char> {
    match last_user_text(messages) {
        Some(text) => if shortened(trimmed(text), 72).len() == 0 {
            "（空会话）"@
        } else {
            shortened(trimmed(text), 72)
        },
        None => "（空会话）"@,
    }
}

/// What is shown of a session.
pub fn session_preview(session: &Session) -> (r: String)
    ensures
        r@ == preview_of(session@.history),
{
    let messages = session.history.messages();
    let ghost all = session@.history;
    let mut i: usize = messages.len();
    proof {
        assert(all.take(messages@.len() as int) =~= all);
    }
    while i > 0
        invariant
            i <= messages@.len(),
            all == message_views(messages@),
            all == session@.history,
            last_user_text(all) == last_user_text(all.take(i as int)),
        decreases i,
    {
        i -= 1;
        proof {
            assert(all.take(i + 1).drop_last() =~= all.take(i as int));
            assert(all.take(i + 1).last() == messages@[i as int]@);
        }
        if messages[i].role == MessageRole::User {
            let text = truncate_str(trim(messages[i].content.as_str()).as_str(), 72);
            if to_chars(text.as_str()).len() == 0 {
                return owned("（空会话）");
            }
            return text;
        }
    }
    owned("（空会话）")
}

/// What is offered of a session, where `preview` is what could be shown of it.
pub open spec fn item_of(
    summary: SessionSummary,
    preview: Option<Seq<char>>,
    active_id: Seq<char>,
) -> StartupSessionItemView {
    StartupSessionItemView {
        id: summary.id@,
        message_count: summary.message_count,
        model: summary.model@,
        updated_at_ms: summary.updated_at_ms,
        preview: match preview {
            Some(text) => text,
            None => "(unable to load preview)"@,
        },
        active: summary.id@ == active_id,
    }
}

/// What is offered of a session, where `preview` is what could be shown of it.
pub fn startup_session_item(
    summary: &SessionSummary,
    preview: Option<String>,
    active_id: &str,
) -> (r: StartupSessionItem)
    ensures
        r@ == item_of(*summary, opt_view(preview), active_id@),
{
    let text = match preview {
        Some(text) => text,
        None => owned("(unable to load preview)"),
    };
    StartupSessionItem {
        id: summary.id.clone(),
        message_count: summary.message_count,
        model: summary.model.clone(),
        updated_at_ms: summary.updated_at_ms,
        preview: text,
        active: same(summary.id.as_str(), active_id),
    }
}

/// The sessions with messages.
pub open spec fn with_messages(items: Seq<StartupSessionItemView>) -> Seq<StartupSessionItemView>
    decreases items.len(),
{
    if items.len() == 0 {
        items
    } else if items.last().message_count > 0 {
        with_messages(items.drop_last()).push(items.last())
    } else {
        with_messages(items.drop_last())
    }
}

/// The sessions with messages.
pub fn sessions_with_messages(items: &Vec<StartupSessionItem>) -> (r: Vec<StartupSessionItem>)
    ensures
        startup_session_item_views(r@) == with_messages(startup_session_item_views(items@)),
{
    let mut r: Vec<StartupSessionItem> = Vec::new();
    let mut i: usize = 0;
    let ghost all = startup_session_item_views(items@);
    proof {
        assert(startup_session_item_views(r@) =~= with_messages(all.take(0)));
    }
    while i < items.len()
        invariant
            i <= items@.len(),
            all == startup_session_item_views(items@),
            startup_session_item_views(r@) == with_messages(all.take(i as int)),
        decreases items.len() - i,
    {
        proof {
            assert(all.take(i + 1).drop_last() =~= all.take(i as int));
            assert(all.take(i + 1).last() == items@[i as int]@);
        }
        if items[i].message_count > 0 {
            let item = items[i].clone();
            proof {
                assert(startup_session_item_views(r@.push(item)) =~= startup_session_item_views(
                    r@,
                ).push(item@));
            }
            r.push(item);
        }
        i += 1;
    }
    proof {
        assert(all.take(items@.len() as int) =~= all);
    }
    r
}

/// The first active session from `i` on.
pub open spec fn first_active(items: Seq<StartupSessionItemView>, i: int) -> Option<int>
    decreases items.len() - i,
{
    if i >= items.len() {
        None
    } else if items[i].active {
        Some(i)
    } else {
        first_active(items, i + 1)
    }
}

/// The session that is chosen unless another is: the active one, else the first.
pub fn default_choice(items: &Vec<StartupSessionItem>) -> (r: usize)
    ensures
        r == match first_active(startup_session_item_views(items@), 0) {
            Some(i) => i,
            None => 0,
        },
{
    let ghost all = startup_session_item_views(items@);
    let mut i: usize = 0;
    while i < items.len()
        invariant
            i <= items@.len(),
            all == startup_session_item_views(items@),
            first_active(all, 0) == first_active(all, i as int),
        decreases items.len() - i,
    {
        proof {
            assert(all[i as int] == items@[i as int]@);
        }
        if items[i].active {
            return i;
        }
        i += 1;
    }
    0
}

/// Whether the menu is shown although no terminal is there.
pub open spec fn is_forced(setting: Option<Seq<char>>) -> bool {
    match setting {
        Some(value) => value == "1"@ || value == "true"@ || value == "always"@,
        None => false,
    }
}

/// Whether the menu is shown: where it is asked for, or where input or output is a terminal.
pub fn shows_startup_menu(setting: &Option<String>, input_terminal: bool, output_terminal: bool) -> (r:
    bool)
    ensures
        r == (is_forced(opt_view(*setting)) || input_terminal || output_terminal),
{
    let forced = match setting {
        Some(value) => same(value.as_str(), "1") || same(value.as_str(), "true") || same(
            value.as_str(),
            "always",
        ),
        None => false,
    };
    forced || input_terminal || output_terminal
}

// ---------------------------------------------------------------------------
// Choosing
// ---------------------------------------------------------------------------

/// The choice below another; below the last session stands a new one, and below that the
/// first session.
pub open spec fn choice_after(choice: StartupChoice, count: nat) -> StartupChoice {
    match choice {
        StartupChoice::Existing(index) => if index + 1 < count {
            StartupChoice::Existing((index + 1) as usize)
        } else {
            StartupChoice::NewSession
        },
        StartupChoice::NewSession => StartupChoice::Existing(0),
    }
}

/// The choice above another.
pub open spec fn choice_before(choice: StartupChoice, count: nat) -> StartupChoice {
    match choice {
        StartupChoice::Existing(index) => if index == 0 {
            StartupChoice::NewSession
        } else {
            StartupChoice::Existing((index - 1) as usize)
        },
        StartupChoice::NewSession => StartupChoice::Existing(
            if count == 0 {
                0
            } else {
                (count - 1) as usize
            },
        ),
    }
}

/// The choice below another.
pub fn next_startup_choice(choice: StartupChoice, item_count: usize) -> (r: StartupChoice)
    ensures
        r == choice_after(choice, item_count as nat),
{
    match choice {
        StartupChoice::Existing(index) => {
            if item_count > 0 && index < item_count - 1 {
                StartupChoice::Existing(index + 1)
            } else {
                StartupChoice::NewSession
            }
        },
        StartupChoice::NewSession => StartupChoice::Existing(0),
    }
}

/// The choice above another.
pub fn previous_startup_choice(choice: StartupChoice, item_count: usize) -> (r: StartupChoice)
    ensures
        r == choice_before(choice, item_count as nat),
{
    match choice {
        StartupChoice::Existing(index) => {
            if index == 0 {
                StartupChoice::NewSession
            } else {
                StartupChoice::Existing(index - 1)
            }
        },
        StartupChoice::NewSession => {
            let last: usize = if item_count == 0 {
                0
            } else {
                item_count - 1
            };
            StartupChoice::Existing(last)
        },
    }
}

/// Whether a choice is one that the menu offers.
pub open spec fn is_offered(choice: StartupChoice, count: nat) -> bool {
    match choice {
        StartupChoice::Existing(index) => index < count,
        StartupChoice::NewSession => true,
    }
}

/// In a menu with sessions, up undoes down and down undoes up, and both stay in the menu.
pub proof fn startup_menu_moves_are_inverse(choice: StartupChoice, count: nat)
    requires
        is_offered(choice, count),
        0 < count <= usize::MAX,
    ensures
        choice_before(choice_after(choice, count), count) == choice,
        choice_after(choice_before(choice, count), count) == choice,
        is_offered(choice_after(choice, count), count),
        is_offered(choice_before(choice, count), count),
{
}

/// The choice once a key was pressed, and whether it is final.
pub open spec fn after_startup_key(
    selected: StartupChoice,
    key: MenuKey,
    count: nat,
    default_index: usize,
) -> (StartupChoice, bool) {
    match key {
        MenuKey::Up => (choice_before(selected, count), false),
        MenuKey::Down => (choice_after(selected, count), false),
        MenuKey::Enter => (selected, true),
        MenuKey::Escape => (StartupChoice::Existing(default_index), true),
        MenuKey::Letter(c) => if c == 'n' || c == 'N' {
            (StartupChoice::NewSession, true)
        } else if '1' <= c && c <= '9' && (c as u32 - '1' as u32) < count {
            (StartupChoice::Existing((c as u32 - '1' as u32) as usize), true)
        } else {
            (selected, false)
        },
        MenuKey::Other => (selected, false),
    }
}

/// The choice once a key was pressed, and whether it is final.
pub fn startup_key(
    selected: StartupChoice,
    key: MenuKey,
    item_count: usize,
    default_index: usize,
) -> (r: (StartupChoice, bool))
    ensures
        r == after_startup_key(selected, key, item_count as nat, default_index),
{
    match key {
        MenuKey::Up => (previous_startup_choice(selected, item_count), false),
        MenuKey::Down => (next_startup_choice(selected, item_count), false),
        MenuKey::Enter => (selected, true),
        MenuKey::Escape => (StartupChoice::Existing(default_index), true),
        MenuKey::Letter(c) => {
            if c == 'n' || c == 'N' {
                return (StartupChoice::NewSession, true);
            }
            if '1' <= c && c <= '9' {
                let index: usize = (c as u32 - 49) as usize;
                if index < item_count {
                    return (StartupChoice::Existing(index), true);
                }
            }
            (selected, false)
        },
        MenuKey::Other => (selected, false),
    }
}

/// The choice that a line means: `n` for a new session, a number for one of the list,
/// anything else for the default.
pub open spec fn choice_of_line(line: Seq<char>, count: nat, default_index: usize) -> StartupChoice {
    let text = trimmed(line);
    if lower(text) == "n"@ {
        StartupChoice::NewSession
    } else {
        match parsed_usize(text) {
            Some(number) => if 1 <= number <= count {
                StartupChoice::Existing((number - 1) as usize)
            } else {
                StartupChoice::Existing(default_index)
            },
            None => StartupChoice::Existing(default_index),
        }
    }
}

/// The choice that a line means.
pub fn startup_choice_from_line(line: &str, item_count: usize, default_index: usize) -> (r:
    StartupChoice)
    ensures
        r == choice_of_line(line@, item_count as nat, default_index),
{
    let text = trim(line);
    if same(to_lower(text.as_str()).as_str(), "n") {
        return StartupChoice::NewSession;
    }
    match parse_usize(text.as_str()) {
        Some(number) => {
            if 1 <= number && number <= item_count {
                StartupChoice::Existing(number - 1)
            } else {
                StartupChoice::Existing(default_index)
            }
        },
        None => StartupChoice::Existing(default_index),
    }
}

// ---------------------------------------------------------------------------
// The menu
// ---------------------------------------------------------------------------

/// What stands at the right of a session in the menu.
pub open spec fn item_details(item: StartupSessionItemView) -> Seq<char> {
    "消息 "@ + decimal(item.message_count as nat) + " · 模型 "@ + item.model + if item.active {
        " · 当前"@
    } else {
        ""@
    }
}

fn render_item_details(item: &StartupSessionItem) -> (r: String)
    ensures
        r@ == item_details(item@),
{
    let mark = if item.active {
        " · 当前"
    } else {
        ""
    };
    owned("消息 ").concat(render_usize(item.message_count).as_str()).concat(" · 模型 ").concat(
        item.model.as_str(),
    ).concat(mark)
}

/// How a session looks in the menu: the selected one is marked, and where nothing can be
/// selected all look alike.
pub open spec fn item_style(interactive: bool, selected: bool) -> Seq<char> {
    if !interactive {
        WHITE@
    } else if selected {
        BOLD_CYAN@
    } else {
        MUTED@
    }
}

/// What stands before a session in the menu.
pub open spec fn item_marker(selected: bool) -> Seq<char> {
    if selected {
        ">"@
    } else {
        " "@
    }
}

fn style_of_item(interactive: bool, selected: bool) -> (r: &'static str)
    ensures
        r@ == item_style(interactive, selected),
{
    if !interactive {
        WHITE
    } else if selected {
        BOLD_CYAN
    } else {
        MUTED
    }
}

fn marker_of_item(selected: bool) -> (r: &'static str)
    ensures
        r@ == item_marker(selected),
{
    if selected {
        ">"
    } else {
        " "
    }
}

/// Whether the session at `i` is selected.
pub open spec fn selects(selected: Option<StartupChoice>, i: int) -> bool {
    match selected {
        Some(StartupChoice::Existing(index)) => index == i,
        _ => false,
    }
}

/// A row of the menu.
pub open spec fn item_row(
    inner: usize,
    item: StartupSessionItemView,
    i: int,
    selected: Option<StartupChoice>,
) -> Seq<char> {
    let left = item_marker(selects(selected, i)) + " "@ + decimal((i + 1) as nat) + ". "@
        + item.preview;
    card_row(
        inner,
        two_columns(left, item_details(item), inner),
        item_style(selected is Some, selects(selected, i)),
    )
}

/// The rows of the first sessions of the menu.
pub open spec fn item_rows(
    inner: usize,
    items: Seq<StartupSessionItemView>,
    selected: Option<StartupChoice>,
) -> Seq<char>
    decreases items.len(),
{
    if items.len() == 0 {
        Seq::empty()
    } else {
        item_rows(inner, items.drop_last(), selected) + item_row(
            inner,
            items.last(),
            items.len() - 1,
            selected,
        )
    }
}

fn render_item_rows(
    inner: usize,
    items: &Vec<StartupSessionItem>,
    selected: Option<StartupChoice>,
) -> (r: String)
    ensures
        r@ == item_rows(inner, startup_session_item_views(items@), selected),
{
    let mut r = String::new();
    let mut i: usize = 0;
    let ghost all = startup_session_item_views(items@);
    proof {
        assert(r@ =~= item_rows(inner, all.take(0), selected));
    }
    while i < items.len()
        invariant
            i <= items@.len(),
            all == startup_session_item_views(items@),
            r@ == item_rows(inner, all.take(i as int), selected),
        decreases items.len() - i,
    {
        proof {
            assert(all.take(i + 1).drop_last() =~= all.take(i as int));
            assert(all.take(i + 1).last() == items@[i as int]@);
        }
        let chosen = match selected {
            Some(StartupChoice::Existing(index)) => index == i,
            _ => false,
        };
        let left = owned(marker_of_item(chosen)).concat(" ").concat(
            render_usize(i + 1).as_str(),
        ).concat(". ").concat(items[i].preview.as_str());
        let line = two_column_line(
            left.as_str(),
            render_item_details(&items[i]).as_str(),
            inner,
        );
        r.append(
            render_card_row(
                inner,
                line.as_str(),
                style_of_item(selected.is_some(), chosen),
            ).as_str(),
        );
        i += 1;
    }
    proof {
        assert(all.take(items@.len() as int) =~= all);
    }
    r
}

/// The menu of sessions; `selected` is the marked choice, none where a line is typed instead.
pub open spec fn startup_menu(
    width: usize,
    items: Seq<StartupSessionItemView>,
    selected: Option<StartupChoice>,
) -> Seq<char> {
    let inner = less(width, 4) as usize;
    let chosen = selected == Some(StartupChoice::NewSession);
    "\n"@ + card_top(width) + card_row(
        inner,
        "▌ NKU·RS   南开 Rust 编程助手"@,
        BOLD_CYAN@,
    ) + card_row(inner, "  选择要继续的会话上下文"@, CYAN@) + card_row(
        inner,
        if selected is Some {
            "  ↑/↓ 切换，回车确认，n 新建。"@
        } else {
            "  输入序号确认，n 新建。"@
        },
        MUTED@,
    ) + card_separator(width) + item_rows(inner, items, selected) + card_row(
        inner,
        item_marker(chosen) + " n. 新建会话"@,
        item_style(selected is Some, chosen),
    ) + card_bottom(width)
}

/// The menu of sessions.
pub fn render_startup_menu(
    width: usize,
    items: &Vec<StartupSessionItem>,
    selected: Option<StartupChoice>,
) -> (r: String)
    ensures
        r@ == startup_menu(width, startup_session_item_views(items@), selected),
{
    let inner: usize = less_or_none(width, 4);
    let chosen = match selected {
        Some(StartupChoice::NewSession) => true,
        _ => false,
    };
    let help = if selected.is_some() {
        "  ↑/↓ 切换，回车确认，n 新建。"
    } else {
        "  输入序号确认，n 新建。"
    };
    let fresh = owned(marker_of_item(chosen)).concat(" n. 新建会话");
    owned("\n").concat(render_card_top(width).as_str()).concat(
        render_card_row(inner, "▌ NKU·RS   南开 Rust 编程助手", BOLD_CYAN).as_str(),
    ).concat(render_card_row(inner, "  选择要继续的会话上下文", CYAN).as_str()).concat(
        render_card_row(inner, help, MUTED).as_str(),
    ).concat(render_card_separator(width).as_str()).concat(
        render_item_rows(inner, items, selected).as_str(),
    ).concat(
        render_card_row(
            inner,
            fresh.as_str(),
            style_of_item(selected.is_some(), chosen),
        ).as_str(),
    ).concat(render_card_bottom(width).as_str())
}

/// How many lines the menu of so many sessions takes up.
pub fn startup_menu_lines(item_count: usize) -> (r: u16)
    requires
        item_count + 8 <= u16::MAX,
    ensures
        r == item_count + 8,
{
    item_count as u16 + 8
}

/// The question below a menu where a line is typed.
pub open spec fn startup_question(default_index: usize) -> Seq<char> {
    "选择上下文 [回车="@ + decimal((default_index + 1) as nat) + "]："@
}

/// The question below a menu where a line is typed.
pub fn render_startup_question(default_index: usize) -> (r: String)
    ensures
        r@ == startup_question(default_index),
{
    owned("选择上下文 [回车=").concat(render_u128(default_index as u128 + 1).as_str()).concat(
        "]：",
    )
}

} // verus!
