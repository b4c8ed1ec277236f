//! Cards: boxes of fixed width on the terminal.
use vstd::prelude::*;
use crate::cli::style::{BOLD_WHITE, BORDER, CYAN, MUTED, RESET, WHITE};
use crate::cli::width::{
    display_width, less, less_or_none, shortened, shortened_left, text_width, truncate_display,
    truncate_to_width, two_column_line, two_columns,
};
use crate::number::{decimal, render_usize};
use crate::text::{owned, repeat, repeated};

verus! {

/// The upper edge of a card.
pub open spec fn card_top(width: usize) -> Seq<char> {
    BORDER@ + "╭"@ + repeated("─"@, less(width, 2)) + "╮"@ + RESET@ + "\n"@
}

/// The upper edge of a card.
pub fn render_card_top(width: usize) -> (r: String)
    ensures
        r@ == card_top(width),
{
    owned(BORDER).concat("╭").concat(repeat("─", less_or_none(width, 2)).as_str()).concat("╮")
        .concat(RESET).concat("\n")
}

/// A line across a card.
pub open spec fn card_separator(width: usize) -> Seq<char> {
    BORDER@ + "├"@ + repeated("─"@, less(width, 2)) + "┤"@ + RESET@ + "\n"@
}

/// A line across a card.
pub fn render_card_separator(width: usize) -> (r: String)
    ensures
        r@ == card_separator(width),
{
    owned(BORDER).concat("├").concat(repeat("─", less_or_none(width, 2)).as_str()).concat("┤")
        .concat(RESET).concat("\n")
}

/// The lower edge of a card.
pub open spec fn card_bottom(width: usize) -> Seq<char> {
    BORDER@ + "╰"@ + repeated("─"@, less(width, 2)) + "╯"@ + RESET@ + "\n"@
}

/// The lower edge of a card.
pub fn render_card_bottom(width: usize) -> (r: String)
    ensures
        r@ == card_bottom(width),
{
    owned(BORDER).concat("╰").concat(repeat("─", less_or_none(width, 2)).as_str()).concat("╯")
        .concat(RESET).concat("\n")
}


/// A row of a card whose content has `inner` columns.
pub open spec fn card_row(inner: usize, content: Seq<char>, style: Seq<char>) -> Seq<char> {
    let fitted = shortened(content, inner);
    "│ "@ + style + fitted + RESET@ + repeated(" "@, less(inner, text_width(fitted))) + " │\n"@
}

/// A row of a card whose content has `inner` columns.
pub fn render_card_row(inner: usize, content: &str, style: &str) -> (r: String)
    ensures
        r@ == card_row(inner, content@, style@),
{
    let fitted = truncate_to_width(content, inner);
    let n: usize = less_or_none(inner, display_width(fitted.as_str()));
    owned("│ ").concat(style).concat(fitted.as_str()).concat(RESET).concat(
        repeat(" ", n).as_str(),
    ).concat(" │\n")
}

/// A row of a card of `width` columns.
pub open spec fn card_line(width: usize, content: Seq<char>, style: Seq<char>) -> Seq<char> {
    card_row(less(width, 4) as usize, content, style)
}

/// A row of a card of `width` columns.
pub fn render_card_line(width: usize, content: &str, style: &str) -> (r: String)
    ensures
        r@ == card_line(width, content@, style@),
{
    render_card_row(less_or_none(width, 4), content, style)
}

/// A number held between two bounds.
pub open spec fn held(n: usize, low: usize, high: usize) -> usize {
    if n < low {
        low
    } else if n > high {
        high
    } else {
        n
    }
}

/// The width of what the main loop shows, in a terminal of `columns` columns.
pub open spec fn content_width(columns: Option<usize>) -> usize {
    match columns {
        Some(n) => held(n, 58, 88),
        None => 74,
    }
}

/// The width of what the main loop shows, in a terminal of `columns` columns.
pub fn terminal_content_width(columns: Option<usize>) -> (r: usize)
    ensures
        r == content_width(columns),
{
    match columns {
        Some(n) => if n < 58 {
            58
        } else if n > 88 {
            88
        } else {
            n
        },
        None => 74,
    }
}

/// The width of the session menu, in a terminal of `columns` columns.
pub open spec fn menu_width(columns: Option<usize>) -> usize {
    match columns {
        Some(n) => held(n, 64, 88),
        None => 78,
    }
}

/// The width of the session menu, in a terminal of `columns` columns.
pub fn card_width(columns: Option<usize>) -> (r: usize)
    ensures
        r == menu_width(columns),
{
    match columns {
        Some(n) => if n < 64 {
            64
        } else if n > 88 {
            88
        } else {
            n
        },
        None => 78,
    }
}

/// What the banner says of the session.
pub open spec fn banner_session(id: Seq<char>, count: nat) -> Seq<char> {
    if count > 0 {
        id + "  "@ + decimal(count) + " 条消息"@
    } else {
        "新会话"@
    }
}

/// The banner.
pub open spec fn banner(
    width: usize,
    workspace: Seq<char>,
    provider: Seq<char>,
    model: Seq<char>,
    session_id: Seq<char>,
    count: nat,
) -> Seq<char> {
    let shown_workspace = shortened_left(workspace, less(width, 14) as usize);
    let shown_provider = shortened(provider + "/"@ + model, less(width, 18) as usize);
    let shown_session = shortened(banner_session(session_id, count), less(width, 18) as usize);
    "\n"@ + card_top(width) + card_line(width, "  NKU·RS"@, CYAN@) + card_line(
        width,
        "  南开 Rust 编程助手"@,
        BOLD_WHITE@,
    ) + card_line(
        width,
        "  本地代码代理 · 文件读写 · 命令审批 · 可回滚"@,
        MUTED@,
    ) + card_separator(width) + card_line(
        width,
        two_columns(
            "模型  "@ + shown_provider,
            "会话  "@ + shown_session,
            less(width, 4) as usize,
        ),
        WHITE@,
    ) + card_line(width, "工作区  "@ + shown_workspace, WHITE@) + card_line(
        width,
        "快捷命令  /帮助  /会话列表  /工具  /回滚"@,
        MUTED@,
    ) + card_bottom(width)
}

/// The banner.
pub fn render_banner(
    width: usize,
    workspace: &str,
    provider: &str,
    model: &str,
    session_id: &str,
    count: usize,
) -> (r: String)
    ensures
        r@ == banner(width, workspace@, provider@, model@, session_id@, count as nat),
{
    let shown_workspace = truncate_display(workspace, less_or_none(width, 14));
    let both = owned(provider).concat("/").concat(model);
    let shown_provider = truncate_to_width(both.as_str(), less_or_none(width, 18));
    let session = if count > 0 {
        owned(session_id).concat("  ").concat(render_usize(count).as_str()).concat(" 条消息")
    } else {
        owned("新会话")
    };
    let shown_session = truncate_to_width(session.as_str(), less_or_none(width, 18));
    let models = two_column_line(
        owned("模型  ").concat(shown_provider.as_str()).as_str(),
        owned("会话  ").concat(shown_session.as_str()).as_str(),
        less_or_none(width, 4),
    );
    let place = owned("工作区  ").concat(shown_workspace.as_str());
    owned("\n").concat(render_card_top(width).as_str()).concat(
        render_card_line(width, "  NKU·RS", CYAN).as_str(),
    ).concat(render_card_line(width, "  南开 Rust 编程助手", BOLD_WHITE).as_str()).concat(
        render_card_line(
            width,
            "  本地代码代理 · 文件读写 · 命令审批 · 可回滚",
            MUTED,
        ).as_str(),
    ).concat(render_card_separator(width).as_str()).concat(
        render_card_line(width, models.as_str(), WHITE).as_str(),
    ).concat(render_card_line(width, place.as_str(), WHITE).as_str()).concat(
        render_card_line(width, "快捷命令  /帮助  /会话列表  /工具  /回滚", MUTED).as_str(),
    ).concat(render_card_bottom(width).as_str())
}

} // verus!
