//! Colours of the terminal.
use vstd::prelude::*;

verus! {

/// Back to plain text.
pub const RESET: &'static str = "\x1b[0m";

/// Faint white.
pub const DIM: &'static str = "\x1b[2;37m";

/// Grey.
pub const MUTED: &'static str = "\x1b[90m";

/// Cyan.
pub const CYAN: &'static str = "\x1b[36m";

/// The border of a card.
pub const BORDER: &'static str = "\x1b[2;37m";

/// Bold cyan.
pub const BOLD_CYAN: &'static str = "\x1b[1;36m";

/// Bold white.
pub const BOLD_WHITE: &'static str = "\x1b[1;37m";

/// Green.
pub const GREEN: &'static str = "\x1b[32m";

/// Bold green.
pub const BOLD_GREEN: &'static str = "\x1b[1;32m";

/// Yellow.
pub const YELLOW: &'static str = "\x1b[33m";

/// Blue.
pub const BLUE: &'static str = "\x1b[34m";

/// White.
pub const WHITE: &'static str = "\x1b[37m";

/// Back to the start of the line, which is cleared.
pub const ERASE_LINE: &'static str = "\r\x1b[K";

} // verus!
