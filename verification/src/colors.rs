//! Terminal escape sequences that style a diagnostic.

use vstd::prelude::*;

verus! {

/// Bold text.
pub const FORMAT_BOLD: &'static str = "\x1b[1m";

/// Back to the terminal's plain style.
pub const FORMAT_RESET: &'static str = "\x1b[0m";

/// Red text.
pub const COLOR_FG_RED: &'static str = "\x1b[31m";

/// Bright blue text.
pub const COLOR_FG_BLUE_BRIGHT: &'static str = "\x1b[94m";

} // verus!
