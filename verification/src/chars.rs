//! The symbols that open the lines of the output.
use vstd::prelude::*;

verus! {

/// One symbol for each kind of line.
#[derive(Clone, Copy, Debug, PartialEq, Eq)]
pub struct Chars {
    pub ring: &'static str,
    pub tidied: &'static str,
    pub unchanged: &'static str,
    pub unknown: &'static str,
    pub lint_free: &'static str,
    pub lint_dirty: &'static str,
    pub empty: &'static str,
    pub bullet: &'static str,
    pub execution_error: &'static str,
}

/// The table of the symbols of ordinary output.
pub open spec fn fun() -> Chars {
    Chars {
        ring: "💍",
        tidied: "💧",
        unchanged: "✨",
        unknown: "❓",
        lint_free: "💯",
        lint_dirty: "💩",
        empty: "⚫",
        bullet: "▶",
        execution_error: "💥",
    }
}

/// The table of the symbols of output that is to be plain ASCII.
pub open spec fn boring() -> Chars {
    Chars {
        ring: ":",
        tidied: "*",
        unchanged: "|",
        unknown: "?",
        lint_free: "|",
        lint_dirty: "*",
        empty: "_",
        bullet: "*",
        execution_error: "!",
    }
}

/// The symbols of ordinary output.
pub fn fun_chars() -> (res: Chars)
    ensures
        res == fun(),
{
    Chars {
        ring: "💍",
        tidied: "💧",
        unchanged: "✨",
        unknown: "❓",
        lint_free: "💯",
        lint_dirty: "💩",
        empty: "⚫",
        bullet: "▶",
        execution_error: "💥",
    }
}

/// The symbols of output that is to be plain ASCII.
pub fn boring_chars() -> (res: Chars)
    ensures
        res == boring(),
{
    Chars {
        ring: ":",
        tidied: "*",
        unchanged: "|",
        unknown: "?",
        lint_free: "|",
        lint_dirty: "*",
        empty: "_",
        bullet: "*",
        execution_error: "!",
    }
}

impl Chars {
    /// Every symbol is ASCII.
    pub open spec fn all_ascii(self) -> bool {
        &&& self.ring.is_ascii()
        &&& self.tidied.is_ascii()
        &&& self.unchanged.is_ascii()
        &&& self.unknown.is_ascii()
        &&& self.lint_free.is_ascii()
        &&& self.lint_dirty.is_ascii()
        &&& self.empty.is_ascii()
        &&& self.bullet.is_ascii()
        &&& self.execution_error.is_ascii()
    }
}

/// The boring symbols replace the Unicode ones by ASCII.
pub proof fn boring_chars_are_ascii()
    ensures
        boring().all_ascii(),
{
    reveal_strlit(":");
    reveal_strlit("*");
    reveal_strlit("|");
    reveal_strlit("?");
    reveal_strlit("_");
    reveal_strlit("!");
}

/// Every symbol is a single character, and each kind of line has its own in
/// ordinary output.
pub proof fn every_symbol_is_one_character()
    ensures
        fun().ring@ == seq!['💍'],
        fun().tidied@ == seq!['💧'],
        fun().unchanged@ == seq!['✨'],
        fun().unknown@ == seq!['❓'],
        fun().lint_free@ == seq!['💯'],
        fun().lint_dirty@ == seq!['💩'],
        fun().empty@ == seq!['⚫'],
        fun().bullet@ == seq!['▶'],
        fun().execution_error@ == seq!['💥'],
        boring().ring@ == seq![':'],
        boring().tidied@ == seq!['*'],
        boring().unchanged@ == seq!['|'],
        boring().unknown@ == seq!['?'],
        boring().lint_free@ == seq!['|'],
        boring().lint_dirty@ == seq!['*'],
        boring().empty@ == seq!['_'],
        boring().bullet@ == seq!['*'],
        boring().execution_error@ == seq!['!'],
{
    reveal_strlit("💍");
    reveal_strlit("💧");
    reveal_strlit("✨");
    reveal_strlit("❓");
    reveal_strlit("💯");
    reveal_strlit("💩");
    reveal_strlit("⚫");
    reveal_strlit("▶");
    reveal_strlit("💥");
    reveal_strlit(":");
    reveal_strlit("*");
    reveal_strlit("|");
    reveal_strlit("?");
    reveal_strlit("_");
    reveal_strlit("!");
}

} // verus!
