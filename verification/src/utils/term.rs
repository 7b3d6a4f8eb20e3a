//! Styling for the messages the app writes to the terminal: a glyph per
//! level, and ANSI colour when the stream can carry it.

use vstd::prelude::*;
use vstd::string::{StrSliceExecFns, StringExecFns};

use crate::text::push_str;

verus! {

/// How much attention a message deserves.
#[derive(Clone, Copy, PartialEq, Eq, Debug, Structural)]
pub enum Level {
    /// Something happened that was asked for.
    Info,
    /// Something did not happen, or happened differently than intended.
    Warn,
    /// Something failed.
    Error,
}

/// The prefix glyph of a level: `•`, `⚠`, `✗`.
pub open spec fn level_icon(l: Level) -> Seq<char> {
    match l {
        Level::Info => "\u{2022}"@,
        Level::Warn => "\u{26a0}"@,
        Level::Error => "\u{2717}"@,
    }
}

/// The SGR parameters of a level: none, bold yellow, bold red.
pub open spec fn level_sgr(l: Level) -> Seq<char> {
    match l {
        Level::Info => ""@,
        Level::Warn => "1;33"@,
        Level::Error => "1;31"@,
    }
}

impl Level {
    /// The prefix glyph, distinct in shape as well as colour.
    pub fn icon(self) -> (s: &'static str)
        ensures
            s@ == level_icon(self),
    {
        match self {
            Level::Info => "\u{2022}",
            Level::Warn => "\u{26a0}",
            Level::Error => "\u{2717}",
        }
    }

    /// SGR parameters: bold, plus a colour for anything above `Info`.
    pub fn sgr(self) -> (s: &'static str)
        ensures
            s@ == level_sgr(self),
    {
        match self {
            Level::Info => "",
            Level::Warn => "1;33",
            Level::Error => "1;31",
        }
    }
}

/// A message with its level's glyph, wrapped in the level's colour when
/// `styled` and the level has one.
pub open spec fn styled_text(level: Level, msg: Seq<char>, styled: bool) -> Seq<char> {
    if styled && level_sgr(level).len() > 0 {
        "\u{1b}["@ + level_sgr(level) + "m"@ + level_icon(level) + " "@ + msg + "\u{1b}[0m"@
    } else {
        level_icon(level) + " "@ + msg
    }
}

/// Format a message for a stream, styled when `styled` says the stream can
/// carry it.
pub fn style(level: Level, msg: &str, styled: bool) -> (s: String)
    ensures
        s@ == styled_text(level, msg@, styled),
{
    let icon = level.icon();
    let sgr = level.sgr();
    proof {
        reveal_strlit("");
    }
    if styled && sgr.unicode_len() > 0 {
        let mut s = String::from_str("\u{1b}[");
        push_str(&mut s, sgr);
        push_str(&mut s, "m");
        push_str(&mut s, icon);
        push_str(&mut s, " ");
        push_str(&mut s, msg);
        push_str(&mut s, "\u{1b}[0m");
        s
    } else {
        let mut s = String::from_str(icon);
        push_str(&mut s, " ");
        push_str(&mut s, msg);
        s
    }
}

} // verus!
