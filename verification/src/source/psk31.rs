//! PSK31's sub-modes and its HUD sub-mode text.

use vstd::prelude::*;
use vstd::string::StringExecFns;

use crate::text::push_str;

verus! {

/// Binary or quadrature PSK31.
#[derive(Clone, Copy, PartialEq, Eq, Debug, Structural)]
pub enum Psk31Mode {
    Bpsk31,
    Qpsk31,
}

/// `  mode b|q  msg c|n`: the mode's letter and whether the message is the
/// custom one.
pub open spec fn psk31_submode_text(mode: Psk31Mode, msg_is_custom: bool) -> Seq<char> {
    "  mode "@ + (match mode {
        Psk31Mode::Bpsk31 => "b"@,
        Psk31Mode::Qpsk31 => "q"@,
    }) + "  msg "@ + if msg_is_custom {
        "c"@
    } else {
        "n"@
    }
}

/// The PSK31 sub-mode string shown in the top HUD line.
pub fn hud_submode_str(mode: Psk31Mode, msg_is_custom: bool) -> (s: String)
    ensures
        s@ == psk31_submode_text(mode, msg_is_custom),
{
    let mode_ch = match mode {
        Psk31Mode::Bpsk31 => "b",
        Psk31Mode::Qpsk31 => "q",
    };
    let msg_ch = if msg_is_custom {
        "c"
    } else {
        "n"
    };
    let mut s = String::from_str("  mode ");
    push_str(&mut s, mode_ch);
    push_str(&mut s, "  msg ");
    push_str(&mut s, msg_ch);
    s
}

} // verus!
