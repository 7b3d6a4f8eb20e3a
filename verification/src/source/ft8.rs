//! FT8/FT4 sub-modes, message types, and the per-frame view state cached on
//! the main thread: frame and error counts and the decoded-frame stamps.

use std::time::SystemTime;

use vstd::prelude::*;
use vstd::string::{StrSliceExecFns, StringExecFns};

use crate::text::push_str;
use crate::utils::format::{clock_text, epoch_parts, format_time, local_secs, EpochInstant};

verus! {

/// FT8 or its faster sibling FT4.
#[derive(Clone, Copy, PartialEq, Eq, Debug, Structural)]
pub enum Ft8Mode {
    Ft8,
    Ft4,
}

/// A structured standard message, or free text.
#[derive(Clone, Copy, PartialEq, Eq, Debug, Structural)]
pub enum Ft8MsgType {
    Standard,
    FreeText,
}

/// Frame-count clamp: the HUD shows three digits.
pub const FRAME_COUNT_MAX: u32 = 999;

/// Shown when no onset has been captured yet.
pub const PLACEHOLDER_TIMESTAMP: &'static str = "--:--:--.---";

/// Calls `SystemTime::now`: the current wall-clock time.  Nothing is
/// claimed of it.
#[verifier::external_body]
fn wall_clock_now() -> SystemTime {
    SystemTime::now()
}

/// The wall-clock stamp `HH:MM:SS.mmm` of `onset` at `offset_min`.
pub open spec fn onset_stamp(onset: EpochInstant, offset_min: i32) -> Seq<char> {
    clock_text(local_secs(onset.secs, offset_min) as int, onset.millis as nat)
}

/// A decoded frame's text between stamp delimiters.
pub open spec fn decorated(ts: Seq<char>, text: Seq<char>) -> Seq<char> {
    "|| "@ + ts + " | "@ + text + " ||"@
}

/// `n + 1`, saturating, then held at [`FRAME_COUNT_MAX`].
pub open spec fn bump(n: u32) -> u32 {
    if n >= FRAME_COUNT_MAX {
        FRAME_COUNT_MAX
    } else {
        (n + 1) as u32
    }
}

/// Counting never takes a count past [`FRAME_COUNT_MAX`], and counting at
/// the clamp stays there.
pub proof fn lemma_bump_bounded(n: u32)
    ensures
        bump(n) <= FRAME_COUNT_MAX,
        n <= FRAME_COUNT_MAX ==> bump(n) >= n,
        bump(FRAME_COUNT_MAX) == FRAME_COUNT_MAX,
{
}

/// Per-frame view state for the FT8/FT4 sources.
pub struct Ft8ViewState {
    /// CRC-pass frames decoded since the last reset.
    pub frame_count: u32,
    /// CRC-fail (or otherwise empty) decode attempts since the last reset.
    pub err_count: u32,
    /// Stamp of the most recently decoded frame, `HH:MM:SS.mmm`.
    pub last_timestamp: String,
    /// When the current signal burst started: set on a rising edge, taken
    /// when its decoded frame arrives.
    pub pending_onset: Option<EpochInstant>,
    /// Cached sub-mode, mirroring the live source.
    pub mode: Ft8Mode,
    /// Cached message type, mirroring the live source.
    pub msg_type: Ft8MsgType,
}

impl Ft8ViewState {
    /// Zero counts, no stamp, no onset, FT8 standard messages.
    pub fn new() -> (s: Self)
        ensures
            s.frame_count == 0,
            s.err_count == 0,
            s.last_timestamp@ == Seq::<char>::empty(),
            s.pending_onset.is_none(),
            s.mode == Ft8Mode::Ft8,
            s.msg_type == Ft8MsgType::Standard,
    {
        Ft8ViewState {
            frame_count: 0,
            err_count: 0,
            last_timestamp: String::new(),
            pending_onset: None,
            mode: Ft8Mode::Ft8,
            msg_type: Ft8MsgType::Standard,
        }
    }

    /// Clear counters, stamp and pending onset, keeping the cached mode and
    /// message type.
    pub fn reset(&mut self)
        ensures
            final(self).frame_count == 0,
            final(self).err_count == 0,
            final(self).last_timestamp@ == Seq::<char>::empty(),
            final(self).pending_onset.is_none(),
            final(self).mode == old(self).mode,
            final(self).msg_type == old(self).msg_type,
    {
        self.frame_count = 0;
        self.err_count = 0;
        self.last_timestamp = String::new();
        self.pending_onset = None;
    }

    /// Reset the cached mode and message type to FT8 standard.
    pub fn reset_to_defaults(&mut self)
        ensures
            final(self).mode == Ft8Mode::Ft8,
            final(self).msg_type == Ft8MsgType::Standard,
            final(self).frame_count == old(self).frame_count,
            final(self).err_count == old(self).err_count,
            final(self).last_timestamp == old(self).last_timestamp,
            final(self).pending_onset == old(self).pending_onset,
    {
        self.mode = Ft8Mode::Ft8;
        self.msg_type = Ft8MsgType::Standard;
    }

    /// Capture the signal onset on a rising edge.  Idempotent within a burst:
    /// an onset already pending is kept.
    pub fn on_signal_rising_edge(&mut self)
        ensures
            old(self).pending_onset.is_some() ==> final(self).pending_onset == old(
                self,
            ).pending_onset,
            old(self).pending_onset.is_none() ==> (final(self).pending_onset matches Some(o)
                && o.millis < 1000),
            final(self).pending_onset.is_some(),
            final(self).frame_count == old(self).frame_count,
            final(self).err_count == old(self).err_count,
            final(self).last_timestamp == old(self).last_timestamp,
            final(self).mode == old(self).mode,
            final(self).msg_type == old(self).msg_type,
    {
        if self.pending_onset.is_none() {
            self.pending_onset = Some(epoch_parts(&wall_clock_now()));
        }
    }

    /// Count a decoded frame (held at [`FRAME_COUNT_MAX`]) and turn the
    /// pending onset, if any, into the last stamp.
    pub fn on_decoded_frame(&mut self, time_zone_offset_min: i32)
        ensures
            final(self).frame_count == bump(old(self).frame_count),
            final(self).err_count == old(self).err_count,
            final(self).pending_onset.is_none(),
            old(self).pending_onset matches Some(o) ==> final(self).last_timestamp@ == onset_stamp(
                o,
                time_zone_offset_min,
            ),
            old(self).pending_onset.is_none() ==> final(self).last_timestamp == old(
                self,
            ).last_timestamp,
            final(self).mode == old(self).mode,
            final(self).msg_type == old(self).msg_type,
    {
        self.frame_count = if self.frame_count >= FRAME_COUNT_MAX {
            FRAME_COUNT_MAX
        } else {
            self.frame_count + 1
        };
        let onset = self.pending_onset.take();
        if let Some(t) = onset {
            self.last_timestamp = format_time(t, time_zone_offset_min);
        }
    }

    /// Count a failed frame, held at [`FRAME_COUNT_MAX`].
    pub fn on_failed_frame(&mut self)
        ensures
            final(self).err_count == bump(old(self).err_count),
            final(self).frame_count == old(self).frame_count,
            final(self).last_timestamp == old(self).last_timestamp,
            final(self).pending_onset == old(self).pending_onset,
            final(self).mode == old(self).mode,
            final(self).msg_type == old(self).msg_type,
    {
        self.err_count = if self.err_count >= FRAME_COUNT_MAX {
            FRAME_COUNT_MAX
        } else {
            self.err_count + 1
        };
    }

    /// Wrap a decoded frame's text with stamp delimiters for the ticker:
    /// `|| HH:MM:SS.mmm | <text> ||`.  The stamp is the pending onset's, else
    /// the last one, else a placeholder.
    pub fn format_decoded_text(&self, text: &str, time_zone_offset_min: i32) -> (r: String)
        ensures
            r@ == decorated(
                match self.pending_onset {
                    Some(o) => onset_stamp(o, time_zone_offset_min),
                    None => if self.last_timestamp@.len() > 0 {
                        self.last_timestamp@
                    } else {
                        PLACEHOLDER_TIMESTAMP@
                    },
                },
                text@,
            ),
    {
        let ts = match &self.pending_onset {
            Some(onset) => format_time(*onset, time_zone_offset_min),
            None => self.last_timestamp.clone(),
        };
        proof {
            reveal_strlit("--:--:--.---");
            if self.pending_onset.is_some() {
                assert(ts@.len() > 0);
            }
        }
        let ts_str = if ts.as_str().unicode_len() == 0 {
            String::from_str(PLACEHOLDER_TIMESTAMP)
        } else {
            ts
        };
        let mut out = String::from_str("|| ");
        push_str(&mut out, ts_str.as_str());
        push_str(&mut out, " | ");
        push_str(&mut out, text);
        push_str(&mut out, " ||");
        proof {
            assert(out@ =~= decorated(ts_str@, text@));
        }
        out
    }
}

/// A decoded FT8 message as the ticker needs it, its grid field already
/// rendered as text.
#[derive(Clone, Debug, PartialEq, Eq)]
pub enum Ft8Decoded {
    /// Two callsigns plus a grid, report or token.
    Standard { call_to: String, call_de: String, extra: String },
    /// Free text.
    FreeText(String),
    /// A nonstandard callsign and a hashed one.
    NonStd { call_to: String, call_de: String },
    /// 71 arbitrary bits.
    Telemetry([u8; 9]),
    /// An unknown or unimplemented type.
    Unknown,
}

/// The uppercase hexadecimal digit for a nibble.
pub open spec fn hex_upper(n: int) -> char {
    seq!['0', '1', '2', '3', '4', '5', '6', '7', '8', '9', 'A', 'B', 'C', 'D', 'E', 'F'][n]
}

fn hex_upper_char(n: u8) -> (c: char)
    requires
        n < 16,
    ensures
        c == hex_upper(n as int),
{
    match n {
        0 => '0',
        1 => '1',
        2 => '2',
        3 => '3',
        4 => '4',
        5 => '5',
        6 => '6',
        7 => '7',
        8 => '8',
        9 => '9',
        10 => 'A',
        11 => 'B',
        12 => 'C',
        13 => 'D',
        14 => 'E',
        _ => 'F',
    }
}

/// Each byte as two uppercase hexadecimal digits: `{:02X}` run together.
pub open spec fn hex_bytes(b: Seq<u8>) -> Seq<char>
    decreases b.len(),
{
    if b.len() == 0 {
        Seq::empty()
    } else {
        hex_bytes(b.drop_last()).push(hex_upper(b.last() as int / 16)).push(hex_upper(b.last() as int % 16))
    }
}

/// The ticker text of a decoded message.
pub open spec fn ft8_text(m: Ft8Decoded) -> Seq<char> {
    match m {
        Ft8Decoded::Standard { call_to, call_de, extra } => if extra@.len() == 0 || extra@ == "None"@ {
            call_to@ + " DE "@ + call_de@
        } else {
            call_to@ + " DE "@ + call_de@ + " "@ + extra@
        },
        Ft8Decoded::FreeText(t) => t@,
        Ft8Decoded::NonStd { call_to, call_de } => call_to@ + " DE "@ + call_de@,
        Ft8Decoded::Telemetry(d) => hex_bytes(d@),
        Ft8Decoded::Unknown => "[undecoded]"@,
    }
}

/// Format a decoded message for the ticker.
pub fn format_ft8_message(msg: &Ft8Decoded, _label: &str) -> (r: String)
    ensures
        r@ == ft8_text(*msg),
{
    match msg {
        Ft8Decoded::Standard { call_to, call_de, extra } => {
            let mut out = call_to.clone();
            push_str(&mut out, " DE ");
            push_str(&mut out, call_de.as_str());
            if extra.as_str().unicode_len() == 0 || crate::text::str_eq(extra.as_str(), "None") {
                out
            } else {
                push_str(&mut out, " ");
                push_str(&mut out, extra.as_str());
                out
            }
        },
        Ft8Decoded::FreeText(t) => t.clone(),
        Ft8Decoded::NonStd { call_to, call_de } => {
            let mut out = call_to.clone();
            push_str(&mut out, " DE ");
            push_str(&mut out, call_de.as_str());
            out
        },
        Ft8Decoded::Telemetry(d) => {
            let mut out = String::new();
            let mut i: usize = 0;
            while i < 9
                invariant
                    i <= 9,
                    d@.len() == 9,
                    out@ == hex_bytes(d@.subrange(0, i as int)),
                decreases 9 - i,
            {
                let b = d[i];
                crate::text::push_char(&mut out, hex_upper_char(b / 16));
                crate::text::push_char(&mut out, hex_upper_char(b % 16));
                assert(d@.subrange(0, i + 1).drop_last() =~= d@.subrange(0, i as int));
                i = i + 1;
            }
            assert(d@.subrange(0, 9) =~= d@);
            out
        },
        Ft8Decoded::Unknown => String::from_str("[undecoded]"),
    }
}

} // verus!
