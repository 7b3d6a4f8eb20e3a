//! The settings popover's keyboard navigation: tabs, the focused row, the
//! source's toggle and text rows, and the PSK31 message editor.
//!
//! Numeric rows hold floating-point values and live with the caller; a key
//! that would nudge or reset one is handed back as a [`NumEdit`].

use vstd::prelude::*;
use vstd::string::{StrSliceExecFns, StringExecFns};

use vstd::utf8::{decode_utf8, encode_utf8, encode_utf8_decode_utf8, is_char_boundary};
use vstd::string::StringSliceAdditionalSpecFns;

use crate::text::{push_char, push_str, trim, trimmed};

verus! {

/// Tabs: `Display` then `Source`.
pub const TAB_DISPLAY: usize = 0;

pub const TAB_SOURCE: usize = 1;

pub const N_TABS: usize = 2;

/// Rows of the display tab: `dB min` and `dB max`, both numeric.
pub const N_DISPLAY_ROWS: usize = 2;

/// Source-tab row indices.
pub const SRC_FREQ: usize = 0;

pub const SRC_NOISE: usize = 1;

pub const SRC_AMP_MAX: usize = 2;

pub const SRC_RAMP: usize = 3;

pub const SRC_PAUSE: usize = 4;

/// Toggle: Test Tone / AM DSB / PSK31.
pub const SRC_SOURCE: usize = 5;

/// Toggle: Morse / Voice / Custom.
pub const SRC_AM_AUDIO: usize = 6;

pub const SRC_CARRIER: usize = 7;

pub const SRC_MOD_IDX: usize = 8;

pub const SRC_LOOP_GAP: usize = 9;

pub const SRC_AM_NOISE: usize = 10;

/// Text: the custom WAV file's path.
pub const SRC_WAV_FILE: usize = 11;

pub const SRC_AM_REPEAT: usize = 12;

/// Toggle: BPSK31 / QPSK31.
pub const SRC_PSK31_MODE: usize = 13;

pub const SRC_PSK31_CARRIER: usize = 14;

pub const SRC_PSK31_LOOP_GAP: usize = 15;

pub const SRC_PSK31_NOISE: usize = 16;

/// Text: the PSK31 message.
pub const SRC_PSK31_MSG: usize = 17;

pub const SRC_PSK31_REPEAT: usize = 18;

/// The PSK31 message committed when an edit is left blank.
pub const PSK31_DEFAULT_TEXT: &'static str = "CQ CQ CQ DE N0GNR";

/// A discrete toggle field: cycles through a fixed list of labels.
pub struct ToggleField {
    pub label: &'static str,
    pub options: &'static [&'static str],
    pub index: usize,
    pub default: usize,
}

impl ToggleField {
    /// The index and the default both name an option.
    pub open spec fn wf(&self) -> bool {
        &&& self.options@.len() > 0
        &&& self.index < self.options@.len()
        &&& self.default < self.options@.len()
    }

    /// The next option, wrapping to the first.
    pub fn next(&mut self)
        requires
            old(self).wf(),
        ensures
            final(self).wf(),
            final(self).index == (old(self).index + 1) % (old(self).options@.len() as int),
            final(self).default == old(self).default,
            final(self).options == old(self).options,
            final(self).label == old(self).label,
    {
        let n = self.options.len();
        self.index = if self.index + 1 == n {
            0
        } else {
            self.index + 1
        };
        proof {
            let i = old(self).index as int;
            if i + 1 == n {
                vstd::arithmetic::div_mod::lemma_mod_self_0(n as int);
            } else {
                vstd::arithmetic::div_mod::lemma_small_mod((i + 1) as nat, n as nat);
            }
        }
    }

    /// The previous option, wrapping to the last.
    pub fn prev(&mut self)
        requires
            old(self).wf(),
        ensures
            final(self).wf(),
            final(self).index == (old(self).index + old(self).options@.len() - 1) % (old(
                self,
            ).options@.len() as int),
            final(self).default == old(self).default,
            final(self).options == old(self).options,
            final(self).label == old(self).label,
    {
        let n = self.options.len();
        self.index = if self.index == 0 {
            n - 1
        } else {
            self.index - 1
        };
        proof {
            let i = old(self).index as int;
            if i == 0 {
                assert((i + n - 1) % (n as int) == n - 1) by {
                    vstd::arithmetic::div_mod::lemma_small_mod((n - 1) as nat, n as nat);
                }
            } else {
                assert((i + n - 1) % (n as int) == i - 1) by {
                    vstd::arithmetic::div_mod::lemma_mod_add_multiples_vanish(i - 1, n as int);
                    vstd::arithmetic::div_mod::lemma_small_mod((i - 1) as nat, n as nat);
                }
            }
        }
    }

    /// Back to the default option.
    pub fn reset(&mut self)
        requires
            old(self).wf(),
        ensures
            final(self).wf(),
            final(self).index == old(self).default,
            final(self).default == old(self).default,
            final(self).options == old(self).options,
            final(self).label == old(self).label,
    {
        self.index = self.default;
    }

    /// The selected option's label.
    pub fn value_str(&self) -> (s: &'static str)
        requires
            self.wf(),
        ensures
            s == self.options@[self.index as int],
    {
        self.options[self.index]
    }
}

/// Stepping a toggle back undoes stepping it forward, and the other way
/// round.
pub proof fn lemma_toggle_steps_inverse(i: int, n: int)
    requires
        0 <= i < n,
    ensures
        ((i + 1) % n + n - 1) % n == i,
        ((i + n - 1) % n + 1) % n == i,
{
    if i + 1 == n {
        vstd::arithmetic::div_mod::lemma_mod_self_0(n);
        vstd::arithmetic::div_mod::lemma_mod_add_multiples_vanish(n - 1, n);
        vstd::arithmetic::div_mod::lemma_small_mod((n - 1) as nat, n as nat);
    } else {
        vstd::arithmetic::div_mod::lemma_small_mod((i + 1) as nat, n as nat);
        vstd::arithmetic::div_mod::lemma_mod_add_multiples_vanish(i, n);
        vstd::arithmetic::div_mod::lemma_small_mod(i as nat, n as nat);
    }
    if i == 0 {
        vstd::arithmetic::div_mod::lemma_small_mod((n - 1) as nat, n as nat);
        vstd::arithmetic::div_mod::lemma_mod_self_0(n);
    } else {
        vstd::arithmetic::div_mod::lemma_mod_add_multiples_vanish(i - 1, n);
        vstd::arithmetic::div_mod::lemma_small_mod((i - 1) as nat, n as nat);
        vstd::arithmetic::div_mod::lemma_small_mod(i as nat, n as nat);
    }
}

/// Removes the last character of a `String`.
///
/// Calls `String::pop`, whose documentation says it removes the last
/// character and returns it, or returns `None` and leaves the string as it
/// was when it is empty.
#[verifier::external_body]
fn pop_char_of(s: &mut String) -> (c: Option<char>)
    ensures
        old(s)@.len() > 0 ==> final(s)@ == old(s)@.drop_last() && c == Some(old(s)@.last()),
        old(s)@.len() == 0 ==> final(s)@ == old(s)@ && c.is_none(),
{
    s.pop()
}

/// `s` without its last character, if it has one.
pub open spec fn drop_last_char(s: Seq<char>) -> Seq<char> {
    if s.len() > 0 {
        s.drop_last()
    } else {
        s
    }
}

/// A text-edit field, e.g. a file path or a message.
pub struct TextField {
    pub label: &'static str,
    pub value: String,
    /// Restored on an `R` reset.
    pub default_value: String,
    /// `None` before a load is tried; then whether the last one succeeded.
    pub status: Option<bool>,
}

impl TextField {
    /// Type one character.
    pub fn push_char(&mut self, c: char)
        ensures
            final(self).value@ == old(self).value@.push(c),
            final(self).default_value@ == old(self).default_value@,
            final(self).status.is_none(),
            final(self).label == old(self).label,
    {
        push_char(&mut self.value, c);
        self.status = None;
    }

    /// Delete the last character, if any.
    pub fn pop_char(&mut self)
        ensures
            final(self).value@ == drop_last_char(old(self).value@),
            final(self).default_value@ == old(self).default_value@,
            final(self).status.is_none(),
            final(self).label == old(self).label,
    {
        let _ = pop_char_of(&mut self.value);
        self.status = None;
    }

    /// Back to the default text.
    pub fn reset(&mut self)
        ensures
            final(self).value@ == old(self).default_value@,
            final(self).default_value@ == old(self).default_value@,
            final(self).status.is_none(),
            final(self).label == old(self).label,
    {
        self.value = self.default_value.clone();
        self.status = None;
    }
}

/// A key the popover reacts to.
#[derive(Clone, Copy, PartialEq, Eq, Debug, Structural)]
pub enum Key {
    S,
    Escape,
    Tab,
    ArrowUp,
    ArrowDown,
    ArrowLeft,
    ArrowRight,
    R,
    Enter,
    Backspace,
}

/// One input event of a frame, in arrival order: typed text, a key press
/// (repeats included), or anything else.
#[derive(Clone, Debug)]
pub enum KeyEvent {
    Text(String),
    Press(Key),
    Other,
}

/// A frame's input: its events and whether shift is held.
#[derive(Clone, Debug)]
pub struct KeyInput {
    pub events: Vec<KeyEvent>,
    pub shift: bool,
}

/// What a key does to a numeric row.
#[derive(Clone, Copy, PartialEq, Eq, Debug, Structural)]
pub enum NumAction {
    NudgeLeft,
    NudgeRight,
    Reset,
}

/// A numeric row's edit, for the caller that holds its value: the tab, the
/// row's index within the tab, and the action.
#[derive(Clone, Copy, PartialEq, Eq, Debug, Structural)]
pub struct NumEdit {
    pub tab: usize,
    pub row: usize,
    pub action: NumAction,
}

/// Signals back to the app after a frame's keys in the settings popover.
pub struct HandleKeysResult {
    pub source_switched: bool,
    pub am_audio_changed: bool,
    pub wav_load_requested: bool,
    /// True when Enter committed a new PSK31 message.
    pub psk31_msg_accepted: bool,
    /// Numeric-row edits, in the order they were made.
    pub num_edits: Vec<NumEdit>,
}

/// The text field as values.
#[verifier::ext_equal]
pub struct TextModel {
    pub value: Seq<char>,
    pub default: Seq<char>,
    pub status: Option<bool>,
}

/// The popover's state as values: visibility, tab, focus, the message being
/// edited, the three toggles' indices and defaults, and the two text rows.
#[verifier::ext_equal]
pub struct NavModel {
    pub visible: bool,
    pub tab: int,
    pub focus: Option<int>,
    pub pending: Option<Seq<char>>,
    pub src: int,
    pub src_default: int,
    pub audio: int,
    pub audio_default: int,
    pub mode: int,
    pub mode_default: int,
    pub wav: TextModel,
    pub msg: TextModel,
}

/// A frame's outcome as values.
#[verifier::ext_equal]
pub struct ResultModel {
    pub source_switched: bool,
    pub am_audio_changed: bool,
    pub wav_load_requested: bool,
    pub psk31_msg_accepted: bool,
    pub edits: Seq<NumEdit>,
}

/// No signals and no edits.
pub open spec fn no_result() -> ResultModel {
    ResultModel {
        source_switched: false,
        am_audio_changed: false,
        wav_load_requested: false,
        psk31_msg_accepted: false,
        edits: Seq::empty(),
    }
}

/// The source-tab rows shown for a source selection: the source toggle,
/// then the AM-DSB rows, the PSK31 rows or the test-tone rows.
pub open spec fn visible_rows(src: int) -> Seq<usize> {
    if src == 1 {
        seq![5usize, 6, 7, 8, 9, 10, 11, 12]
    } else if src == 2 {
        seq![5usize, 13, 14, 15, 16, 17, 18]
    } else {
        seq![5usize, 0, 1, 2, 3, 4]
    }
}

/// The rows of the active tab, by index within the tab.
pub open spec fn active_rows(m: NavModel) -> Seq<usize> {
    if m.tab == 0 {
        seq![0usize, 1]
    } else {
        visible_rows(m.src)
    }
}

/// The focus names one of the active tab's rows.
pub open spec fn focus_ok(m: NavModel) -> bool {
    match m.focus {
        Some(r) => 0 <= r < active_rows(m).len(),
        None => true,
    }
}

/// The model's indices are in range and its focus on a row.
pub open spec fn model_wf(m: NavModel) -> bool {
    &&& 0 <= m.tab < 2
    &&& 0 <= m.src < 3
    &&& 0 <= m.src_default < 3
    &&& 0 <= m.audio < 3
    &&& 0 <= m.audio_default < 3
    &&& 0 <= m.mode < 2
    &&& 0 <= m.mode_default < 2
    &&& focus_ok(m)
}

/// The focused row is the given source-tab row.
pub open spec fn focused_on(m: NavModel, row: usize) -> bool {
    &&& m.tab == 1
    &&& m.focus matches Some(r)
    &&& 0 <= r < visible_rows(m.src).len()
    &&& visible_rows(m.src)[r] == row
}

/// The WAV path row takes the keyboard: it is focused, and the AM audio is
/// the custom file.
pub open spec fn wav_focused(m: NavModel) -> bool {
    m.audio == 2 && focused_on(m, 11)
}

/// The PSK31 message row is focused under the PSK31 source.
pub open spec fn msg_focused(m: NavModel) -> bool {
    m.src == 2 && focused_on(m, 17)
}

/// A printable ASCII character: what the message editor accepts.
pub open spec fn printable(c: char) -> bool {
    ' ' <= c && c <= '~'
}

/// The printable characters of `s`, in order.
pub open spec fn printable_only(s: Seq<char>) -> Seq<char>
    decreases s.len(),
{
    if s.len() == 0 {
        Seq::empty()
    } else if printable(s.last()) {
        printable_only(s.drop_last()).push(s.last())
    } else {
        printable_only(s.drop_last())
    }
}

/// The text of every `Text` event, printable characters only.
pub open spec fn typed_text(events: Seq<KeyEvent>) -> Seq<char>
    decreases events.len(),
{
    if events.len() == 0 {
        Seq::empty()
    } else {
        typed_text(events.drop_last()) + match events.last() {
            KeyEvent::Text(s) => printable_only(s@),
            _ => Seq::empty(),
        }
    }
}

/// Some `Text` event carries text.
pub open spec fn has_text(events: Seq<KeyEvent>) -> bool {
    exists|i: int| 0 <= i < events.len() && (#[trigger] events[i] matches KeyEvent::Text(s) && s@.len() > 0)
}

/// The frame holds a press of `k`.
pub open spec fn pressed(events: Seq<KeyEvent>, k: Key) -> bool {
    exists|i: int| 0 <= i < events.len() && #[trigger] events[i] == KeyEvent::Press(k)
}

/// The WAV row's editing of one event: text is typed in, Backspace deletes,
/// Enter asks for the file to be loaded, Escape moves the focus up one row.
pub open spec fn wav_event(m: NavModel, r: ResultModel, e: KeyEvent) -> (NavModel, ResultModel) {
    match e {
        KeyEvent::Text(s) => if s@.len() > 0 {
            (NavModel { wav: TextModel { value: m.wav.value + s@, status: None, ..m.wav }, ..m }, r)
        } else {
            (m, r)
        },
        KeyEvent::Press(Key::Backspace) => (
            NavModel {
                wav: TextModel { value: drop_last_char(m.wav.value), status: None, ..m.wav },
                ..m
            },
            r,
        ),
        KeyEvent::Press(Key::Enter) => (m, ResultModel { wav_load_requested: true, ..r }),
        KeyEvent::Press(Key::Escape) => (NavModel { focus: Some(5), ..m }, r),
        _ => (m, r),
    }
}

/// The WAV row's editing of a frame's events, in order.
pub open spec fn wav_events(m: NavModel, r: ResultModel, events: Seq<KeyEvent>) -> (
    NavModel,
    ResultModel,
)
    decreases events.len(),
{
    if events.len() == 0 {
        (m, r)
    } else {
        let (m1, r1) = wav_events(m, r, events.drop_last());
        wav_event(m1, r1, events.last())
    }
}

/// The message a blank edit commits to, and any other edit to itself.
pub open spec fn committed(p: Seq<char>) -> Seq<char> {
    if trimmed(p).len() == 0 {
        PSK31_DEFAULT_TEXT@
    } else {
        p
    }
}

/// The message editor's handling of one event while an edit is open.
pub open spec fn msg_event(m: NavModel, r: ResultModel, e: KeyEvent) -> (NavModel, ResultModel) {
    match e {
        KeyEvent::Text(s) => match m.pending {
            Some(p) => (NavModel { pending: Some(p + printable_only(s@)), ..m }, r),
            None => (m, r),
        },
        KeyEvent::Press(Key::Backspace) => match m.pending {
            Some(p) => (NavModel { pending: Some(drop_last_char(p)), ..m }, r),
            None => (m, r),
        },
        KeyEvent::Press(Key::Enter) => match m.pending {
            Some(p) => (
                NavModel {
                    pending: None,
                    focus: None,
                    msg: TextModel { value: committed(p), ..m.msg },
                    ..m
                },
                ResultModel { psk31_msg_accepted: true, ..r },
            ),
            None => (NavModel { focus: None, ..m }, r),
        },
        KeyEvent::Press(Key::Escape) => (NavModel { pending: None, focus: None, ..m }, r),
        _ => (m, r),
    }
}

/// The message editor's handling of a frame's events, in order.
pub open spec fn msg_events(m: NavModel, r: ResultModel, events: Seq<KeyEvent>) -> (
    NavModel,
    ResultModel,
)
    decreases events.len(),
{
    if events.len() == 0 {
        (m, r)
    } else {
        let (m1, r1) = msg_events(m, r, events.drop_last());
        msg_event(m1, r1, events.last())
    }
}

/// A row's edit or change under Left (`right == false`) or Right.
pub open spec fn nudged(m: NavModel, row: usize, right: bool) -> (NavModel, Seq<NumEdit>) {
    let action = if right {
        NumAction::NudgeRight
    } else {
        NumAction::NudgeLeft
    };
    if m.tab == 0 {
        (m, seq![NumEdit { tab: 0, row, action }])
    } else if row == 5 {
        (NavModel { src: if right { (m.src + 1) % 3 } else { (m.src + 2) % 3 }, ..m }, Seq::empty())
    } else if row == 6 {
        (
            NavModel { audio: if right { (m.audio + 1) % 3 } else { (m.audio + 2) % 3 }, ..m },
            Seq::empty(),
        )
    } else if row == 13 {
        (NavModel { mode: (m.mode + 1) % 2, ..m }, Seq::empty())
    } else if row == 11 || row == 17 {
        (m, Seq::empty())
    } else {
        (m, seq![NumEdit { tab: 1, row, action }])
    }
}

/// A row's reset under `R`.
pub open spec fn reset_row(m: NavModel, row: usize) -> (NavModel, Seq<NumEdit>) {
    if m.tab == 0 {
        (m, seq![NumEdit { tab: 0, row, action: NumAction::Reset }])
    } else if row == 5 {
        (NavModel { src: m.src_default, ..m }, Seq::empty())
    } else if row == 6 {
        (NavModel { audio: m.audio_default, ..m }, Seq::empty())
    } else if row == 13 {
        (NavModel { mode: m.mode_default, ..m }, Seq::empty())
    } else if row == 11 {
        (NavModel { wav: TextModel { value: m.wav.default, status: None, ..m.wav }, ..m }, Seq::empty())
    } else if row == 17 {
        (NavModel { msg: TextModel { value: m.msg.default, status: None, ..m.msg }, ..m }, Seq::empty())
    } else {
        (m, seq![NumEdit { tab: 1, row, action: NumAction::Reset }])
    }
}

/// Resets of the listed rows, in order.
pub open spec fn reset_rows(m: NavModel, rows: Seq<usize>) -> (NavModel, Seq<NumEdit>)
    decreases rows.len(),
{
    if rows.len() == 0 {
        (m, Seq::empty())
    } else {
        let (m1, e1) = reset_rows(m, rows.drop_last());
        let (m2, e2) = reset_row(m1, rows.last());
        (m2, e1 + e2)
    }
}

/// Left or Right on the focused row `rv`: the row is nudged, the source
/// switch and audio change are signalled, and the focus is pulled back onto
/// the rows that remain.
pub open spec fn nudge_focused(m: NavModel, rv: int, right: bool) -> (NavModel, ResultModel) {
    let row = active_rows(m)[rv];
    let (m1, edits) = nudged(m, row, right);
    let n1 = active_rows(m1).len();
    let m2 = NavModel {
        focus: Some(
            if rv >= n1 {
                if n1 >= 1 {
                    n1 - 1
                } else {
                    0
                }
            } else {
                rv
            },
        ),
        ..m1
    };
    (
        m2,
        ResultModel {
            source_switched: row == 5 && m1.src != m.src,
            am_audio_changed: row == 6 && m1.audio != m.audio,
            edits,
            ..no_result()
        },
    )
}

/// `n - k`, or 0 below zero.
pub open spec fn sat_sub(n: int, k: int) -> int {
    if n >= k {
        n - k
    } else {
        0
    }
}

/// Navigation: S and Escape close, Tab switches tab, Up and Down move the
/// focus, Left and Right nudge the focused row or switch tab, R resets.
pub open spec fn navigate(m: NavModel, events: Seq<KeyEvent>) -> (NavModel, ResultModel) {
    if pressed(events, Key::S) {
        (NavModel { visible: false, focus: None, ..m }, no_result())
    } else if pressed(events, Key::Escape) {
        if m.focus.is_some() {
            (NavModel { focus: None, ..m }, no_result())
        } else {
            (NavModel { visible: false, ..m }, no_result())
        }
    } else if pressed(events, Key::Tab) {
        (NavModel { tab: (m.tab + 1) % 2, focus: None, ..m }, no_result())
    } else {
        let n = active_rows(m).len() as int;
        let nav_max = if m.tab == 1 && m.src == 1 && m.audio != 2 {
            sat_sub(n, 2)
        } else {
            sat_sub(n, 1)
        };
        if pressed(events, Key::ArrowUp) {
            (
                NavModel {
                    focus: Some(
                        match m.focus {
                            None => nav_max,
                            Some(r) => sat_sub(r, 1),
                        },
                    ),
                    ..m
                },
                no_result(),
            )
        } else if pressed(events, Key::ArrowDown) {
            (
                NavModel {
                    focus: Some(
                        match m.focus {
                            None => 0,
                            Some(r) => if r + 1 < nav_max {
                                r + 1
                            } else {
                                nav_max
                            },
                        },
                    ),
                    ..m
                },
                no_result(),
            )
        } else if pressed(events, Key::ArrowLeft) {
            match m.focus {
                Some(rv) => nudge_focused(m, rv, false),
                None => (NavModel { tab: (m.tab + 1) % 2, focus: None, ..m }, no_result()),
            }
        } else if pressed(events, Key::ArrowRight) {
            match m.focus {
                Some(rv) => nudge_focused(m, rv, true),
                None => (NavModel { tab: (m.tab + 1) % 2, focus: None, ..m }, no_result()),
            }
        } else if pressed(events, Key::R) {
            match m.focus {
                Some(rv) => {
                    let (m1, edits) = reset_row(m, active_rows(m)[rv]);
                    (m1, ResultModel { edits, ..no_result() })
                },
                None => {
                    let (m1, edits) = reset_rows(m, active_rows(m));
                    (m1, ResultModel { edits, ..no_result() })
                },
            }
        } else {
            (m, no_result())
        }
    }
}

/// One frame of keys in the popover.
pub open spec fn handle_step(m: NavModel, events: Seq<KeyEvent>) -> (NavModel, ResultModel) {
    if !m.visible {
        (m, no_result())
    } else if wav_focused(m) {
        wav_events(m, no_result(), events)
    } else if msg_focused(m) && m.pending.is_some() {
        msg_events(m, no_result(), events)
    } else if msg_focused(m) && pressed(events, Key::Enter) {
        (NavModel { pending: Some(m.msg.value), ..m }, no_result())
    } else if msg_focused(m) && has_text(events) {
        (NavModel { pending: Some(m.msg.value + typed_text(events)), ..m }, no_result())
    } else {
        navigate(NavModel { pending: None, ..m }, events)
    }
}

proof fn lemma_wav_events_keep(m: NavModel, r: ResultModel, events: Seq<KeyEvent>)
    requires
        model_wf(m),
        m.src == 1,
        m.tab == 1,
    ensures
        model_wf(wav_events(m, r, events).0),
        wav_events(m, r, events).0.src == 1,
        wav_events(m, r, events).0.tab == 1,
    decreases events.len(),
{
    if events.len() > 0 {
        lemma_wav_events_keep(m, r, events.drop_last());
    }
}

proof fn lemma_msg_events_keep(m: NavModel, r: ResultModel, events: Seq<KeyEvent>)
    requires
        model_wf(m),
    ensures
        model_wf(msg_events(m, r, events).0),
        msg_events(m, r, events).0.src == m.src,
        msg_events(m, r, events).0.tab == m.tab,
    decreases events.len(),
{
    if events.len() > 0 {
        lemma_msg_events_keep(m, r, events.drop_last());
    }
}

proof fn lemma_reset_rows_keep(m: NavModel, rows: Seq<usize>)
    requires
        model_wf(m),
        m.focus.is_none(),
    ensures
        model_wf(reset_rows(m, rows).0),
        reset_rows(m, rows).0.focus.is_none(),
        reset_rows(m, rows).0.tab == m.tab,
    decreases rows.len(),
{
    if rows.len() > 0 {
        lemma_reset_rows_keep(m, rows.drop_last());
    }
}

proof fn lemma_navigate_keeps(m: NavModel, events: Seq<KeyEvent>)
    requires
        model_wf(m),
    ensures
        model_wf(navigate(m, events).0),
{
    if !pressed(events, Key::S) && !pressed(events, Key::Escape) && !pressed(events, Key::Tab) {
        if !pressed(events, Key::ArrowUp) && !pressed(events, Key::ArrowDown) {
            if pressed(events, Key::ArrowLeft) || pressed(events, Key::ArrowRight) {
            } else if pressed(events, Key::R) {
                match m.focus {
                    Some(rv) => {
                        let row = active_rows(m)[rv];
                        if m.tab == 1 && row == 5 {
                            assert(rv == 0);
                        }
                    },
                    None => {
                        lemma_reset_rows_keep(m, active_rows(m));
                    },
                }
            }
        }
    }
}

/// Every frame of keys keeps the popover's indices in range and its focus on
/// one of the active tab's rows.
pub proof fn lemma_handle_step_keeps_wf(m: NavModel, events: Seq<KeyEvent>)
    requires
        model_wf(m),
    ensures
        model_wf(handle_step(m, events).0),
{
    if m.visible {
        if wav_focused(m) {
            lemma_wav_events_keep(m, no_result(), events);
        } else if msg_focused(m) && m.pending.is_some() {
            lemma_msg_events_keep(m, no_result(), events);
        } else if msg_focused(m) && (pressed(events, Key::Enter) || has_text(events)) {
        } else {
            lemma_navigate_keeps(NavModel { pending: None, ..m }, events);
        }
    }
}

/// The settings popover's keyboard state.
pub struct SettingsNav {
    pub visible: bool,
    active_tab: usize,
    focused_row: Option<usize>,
    /// The PSK31 message being typed: committed on Enter, dropped on Escape.
    pending_psk31_msg: Option<String>,
    source: ToggleField,
    am_audio: ToggleField,
    psk31_mode: ToggleField,
    wav_file: TextField,
    psk31_msg: TextField,
}

impl SettingsNav {
    /// The state as values.
    pub closed spec fn model(&self) -> NavModel {
        NavModel {
            visible: self.visible,
            tab: self.active_tab as int,
            focus: match self.focused_row {
                Some(r) => Some(r as int),
                None => None,
            },
            pending: match self.pending_psk31_msg {
                Some(p) => Some(p@),
                None => None,
            },
            src: self.source.index as int,
            src_default: self.source.default as int,
            audio: self.am_audio.index as int,
            audio_default: self.am_audio.default as int,
            mode: self.psk31_mode.index as int,
            mode_default: self.psk31_mode.default as int,
            wav: TextModel {
                value: self.wav_file.value@,
                default: self.wav_file.default_value@,
                status: self.wav_file.status,
            },
            msg: TextModel {
                value: self.psk31_msg.value@,
                default: self.psk31_msg.default_value@,
                status: self.psk31_msg.status,
            },
        }
    }

    /// The toggles carry their fixed option lists and the indices fit them.
    pub closed spec fn wf(&self) -> bool {
        &&& self.source.wf() && self.source.options@.len() == 3
        &&& self.am_audio.wf() && self.am_audio.options@.len() == 3
        &&& self.psk31_mode.wf() && self.psk31_mode.options@.len() == 2
        &&& forall|i: int| 0 <= i < 3 ==> (#[trigger] self.source.options@[i])@ == toggle_label(SRC_SOURCE, i)
        &&& forall|i: int| 0 <= i < 3 ==> (#[trigger] self.am_audio.options@[i])@ == toggle_label(SRC_AM_AUDIO, i)
        &&& forall|i: int| 0 <= i < 2 ==> (#[trigger] self.psk31_mode.options@[i])@ == toggle_label(SRC_PSK31_MODE, i)
        &&& self.active_tab < 2
        &&& self.source.label@ == row_label_text(SRC_SOURCE).unwrap()
        &&& self.am_audio.label@ == row_label_text(SRC_AM_AUDIO).unwrap()
        &&& self.psk31_mode.label@ == row_label_text(SRC_PSK31_MODE).unwrap()
        &&& self.wav_file.label@ == row_label_text(SRC_WAV_FILE).unwrap()
        &&& self.psk31_msg.label@ == row_label_text(SRC_PSK31_MSG).unwrap()
    }

    /// A well-formed state's model has its indices in range.
    pub proof fn lemma_wf_model(&self)
        requires
            self.wf(),
        ensures
            0 <= self.model().tab < 2,
            0 <= self.model().src < 3,
            0 <= self.model().src_default < 3,
            0 <= self.model().audio < 3,
            0 <= self.model().audio_default < 3,
            0 <= self.model().mode < 2,
            0 <= self.model().mode_default < 2,
    {
    }

    /// Hidden, on the display tab, nothing focused, the test tone selected,
    /// Morse audio, BPSK31, no WAV path and the default PSK31 message.
    pub fn new() -> (s: Self)
        ensures
            s.wf(),
            s.model() == (NavModel {
                visible: false,
                tab: 0,
                focus: None,
                pending: None,
                src: 0,
                src_default: 0,
                audio: 0,
                audio_default: 0,
                mode: 0,
                mode_default: 0,
                wav: TextModel { value: Seq::empty(), default: Seq::empty(), status: None },
                msg: TextModel {
                    value: PSK31_DEFAULT_TEXT@,
                    default: PSK31_DEFAULT_TEXT@,
                    status: None,
                },
            }),
    {
        SettingsNav {
            visible: false,
            active_tab: TAB_DISPLAY,
            focused_row: None,
            pending_psk31_msg: None,
            source: ToggleField {
                label: "Source",
                options: &["Test Tone", "AM DSB", "PSK31"],
                index: 0,
                default: 0,
            },
            am_audio: ToggleField {
                label: "AM audio",
                options: &["Morse", "Voice", "Custom"],
                index: 0,
                default: 0,
            },
            psk31_mode: ToggleField {
                label: "Mode",
                options: &["BPSK31", "QPSK31"],
                index: 0,
                default: 0,
            },
            wav_file: TextField {
                label: "WAV file",
                value: String::new(),
                default_value: String::new(),
                status: None,
            },
            psk31_msg: TextField {
                label: "Message",
                value: String::from_str(PSK31_DEFAULT_TEXT),
                default_value: String::from_str(PSK31_DEFAULT_TEXT),
                status: None,
            },
        }
    }

    /// Open the popover, leaving everything else as it was.
    pub fn show(&mut self)
        requires
            old(self).wf(),
        ensures
            final(self).wf(),
            final(self).model() == (NavModel { visible: true, ..old(self).model() }),
    {
        self.visible = true;
    }

    /// Close the popover, leaving everything else as it was.
    pub fn close(&mut self)
        requires
            old(self).wf(),
        ensures
            final(self).wf(),
            final(self).model() == (NavModel { visible: false, ..old(self).model() }),
    {
        self.visible = false;
    }

    /// Whether the popover is open.
    pub fn is_visible(&self) -> (b: bool)
        ensures
            b == self.model().visible,
    {
        self.visible
    }

    /// The active tab.
    pub fn active_tab(&self) -> (t: usize)
        ensures
            t as int == self.model().tab,
    {
        self.active_tab
    }

    /// The focused row of the active tab, if any.
    pub fn focused_row(&self) -> (r: Option<usize>)
        ensures
            match r {
                Some(i) => self.model().focus == Some(i as int),
                None => self.model().focus.is_none(),
            },
    {
        self.focused_row
    }

    /// The source toggle's index: 0 test tone, 1 AM DSB, 2 PSK31.
    pub fn source_mode_idx(&self) -> (i: usize)
        ensures
            i as int == self.model().src,
    {
        self.source.index
    }

    /// The AM audio toggle's index: 0 Morse, 1 Voice, 2 Custom.
    pub fn am_audio_idx(&self) -> (i: usize)
        ensures
            i as int == self.model().audio,
    {
        self.am_audio.index
    }

    /// The PSK31 mode toggle's index: 0 BPSK31, 1 QPSK31.
    pub fn psk31_mode_idx(&self) -> (i: usize)
        ensures
            i as int == self.model().mode,
    {
        self.psk31_mode.index
    }

    /// Whether the AM audio is the custom WAV file.
    pub fn am_audio_is_custom(&self) -> (b: bool)
        ensures
            b == (self.model().audio == 2),
    {
        self.am_audio.index == 2
    }

    /// The WAV path typed so far.
    pub fn wav_path(&self) -> (s: &str)
        ensures
            s@ == self.model().wav.value,
    {
        self.wav_file.value.as_str()
    }

    /// The committed PSK31 message.
    pub fn psk31_message(&self) -> (s: &str)
        ensures
            s@ == self.model().msg.value,
    {
        self.psk31_msg.value.as_str()
    }

    /// Select a source by index, held to the last option.  The focus is left
    /// where it was.
    pub fn set_source_mode(&mut self, idx: usize)
        requires
            old(self).wf(),
        ensures
            final(self).wf(),
            final(self).model() == (NavModel {
                src: if idx < 2 {
                    idx as int
                } else {
                    2
                },
                ..old(self).model()
            }),
    {
        self.source.index = if idx < 2 {
            idx
        } else {
            2
        };
    }

    /// Record whether the last WAV load succeeded.
    pub fn set_wav_status(&mut self, ok: bool)
        requires
            old(self).wf(),
        ensures
            final(self).wf(),
            final(self).model() == (NavModel {
                wav: TextModel { status: Some(ok), ..old(self).model().wav },
                ..old(self).model()
            }),
    {
        self.wav_file.status = Some(ok);
    }

    /// Step the AM audio selection.
    pub fn cycle_am_audio(&mut self)
        requires
            old(self).wf(),
        ensures
            final(self).wf(),
            final(self).model() == (NavModel {
                audio: (old(self).model().audio + 1) % 3,
                ..old(self).model()
            }),
    {
        self.am_audio.next();
    }

    /// Step the PSK31 mode.
    pub fn cycle_psk31_mode(&mut self)
        requires
            old(self).wf(),
        ensures
            final(self).wf(),
            final(self).model() == (NavModel {
                mode: (old(self).model().mode + 1) % 2,
                ..old(self).model()
            }),
    {
        self.psk31_mode.next();
    }

    /// Take a configured PSK31 mode and message as both the values and the
    /// defaults an `R` reset returns to.
    pub fn configure_psk31(&mut self, qpsk: bool, message: String)
        requires
            old(self).wf(),
        ensures
            final(self).wf(),
            final(self).model() == (NavModel {
                mode: if qpsk {
                    1
                } else {
                    0
                },
                mode_default: if qpsk {
                    1
                } else {
                    0
                },
                msg: TextModel { value: message@, default: message@, ..old(self).model().msg },
                ..old(self).model()
            }),
    {
        let idx: usize = if qpsk {
            1
        } else {
            0
        };
        self.psk31_mode.index = idx;
        self.psk31_mode.default = idx;
        self.psk31_msg.default_value = message.clone();
        self.psk31_msg.value = message;
    }
}


impl HandleKeysResult {
    /// The outcome as values.
    pub open spec fn model(&self) -> ResultModel {
        ResultModel {
            source_switched: self.source_switched,
            am_audio_changed: self.am_audio_changed,
            wav_load_requested: self.wav_load_requested,
            psk31_msg_accepted: self.psk31_msg_accepted,
            edits: self.num_edits@,
        }
    }

    fn empty() -> (r: Self)
        ensures
            r.model() == no_result(),
    {
        HandleKeysResult {
            source_switched: false,
            am_audio_changed: false,
            wav_load_requested: false,
            psk31_msg_accepted: false,
            num_edits: Vec::new(),
        }
    }
}

/// The rows shown for a source selection.
fn source_rows_for(src: usize) -> (v: Vec<usize>)
    ensures
        v@ == visible_rows(src as int),
{
    if src == 1 {
        vec![5, 6, 7, 8, 9, 10, 11, 12]
    } else if src == 2 {
        vec![5, 13, 14, 15, 16, 17, 18]
    } else {
        vec![5, 0, 1, 2, 3, 4]
    }
}

/// Whether the frame holds a press of `k`.
fn key_pressed(events: &Vec<KeyEvent>, k: Key) -> (b: bool)
    ensures
        b == pressed(events@, k),
{
    let mut i: usize = 0;
    while i < events.len()
        invariant
            i <= events@.len(),
            forall|j: int| 0 <= j < i ==> #[trigger] events@[j] != KeyEvent::Press(k),
        decreases events.len() - i,
    {
        match &events[i] {
            KeyEvent::Press(k2) => {
                if *k2 == k {
                    return true;
                }
            },
            _ => {},
        }
        i = i + 1;
    }
    false
}

/// Whether some `Text` event carries text.
fn any_text(events: &Vec<KeyEvent>) -> (b: bool)
    ensures
        b == has_text(events@),
{
    let mut i: usize = 0;
    while i < events.len()
        invariant
            i <= events@.len(),
            forall|j: int| 0 <= j < i ==> !(#[trigger] events@[j] matches KeyEvent::Text(s) && s@.len() > 0),
        decreases events.len() - i,
    {
        match &events[i] {
            KeyEvent::Text(s) => {
                if s.as_str().unicode_len() > 0 {
                    return true;
                }
            },
            _ => {},
        }
        i = i + 1;
    }
    false
}

/// Appends the printable characters of `t` to `out`.
fn push_printable(out: &mut String, t: &str)
    ensures
        final(out)@ == old(out)@ + printable_only(t@),
{
    let ghost start = out@;
    let n = t.unicode_len();
    let mut j: usize = 0;
    while j < n
        invariant
            n == t@.len(),
            j <= n,
            out@ == start + printable_only(t@.subrange(0, j as int)),
        decreases n - j,
    {
        let c = t.get_char(j);
        assert(t@.subrange(0, j + 1).drop_last() =~= t@.subrange(0, j as int));
        if ' ' <= c && c <= '~' {
            push_char(out, c);
        }
        j = j + 1;
    }
    assert(t@.subrange(0, n as int) =~= t@);
}

impl SettingsNav {
    /// Whether the focus names one of the active tab's rows.
    pub fn focus_in_range(&self) -> (b: bool)
        requires
            self.wf(),
        ensures
            b == focus_ok(self.model()),
    {
        match self.focused_row {
            None => true,
            Some(r) => {
                if self.active_tab == TAB_DISPLAY {
                    r < N_DISPLAY_ROWS
                } else {
                    r < source_rows_for(self.source.index).len()
                }
            },
        }
    }

    /// The source tab's rows shown for the selected source.
    pub fn visible_source_rows(&self) -> (v: Vec<usize>)
        requires
            self.wf(),
        ensures
            v@ == visible_rows(self.model().src),
    {
        source_rows_for(self.source.index)
    }

    /// The active tab's rows, by index within the tab.
    pub fn active_rows(&self) -> (v: Vec<usize>)
        requires
            self.wf(),
        ensures
            v@ == active_rows(self.model()),
    {
        if self.active_tab == TAB_DISPLAY {
            vec![0, 1]
        } else {
            source_rows_for(self.source.index)
        }
    }

    fn focused_on_row(&self, row: usize) -> (b: bool)
        requires
            self.wf(),
        ensures
            b == focused_on(self.model(), row),
    {
        if self.active_tab != TAB_SOURCE {
            return false;
        }
        match self.focused_row {
            None => false,
            Some(r) => {
                let vis = source_rows_for(self.source.index);
                r < vis.len() && vis[r] == row
            },
        }
    }

    /// The WAV row's editing of a frame's events.
    fn wav_keys(&mut self, events: &Vec<KeyEvent>, result: &mut HandleKeysResult)
        requires
            old(self).wf(),
            wav_focused(old(self).model()),
            old(result).model() == no_result(),
        ensures
            final(self).wf(),
            (final(self).model(), final(result).model()) == wav_events(
                old(self).model(),
                no_result(),
                events@,
            ),
    {
        let mut i: usize = 0;
        while i < events.len()
            invariant
                i <= events@.len(),
                self.wf(),
                self.source.index == old(self).source.index,
                (self.model(), result.model()) == wav_events(
                    old(self).model(),
                    no_result(),
                    events@.subrange(0, i as int),
                ),
            decreases events.len() - i,
        {
            assert(events@.subrange(0, i + 1).drop_last() =~= events@.subrange(0, i as int));
            match &events[i] {
                KeyEvent::Text(s) => {
                    let t = s.as_str();
                    let n = t.unicode_len();
                    let ghost before = self.model();
                    let mut j: usize = 0;
                    while j < n
                        invariant
                            n == t@.len(),
                            j <= n,
                            self.wf(),
                            self.source.index == old(self).source.index,
                            self.model() == (if j == 0 {
                                before
                            } else {
                                NavModel {
                                    wav: TextModel {
                                        value: before.wav.value + t@.subrange(0, j as int),
                                        status: None,
                                        ..before.wav
                                    },
                                    ..before
                                }
                            }),
                        decreases n - j,
                    {
                        let c = t.get_char(j);
                        self.wav_file.push_char(c);
                        proof {
                            assert(before.wav.value + t@.subrange(0, j + 1) =~= (if j == 0 {
                                before.wav.value
                            } else {
                                before.wav.value + t@.subrange(0, j as int)
                            }).push(c));
                        }
                        j = j + 1;
                    }
                    proof {
                        assert(t@.subrange(0, n as int) =~= t@);
                    }
                },
                KeyEvent::Press(Key::Backspace) => {
                    self.wav_file.pop_char();
                },
                KeyEvent::Press(Key::Enter) => {
                    result.wav_load_requested = true;
                },
                KeyEvent::Press(Key::Escape) => {
                    // The WAV row sits at position 6 of the AM-DSB rows; the
                    // focus moves up to the row above it.
                    self.focused_row = Some(5);
                },
                _ => {},
            }
            i = i + 1;
        }
        assert(events@.subrange(0, events@.len() as int) =~= events@);
    }

    /// The message editor's handling of a frame's events while an edit is
    /// open.
    fn msg_edit_keys(&mut self, events: &Vec<KeyEvent>, result: &mut HandleKeysResult)
        requires
            old(self).wf(),
            old(result).model() == no_result(),
        ensures
            final(self).wf(),
            (final(self).model(), final(result).model()) == msg_events(
                old(self).model(),
                no_result(),
                events@,
            ),
    {
        let mut i: usize = 0;
        while i < events.len()
            invariant
                i <= events@.len(),
                self.wf(),
                (self.model(), result.model()) == msg_events(
                    old(self).model(),
                    no_result(),
                    events@.subrange(0, i as int),
                ),
            decreases events.len() - i,
        {
            assert(events@.subrange(0, i + 1).drop_last() =~= events@.subrange(0, i as int));
            match &events[i] {
                KeyEvent::Text(s) => {
                    let taken = self.pending_psk31_msg.take();
                    match taken {
                        Some(mut p) => {
                            push_printable(&mut p, s.as_str());
                            self.pending_psk31_msg = Some(p);
                        },
                        None => {},
                    }
                },
                KeyEvent::Press(Key::Backspace) => {
                    let taken = self.pending_psk31_msg.take();
                    match taken {
                        Some(mut p) => {
                            let _ = pop_char_of(&mut p);
                            self.pending_psk31_msg = Some(p);
                        },
                        None => {},
                    }
                },
                KeyEvent::Press(Key::Enter) => {
                    let taken = self.pending_psk31_msg.take();
                    match taken {
                        Some(p) => {
                            let blank = trim(p.as_str()).unicode_len() == 0;
                            self.psk31_msg.value = if blank {
                                String::from_str(PSK31_DEFAULT_TEXT)
                            } else {
                                p
                            };
                            result.psk31_msg_accepted = true;
                        },
                        None => {},
                    }
                    self.focused_row = None;
                },
                KeyEvent::Press(Key::Escape) => {
                    self.pending_psk31_msg = None;
                    self.focused_row = None;
                },
                _ => {},
            }
            i = i + 1;
        }
        assert(events@.subrange(0, events@.len() as int) =~= events@);
    }
}


impl SettingsNav {
    fn push_edit(result: &mut HandleKeysResult, tab: usize, row: usize, action: NumAction)
        ensures
            final(result).model() == (ResultModel {
                edits: old(result).model().edits.push(NumEdit { tab, row, action }),
                ..old(result).model()
            }),
    {
        result.num_edits.push(NumEdit { tab, row, action });
    }

    /// Left or Right on the focused row.
    fn nudge_row(&mut self, rv: usize, right: bool, result: &mut HandleKeysResult)
        requires
            old(self).wf(),
            old(self).model().focus == Some(rv as int),
            rv < active_rows(old(self).model()).len(),
            old(result).model() == no_result(),
        ensures
            final(self).wf(),
            (final(self).model(), final(result).model()) == nudge_focused(
                old(self).model(),
                rv as int,
                right,
            ),
    {
        let rows = self.active_rows();
        let row = rows[rv];
        let prev_src = self.source.index;
        let prev_audio = self.am_audio.index;
        let action = if right {
            NumAction::NudgeRight
        } else {
            NumAction::NudgeLeft
        };
        if self.active_tab == TAB_DISPLAY {
            Self::push_edit(result, TAB_DISPLAY, row, action);
        } else if row == SRC_SOURCE {
            if right {
                self.source.next();
            } else {
                self.source.prev();
            }
        } else if row == SRC_AM_AUDIO {
            if right {
                self.am_audio.next();
            } else {
                self.am_audio.prev();
            }
        } else if row == SRC_PSK31_MODE {
            if right {
                self.psk31_mode.next();
            } else {
                self.psk31_mode.prev();
            }
        } else if row == SRC_WAV_FILE || row == SRC_PSK31_MSG {
        } else {
            Self::push_edit(result, TAB_SOURCE, row, action);
        }
        result.source_switched = row == SRC_SOURCE && self.source.index != prev_src;
        result.am_audio_changed = row == SRC_AM_AUDIO && self.am_audio.index != prev_audio;
        let new_n = self.active_rows().len();
        if rv >= new_n {
            self.focused_row = Some(
                if new_n >= 1 {
                    new_n - 1
                } else {
                    0
                },
            );
        }
    }

    /// `R` on one row of the active tab.
    fn reset_one(&mut self, row: usize, result: &mut HandleKeysResult)
        requires
            old(self).wf(),
        ensures
            final(self).wf(),
            ({
                let (m1, e) = reset_row(old(self).model(), row);
                final(self).model() == m1 && final(result).model() == (ResultModel {
                    edits: old(result).model().edits + e,
                    ..old(result).model()
                })
            }),
    {
        if self.active_tab == TAB_DISPLAY {
            Self::push_edit(result, TAB_DISPLAY, row, NumAction::Reset);
        } else if row == SRC_SOURCE {
            self.source.reset();
        } else if row == SRC_AM_AUDIO {
            self.am_audio.reset();
        } else if row == SRC_PSK31_MODE {
            self.psk31_mode.reset();
        } else if row == SRC_WAV_FILE {
            self.wav_file.reset();
        } else if row == SRC_PSK31_MSG {
            self.psk31_msg.reset();
        } else {
            Self::push_edit(result, TAB_SOURCE, row, NumAction::Reset);
        }
        proof {
            let (m1, e) = reset_row(old(self).model(), row);
            assert(final(result).model().edits =~= old(result).model().edits + e);
        }
    }

    /// `R` with nothing focused: every row of the active tab, as listed
    /// before any of them changed.
    fn reset_all(&mut self, result: &mut HandleKeysResult)
        requires
            old(self).wf(),
            old(result).model() == no_result(),
        ensures
            final(self).wf(),
            ({
                let (m1, e) = reset_rows(old(self).model(), active_rows(old(self).model()));
                final(self).model() == m1 && final(result).model() == (ResultModel {
                    edits: e,
                    ..no_result()
                })
            }),
    {
        let rows = self.active_rows();
        let mut i: usize = 0;
        while i < rows.len()
            invariant
                i <= rows@.len(),
                rows@ == active_rows(old(self).model()),
                self.wf(),
                self.active_tab == old(self).active_tab,
                ({
                    let (m1, e) = reset_rows(old(self).model(), rows@.subrange(0, i as int));
                    self.model() == m1 && result.model() == (ResultModel {
                        edits: e,
                        ..no_result()
                    })
                }),
            decreases rows.len() - i,
        {
            assert(rows@.subrange(0, i + 1).drop_last() =~= rows@.subrange(0, i as int));
            self.reset_one(rows[i], result);
            i = i + 1;
        }
        assert(rows@.subrange(0, rows@.len() as int) =~= rows@);
    }

    /// Navigation keys, with no message edit open.
    fn navigate_keys(&mut self, events: &Vec<KeyEvent>, result: &mut HandleKeysResult)
        requires
            old(self).wf(),
            focus_ok(old(self).model()),
            old(result).model() == no_result(),
        ensures
            final(self).wf(),
            (final(self).model(), final(result).model()) == navigate(old(self).model(), events@),
    {
        if key_pressed(events, Key::S) {
            self.visible = false;
            self.focused_row = None;
            return;
        }
        if key_pressed(events, Key::Escape) {
            if self.focused_row.is_some() {
                self.focused_row = None;
            } else {
                self.visible = false;
            }
            return;
        }
        if key_pressed(events, Key::Tab) {
            self.active_tab = (self.active_tab + 1) % N_TABS;
            self.focused_row = None;
            return;
        }
        let n = self.active_rows().len();
        let nav_max = if self.active_tab == TAB_SOURCE && self.source.index == 1
            && self.am_audio.index != 2 {
            if n >= 2 {
                n - 2
            } else {
                0
            }
        } else {
            if n >= 1 {
                n - 1
            } else {
                0
            }
        };
        if key_pressed(events, Key::ArrowUp) {
            self.focused_row = Some(
                match self.focused_row {
                    None => nav_max,
                    Some(r) => if r >= 1 {
                        r - 1
                    } else {
                        0
                    },
                },
            );
            return;
        }
        if key_pressed(events, Key::ArrowDown) {
            self.focused_row = Some(
                match self.focused_row {
                    None => 0,
                    Some(r) => if r + 1 < nav_max {
                        r + 1
                    } else {
                        nav_max
                    },
                },
            );
            return;
        }
        if key_pressed(events, Key::ArrowLeft) {
            match self.focused_row {
                Some(rv) => self.nudge_row(rv, false, result),
                None => {
                    self.active_tab = (self.active_tab + 1) % N_TABS;
                    self.focused_row = None;
                },
            }
            return;
        }
        if key_pressed(events, Key::ArrowRight) {
            match self.focused_row {
                Some(rv) => self.nudge_row(rv, true, result),
                None => {
                    self.active_tab = (self.active_tab + 1) % N_TABS;
                    self.focused_row = None;
                },
            }
            return;
        }
        if key_pressed(events, Key::R) {
            match self.focused_row {
                Some(rv) => {
                    let rows = self.active_rows();
                    self.reset_one(rows[rv], result);
                    proof {
                        let (m1, e) = reset_row(old(self).model(), rows@[rv as int]);
                        assert(no_result().edits + e =~= e);
                    }
                },
                None => self.reset_all(result),
            }
        }
    }

    /// One frame of keys in the popover: the WAV path or the PSK31 message
    /// takes typed text when focused, and otherwise the keys navigate.
    pub fn handle_keys(&mut self, input: &KeyInput) -> (r: HandleKeysResult)
        requires
            old(self).wf(),
            focus_ok(old(self).model()),
        ensures
            final(self).wf(),
            focus_ok(final(self).model()),
            (final(self).model(), r.model()) == handle_step(old(self).model(), input.events@),
    {
        proof {
            self.lemma_wf_model();
            lemma_handle_step_keeps_wf(self.model(), input.events@);
        }
        let mut result = HandleKeysResult::empty();
        if !self.visible {
            return result;
        }
        let events = &input.events;
        let wav_row_focused = self.am_audio.index == 2 && self.focused_on_row(SRC_WAV_FILE);
        let msg_row_focused = self.source.index == 2 && self.focused_on_row(SRC_PSK31_MSG);
        if wav_row_focused {
            self.wav_keys(events, &mut result);
            return result;
        }
        if msg_row_focused {
            if self.pending_psk31_msg.is_some() {
                self.msg_edit_keys(events, &mut result);
                return result;
            }
            if key_pressed(events, Key::Enter) {
                self.pending_psk31_msg = Some(self.psk31_msg.value.clone());
                return result;
            }
            if any_text(events) {
                let mut pending = self.psk31_msg.value.clone();
                let ghost start = pending@;
                let mut i: usize = 0;
                while i < events.len()
                    invariant
                        i <= events@.len(),
                        pending@ == start + typed_text(events@.subrange(0, i as int)),
                    decreases events.len() - i,
                {
                    assert(events@.subrange(0, i + 1).drop_last() =~= events@.subrange(
                        0,
                        i as int,
                    ));
                    match &events[i] {
                        KeyEvent::Text(s) => push_printable(&mut pending, s.as_str()),
                        _ => {},
                    }
                    proof {
                        let pre = events@.subrange(0, i as int);
                        let tail = match events@[i as int] {
                            KeyEvent::Text(s) => printable_only(s@),
                            _ => Seq::empty(),
                        };
                        assert(typed_text(events@.subrange(0, i + 1)) =~= typed_text(pre) + tail);
                    }
                    i = i + 1;
                }
                assert(events@.subrange(0, events@.len() as int) =~= events@);
                self.pending_psk31_msg = Some(pending);
                return result;
            }
        }
        self.pending_psk31_msg = None;
        self.navigate_keys(events, &mut result);
        result
    }
}

/// One press of `k`, alone in its frame.
pub open spec fn press_only(k: Key) -> Seq<KeyEvent> {
    seq![KeyEvent::Press(k)]
}

proof fn lemma_press_only(k: Key, j: Key)
    ensures
        pressed(press_only(k), j) == (k == j),
{
    if pressed(press_only(k), j) {
        let i = choose|i: int| 0 <= i < press_only(k).len() && #[trigger] press_only(k)[i] == KeyEvent::Press(j);
        assert(i == 0);
    }
    if k == j {
        assert(press_only(k)[0] == KeyEvent::Press(j));
    }
}

/// Left and Right undo each other on a focused toggle row: a frame pressing
/// Left and then one pressing Right (or the other way round) leave the
/// toggle's option as it was, the focus stays on the row, and a step of the
/// source or AM audio toggle is signalled as a switch or an audio change.
pub proof fn lemma_left_right_undo(m: NavModel, rv: int)
    requires
        model_wf(m),
        m.visible,
        m.tab == 1,
        m.focus == Some(rv),
        active_rows(m)[rv] == 5 || active_rows(m)[rv] == 6 || active_rows(m)[rv] == 13,
    ensures
        ({
            let row = active_rows(m)[rv];
            let (ml, rl) = handle_step(m, press_only(Key::ArrowLeft));
            let (mr, rr) = handle_step(m, press_only(Key::ArrowRight));
            &&& ml.focus == Some(rv) && active_rows(ml)[rv] == row
            &&& mr.focus == Some(rv) && active_rows(mr)[rv] == row
            &&& toggle_index(handle_step(ml, press_only(Key::ArrowRight)).0, row) == toggle_index(m, row)
            &&& toggle_index(handle_step(mr, press_only(Key::ArrowLeft)).0, row) == toggle_index(m, row)
            &&& row == 5 ==> rl.source_switched && rr.source_switched
            &&& row == 6 ==> rl.am_audio_changed && rr.am_audio_changed
        }),
{
    lemma_toggle_left_right_step(m, rv, false);
    lemma_toggle_left_right_step(m, rv, true);
    let (ml, _) = handle_step(m, press_only(Key::ArrowLeft));
    let (mr, _) = handle_step(m, press_only(Key::ArrowRight));
    lemma_toggle_left_right_step(ml, rv, true);
    lemma_toggle_left_right_step(mr, rv, false);
    lemma_toggle_steps_inverse(m.src, 3);
    lemma_toggle_steps_inverse(m.audio, 3);
    lemma_toggle_steps_inverse(m.mode, 2);
}

proof fn lemma_toggle_left_right_step(m: NavModel, rv: int, right: bool)
    requires
        model_wf(m),
        m.visible,
        m.tab == 1,
        m.focus == Some(rv),
        active_rows(m)[rv] == 5 || active_rows(m)[rv] == 6 || active_rows(m)[rv] == 13,
    ensures
        ({
            let row = active_rows(m)[rv];
            let (m1, r1) = handle_step(m, press_only(if right {
                Key::ArrowRight
            } else {
                Key::ArrowLeft
            }));
            &&& model_wf(m1) && m1.visible && m1.tab == 1
            &&& m1.focus == Some(rv) && active_rows(m1)[rv] == row
            &&& m1.src == nudged(m, row, right).0.src
            &&& m1.audio == nudged(m, row, right).0.audio
            &&& m1.mode == nudged(m, row, right).0.mode
            &&& r1.source_switched == (row == 5 && m1.src != m.src)
            &&& r1.am_audio_changed == (row == 6 && m1.audio != m.audio)
        }),
{
    let k = if right {
        Key::ArrowRight
    } else {
        Key::ArrowLeft
    };
    lemma_press_only(k, Key::S);
    lemma_press_only(k, Key::Escape);
    lemma_press_only(k, Key::Tab);
    lemma_press_only(k, Key::ArrowUp);
    lemma_press_only(k, Key::ArrowDown);
    lemma_press_only(k, Key::ArrowLeft);
    lemma_press_only(k, Key::ArrowRight);
    let row = active_rows(m)[rv];
    assert(rv == 0 <==> row == 5);
    assert(!wav_focused(m));
    assert(!msg_focused(m));
}

/// Down then Up brings the focus back to its row when there is a row below
/// it to visit that is not a text row (typing there takes the keys).
pub proof fn lemma_down_then_up_returns(m: NavModel, r: int)
    requires
        model_wf(m),
        m.visible,
        m.focus == Some(r),
        !wav_focused(m),
        !msg_focused(m),
        r + 1 < (if m.tab == 1 && m.src == 1 && m.audio != 2 {
            sat_sub(active_rows(m).len() as int, 2)
        } else {
            sat_sub(active_rows(m).len() as int, 1)
        }),
        active_rows(m)[r + 1] != 11,
        active_rows(m)[r + 1] != 17,
    ensures
        ({
            let (m1, _) = handle_step(m, press_only(Key::ArrowDown));
            let (m2, _) = handle_step(m1, press_only(Key::ArrowUp));
            &&& m1.focus == Some(r + 1)
            &&& m2.focus == Some(r)
        }),
{
    lemma_press_only(Key::ArrowDown, Key::S);
    lemma_press_only(Key::ArrowDown, Key::Escape);
    lemma_press_only(Key::ArrowDown, Key::Tab);
    lemma_press_only(Key::ArrowDown, Key::ArrowUp);
    lemma_press_only(Key::ArrowDown, Key::ArrowDown);
    lemma_press_only(Key::ArrowUp, Key::S);
    lemma_press_only(Key::ArrowUp, Key::Escape);
    lemma_press_only(Key::ArrowUp, Key::Tab);
    lemma_press_only(Key::ArrowUp, Key::ArrowUp);
    let (m1, _) = handle_step(m, press_only(Key::ArrowDown));
    assert(!wav_focused(m1));
    assert(!msg_focused(m1));
}

/// Tab switches between the two tabs and clears the focus: two presses
/// come back to the tab the popover was on, whatever row was focused
/// (outside the text rows' editing).
pub proof fn lemma_tab_twice_returns(m: NavModel)
    requires
        model_wf(m),
        m.visible,
        !wav_focused(m),
        !msg_focused(m),
    ensures
        ({
            let (m1, _) = handle_step(m, press_only(Key::Tab));
            let (m2, _) = handle_step(m1, press_only(Key::Tab));
            &&& m1.tab != m.tab && m1.focus.is_none() && m1.visible
            &&& m2.tab == m.tab && m2.focus.is_none() && m2.visible
            &&& m2.src == m.src && m2.audio == m.audio && m2.mode == m.mode
        }),
{
    lemma_press_only(Key::Tab, Key::S);
    lemma_press_only(Key::Tab, Key::Escape);
    lemma_press_only(Key::Tab, Key::Tab);
    let (m1, _) = handle_step(m, press_only(Key::Tab));
    assert(!wav_focused(m1));
    assert(!msg_focused(m1));
}

/// `R` on a focused toggle row puts that toggle back to its default option,
/// and touches no other toggle.
pub proof fn lemma_reset_restores_default(m: NavModel, rv: int)
    requires
        model_wf(m),
        m.visible,
        m.tab == 1,
        m.focus == Some(rv),
        active_rows(m)[rv] == 5 || active_rows(m)[rv] == 6 || active_rows(m)[rv] == 13,
    ensures
        ({
            let row = active_rows(m)[rv];
            let (m1, _) = handle_step(m, press_only(Key::R));
            &&& m1.src == (if row == 5 { m.src_default } else { m.src })
            &&& m1.audio == (if row == 6 { m.audio_default } else { m.audio })
            &&& m1.mode == (if row == 13 { m.mode_default } else { m.mode })
        }),
{
    lemma_press_only(Key::R, Key::S);
    lemma_press_only(Key::R, Key::Escape);
    lemma_press_only(Key::R, Key::Tab);
    lemma_press_only(Key::R, Key::ArrowUp);
    lemma_press_only(Key::R, Key::ArrowDown);
    lemma_press_only(Key::R, Key::ArrowLeft);
    lemma_press_only(Key::R, Key::ArrowRight);
    lemma_press_only(Key::R, Key::R);
    assert(!wav_focused(m));
    assert(!msg_focused(m));
}

/// The label a source-tab row without a numeric field shows.
pub open spec fn row_label_text(row: usize) -> Option<Seq<char>> {
    if row == SRC_SOURCE {
        Some("Source"@)
    } else if row == SRC_AM_AUDIO {
        Some("AM audio"@)
    } else if row == SRC_WAV_FILE {
        Some("WAV file"@)
    } else if row == SRC_PSK31_MODE {
        Some("Mode"@)
    } else if row == SRC_PSK31_MSG {
        Some("Message"@)
    } else {
        None
    }
}

/// The option labels of the three toggle rows.
pub open spec fn toggle_label(row: usize, i: int) -> Seq<char> {
    if row == SRC_SOURCE {
        seq!["Test Tone"@, "AM DSB"@, "PSK31"@][i]
    } else if row == SRC_AM_AUDIO {
        seq!["Morse"@, "Voice"@, "Custom"@][i]
    } else {
        seq!["BPSK31"@, "QPSK31"@][i]
    }
}

/// The selected option of a toggle row.
pub open spec fn toggle_index(m: NavModel, row: usize) -> int {
    if row == SRC_SOURCE {
        m.src
    } else if row == SRC_AM_AUDIO {
        m.audio
    } else {
        m.mode
    }
}

/// The popover footer's key hint for a state.
pub open spec fn footer_text(m: NavModel) -> Seq<char> {
    if wav_focused(m) {
        "type path   \u{21b5} load   Esc deselect"@
    } else if msg_focused(m) && m.pending.is_some() {
        "type message   \u{21b5} accept   Esc cancel"@
    } else if msg_focused(m) {
        "\u{21b5} start editing   \u{2191}\u{2193} navigate   Esc deselect"@
    } else if m.focus.is_some() {
        "\u{2191}\u{2193} navigate   \u{25c0}\u{25b6} adjust   R reset field   Esc deselect"@
    } else {
        "\u{2191}\u{2193} select field   Tab switch tab   R reset all   Esc close"@
    }
}

/// The longest text a text row shows before it is cut to its tail.
pub const TEXT_ROW_MAX_CHARS: usize = 28;

/// The PSK31 message row's text: the message being typed with a block
/// cursor, else the committed one, cut to its last 28 characters behind an
/// ellipsis when longer.
pub open spec fn message_row_text(m: NavModel) -> Seq<char> {
    let raw = match m.pending {
        Some(p) => p.push('\u{258b}'),
        None => m.msg.value,
    };
    if raw.len() > 28 {
        "\u{2026}"@ + raw.subrange(raw.len() - 28, raw.len() as int)
    } else {
        raw
    }
}

/// The mark a load status adds to the WAV row.
pub open spec fn status_suffix(status: Option<bool>) -> Seq<char> {
    match status {
        Some(true) => "  \u{2713}"@,
        Some(false) => "  \u{2717}"@,
        None => Seq::empty(),
    }
}

/// The WAV row's path fits the row, or can be cut 28 bytes from its end.
pub open spec fn wav_text_cuttable(m: NavModel) -> bool {
    let b = encode_utf8(m.wav.value);
    &&& b.len() <= usize::MAX
    &&& b.len() <= 28 || is_char_boundary(b, b.len() - 28)
}

/// The WAV row's text: the built-in file's name while no path is given,
/// else the path, cut to its last 28 bytes behind an ellipsis when longer;
/// then the load status.
pub open spec fn wav_row_text(m: NavModel) -> Seq<char> {
    let v = m.wav.value;
    let b = encode_utf8(v);
    let shown = if v.len() == 0 {
        if m.audio == 1 {
            "cq_voice.wav (built-in)"@
        } else {
            "cq_morse.wav (built-in)"@
        }
    } else if b.len() > 28 {
        "\u{2026}"@ + decode_utf8(b.subrange(b.len() - 28, b.len() as int))
    } else {
        v
    };
    shown + status_suffix(m.wav.status)
}

impl SettingsNav {
    /// The footer's key hint.
    pub fn footer_hint(&self) -> (s: &'static str)
        requires
            self.wf(),
        ensures
            s@ == footer_text(self.model()),
    {
        let wav = self.am_audio.index == 2 && self.focused_on_row(SRC_WAV_FILE);
        let msg = self.source.index == 2 && self.focused_on_row(SRC_PSK31_MSG);
        if wav {
            "type path   \u{21b5} load   Esc deselect"
        } else if msg && self.pending_psk31_msg.is_some() {
            "type message   \u{21b5} accept   Esc cancel"
        } else if msg {
            "\u{21b5} start editing   \u{2191}\u{2193} navigate   Esc deselect"
        } else if self.focused_row.is_some() {
            "\u{2191}\u{2193} navigate   \u{25c0}\u{25b6} adjust   R reset field   Esc deselect"
        } else {
            "\u{2191}\u{2193} select field   Tab switch tab   R reset all   Esc close"
        }
    }

    /// Whether a PSK31 message is being typed.
    pub fn is_editing_message(&self) -> (b: bool)
        ensures
            b == self.model().pending.is_some(),
    {
        self.pending_psk31_msg.is_some()
    }

    /// The PSK31 message row's text.
    pub fn message_row(&self) -> (s: String)
        ensures
            s@ == message_row_text(self.model()),
    {
        let mut raw = match &self.pending_psk31_msg {
            Some(p) => p.clone(),
            None => self.psk31_msg.value.clone(),
        };
        if self.pending_psk31_msg.is_some() {
            push_char(&mut raw, '\u{258b}');
        }
        let n = raw.as_str().unicode_len();
        if n > TEXT_ROW_MAX_CHARS {
            let tail = raw.as_str().substring_char(n - TEXT_ROW_MAX_CHARS, n);
            let mut out = String::from_str("\u{2026}");
            push_str(&mut out, tail);
            out
        } else {
            raw
        }
    }

    /// The WAV row's text.
    pub fn wav_row(&self) -> (s: String)
        requires
            wav_text_cuttable(self.model()),
        ensures
            s@ == wav_row_text(self.model()),
    {
        let v = self.wav_file.value.as_str();
        let mut out = if v.unicode_len() == 0 {
            if self.am_audio.index == 1 {
                String::from_str("cq_voice.wav (built-in)")
            } else {
                String::from_str("cq_morse.wav (built-in)")
            }
        } else {
            let b = v.len();
            let ghost bytes = encode_utf8(v@);
            assert(v.spec_bytes() == bytes);
            assert(b == bytes.len());
            if b > TEXT_ROW_MAX_CHARS {
                let (_, tail) = v.split_at(b - TEXT_ROW_MAX_CHARS);
                proof {
                    encode_utf8_decode_utf8(tail@);
                    assert(tail.spec_bytes() == encode_utf8(tail@));
                    assert(decode_utf8(bytes.subrange(bytes.len() - 28, bytes.len() as int)) == tail@);
                }
                let mut o = String::from_str("\u{2026}");
                push_str(&mut o, tail);
                o
            } else {
                v.to_owned()
            }
        };
        match self.wav_file.status {
            Some(true) => push_str(&mut out, "  \u{2713}"),
            Some(false) => push_str(&mut out, "  \u{2717}"),
            None => {},
        }
        proof {
            if self.wav_file.status.is_none() {
                assert(out@ =~= out@ + status_suffix(self.model().wav.status));
            }
        }
        out
    }

    /// The label of a source-tab row without a numeric field, or `None`
    /// for a numeric row.
    pub fn row_label(&self, row: usize) -> (l: Option<&'static str>)
        requires
            self.wf(),
        ensures
            match l {
                Some(t) => row_label_text(row) == Some(t@),
                None => row_label_text(row).is_none(),
            },
    {
        if row == SRC_SOURCE {
            Some(self.source.label)
        } else if row == SRC_AM_AUDIO {
            Some(self.am_audio.label)
        } else if row == SRC_WAV_FILE {
            Some(self.wav_file.label)
        } else if row == SRC_PSK31_MODE {
            Some(self.psk31_mode.label)
        } else if row == SRC_PSK31_MSG {
            Some(self.psk31_msg.label)
        } else {
            None
        }
    }

    /// The text a toggle row shows: its option between arrows.
    pub fn toggle_row(&self, row: usize) -> (s: Option<String>)
        requires
            self.wf(),
        ensures
            match s {
                Some(t) => (row == SRC_SOURCE || row == SRC_AM_AUDIO || row == SRC_PSK31_MODE) && t@
                    == "\u{25c0} "@ + toggle_label(row, toggle_index(self.model(), row)) + " \u{25b6}"@,
                None => !(row == SRC_SOURCE || row == SRC_AM_AUDIO || row == SRC_PSK31_MODE),
            },
    {
        let f = if row == SRC_SOURCE {
            &self.source
        } else if row == SRC_AM_AUDIO {
            &self.am_audio
        } else if row == SRC_PSK31_MODE {
            &self.psk31_mode
        } else {
            return None;
        };
        let mut out = String::from_str("\u{25c0} ");
        push_str(&mut out, f.value_str());
        push_str(&mut out, " \u{25b6}");
        Some(out)
    }
}

} // verus!
