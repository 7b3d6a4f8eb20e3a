//! Whole script lines: white-space words, key specs, timed steps, `set`
//! lines and run settings, and the ordering of steps by time.

use vstd::prelude::*;
use vstd::string::{StrSliceExecFns, StringExecFns};

use vstd::slice::slice_subrange;

use crate::text::{
    dec, is_white, is_white_char, lower_ascii, lower_ascii_char, push_char, push_dec, push_str,
    str_eq, trim, trimmed,
};
use crate::utils::script::{
    digits_value, fold, is_label_char, is_repeat, is_repeat_word, join_dash, label_chars_message,
    first_source, label_words_message, not_a_repeat_message, pane_at, pane_name, pane_named,
    parse_label, parse_repeat, parses_as_usize, set_arity_message, source_mode_by_name, split_set,
    usize_digits, views, Pane, ScriptError, ScriptSet,
};

verus! {

/// The words finished so far and the word still open, scanning `s` from the
/// left.
pub open spec fn scan_words(s: Seq<char>) -> (Seq<Seq<char>>, Seq<char>)
    decreases s.len(),
{
    if s.len() == 0 {
        (Seq::empty(), Seq::empty())
    } else {
        let (ws, cur) = scan_words(s.drop_last());
        if is_white(s.last()) {
            if cur.len() > 0 {
                (ws.push(cur), Seq::empty())
            } else {
                (ws, Seq::empty())
            }
        } else {
            (ws, cur.push(s.last()))
        }
    }
}

/// The white-space separated words of `s`, as `str::split_whitespace`
/// yields them: the maximal runs of characters that are not white space.
pub open spec fn words_of(s: Seq<char>) -> Seq<Seq<char>> {
    let (ws, cur) = scan_words(s);
    if cur.len() > 0 {
        ws.push(cur)
    } else {
        ws
    }
}

/// A word: not empty, and no white space in it.
pub open spec fn is_word(w: Seq<char>) -> bool {
    w.len() > 0 && forall|j: int| 0 <= j < w.len() ==> !is_white(#[trigger] w[j])
}

proof fn lemma_scan_words_unbroken(s: Seq<char>)
    ensures
        forall|i: int| 0 <= i < scan_words(s).0.len() ==> is_word(#[trigger] scan_words(s).0[i]),
        forall|j: int| 0 <= j < scan_words(s).1.len() ==> !is_white(#[trigger] scan_words(s).1[j]),
    decreases s.len(),
{
    if s.len() > 0 {
        lemma_scan_words_unbroken(s.drop_last());
        let (ws, cur) = scan_words(s.drop_last());
        if !is_white(s.last()) {
            assert forall|j: int| 0 <= j < cur.push(s.last()).len() implies !is_white(#[trigger] cur.push(s.last())[j]) by {
                if j < cur.len() {
                    assert(cur.push(s.last())[j] == cur[j]);
                }
            }
        } else if cur.len() > 0 {
            assert forall|i: int| 0 <= i < ws.push(cur).len() implies is_word(#[trigger] ws.push(cur)[i]) by {
                if i < ws.len() {
                    assert(ws.push(cur)[i] == ws[i]);
                }
            }
        }
    }
}

/// Every word that `split_whitespace` yields is non-empty and holds no
/// white space.
pub proof fn lemma_words_are_unbroken(s: Seq<char>)
    ensures
        forall|i: int| 0 <= i < words_of(s).len() ==> is_word(#[trigger] words_of(s)[i]),
{
    lemma_scan_words_unbroken(s);
    let (ws, cur) = scan_words(s);
    if cur.len() > 0 {
        assert forall|i: int| 0 <= i < ws.push(cur).len() implies is_word(#[trigger] ws.push(cur)[i]) by {
            if i < ws.len() {
                assert(ws.push(cur)[i] == ws[i]);
            }
        }
    }
}

/// `str::split_whitespace`, collected.
pub fn split_words(s: &str) -> (v: Vec<&str>)
    ensures
        views(v@) == words_of(s@),
{
    let n = s.unicode_len();
    let mut out: Vec<&str> = Vec::new();
    let mut start: usize = 0;
    let mut i: usize = 0;
    assert(s@.subrange(0, 0) =~= Seq::<char>::empty());
    assert(views(out@) =~= Seq::<Seq<char>>::empty());
    while i < n
        invariant
            n == s@.len(),
            start <= i <= n,
            scan_words(s@.subrange(0, i as int)) == (views(out@), s@.subrange(start as int, i as int)),
        decreases n - i,
    {
        let c = s.get_char(i);
        let ghost pre = s@.subrange(0, i as int);
        let ghost old_out = out@;
        assert(s@.subrange(0, i + 1).drop_last() =~= pre);
        assert(s@.subrange(0, i + 1).last() == c);
        if is_white_char(c) {
            if start < i {
                let w = s.substring_char(start, i);
                out.push(w);
                assert(views(out@) =~= views(old_out).push(w@));
            }
            start = i + 1;
            assert(s@.subrange(start as int, i + 1) =~= Seq::<char>::empty());
        } else {
            assert(s@.subrange(start as int, i + 1) =~= s@.subrange(start as int, i as int).push(c));
        }
        i = i + 1;
    }
    assert(s@.subrange(0, n as int) =~= s@);
    if start < n {
        let ghost old_out = out@;
        let w = s.substring_char(start, n);
        out.push(w);
        assert(views(out@) =~= views(old_out).push(w@));
    }
    out
}

/// The pieces of `s` between the separators `sep`, as `str::split` yields
/// them: one more than there are separators, empty pieces included.
pub open spec fn split_parts(s: Seq<char>, sep: char) -> Seq<Seq<char>>
    decreases s.len(),
{
    if s.len() == 0 {
        seq![Seq::empty()]
    } else {
        let ps = split_parts(s.drop_last(), sep);
        if s.last() == sep {
            ps.push(Seq::empty())
        } else {
            ps.update(ps.len() - 1, ps.last().push(s.last()))
        }
    }
}

proof fn lemma_split_parts_nonempty(s: Seq<char>, sep: char)
    ensures
        split_parts(s, sep).len() >= 1,
    decreases s.len(),
{
    if s.len() > 0 {
        lemma_split_parts_nonempty(s.drop_last(), sep);
    }
}

/// `str::split` on one character, collected.
fn split_on(s: &str, sep: char) -> (v: Vec<&str>)
    ensures
        views(v@) == split_parts(s@, sep),
        v@.len() >= 1,
{
    let n = s.unicode_len();
    let mut out: Vec<&str> = Vec::new();
    let mut start: usize = 0;
    let mut i: usize = 0;
    assert(s@.subrange(0, 0) =~= Seq::<char>::empty());
    while i < n
        invariant
            n == s@.len(),
            start <= i <= n,
            split_parts(s@.subrange(0, i as int), sep) == views(out@).push(
                s@.subrange(start as int, i as int),
            ),
        decreases n - i,
    {
        let c = s.get_char(i);
        let ghost pre = s@.subrange(0, i as int);
        let ghost old_out = out@;
        assert(s@.subrange(0, i + 1).drop_last() =~= pre);
        assert(s@.subrange(0, i + 1).last() == c);
        if c == sep {
            let w = s.substring_char(start, i);
            out.push(w);
            assert(views(out@) =~= views(old_out).push(w@));
            start = i + 1;
            assert(s@.subrange(start as int, i + 1) =~= Seq::<char>::empty());
        } else {
            assert(s@.subrange(start as int, i + 1) =~= s@.subrange(start as int, i as int).push(c));
            assert(views(out@).push(s@.subrange(start as int, i + 1)) =~= views(out@).push(
                s@.subrange(start as int, i as int),
            ).update(views(out@).len() as int, s@.subrange(start as int, i as int).push(c)));
        }
        i = i + 1;
    }
    assert(s@.subrange(0, n as int) =~= s@);
    let ghost old_out = out@;
    let w = s.substring_char(start, n);
    out.push(w);
    assert(views(out@) =~= views(old_out).push(w@));
    out
}

/// `s` with its ASCII capitals lowered.
pub open spec fn lower_all(s: Seq<char>) -> Seq<char> {
    Seq::new(s.len(), |i: int| lower_ascii(s[i]))
}

/// `str::to_ascii_lowercase`.
fn lower_string(s: &str) -> (r: String)
    ensures
        r@ == lower_all(s@),
{
    let n = s.unicode_len();
    let mut out = String::new();
    let mut i: usize = 0;
    while i < n
        invariant
            n == s@.len(),
            i <= n,
            out@ == lower_all(s@.subrange(0, i as int)),
        decreases n - i,
    {
        push_char(&mut out, lower_ascii_char(s.get_char(i)));
        i = i + 1;
        assert(out@ =~= lower_all(s@.subrange(0, i as int)));
    }
    assert(s@.subrange(0, n as int) =~= s@);
    out
}

/// The modifier keys a key spec may hold down.
#[derive(Clone, Copy, PartialEq, Eq, Debug, Structural)]
pub struct KeyModifiers {
    pub alt: bool,
    pub ctrl: bool,
    pub shift: bool,
    /// Cmd on macOS, Ctrl elsewhere.
    pub command: bool,
}

impl KeyModifiers {
    /// No modifier held.
    pub fn none() -> (m: Self)
        ensures
            !m.alt && !m.ctrl && !m.shift && !m.command,
    {
        KeyModifiers { alt: false, ctrl: false, shift: false, command: false }
    }
}

/// The spellings of the modifiers, lower-case.
pub open spec fn is_modifier_word(w: Seq<char>) -> bool {
    w == "shift"@ || w == "ctrl"@ || w == "control"@ || w == "alt"@ || w == "option"@ || w
        == "cmd"@ || w == "command"@
}

/// Whether one of `mods`, lowered, is `a` or `b`.
pub open spec fn holds_modifier(mods: Seq<Seq<char>>, a: Seq<char>, b: Seq<char>) -> bool {
    exists|i: int| 0 <= i < mods.len() && (lower_all(#[trigger] mods[i]) == a || lower_all(mods[i]) == b)
}

/// The modifiers that the words `mods` name.
pub open spec fn modifiers_of(mods: Seq<Seq<char>>) -> KeyModifiers {
    KeyModifiers {
        alt: holds_modifier(mods, "alt"@, "option"@),
        ctrl: holds_modifier(mods, "ctrl"@, "control"@),
        shift: holds_modifier(mods, "shift"@, "shift"@),
        command: holds_modifier(mods, "cmd"@, "command"@),
    }
}

/// The canonical name (`Key::name`) of the key that `egui::Key::from_name`
/// gives for `name`, if it gives one.
pub uninterp spec fn egui_key_of(name: Seq<char>) -> Option<Seq<char>>;

/// `egui::Key::from_name`, with the key handed back by its canonical name
/// (`Key::name`), which `from_name` reads back to the same key.  Which names
/// egui knows, and which key each denotes, is egui's table: the contract
/// names that table and states nothing of its contents.
#[verifier::external_body]
fn egui_key_name(name: &str) -> (r: Option<&'static str>)
    ensures
        match r {
            Some(k) => egui_key_of(name@) == Some(k@),
            None => egui_key_of(name@).is_none(),
        },
{
    egui::Key::from_name(name).map(|k| k.name())
}

/// The message for a word before the last `+` that is no modifier.
pub open spec fn not_a_modifier_message(lowered: Seq<char>) -> Seq<char> {
    "`"@ + lowered + "` is not a modifier"@
}

/// The message for a key spec whose last piece is empty.
pub open spec fn no_key_message(spec: Seq<char>) -> Seq<char> {
    "`"@ + spec + "` names no key"@
}

/// The message for a key name egui does not know.
pub open spec fn unknown_key_message(name: Seq<char>) -> Seq<char> {
    "`"@ + name + "` is not an egui key name"@
}

/// What a key spec such as `shift+ctrl+ArrowUp` parses to: the pieces
/// before the last `+` are modifiers, checked in order, and the last piece is
/// the key's name.
pub open spec fn key_spec_result(spec: Seq<char>, line: usize) -> Result<(Seq<char>, KeyModifiers), (usize, Seq<char>)> {
    let parts = split_parts(spec, '+');
    let mods = parts.drop_last();
    let name = parts.last();
    if exists|i: int| 0 <= i < mods.len() && !is_modifier_word(lower_all(#[trigger] mods[i])) {
        let i = choose|i: int|
            0 <= i < mods.len() && !is_modifier_word(lower_all(#[trigger] mods[i])) && forall|j: int|
                0 <= j < i ==> is_modifier_word(lower_all(#[trigger] mods[j]));
        Err((line, not_a_modifier_message(lower_all(mods[i]))))
    } else if name.len() == 0 {
        Err((line, no_key_message(spec)))
    } else {
        match egui_key_of(name) {
            Some(k) => Ok((k, modifiers_of(mods))),
            None => Err((line, unknown_key_message(name))),
        }
    }
}

/// Every accepted modifier word holds its modifier down, in any case, and a
/// modifier is held only when one of its words is written: `ctrl` and
/// `control` hold Ctrl, `alt` and `option` Alt, `shift` Shift, `cmd` and
/// `command` Command.
pub proof fn lemma_modifier_words_hold(spec: Seq<char>, line: usize)
    ensures
        match key_spec_result(spec, line) {
            Ok((_, m)) => {
                let mods = split_parts(spec, '+').drop_last();
                &&& forall|i: int|
                    0 <= i < mods.len() ==> {
                        let w = #[trigger] lower_all(mods[i]);
                        &&& (w == "ctrl"@ || w == "control"@) ==> m.ctrl
                        &&& (w == "alt"@ || w == "option"@) ==> m.alt
                        &&& w == "shift"@ ==> m.shift
                        &&& (w == "cmd"@ || w == "command"@) ==> m.command
                    }
                &&& m.ctrl ==> exists|i: int|
                    0 <= i < mods.len() && (#[trigger] lower_all(mods[i]) == "ctrl"@ || lower_all(mods[i]) == "control"@)
                &&& m.alt ==> exists|i: int|
                    0 <= i < mods.len() && (#[trigger] lower_all(mods[i]) == "alt"@ || lower_all(mods[i]) == "option"@)
                &&& m.shift ==> exists|i: int| 0 <= i < mods.len() && #[trigger] lower_all(mods[i]) == "shift"@
                &&& m.command ==> exists|i: int|
                    0 <= i < mods.len() && (#[trigger] lower_all(mods[i]) == "cmd"@ || lower_all(mods[i]) == "command"@)
            },
            Err(_) => true,
        },
{
    let mods = split_parts(spec, '+').drop_last();
    assert forall|i: int| 0 <= i < mods.len() implies #[trigger] lower_all(mods[i]) == lower_all(mods[i]) by {}
}

/// A key spec parses exactly when every piece before the last `+` is one of
/// the modifier spellings `shift`, `ctrl`, `control`, `alt`, `option`, `cmd`,
/// `command` (in any case) and the last piece is a key name egui knows.
pub proof fn lemma_key_spec_accepted(spec: Seq<char>, line: usize)
    ensures
        ({
            let parts = split_parts(spec, '+');
            let mods = parts.drop_last();
            key_spec_result(spec, line) is Ok <==> {
                &&& forall|i: int|
                    0 <= i < mods.len() ==> {
                        let w = #[trigger] lower_all(mods[i]);
                        w == "shift"@ || w == "ctrl"@ || w == "control"@ || w == "alt"@ || w == "option"@
                            || w == "cmd"@ || w == "command"@
                    }
                &&& parts.last().len() > 0
                &&& egui_key_of(parts.last()) is Some
            }
        }),
{
    let mods = split_parts(spec, '+').drop_last();
    if exists|i: int| 0 <= i < mods.len() && !is_modifier_word(lower_all(#[trigger] mods[i])) {
        let i = choose|i: int| 0 <= i < mods.len() && !is_modifier_word(lower_all(#[trigger] mods[i]));
        assert(!is_modifier_word(lower_all(mods[i])));
    }
}

/// A script error as plain values.
pub open spec fn err_view(e: ScriptError) -> (usize, Seq<char>) {
    (e.line, e.message@)
}

/// Parse `shift+ctrl+ArrowUp` into a key, by its canonical name, and its
/// modifiers.
pub fn parse_key_spec(spec: &str, line: usize) -> (r: Result<(String, KeyModifiers), ScriptError>)
    ensures
        match key_spec_result(spec@, line) {
            Ok((k, m)) => r matches Ok((key, mods)) && key@ == k && mods == m,
            Err(e) => r matches Err(err) && err_view(err) == e,
        },
{
    let parts = split_on(spec, '+');
    let ghost ps = views(parts@);
    let ghost mods_v = ps.drop_last();
    let last = parts.len() - 1;
    let mut m = KeyModifiers::none();
    let mut i: usize = 0;
    while i < last
        invariant
            ps == views(parts@),
            ps == split_parts(spec@, '+'),
            mods_v == ps.drop_last(),
            last == parts@.len() - 1,
            i <= last,
            forall|j: int| 0 <= j < i ==> is_modifier_word(lower_all(#[trigger] mods_v[j])),
            m == modifiers_of(mods_v.subrange(0, i as int)),
        decreases last - i,
    {
        proof {
            reveal_strlit("shift");
            reveal_strlit("ctrl");
            reveal_strlit("control");
            reveal_strlit("alt");
            reveal_strlit("option");
            reveal_strlit("cmd");
            reveal_strlit("command");
            assert("shift"@.len() == 5);
            assert("ctrl"@.len() == 4);
            assert("control"@.len() == 7);
            assert("alt"@.len() == 3);
            assert("option"@.len() == 6);
            assert("cmd"@.len() == 3);
            assert("command"@.len() == 7);
            assert("command"@[3] != "control"@[3]);
            assert("cmd"@[0] != "alt"@[0]);
        }
        let lowered = lower_string(parts[i]);
        let w = lowered.as_str();
        assert(mods_v[i as int] == parts@[i as int]@);
        let ghost prev = mods_v.subrange(0, i as int);
        let ghost next = mods_v.subrange(0, i + 1);
        assert(next.drop_last() =~= prev);
        assert(next[i as int] == mods_v[i as int]);
        if str_eq(w, "shift") {
            m.shift = true;
        } else if str_eq(w, "ctrl") || str_eq(w, "control") {
            m.ctrl = true;
        } else if str_eq(w, "alt") || str_eq(w, "option") {
            m.alt = true;
        } else if str_eq(w, "cmd") || str_eq(w, "command") {
            m.command = true;
        } else {
            let mut message = String::from_str("`");
            push_str(&mut message, w);
            push_str(&mut message, "` is not a modifier");
            proof {
                assert(!is_modifier_word(lower_all(mods_v[i as int])));
                let k = choose|k: int|
                    0 <= k < mods_v.len() && !is_modifier_word(lower_all(#[trigger] mods_v[k]))
                        && forall|j: int| 0 <= j < k ==> is_modifier_word(lower_all(#[trigger] mods_v[j]));
                if k < i {
                } else if k > i {
                    assert(is_modifier_word(lower_all(mods_v[i as int])));
                }
            }
            return Err(ScriptError { line, message });
        }
        proof {
            assert forall|a: Seq<char>, b: Seq<char>| #[trigger] holds_modifier(next, a, b) == (holds_modifier(prev, a, b) || lower_all(next[i as int]) == a || lower_all(next[i as int]) == b) by {
                if holds_modifier(next, a, b) {
                    let j = choose|j: int| 0 <= j < next.len() && (lower_all(#[trigger] next[j]) == a || lower_all(next[j]) == b);
                    if j < i {
                        assert(prev[j] == next[j]);
                    }
                }
                if holds_modifier(prev, a, b) {
                    let j = choose|j: int| 0 <= j < prev.len() && (lower_all(#[trigger] prev[j]) == a || lower_all(prev[j]) == b);
                    assert(prev[j] == next[j]);
                }
            }
        }
        i = i + 1;
    }
    assert(mods_v.subrange(0, last as int) =~= mods_v);
    let name = parts[last];
    assert(name@ == ps.last());
    if name.unicode_len() == 0 {
        let mut message = String::from_str("`");
        push_str(&mut message, spec);
        push_str(&mut message, "` names no key");
        return Err(ScriptError { line, message });
    }
    match egui_key_name(name) {
        Some(k) => Ok((k.to_owned(), m)),
        None => {
            let mut message = String::from_str("`");
            push_str(&mut message, name);
            push_str(&mut message, "` is not an egui key name");
            Err(ScriptError { line, message })
        },
    }
}

/// How the caller read a step's time word: a time in seconds is a decimal
/// number the caller parses, and only its bit pattern (IEEE 754 single
/// precision) passes through this library.
#[derive(Clone, Copy, PartialEq, Eq, Debug, Structural)]
pub enum TimeReading {
    /// A finite time of at least zero, by its bit pattern.
    Seconds(u32),
    /// The word is not a number.
    NotANumber,
    /// A number, but not finite, or below zero.
    OutOfRange,
}

/// What one directive does.  A key is held by its canonical egui name, and
/// a source by its index in the source list the script was read against.
#[derive(Debug, Clone, PartialEq, Eq)]
pub enum Action {
    /// Press and release a key with modifiers held.
    Key { key: String, modifiers: KeyModifiers },
    /// Deliver text input.
    Text { text: String },
    /// Press `I` until the source at index `mode` is active.
    Source { mode: usize },
    /// Capture the whole window.
    Still { label: Option<String> },
    /// Write one pane's raster.
    Pane { pane: Pane, label: Option<String> },
    /// Write one of the app's settings rows, mid-run.
    SetRow { target: String, value: String },
    /// A property for a test harness to check.
    Assert { name: String, args: Vec<String> },
}

/// An action as plain values.
pub enum ActionView {
    Key { key: Seq<char>, modifiers: KeyModifiers },
    Text { text: Seq<char> },
    Source { mode: usize },
    Still { label: Option<Seq<char>> },
    Pane { pane: Pane, label: Option<Seq<char>> },
    SetRow { target: Seq<char>, value: Seq<char> },
    Assert { name: Seq<char>, args: Seq<Seq<char>> },
}

/// The text of an optional string.
pub open spec fn opt_view(o: Option<String>) -> Option<Seq<char>> {
    match o {
        Some(s) => Some(s@),
        None => None,
    }
}

/// The texts of some strings.
pub open spec fn string_views(v: Seq<String>) -> Seq<Seq<char>> {
    Seq::new(v.len(), |i: int| v[i]@)
}

impl View for Action {
    type V = ActionView;

    open spec fn view(&self) -> ActionView {
        match self {
            Action::Key { key, modifiers } => ActionView::Key { key: key@, modifiers: *modifiers },
            Action::Text { text } => ActionView::Text { text: text@ },
            Action::Source { mode } => ActionView::Source { mode: *mode },
            Action::Still { label } => ActionView::Still { label: opt_view(*label) },
            Action::Pane { pane, label } => ActionView::Pane { pane: *pane, label: opt_view(*label) },
            Action::SetRow { target, value } => ActionView::SetRow { target: target@, value: value@ },
            Action::Assert { name, args } => ActionView::Assert {
                name: name@,
                args: string_views(args@),
            },
        }
    }
}

/// One directive at one instant.
#[derive(Debug, Clone, PartialEq, Eq)]
pub struct Step {
    /// The time from the start of the run, in seconds, by its bit pattern.
    pub t_bits: u32,
    /// How many consecutive frames the action occupies (the `xN` suffix).
    pub repeat: usize,
    pub action: Action,
    /// 1-based source line, for diagnostics.
    pub line: usize,
}

/// The words of `ws` joined by `sep`.
pub open spec fn joined(ws: Seq<Seq<char>>, sep: Seq<char>) -> Seq<char>
    decreases ws.len(),
{
    if ws.len() == 0 {
        Seq::empty()
    } else if ws.len() == 1 {
        ws[0]
    } else {
        joined(ws.drop_last(), sep) + sep + ws.last()
    }
}

/// `[&str]::join`.
fn join_strs(ws: &[&str], sep: &str) -> (r: String)
    ensures
        r@ == joined(views(ws@), sep@),
{
    let mut out = String::new();
    let mut i: usize = 0;
    while i < ws.len()
        invariant
            i <= ws@.len(),
            out@ == joined(views(ws@).subrange(0, i as int), sep@),
        decreases ws.len() - i,
    {
        let ghost prev = views(ws@).subrange(0, i as int);
        assert(views(ws@).subrange(0, i + 1).drop_last() =~= prev);
        if i > 0 {
            push_str(&mut out, sep);
        }
        push_str(&mut out, ws[i]);
        proof {
            let cur = views(ws@).subrange(0, i + 1);
            if i == 0 {
                assert(out@ =~= cur[0]);
            } else {
                assert(out@ =~= joined(prev, sep@) + sep@ + cur.last());
            }
        }
        i = i + 1;
    }
    assert(views(ws@).subrange(0, ws@.len() as int) =~= views(ws@));
    out
}

/// The pane names, as diagnostics list them.
pub open spec fn pane_list() -> Seq<char> {
    "waterfall, spectrogram, persistence, constellation, correction"@
}

/// What an `xN` word gives: its count, or the error.
pub open spec fn repeat_result(word: Seq<char>, line: usize) -> Result<usize, (usize, Seq<char>)> {
    if parses_as_usize(word.drop_first()) {
        if digits_value(usize_digits(word.drop_first())) == 0 {
            Err((line, "a repeat count of 0 does nothing; drop the line instead"@))
        } else {
            Ok(digits_value(usize_digits(word.drop_first())) as usize)
        }
    } else {
        Err((line, not_a_repeat_message(word)))
    }
}

/// What an optional trailing label gives.
pub open spec fn label_result(rest: Seq<Seq<char>>, line: usize) -> Result<Option<Seq<char>>, (usize, Seq<char>)> {
    if rest.len() == 0 {
        Ok(None)
    } else if rest.len() == 1 {
        if forall|i: int| 0 <= i < rest[0].len() ==> is_label_char(#[trigger] rest[0][i]) {
            Ok(Some(rest[0]))
        } else {
            Err((line, label_chars_message(rest[0])))
        }
    } else {
        Err((line, label_words_message(rest.len(), join_dash(rest))))
    }
}

/// Whether a `set` key path names the run.
pub open spec fn is_run_path(spec: Seq<char>) -> bool {
    spec.len() >= 4 && spec.subrange(0, 4) == "run."@
}

pub open spec fn expected_verb_message() -> Seq<char> {
    "expected `key`, `source`, `still`, `pane`, `text`, `set` or `assert`"@
}

/// What a verb and its arguments give, once the repeat count is known.
pub open spec fn action_result(
    verb: Seq<char>,
    rest: Seq<Seq<char>>,
    repeat: usize,
    line: usize,
    sources: Seq<Seq<char>>,
) -> Result<ActionView, (usize, Seq<char>)> {
    if verb == "key"@ {
        if rest.len() != 1 {
            Err((line, "`key` takes one `[mod+]Name` argument, got "@ + dec(rest.len())))
        } else {
            match key_spec_result(rest[0], line) {
                Ok((k, m)) => Ok(ActionView::Key { key: k, modifiers: m }),
                Err(e) => Err(e),
            }
        }
    } else if verb == "source"@ {
        if repeat != 1 {
            Err((line, "`source` takes no repeat count; it presses `I` until the named source is active"@))
        } else if rest.len() == 0 {
            Err((line, "`source` needs a source name"@))
        } else {
            let name = joined(rest, " "@);
            match first_source(name, sources) {
                Some(i) => Ok(ActionView::Source { mode: i }),
                None => Err((line, "`"@ + name + "` is not a source (expected one of: "@ + joined(sources, ", "@) + ")"@)),
            }
        }
    } else if verb == "still"@ {
        if repeat != 1 {
            Err((line, "`still` takes no repeat count; capturing the same frame twice would only overwrite it"@))
        } else {
            match label_result(rest, line) {
                Ok(l) => Ok(ActionView::Still { label: l }),
                Err(e) => Err(e),
            }
        }
    } else if verb == "pane"@ {
        if repeat != 1 {
            Err((line, "`pane` takes no repeat count; writing the same raster twice would only overwrite it"@))
        } else if rest.len() == 0 {
            Err((line, "`pane` needs a pane name (one of: "@ + pane_list() + ")"@))
        } else {
            match pane_named(rest[0]) {
                None => Err((line, "`"@ + rest[0] + "` is not a pane (expected one of: "@ + pane_list() + ")"@)),
                Some(p) => match label_result(rest.drop_first(), line) {
                    Ok(l) => Ok(ActionView::Pane { pane: p, label: l }),
                    Err(e) => Err(e),
                },
            }
        }
    } else if verb == "text"@ {
        if rest.len() != 1 {
            Err((line, "`text` takes one whitespace-free argument, got "@ + dec(rest.len())))
        } else {
            Ok(ActionView::Text { text: rest[0] })
        }
    } else if verb == "set"@ {
        if repeat != 1 {
            Err((line, "`set` takes no repeat count; writing the same value twice changes nothing the first did not"@))
        } else if rest.len() != 2 {
            Err((line, set_arity_message(rest.len())))
        } else if is_run_path(rest[0]) {
            Err((line, "`run."@ + rest[0].subrange(4, rest[0].len() as int) + "` takes no time; it configures the run rather than happens during it"@))
        } else {
            Ok(ActionView::SetRow { target: rest[0], value: rest[1] })
        }
    } else if verb == "assert"@ {
        if rest.len() == 0 {
            Err((line, "`assert` needs a property name"@))
        } else {
            Ok(ActionView::Assert { name: rest[0], args: rest.drop_first() })
        }
    } else {
        Err((line, "`"@ + verb + "` is not a directive (expected `key`, `source`, `still`, `pane`, `text`, `set` or `assert`)"@))
    }
}

/// What a timed line gives, its words being `ws`: the time, the repeat
/// count and the action, or the first error.
pub open spec fn step_result(
    ws: Seq<Seq<char>>,
    line: usize,
    time: TimeReading,
    sources: Seq<Seq<char>>,
) -> Result<(u32, usize, ActionView), (usize, Seq<char>)> {
    if ws.len() == 0 {
        Err((line, "expected a time"@))
    } else {
        match time {
            TimeReading::NotANumber => Err((line, "`"@ + ws[0] + "` is not a time in seconds"@)),
            TimeReading::OutOfRange => Err((line, "time `"@ + ws[0] + "` must be finite and >= 0"@)),
            TimeReading::Seconds(t) => if ws.len() == 1 {
                Err((line, expected_verb_message()))
            } else {
                let rest0 = ws.subrange(2, ws.len() as int);
                if rest0.len() > 0 && is_repeat_word(rest0.last()) {
                    match repeat_result(rest0.last(), line) {
                        Err(e) => Err(e),
                        Ok(n) => match action_result(ws[1], rest0.drop_last(), n, line, sources) {
                            Ok(a) => Ok((t, n, a)),
                            Err(e) => Err(e),
                        },
                    }
                } else {
                    match action_result(ws[1], rest0, 1, line, sources) {
                        Ok(a) => Ok((t, 1, a)),
                        Err(e) => Err(e),
                    }
                }
            },
        }
    }
}

/// A step's parse, as plain values.
pub open spec fn step_view(r: Result<Step, ScriptError>) -> Result<(u32, usize, ActionView), (usize, Seq<char>)> {
    match r {
        Ok(s) => Ok((s.t_bits, s.repeat, s.action@)),
        Err(e) => Err(err_view(e)),
    }
}

/// An action's parse, as plain values.
pub open spec fn action_view(r: Result<Action, ScriptError>) -> Result<ActionView, (usize, Seq<char>)> {
    match r {
        Ok(a) => Ok(a@),
        Err(e) => Err(err_view(e)),
    }
}

/// `a`, `b` and `c` run together.
fn concat3(a: &str, b: &str, c: &str) -> (r: String)
    ensures
        r@ == a@ + b@ + c@,
{
    let mut out = String::from_str(a);
    push_str(&mut out, b);
    push_str(&mut out, c);
    out
}

/// `pre` followed by the decimal digits of `n`.
fn with_count(pre: &str, n: usize) -> (r: String)
    ensures
        r@ == pre@ + dec(n as nat),
{
    let mut out = String::from_str(pre);
    push_dec(&mut out, n as u64);
    out
}

/// Parse an optional trailing label, as `label_result` says.
fn read_label(rest: &[&str], line: usize) -> (r: Result<Option<String>, ScriptError>)
    ensures
        match label_result(views(rest@), line) {
            Ok(l) => r matches Ok(x) && opt_view(x) == l,
            Err(e) => r matches Err(err) && err_view(err) == e,
        },
{
    let r = parse_label(rest, line);
    proof {
        let v = views(rest@);
        if v.len() >= 1 {
            assert(v[0] == rest@[0]@);
        }
    }
    r
}

/// The action a verb and its arguments name, as `action_result` says.
fn parse_action(verb: &str, rest: &[&str], repeat: usize, line: usize, sources: &[&str]) -> (r: Result<Action, ScriptError>)
    ensures
        action_view(r) == action_result(verb@, views(rest@), repeat, line, views(sources@)),
{
    let ghost v = views(rest@);
    proof {
        if rest@.len() >= 1 {
            assert(v[0] == rest@[0]@);
        }
        if rest@.len() >= 2 {
            assert(v[1] == rest@[1]@);
        }
    }
    if str_eq(verb, "key") {
        if rest.len() != 1 {
            let message = with_count("`key` takes one `[mod+]Name` argument, got ", rest.len());
            return Err(ScriptError { line, message });
        }
        match parse_key_spec(rest[0], line) {
            Ok((key, modifiers)) => Ok(Action::Key { key, modifiers }),
            Err(e) => Err(e),
        }
    } else if str_eq(verb, "source") {
        if repeat != 1 {
            let message = String::from_str(
                "`source` takes no repeat count; it presses `I` until the named source is active",
            );
            return Err(ScriptError { line, message });
        }
        if rest.len() == 0 {
            return Err(ScriptError { line, message: String::from_str("`source` needs a source name") });
        }
        let name = join_strs(rest, " ");
        match source_mode_by_name(name.as_str(), sources) {
            Some(i) => Ok(Action::Source { mode: i }),
            None => {
                let names = join_strs(sources, ", ");
                let mut message = concat3("`", name.as_str(), "` is not a source (expected one of: ");
                push_str(&mut message, names.as_str());
                push_str(&mut message, ")");
                Err(ScriptError { line, message })
            },
        }
    } else if str_eq(verb, "still") {
        if repeat != 1 {
            let message = String::from_str(
                "`still` takes no repeat count; capturing the same frame twice would only overwrite it",
            );
            return Err(ScriptError { line, message });
        }
        match read_label(rest, line) {
            Ok(label) => Ok(Action::Still { label }),
            Err(e) => Err(e),
        }
    } else if str_eq(verb, "pane") {
        if repeat != 1 {
            let message = String::from_str(
                "`pane` takes no repeat count; writing the same raster twice would only overwrite it",
            );
            return Err(ScriptError { line, message });
        }
        if rest.len() == 0 {
            let message = concat3(
                "`pane` needs a pane name (one of: ",
                "waterfall, spectrogram, persistence, constellation, correction",
                ")",
            );
            return Err(ScriptError { line, message });
        }
        match Pane::by_name(rest[0]) {
            None => {
                let mut message = concat3("`", rest[0], "` is not a pane (expected one of: ");
                push_str(&mut message, "waterfall, spectrogram, persistence, constellation, correction");
                push_str(&mut message, ")");
                Err(ScriptError { line, message })
            },
            Some(pane) => {
                let tail = slice_subrange(rest, 1, rest.len());
                assert(views(tail@) =~= v.drop_first());
                match read_label(tail, line) {
                    Ok(label) => Ok(Action::Pane { pane, label }),
                    Err(e) => Err(e),
                }
            },
        }
    } else if str_eq(verb, "text") {
        if rest.len() != 1 {
            let message = with_count("`text` takes one whitespace-free argument, got ", rest.len());
            return Err(ScriptError { line, message });
        }
        Ok(Action::Text { text: rest[0].to_owned() })
    } else if str_eq(verb, "set") {
        if repeat != 1 {
            let message = String::from_str(
                "`set` takes no repeat count; writing the same value twice changes nothing the first did not",
            );
            return Err(ScriptError { line, message });
        }
        match split_set(rest, line) {
            Err(e) => Err(e),
            Ok((spec, value)) => match crate::utils::script::parse_scope(spec.as_str()) {
                crate::utils::script::Scope::Run(key) => {
                    let message = concat3(
                        "`run.",
                        key.as_str(),
                        "` takes no time; it configures the run rather than happens during it",
                    );
                    Err(ScriptError { line, message })
                },
                crate::utils::script::Scope::App(target) => Ok(Action::SetRow { target, value }),
            },
        }
    } else if str_eq(verb, "assert") {
        if rest.len() == 0 {
            return Err(ScriptError { line, message: String::from_str("`assert` needs a property name") });
        }
        let mut args: Vec<String> = Vec::new();
        let mut i: usize = 1;
        while i < rest.len()
            invariant
                1 <= i <= rest@.len(),
                v == views(rest@),
                string_views(args@) == v.subrange(1, i as int),
            decreases rest.len() - i,
        {
            let a = rest[i].to_owned();
            assert(a@ == v[i as int]);
            let ghost old_args = args@;
            args.push(a);
            assert(string_views(args@) =~= string_views(old_args).push(v[i as int]));
            assert(v.subrange(1, i + 1) =~= v.subrange(1, i as int).push(v[i as int]));
            i = i + 1;
        }
        assert(v.subrange(1, rest@.len() as int) =~= v.drop_first());
        Ok(Action::Assert { name: rest[0].to_owned(), args })
    } else {
        let message = concat3(
            "`",
            verb,
            "` is not a directive (expected `key`, `source`, `still`, `pane`, `text`, `set` or `assert`)",
        );
        Err(ScriptError { line, message })
    }
}

/// Parse a timed line: its time, as the caller read the first word, a
/// directive and its arguments, and an optional trailing `xN` repeat count.
pub fn parse_step(text: &str, line: usize, time: TimeReading, sources: &[&str]) -> (r: Result<Step, ScriptError>)
    ensures
        step_view(r) == step_result(words_of(text@), line, time, views(sources@)),
        r matches Ok(s) ==> s.line == line,
{
    let ws = split_words(text);
    let ghost w = views(ws@);
    if ws.len() == 0 {
        return Err(ScriptError { line, message: String::from_str("expected a time") });
    }
    assert(w[0] == ws@[0]@);
    let t = match time {
        TimeReading::NotANumber => {
            let message = concat3("`", ws[0], "` is not a time in seconds");
            return Err(ScriptError { line, message });
        },
        TimeReading::OutOfRange => {
            let message = concat3("time `", ws[0], "` must be finite and >= 0");
            return Err(ScriptError { line, message });
        },
        TimeReading::Seconds(t) => t,
    };
    if ws.len() == 1 {
        let message = String::from_str(
            "expected `key`, `source`, `still`, `pane`, `text`, `set` or `assert`",
        );
        return Err(ScriptError { line, message });
    }
    assert(w[1] == ws@[1]@);
    let verb = ws[1];
    let all = ws.as_slice();
    let rest0 = slice_subrange(all, 2, ws.len());
    let ghost r0 = w.subrange(2, w.len() as int);
    assert(views(rest0@) =~= r0);
    let n0 = rest0.len();
    if n0 > 0 && is_repeat(rest0[n0 - 1]) {
        let last = rest0[n0 - 1];
        assert(r0.last() == last@);
        match parse_repeat(last, line) {
            Err(e) => Err(e),
            Ok(n) => {
                let rest = slice_subrange(rest0, 0, n0 - 1);
                assert(views(rest@) =~= r0.drop_last());
                match parse_action(verb, rest, n, line, sources) {
                    Ok(action) => Ok(Step { t_bits: t, repeat: n, action, line }),
                    Err(e) => Err(e),
                }
            },
        }
    } else {
        match parse_action(verb, rest0, 1, line, sources) {
            Ok(action) => Ok(Step { t_bits: t, repeat: 1, action, line }),
            Err(e) => Err(e),
        }
    }
}

/// The settings a `set run.KEY VALUE` line may name.
#[derive(Clone, Copy, PartialEq, Eq, Debug, Structural)]
pub enum RunKey {
    Dump,
    Capture,
    Duration,
    Size,
    Scale,
}

/// The run setting a key names.
pub open spec fn run_key_of(key: Seq<char>) -> Option<RunKey> {
    if key == "dump"@ {
        Some(RunKey::Dump)
    } else if key == "capture"@ {
        Some(RunKey::Capture)
    } else if key == "duration"@ {
        Some(RunKey::Duration)
    } else if key == "size"@ {
        Some(RunKey::Size)
    } else if key == "scale"@ {
        Some(RunKey::Scale)
    } else {
        None
    }
}

/// A run setting as written: which one, and its value word.  The numbers
/// in a duration, a size or a scale are the caller's to read.
#[derive(Debug, Clone, PartialEq, Eq)]
pub struct RunSetting {
    pub key: RunKey,
    pub arg: String,
}

/// Resolve `run.KEY`'s key.
pub fn parse_run_setting(key: &str, arg: &str, line: usize) -> (r: Result<RunSetting, ScriptError>)
    ensures
        match run_key_of(key@) {
            Some(k) => r matches Ok(s) && s.key == k && s.arg@ == arg@,
            None => r matches Err(e) && err_view(e) == (line, "`"@ + key@
                + "` is not a run setting (expected one of: capture, dump, duration, scale, size)"@),
        },
{
    let k = if str_eq(key, "dump") {
        RunKey::Dump
    } else if str_eq(key, "capture") {
        RunKey::Capture
    } else if str_eq(key, "duration") {
        RunKey::Duration
    } else if str_eq(key, "size") {
        RunKey::Size
    } else if str_eq(key, "scale") {
        RunKey::Scale
    } else {
        let message = concat3(
            "`",
            key,
            "` is not a run setting (expected one of: capture, dump, duration, scale, size)",
        );
        return Err(ScriptError { line, message });
    };
    Ok(RunSetting { key: k, arg: arg.to_owned() })
}

/// One parsed line: a timed step, a run setting, or an untimed `set` of a
/// settings row.
#[derive(Debug, Clone, PartialEq, Eq)]
pub enum Line {
    Step(Step),
    Run(RunSetting),
    Configure(ScriptSet),
}

/// A line, as plain values.
pub enum LineView {
    Step(u32, usize, ActionView),
    Run(RunKey, Seq<char>),
    Configure(Seq<char>, Seq<char>),
}

/// What a line gives, its words being `ws`: a line whose first word is
/// `set` is untimed, and every other line begins with a time.
pub open spec fn line_result(
    ws: Seq<Seq<char>>,
    line: usize,
    time: TimeReading,
    sources: Seq<Seq<char>>,
) -> Result<LineView, (usize, Seq<char>)> {
    if ws.len() > 0 && ws[0] == "set"@ {
        let args = ws.drop_first();
        if args.len() != 2 {
            Err((line, set_arity_message(args.len())))
        } else if is_run_path(args[0]) {
            let key = args[0].subrange(4, args[0].len() as int);
            match run_key_of(key) {
                Some(k) => Ok(LineView::Run(k, args[1])),
                None => Err((line, "`"@ + key
                    + "` is not a run setting (expected one of: capture, dump, duration, scale, size)"@)),
            }
        } else {
            Ok(LineView::Configure(args[0], args[1]))
        }
    } else {
        match step_result(ws, line, time, sources) {
            Ok((t, n, a)) => Ok(LineView::Step(t, n, a)),
            Err(e) => Err(e),
        }
    }
}

/// A line's parse, as plain values.
pub open spec fn line_view(r: Result<Line, ScriptError>) -> Result<LineView, (usize, Seq<char>)> {
    match r {
        Ok(Line::Step(s)) => Ok(LineView::Step(s.t_bits, s.repeat, s.action@)),
        Ok(Line::Run(rs)) => Ok(LineView::Run(rs.key, rs.arg@)),
        Ok(Line::Configure(c)) => Ok(LineView::Configure(c.target@, c.value@)),
        Err(e) => Err(err_view(e)),
    }
}

/// Parse one line of a script, with comments already stripped.  `time` is
/// the caller's reading of the line's first word; `sources` are the source
/// labels a `source` directive is resolved against.
pub fn parse_line(text: &str, line: usize, time: TimeReading, sources: &[&str]) -> (r: Result<Line, ScriptError>)
    ensures
        line_view(r) == line_result(words_of(text@), line, time, views(sources@)),
        r matches Ok(Line::Step(s)) ==> s.line == line,
        r matches Ok(Line::Configure(c)) ==> c.line == line,
{
    let ws = split_words(text);
    let ghost w = views(ws@);
    if ws.len() > 0 {
        assert(w[0] == ws@[0]@);
    }
    if ws.len() > 0 && str_eq(ws[0], "set") {
        let args = slice_subrange(ws.as_slice(), 1, ws.len());
        assert(views(args@) =~= w.drop_first());
        return match split_set(args, line) {
            Err(e) => Err(e),
            Ok((spec, value)) => match crate::utils::script::parse_scope(spec.as_str()) {
                crate::utils::script::Scope::Run(key) => match parse_run_setting(key.as_str(), value.as_str(), line) {
                    Ok(rs) => Ok(Line::Run(rs)),
                    Err(e) => Err(e),
                },
                crate::utils::script::Scope::App(target) => Ok(Line::Configure(ScriptSet { target, value, line })),
            },
        };
    }
    match parse_step(text, line, time, sources) {
        Ok(s) => Ok(Line::Step(s)),
        Err(e) => Err(e),
    }
}

/// Run settings a script may carry, each at most once.  Numbers are held
/// by their bit patterns (IEEE 754 single precision), as the caller read
/// them.
#[derive(Debug, Clone, PartialEq, Eq)]
pub struct ScriptSettings {
    /// Where to write the dump.
    pub dump: Option<String>,
    /// How long to run, in scripted seconds.
    pub duration: Option<u32>,
    /// Logical window size, in points.
    pub size: Option<(u32, u32)>,
    /// Pixels per point.
    pub scale: Option<u32>,
    /// Where captures are written.
    pub capture: Option<String>,
    /// Untimed `set`s on the app's settings, in source order.
    pub sets: Vec<ScriptSet>,
}

/// A run setting with its value read.
#[derive(Debug, Clone, PartialEq, Eq)]
pub enum Setting {
    Dump(String),
    Duration(u32),
    Size(u32, u32),
    Scale(u32),
    Capture(String),
}

/// The message for a run setting given twice.
pub open spec fn given_twice_message(what: Seq<char>) -> Seq<char> {
    "`"@ + what + "` is given more than once"@
}

impl ScriptSettings {
    /// No settings.
    pub fn new() -> (s: Self)
        ensures
            s.dump.is_none() && s.duration.is_none() && s.size.is_none() && s.scale.is_none()
                && s.capture.is_none() && s.sets@.len() == 0,
    {
        ScriptSettings { dump: None, duration: None, size: None, scale: None, capture: None, sets: Vec::new() }
    }

    /// Fold a run setting in, refusing a second occurrence of any one: two
    /// `duration` lines mean the author believed one of them.
    pub fn apply(&mut self, setting: Setting, line: usize) -> (r: Result<(), ScriptError>)
        ensures
            match setting {
                Setting::Dump(p) => if old(self).dump.is_some() {
                    r matches Err(e) && err_view(e) == (line, given_twice_message("dump"@)) && *final(self) == *old(self)
                } else {
                    r is Ok && *final(self) == (ScriptSettings { dump: Some(p), ..*old(self) })
                },
                Setting::Duration(d) => if old(self).duration.is_some() {
                    r matches Err(e) && err_view(e) == (line, given_twice_message("duration"@)) && *final(self) == *old(self)
                } else {
                    r is Ok && *final(self) == (ScriptSettings { duration: Some(d), ..*old(self) })
                },
                Setting::Size(w, h) => if old(self).size.is_some() {
                    r matches Err(e) && err_view(e) == (line, given_twice_message("size"@)) && *final(self) == *old(self)
                } else {
                    r is Ok && *final(self) == (ScriptSettings { size: Some((w, h)), ..*old(self) })
                },
                Setting::Scale(v) => if old(self).scale.is_some() {
                    r matches Err(e) && err_view(e) == (line, given_twice_message("scale"@)) && *final(self) == *old(self)
                } else {
                    r is Ok && *final(self) == (ScriptSettings { scale: Some(v), ..*old(self) })
                },
                Setting::Capture(p) => if old(self).capture.is_some() {
                    r matches Err(e) && err_view(e) == (line, given_twice_message("capture"@)) && *final(self) == *old(self)
                } else {
                    r is Ok && *final(self) == (ScriptSettings { capture: Some(p), ..*old(self) })
                },
            },
    {
        match setting {
            Setting::Dump(p) => {
                if self.dump.is_some() {
                    return Err(ScriptError { line, message: concat3("`", "dump", "` is given more than once") });
                }
                self.dump = Some(p);
            },
            Setting::Duration(d) => {
                if self.duration.is_some() {
                    return Err(ScriptError { line, message: concat3("`", "duration", "` is given more than once") });
                }
                self.duration = Some(d);
            },
            Setting::Size(w, h) => {
                if self.size.is_some() {
                    return Err(ScriptError { line, message: concat3("`", "size", "` is given more than once") });
                }
                self.size = Some((w, h));
            },
            Setting::Scale(v) => {
                if self.scale.is_some() {
                    return Err(ScriptError { line, message: concat3("`", "scale", "` is given more than once") });
                }
                self.scale = Some(v);
            },
            Setting::Capture(p) => {
                if self.capture.is_some() {
                    return Err(ScriptError { line, message: concat3("`", "capture", "` is given more than once") });
                }
                self.capture = Some(p);
            },
        }
        Ok(())
    }
}

/// The first earlier `set` of the same row, if any.
pub open spec fn earlier_set(sets: Seq<ScriptSet>, target: Seq<char>) -> Option<int> {
    if exists|i: int| 0 <= i < sets.len() && (#[trigger] sets[i]).target@ == target {
        Some(choose|i: int| 0 <= i < sets.len() && (#[trigger] sets[i]).target@ == target && forall|j: int|
            0 <= j < i ==> (#[trigger] sets[j]).target@ != target)
    } else {
        None
    }
}

/// Record an untimed `set`, refusing a second `set` of the same row.
pub fn add_set(sets: &mut Vec<ScriptSet>, s: ScriptSet) -> (r: Result<(), ScriptError>)
    ensures
        match earlier_set(old(sets)@, s.target@) {
            Some(i) => r matches Err(e) && err_view(e) == (s.line, "`"@ + s.target@
                + "` is set more than once (already on line "@ + dec(old(sets)@[i].line as nat) + ")"@)
                && final(sets)@ == old(sets)@,
            None => r is Ok && final(sets)@ == old(sets)@.push(s),
        },
{
    let mut i: usize = 0;
    while i < sets.len()
        invariant
            i <= sets@.len(),
            forall|j: int| 0 <= j < i ==> (#[trigger] sets@[j]).target@ != s.target@,
        decreases sets.len() - i,
    {
        if str_eq(sets[i].target.as_str(), s.target.as_str()) {
            let ghost k = i as int;
            proof {
                let c = choose|c: int| 0 <= c < sets@.len() && (#[trigger] sets@[c]).target@ == s.target@ && forall|j: int|
                    0 <= j < c ==> (#[trigger] sets@[j]).target@ != s.target@;
                assert(sets@[k].target@ == s.target@);
                if c < k {
                } else if c > k {
                    assert(sets@[k].target@ != s.target@);
                }
            }
            let mut message = concat3("`", s.target.as_str(), "` is set more than once (already on line ");
            push_dec(&mut message, sets[i].line as u64);
            push_str(&mut message, ")");
            return Err(ScriptError { line: s.line, message });
        }
        i = i + 1;
    }
    sets.push(s);
    Ok(())
}

/// The total order of times: the unsigned order of the bit patterns with
/// negative values' bits flipped and positive values' sign set.
pub open spec fn time_key(bits: u32) -> u32 {
    if bits & 0x8000_0000u32 != 0 {
        !bits
    } else {
        bits | 0x8000_0000u32
    }
}

pub(crate) fn time_key_of(bits: u32) -> (k: u32)
    ensures
        k == time_key(bits),
{
    if bits & 0x8000_0000u32 != 0 {
        !bits
    } else {
        bits | 0x8000_0000u32
    }
}

/// `s` with `x` inserted after every step of `s` whose time is not later
/// than `x`'s.
pub open spec fn insert_by_time(s: Seq<Step>, x: Step) -> Seq<Step>
    decreases s.len(),
{
    if s.len() == 0 {
        seq![x]
    } else if time_key(s.last().t_bits) > time_key(x.t_bits) {
        insert_by_time(s.drop_last(), x).push(s.last())
    } else {
        s.push(x)
    }
}

/// The steps ordered by time, steps at equal times in source order.
pub open spec fn sorted_by_time(s: Seq<Step>) -> Seq<Step>
    decreases s.len(),
{
    if s.len() == 0 {
        s
    } else {
        insert_by_time(sorted_by_time(s.drop_last()), s.last())
    }
}

proof fn lemma_insert_at(s: Seq<Step>, x: Step, p: int)
    requires
        0 <= p <= s.len(),
        forall|m: int| p <= m < s.len() ==> time_key((#[trigger] s[m]).t_bits) > time_key(x.t_bits),
        p == 0 || time_key(s[p - 1].t_bits) <= time_key(x.t_bits),
    ensures
        insert_by_time(s, x) == s.insert(p, x),
    decreases s.len(),
{
    if s.len() == 0 {
        assert(s.insert(p, x) =~= seq![x]);
    } else if p < s.len() {
        let t = s.drop_last();
        assert forall|m: int| p <= m < t.len() implies time_key((#[trigger] t[m]).t_bits) > time_key(x.t_bits) by {
            assert(t[m] == s[m]);
        }
        if p > 0 {
            assert(t[p - 1] == s[p - 1]);
        }
        lemma_insert_at(t, x, p);
        assert(s.insert(p, x) =~= t.insert(p, x).push(s.last()));
    } else {
        assert(s.insert(p, x) =~= s.push(x));
    }
}

/// Order steps by time, keeping steps at the same instant in the order they
/// were written.
pub fn sort_steps(steps: Vec<Step>) -> (r: Vec<Step>)
    ensures
        r@ == sorted_by_time(steps@),
{
    let mut input = steps;
    let ghost all = input@;
    let mut out: Vec<Step> = Vec::new();
    let mut done: usize = 0;
    assert(all.len() == input.len());
    while input.len() > 0
        invariant
            done <= all.len(),
            all.len() <= usize::MAX,
            input@ == all.subrange(done as int, all.len() as int),
            out@ == sorted_by_time(all.subrange(0, done as int)),
        decreases input.len(),
    {
        let x = input.remove(0);
        assert(x == all[done as int]);
        let kx = time_key_of(x.t_bits);
        let mut j: usize = out.len();
        while j > 0 && time_key_of(out[j - 1].t_bits) > kx
            invariant
                j <= out@.len(),
                kx == time_key(x.t_bits),
                forall|m: int| j <= m < out@.len() ==> time_key((#[trigger] out@[m]).t_bits) > time_key(x.t_bits),
            decreases j,
        {
            j = j - 1;
        }
        proof {
            lemma_insert_at(out@, x, j as int);
            assert(all.subrange(0, done + 1).drop_last() =~= all.subrange(0, done as int));
        }
        out.insert(j, x);
        done = done + 1;
        assert(input@ =~= all.subrange(done as int, all.len() as int));
    }
    assert(all.subrange(0, all.len() as int) =~= all);
    out
}

proof fn lemma_insert_position(s: Seq<Step>, x: Step) -> (p: int)
    ensures
        0 <= p <= s.len(),
        insert_by_time(s, x) == s.insert(p, x),
        forall|m: int| p <= m < s.len() ==> time_key((#[trigger] s[m]).t_bits) > time_key(x.t_bits),
        p == 0 || time_key(s[p - 1].t_bits) <= time_key(x.t_bits),
    decreases s.len(),
{
    if s.len() == 0 {
        assert(s.insert(0, x) =~= seq![x]);
        0
    } else if time_key(s.last().t_bits) > time_key(x.t_bits) {
        let t = s.drop_last();
        let p = lemma_insert_position(t, x);
        assert forall|m: int| p <= m < s.len() implies time_key((#[trigger] s[m]).t_bits) > time_key(x.t_bits) by {
            if m < t.len() {
                assert(t[m] == s[m]);
            }
        }
        if p > 0 {
            assert(t[p - 1] == s[p - 1]);
        }
        assert(s.insert(p, x) =~= t.insert(p, x).push(s.last()));
        p
    } else {
        assert(s.insert(s.len() as int, x) =~= s.push(x));
        s.len() as int
    }
}

/// The times of `s` never decrease.
pub open spec fn in_time_order(s: Seq<Step>) -> bool {
    forall|i: int, j: int| 0 <= i < j < s.len() ==> time_key((#[trigger] s[i]).t_bits) <= time_key((#[trigger] s[j]).t_bits)
}

/// Sorting puts the steps in time order.
pub proof fn lemma_sorted_in_time_order(s: Seq<Step>)
    ensures
        in_time_order(sorted_by_time(s)),
    decreases s.len(),
{
    if s.len() > 0 {
        let t = sorted_by_time(s.drop_last());
        lemma_sorted_in_time_order(s.drop_last());
        let x = s.last();
        let p = lemma_insert_position(t, x);
        let u = t.insert(p, x);
        assert forall|i: int, j: int| 0 <= i < j < u.len() implies time_key((#[trigger] u[i]).t_bits) <= time_key((#[trigger] u[j]).t_bits) by {
            if j < p {
                assert(u[i] == t[i] && u[j] == t[j]);
            } else if j == p {
                assert(u[i] == t[i]);
                assert(time_key(t[i].t_bits) <= time_key(t[p - 1].t_bits));
            } else if i < p {
                assert(u[i] == t[i] && u[j] == t[j - 1]);
            } else if i == p {
                assert(u[j] == t[j - 1]);
            } else {
                assert(u[i] == t[i - 1] && u[j] == t[j - 1]);
            }
        }
    }
}

/// The steps of `s` at the time whose key is `k`, in order.
pub open spec fn at_time(s: Seq<Step>, k: u32) -> Seq<Step>
    decreases s.len(),
{
    if s.len() == 0 {
        s
    } else if time_key(s.last().t_bits) == k {
        at_time(s.drop_last(), k).push(s.last())
    } else {
        at_time(s.drop_last(), k)
    }
}

proof fn lemma_at_time_concat(a: Seq<Step>, b: Seq<Step>, k: u32)
    ensures
        at_time(a + b, k) == at_time(a, k) + at_time(b, k),
    decreases b.len(),
{
    if b.len() == 0 {
        assert(a + b =~= a);
        assert(at_time(a, k) + at_time(b, k) =~= at_time(a, k));
    } else {
        lemma_at_time_concat(a, b.drop_last(), k);
        assert((a + b).drop_last() =~= a + b.drop_last());
        assert((a + b).last() == b.last());
        if time_key(b.last().t_bits) == k {
            assert(at_time(a, k) + at_time(b, k) =~= (at_time(a, k) + at_time(b.drop_last(), k)).push(b.last()));
        }
    }
}

proof fn lemma_at_time_none(s: Seq<Step>, k: u32)
    requires
        forall|m: int| 0 <= m < s.len() ==> time_key((#[trigger] s[m]).t_bits) != k,
    ensures
        at_time(s, k) == Seq::<Step>::empty(),
    decreases s.len(),
{
    if s.len() > 0 {
        assert forall|m: int| 0 <= m < s.drop_last().len() implies time_key((#[trigger] s.drop_last()[m]).t_bits) != k by {
            assert(s.drop_last()[m] == s[m]);
        }
        lemma_at_time_none(s.drop_last(), k);
        assert(time_key(s[s.len() - 1].t_bits) != k);
    }
}

/// Sorting is stable: the steps at any one time come out in the order they
/// were written, none lost and none added.
pub proof fn lemma_sort_is_stable(s: Seq<Step>, k: u32)
    ensures
        at_time(sorted_by_time(s), k) == at_time(s, k),
    decreases s.len(),
{
    if s.len() > 0 {
        let t = sorted_by_time(s.drop_last());
        lemma_sort_is_stable(s.drop_last(), k);
        let x = s.last();
        let p = lemma_insert_position(t, x);
        let front = t.subrange(0, p);
        let back = t.subrange(p, t.len() as int);
        assert(t.insert(p, x) =~= front + (seq![x] + back));
        assert(t =~= front + back);
        lemma_at_time_concat(front, seq![x] + back, k);
        lemma_at_time_concat(seq![x], back, k);
        lemma_at_time_concat(front, back, k);
        assert(seq![x].drop_last() =~= Seq::<Step>::empty());
        assert(seq![x].last() == x);
        assert(at_time(Seq::<Step>::empty(), k) =~= Seq::<Step>::empty());
        if time_key(x.t_bits) == k {
            assert(at_time(seq![x], k) =~= seq![x]);
            assert forall|m: int| 0 <= m < back.len() implies time_key((#[trigger] back[m]).t_bits) != k by {
                assert(back[m] == t[p + m]);
            }
            lemma_at_time_none(back, k);
            assert(at_time(front, k) + (at_time(seq![x], k) + at_time(back, k)) =~= (at_time(front, k) + at_time(back, k)).push(x));
        } else {
            assert(at_time(seq![x], k) =~= Seq::<Step>::empty());
            assert(at_time(front, k) + (at_time(seq![x], k) + at_time(back, k)) =~= at_time(front, k) + at_time(back, k));
        }
    }
}

/// A script being read line by line: its run settings and untimed `set`s
/// so far, and its steps in source order.
#[derive(Debug, Clone, PartialEq, Eq)]
pub struct ScriptReader {
    pub settings: ScriptSettings,
    pub steps: Vec<Step>,
}

impl ScriptReader {
    /// Nothing read yet.
    pub fn new() -> (r: Self)
        ensures
            r.settings.dump.is_none() && r.settings.duration.is_none() && r.settings.size.is_none()
                && r.settings.scale.is_none() && r.settings.capture.is_none(),
            r.settings.sets@.len() == 0,
            r.steps@.len() == 0,
    {
        ScriptReader { settings: ScriptSettings::new(), steps: Vec::new() }
    }

    /// Take one line, its comment already stripped: a blank line is
    /// skipped, a step is kept, an untimed `set` is recorded once per row,
    /// and a run setting is handed back for the caller to read its number
    /// and apply.  On an error nothing changes.
    pub fn feed(&mut self, text: &str, line: usize, time: TimeReading, sources: &[&str]) -> (r: Result<Option<RunSetting>, ScriptError>)
        ensures
            trimmed(text@).len() == 0 ==> r == Ok::<Option<RunSetting>, ScriptError>(None) && *final(self) == *old(self),
            trimmed(text@).len() > 0 ==> match line_result(words_of(text@), line, time, views(sources@)) {
                Err(e) => r matches Err(err) && err_view(err) == e && *final(self) == *old(self),
                Ok(LineView::Step(t, n, a)) => r == Ok::<Option<RunSetting>, ScriptError>(None)
                    && final(self).settings == old(self).settings
                    && final(self).steps@.len() == old(self).steps@.len() + 1
                    && final(self).steps@.drop_last() == old(self).steps@
                    && final(self).steps@.last().t_bits == t && final(self).steps@.last().repeat == n
                    && final(self).steps@.last().action@ == a && final(self).steps@.last().line == line,
                Ok(LineView::Run(k, a)) => r matches Ok(Some(rs)) && rs.key == k && rs.arg@ == a
                    && *final(self) == *old(self),
                Ok(LineView::Configure(target, value)) => final(self).steps == old(self).steps
                    && match earlier_set(old(self).settings.sets@, target) {
                    Some(i) => r matches Err(e) && err_view(e) == (line, "`"@ + target
                        + "` is set more than once (already on line "@ + dec(
                        old(self).settings.sets@[i].line as nat,
                    ) + ")"@) && final(self).settings == (ScriptSettings {
                        sets: final(self).settings.sets,
                        ..old(self).settings
                    }) && final(self).settings.sets@ == old(self).settings.sets@,
                    None => r == Ok::<Option<RunSetting>, ScriptError>(None)
                        && final(self).settings == (ScriptSettings {
                        sets: final(self).settings.sets,
                        ..old(self).settings
                    }) && final(self).settings.sets@.len() == old(self).settings.sets@.len() + 1
                        && final(self).settings.sets@.drop_last() == old(self).settings.sets@
                        && final(self).settings.sets@.last().target@ == target
                        && final(self).settings.sets@.last().value@ == value
                        && final(self).settings.sets@.last().line == line,
                },
            },
    {
        if trim(text).unicode_len() == 0 {
            return Ok(None);
        }
        match parse_line(text, line, time, sources) {
            Err(e) => Err(e),
            Ok(Line::Step(s)) => {
                let ghost old_steps = self.steps@;
                self.steps.push(s);
                assert(self.steps@.drop_last() =~= old_steps);
                Ok(None)
            },
            Ok(Line::Run(rs)) => Ok(Some(rs)),
            Ok(Line::Configure(c)) => {
                let ghost old_sets = self.settings.sets@;
                match add_set(&mut self.settings.sets, c) {
                    Err(e) => Err(e),
                    Ok(()) => {
                        assert(self.settings.sets@.drop_last() =~= old_sets);
                        Ok(None)
                    },
                }
            },
        }
    }

    /// The settings, and the steps ordered by time.
    pub fn finish(self) -> (r: (ScriptSettings, Vec<Step>))
        ensures
            r.0 == self.settings,
            r.1@ == sorted_by_time(self.steps@),
    {
        let ScriptReader { settings, steps } = self;
        (settings, sort_steps(steps))
    }
}

} // verus!
