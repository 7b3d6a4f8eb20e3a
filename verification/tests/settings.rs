use orion_sdr_view::settings::{
    HandleKeysResult, Key, KeyEvent, KeyInput, NumAction, NumEdit, SettingsNav, TextField,
    ToggleField,
};

fn press(keys: &[Key]) -> KeyInput {
    KeyInput { events: keys.iter().map(|k| KeyEvent::Press(*k)).collect(), shift: false }
}

fn typed(s: &str) -> KeyInput {
    KeyInput { events: vec![KeyEvent::Text(s.to_owned())], shift: false }
}

fn open() -> SettingsNav {
    let mut s = SettingsNav::new();
    s.visible = true;
    s
}

fn no_signals(r: &HandleKeysResult) -> bool {
    !r.source_switched && !r.am_audio_changed && !r.wav_load_requested && !r.psk31_msg_accepted
}

#[test]
fn hidden_popover_ignores_keys() {
    let mut s = SettingsNav::new();
    let r = s.handle_keys(&press(&[Key::ArrowDown]));
    assert!(no_signals(&r));
    assert_eq!(s.focused_row(), None);
}

#[test]
fn arrows_move_the_focus() {
    let mut s = open();
    s.handle_keys(&press(&[Key::ArrowDown]));
    assert_eq!(s.focused_row(), Some(0));
    s.handle_keys(&press(&[Key::ArrowDown]));
    assert_eq!(s.focused_row(), Some(1));
    s.handle_keys(&press(&[Key::ArrowDown]));
    assert_eq!(s.focused_row(), Some(1));
    s.handle_keys(&press(&[Key::ArrowUp]));
    assert_eq!(s.focused_row(), Some(0));
    s.handle_keys(&press(&[Key::ArrowUp]));
    assert_eq!(s.focused_row(), Some(0));
}

#[test]
fn tab_and_escape() {
    let mut s = open();
    s.handle_keys(&press(&[Key::Tab]));
    assert_eq!(s.active_tab(), 1);
    s.handle_keys(&press(&[Key::Tab]));
    assert_eq!(s.active_tab(), 0);
    s.handle_keys(&press(&[Key::ArrowUp]));
    assert_eq!(s.focused_row(), Some(1));
    s.handle_keys(&press(&[Key::Escape]));
    assert_eq!(s.focused_row(), None);
    assert!(s.visible);
    s.handle_keys(&press(&[Key::Escape]));
    assert!(!s.visible);
}

#[test]
fn display_rows_hand_back_numeric_edits() {
    let mut s = open();
    s.handle_keys(&press(&[Key::ArrowDown]));
    let r = s.handle_keys(&press(&[Key::ArrowRight]));
    assert_eq!(r.num_edits, vec![NumEdit { tab: 0, row: 0, action: NumAction::NudgeRight }]);
    let r = s.handle_keys(&press(&[Key::R]));
    assert_eq!(r.num_edits, vec![NumEdit { tab: 0, row: 0, action: NumAction::Reset }]);
    s.handle_keys(&press(&[Key::Escape]));
    let r = s.handle_keys(&press(&[Key::R]));
    assert_eq!(
        r.num_edits,
        vec![
            NumEdit { tab: 0, row: 0, action: NumAction::Reset },
            NumEdit { tab: 0, row: 1, action: NumAction::Reset },
        ]
    );
}

#[test]
fn left_and_right_without_focus_switch_tabs() {
    let mut s = open();
    s.handle_keys(&press(&[Key::ArrowRight]));
    assert_eq!(s.active_tab(), 1);
    s.handle_keys(&press(&[Key::ArrowLeft]));
    assert_eq!(s.active_tab(), 0);
}

#[test]
fn source_toggle_switches_and_signals() {
    let mut s = open();
    s.handle_keys(&press(&[Key::Tab]));
    s.handle_keys(&press(&[Key::ArrowDown]));
    assert_eq!(s.focused_row(), Some(0));
    let r = s.handle_keys(&press(&[Key::ArrowRight]));
    assert!(r.source_switched);
    assert_eq!(s.source_mode_idx(), 1);
    let r = s.handle_keys(&press(&[Key::ArrowRight]));
    assert!(r.source_switched);
    assert_eq!(s.source_mode_idx(), 2);
    let r = s.handle_keys(&press(&[Key::ArrowRight]));
    assert!(r.source_switched);
    assert_eq!(s.source_mode_idx(), 0);
    let r = s.handle_keys(&press(&[Key::ArrowLeft]));
    assert_eq!(s.source_mode_idx(), 2);
    assert!(r.source_switched);
}

#[test]
fn custom_wav_path_takes_typed_text() {
    let mut s = open();
    s.set_source_mode(1);
    s.handle_keys(&press(&[Key::Tab]));
    s.handle_keys(&press(&[Key::ArrowDown, Key::ArrowDown]));
    s.handle_keys(&press(&[Key::ArrowDown]));
    assert_eq!(s.focused_row(), Some(1));
    let r = s.handle_keys(&press(&[Key::ArrowRight]));
    assert!(r.am_audio_changed);
    s.handle_keys(&press(&[Key::ArrowRight]));
    assert!(s.am_audio_is_custom());
    for _ in 0..5 {
        s.handle_keys(&press(&[Key::ArrowDown]));
    }
    assert_eq!(s.focused_row(), Some(6));
    s.handle_keys(&press(&[Key::ArrowDown]));
    assert_eq!(s.focused_row(), Some(6));
    s.handle_keys(&typed("a.wa"));
    s.handle_keys(&typed("vx"));
    s.handle_keys(&press(&[Key::Backspace]));
    assert_eq!(s.wav_path(), "a.wav");
    let r = s.handle_keys(&press(&[Key::Enter]));
    assert!(r.wav_load_requested);
    s.set_wav_status(true);
    s.handle_keys(&press(&[Key::Escape]));
    assert_eq!(s.focused_row(), Some(5));
}

#[test]
fn psk31_message_edit_commits_and_cancels() {
    let mut s = open();
    s.set_source_mode(2);
    s.handle_keys(&press(&[Key::Tab]));
    for _ in 0..6 {
        s.handle_keys(&press(&[Key::ArrowDown]));
    }
    assert_eq!(s.focused_row(), Some(5));
    s.handle_keys(&press(&[Key::Enter]));
    s.handle_keys(&press(&[Key::Backspace; 17]));
    s.handle_keys(&typed("HI\u{7}!"));
    let r = s.handle_keys(&press(&[Key::Enter]));
    assert!(r.psk31_msg_accepted);
    assert_eq!(s.psk31_message(), "HI!");
    assert_eq!(s.focused_row(), None);
    for _ in 0..6 {
        s.handle_keys(&press(&[Key::ArrowDown]));
    }
    s.handle_keys(&typed("  "));
    let r = s.handle_keys(&press(&[Key::Escape]));
    assert!(!r.psk31_msg_accepted);
    assert_eq!(s.psk31_message(), "HI!");
    for _ in 0..6 {
        s.handle_keys(&press(&[Key::ArrowDown]));
    }
    s.handle_keys(&press(&[Key::Enter]));
    s.handle_keys(&press(&[Key::Backspace; 3]));
    s.handle_keys(&typed("   "));
    s.handle_keys(&press(&[Key::Enter]));
    assert_eq!(s.psk31_message(), "CQ CQ CQ DE N0GNR");
}

#[test]
fn s_closes_and_reset_restores_toggles() {
    let mut s = open();
    s.cycle_am_audio();
    s.cycle_psk31_mode();
    assert_eq!(s.am_audio_idx(), 1);
    assert_eq!(s.psk31_mode_idx(), 1);
    s.set_source_mode(1);
    s.handle_keys(&press(&[Key::Tab]));
    let r = s.handle_keys(&press(&[Key::R]));
    assert_eq!(s.source_mode_idx(), 0);
    assert_eq!(s.am_audio_idx(), 0);
    assert_eq!(r.num_edits.len(), 5);
    assert_eq!(s.psk31_mode_idx(), 1);
    s.handle_keys(&press(&[Key::S]));
    assert!(!s.visible);
    assert!(s.focus_in_range());
}

#[test]
fn configured_psk31_defaults() {
    let mut s = SettingsNav::new();
    s.configure_psk31(true, "TEST DE N0GNR".to_owned());
    assert_eq!(s.psk31_mode_idx(), 1);
    assert_eq!(s.psk31_message(), "TEST DE N0GNR");
}

#[test]
fn toggle_and_text_fields() {
    let mut t = ToggleField { label: "Mode", options: &["A", "B", "C"], index: 0, default: 1 };
    t.next();
    assert_eq!(t.value_str(), "B");
    t.prev();
    t.prev();
    assert_eq!(t.value_str(), "C");
    t.reset();
    assert_eq!(t.index, 1);
    let mut f = TextField {
        label: "WAV file",
        value: String::new(),
        default_value: "x.wav".to_owned(),
        status: Some(true),
    };
    f.push_char('a');
    assert_eq!(f.value, "a");
    assert_eq!(f.status, None);
    f.pop_char();
    f.pop_char();
    assert_eq!(f.value, "");
    f.reset();
    assert_eq!(f.value, "x.wav");
}

#[test]
fn focus_stays_on_a_visible_row() {
    let mut s = open();
    s.set_source_mode(1);
    s.handle_keys(&press(&[Key::Tab]));
    let keys = [
        Key::ArrowUp,
        Key::ArrowRight,
        Key::ArrowDown,
        Key::ArrowLeft,
        Key::R,
        Key::ArrowUp,
        Key::ArrowLeft,
        Key::ArrowDown,
        Key::ArrowRight,
        Key::ArrowRight,
    ];
    for _ in 0..5 {
        for k in keys {
            s.handle_keys(&press(&[k]));
            assert!(s.focus_in_range());
        }
    }
}

#[test]
fn popover_text_for_a_fresh_state() {
    let s = SettingsNav::new();
    assert_eq!(
        s.footer_hint(),
        "\u{2191}\u{2193} select field   Tab switch tab   R reset all   Esc close"
    );
    assert_eq!(s.message_row(), "CQ CQ CQ DE N0GNR");
    assert_eq!(s.wav_row(), "cq_morse.wav (built-in)");
    assert_eq!(s.toggle_row(5).as_deref(), Some("\u{25c0} Test Tone \u{25b6}"));
    assert_eq!(s.toggle_row(6).as_deref(), Some("\u{25c0} Morse \u{25b6}"));
    assert_eq!(s.toggle_row(13).as_deref(), Some("\u{25c0} BPSK31 \u{25b6}"));
    assert_eq!(s.toggle_row(0), None);
    assert_eq!(s.row_label(5), Some("Source"));
    assert_eq!(s.row_label(6), Some("AM audio"));
    assert_eq!(s.row_label(11), Some("WAV file"));
    assert_eq!(s.row_label(13), Some("Mode"));
    assert_eq!(s.row_label(17), Some("Message"));
    assert_eq!(s.row_label(0), None);
    assert_eq!(s.row_label(7), None);
}

#[test]
fn popover_text_follows_focus_and_edits() {
    let mut s = open();
    s.handle_keys(&press(&[Key::ArrowDown]));
    assert_eq!(
        s.footer_hint(),
        "\u{2191}\u{2193} navigate   \u{25c0}\u{25b6} adjust   R reset field   Esc deselect"
    );
    s.configure_psk31(true, "ABCDEFGHIJKLMNOPQRSTUVWXYZ0123456789".to_owned());
    assert_eq!(s.message_row(), "\u{2026}IJKLMNOPQRSTUVWXYZ0123456789");
    assert_eq!(s.toggle_row(13).as_deref(), Some("\u{25c0} QPSK31 \u{25b6}"));
    s.set_wav_status(true);
    s.cycle_am_audio();
    assert_eq!(s.wav_row(), "cq_voice.wav (built-in)  \u{2713}");
}

#[test]
fn wav_row_cuts_long_paths_to_their_tail() {
    let mut s = open();
    s.handle_keys(&press(&[Key::Tab]));
    s.set_source_mode(1);
    s.cycle_am_audio();
    s.cycle_am_audio();
    assert!(s.am_audio_is_custom());
    for _ in 0..7 {
        s.handle_keys(&press(&[Key::ArrowDown]));
    }
    assert_eq!(s.footer_hint(), "type path   \u{21b5} load   Esc deselect");
    s.handle_keys(&typed("/home/user/recordings/2026/cq_contest.wav"));
    assert_eq!(s.wav_path(), "/home/user/recordings/2026/cq_contest.wav");
    assert_eq!(s.wav_row(), "\u{2026}cordings/2026/cq_contest.wav");
}

#[test]
fn any_move_of_the_source_toggle_is_a_switch() {
    let mut s = SettingsNav::new();
    s.show();
    assert!(s.is_visible());
    s.set_source_mode(2);
    s.handle_keys(&press(&[Key::Tab]));
    s.handle_keys(&press(&[Key::ArrowDown]));
    let r = s.handle_keys(&press(&[Key::ArrowRight]));
    assert!(r.source_switched);
    assert_eq!(s.source_mode_idx(), 0);
    let r = s.handle_keys(&press(&[Key::ArrowRight]));
    assert!(r.source_switched);
    assert_eq!(s.source_mode_idx(), 1);
    s.close();
    assert!(!s.is_visible());
}
