use orion_sdr_view::replay::schedule::{Delivery, RunTally};
use orion_sdr_view::utils::script::{Pane, ScriptError, ScriptSet};
use orion_sdr_view::utils::script_parse::{
    add_set, parse_key_spec, parse_line, parse_run_setting, parse_step, sort_steps, split_words,
    Action, KeyModifiers, Line, RunKey, ScriptReader, ScriptSettings, Setting, Step, TimeReading,
};

const LABELS: [&str; 3] = ["Test Tone", "AM DSB", "PSK31"];

fn at(t: f32) -> TimeReading {
    TimeReading::Seconds(t.to_bits())
}

fn err(line: usize, message: &str) -> ScriptError {
    ScriptError { line, message: message.to_owned() }
}

fn mods(shift: bool, ctrl: bool, alt: bool, command: bool) -> KeyModifiers {
    KeyModifiers { alt, ctrl, shift, command }
}

#[test]
fn split_words_drops_every_run_of_white_space() {
    assert_eq!(split_words("  0.50\tkey  L \u{a0}"), vec!["0.50", "key", "L"]);
    assert!(split_words(" \t ").is_empty());
    assert_eq!(split_words("x"), vec!["x"]);
}

#[test]
fn key_specs_name_a_key_and_its_modifiers() {
    assert_eq!(parse_key_spec("L", 1), Ok(("L".to_owned(), mods(false, false, false, false))));
    assert_eq!(
        parse_key_spec("shift+ArrowRight", 1),
        Ok(("Right".to_owned(), mods(true, false, false, false)))
    );
    assert_eq!(
        parse_key_spec("Shift+Control+alt+command+a", 1),
        Ok(("A".to_owned(), mods(true, true, true, true)))
    );
    assert_eq!(parse_key_spec("option+cmd+Esc", 1), Ok(("Escape".to_owned(), mods(false, false, true, true))));
}

#[test]
fn key_spec_errors() {
    assert_eq!(parse_key_spec("Hyper+A", 3), Err(err(3, "`hyper` is not a modifier")));
    assert_eq!(parse_key_spec("+", 3), Err(err(3, "`` is not a modifier")));
    assert_eq!(parse_key_spec("shift+", 3), Err(err(3, "`shift+` names no key")));
    assert_eq!(parse_key_spec("Bogus", 3), Err(err(3, "`Bogus` is not an egui key name")));
}

fn step(t: f32, repeat: usize, action: Action, line: usize) -> Step {
    Step { t_bits: t.to_bits(), repeat, action, line }
}

#[test]
fn timed_lines_parse_to_steps() {
    assert_eq!(
        parse_step("0.75 key shift+ArrowRight", 4, at(0.75), &LABELS),
        Ok(step(0.75, 1, Action::Key { key: "Right".to_owned(), modifiers: mods(true, false, false, false) }, 4))
    );
    assert_eq!(
        parse_step("1 key I x5", 5, at(1.0), &LABELS),
        Ok(step(1.0, 5, Action::Key { key: "I".to_owned(), modifiers: mods(false, false, false, false) }, 5))
    );
    assert_eq!(
        parse_step("0 source am-dsb", 6, at(0.0), &LABELS),
        Ok(step(0.0, 1, Action::Source { mode: 1 }, 6))
    );
    assert_eq!(
        parse_step("0 source AM DSB", 6, at(0.0), &LABELS),
        Ok(step(0.0, 1, Action::Source { mode: 1 }, 6))
    );
    assert_eq!(
        parse_step("2 pane Waterfall after-lock", 7, at(2.0), &LABELS),
        Ok(step(2.0, 1, Action::Pane { pane: Pane::Waterfall, label: Some("after-lock".to_owned()) }, 7))
    );
    assert_eq!(parse_step("2 still", 8, at(2.0), &LABELS), Ok(step(2.0, 1, Action::Still { label: None }, 8)));
    assert_eq!(
        parse_step("0.8 text a x2", 9, at(0.8), &LABELS),
        Ok(step(0.8, 2, Action::Text { text: "a".to_owned() }, 9))
    );
    assert_eq!(
        parse_step("1 set cofdm.cn_db 5", 10, at(1.0), &LABELS),
        Ok(step(1.0, 1, Action::SetRow { target: "cofdm.cn_db".to_owned(), value: "5".to_owned() }, 10))
    );
    assert_eq!(
        parse_step("1 assert center_hz 520000", 11, at(1.0), &LABELS),
        Ok(step(
            1.0,
            1,
            Action::Assert { name: "center_hz".to_owned(), args: vec!["520000".to_owned()] },
            11
        ))
    );
}

#[test]
fn timed_line_errors() {
    assert_eq!(parse_step("", 1, TimeReading::NotANumber, &LABELS), Err(err(1, "expected a time")));
    assert_eq!(
        parse_step("0.O5 key Q", 1, TimeReading::NotANumber, &LABELS),
        Err(err(1, "`0.O5` is not a time in seconds"))
    );
    assert_eq!(
        parse_step("-1 key Q", 1, TimeReading::OutOfRange, &LABELS),
        Err(err(1, "time `-1` must be finite and >= 0"))
    );
    assert_eq!(
        parse_step("1", 2, at(1.0), &LABELS),
        Err(err(2, "expected `key`, `source`, `still`, `pane`, `text`, `set` or `assert`"))
    );
    assert_eq!(
        parse_step("1 key I x0", 3, at(1.0), &LABELS),
        Err(err(3, "a repeat count of 0 does nothing; drop the line instead"))
    );
    assert_eq!(
        parse_step("1 key a b", 3, at(1.0), &LABELS),
        Err(err(3, "`key` takes one `[mod+]Name` argument, got 2"))
    );
    assert_eq!(
        parse_step("1 source PSK31 x2", 3, at(1.0), &LABELS),
        Err(err(3, "`source` takes no repeat count; it presses `I` until the named source is active"))
    );
    assert_eq!(parse_step("1 source", 3, at(1.0), &LABELS), Err(err(3, "`source` needs a source name")));
    assert_eq!(
        parse_step("1 source FT8", 3, at(1.0), &LABELS),
        Err(err(3, "`FT8` is not a source (expected one of: Test Tone, AM DSB, PSK31)"))
    );
    assert_eq!(
        parse_step("1 still x2", 3, at(1.0), &LABELS),
        Err(err(3, "`still` takes no repeat count; capturing the same frame twice would only overwrite it"))
    );
    assert_eq!(
        parse_step("1 pane", 3, at(1.0), &LABELS),
        Err(err(3, "`pane` needs a pane name (one of: waterfall, spectrogram, persistence, constellation, correction)"))
    );
    assert_eq!(
        parse_step("1 pane radar", 3, at(1.0), &LABELS),
        Err(err(3, "`radar` is not a pane (expected one of: waterfall, spectrogram, persistence, constellation, correction)"))
    );
    assert_eq!(
        parse_step("1 text a b", 3, at(1.0), &LABELS),
        Err(err(3, "`text` takes one whitespace-free argument, got 2"))
    );
    assert_eq!(
        parse_step("1 set run.duration 5", 3, at(1.0), &LABELS),
        Err(err(3, "`run.duration` takes no time; it configures the run rather than happens during it"))
    );
    assert_eq!(parse_step("1 assert", 3, at(1.0), &LABELS), Err(err(3, "`assert` needs a property name")));
    assert_eq!(
        parse_step("1 jump", 3, at(1.0), &LABELS),
        Err(err(3, "`jump` is not a directive (expected `key`, `source`, `still`, `pane`, `text`, `set` or `assert`)"))
    );
}

#[test]
fn untimed_set_lines() {
    match parse_line("set run.duration 30", 1, TimeReading::NotANumber, &LABELS) {
        Ok(Line::Run(rs)) => {
            assert_eq!(rs.key, RunKey::Duration);
            assert_eq!(rs.arg, "30");
        }
        other => panic!("unexpected {other:?}"),
    }
    assert_eq!(
        parse_line("set cofdm.cn_db 10", 2, TimeReading::NotANumber, &LABELS),
        Ok(Line::Configure(ScriptSet { target: "cofdm.cn_db".to_owned(), value: "10".to_owned(), line: 2 }))
    );
    assert_eq!(
        parse_line("set run.speed 2", 3, TimeReading::NotANumber, &LABELS),
        Err(err(3, "`speed` is not a run setting (expected one of: capture, dump, duration, scale, size)"))
    );
    assert_eq!(
        parse_line("set cofdm.cn_db", 4, TimeReading::NotANumber, &LABELS),
        Err(err(4, "`set` takes a key path and one whitespace-free value, got 1 \u{2014} e.g. `set cofdm.cn_db 10`"))
    );
    assert!(matches!(
        parse_line("0.5 key L", 5, at(0.5), &LABELS),
        Ok(Line::Step(Step { repeat: 1, line: 5, .. }))
    ));
    assert_eq!(parse_run_setting("dump", "run.jsonl", 6).map(|r| r.key), Ok(RunKey::Dump));
}

#[test]
fn run_settings_refuse_a_second_occurrence() {
    let mut s = ScriptSettings::new();
    assert_eq!(s.apply(Setting::Duration(30.0f32.to_bits()), 1), Ok(()));
    assert_eq!(s.duration, Some(30.0f32.to_bits()));
    assert_eq!(s.apply(Setting::Duration(5.0f32.to_bits()), 2), Err(err(2, "`duration` is given more than once")));
    assert_eq!(s.duration, Some(30.0f32.to_bits()));
    assert_eq!(s.apply(Setting::Dump("a.jsonl".to_owned()), 3), Ok(()));
    assert_eq!(s.apply(Setting::Dump("b.jsonl".to_owned()), 4), Err(err(4, "`dump` is given more than once")));
    assert_eq!(s.dump.as_deref(), Some("a.jsonl"));
}

#[test]
fn a_row_may_be_set_once() {
    let mut sets = Vec::new();
    let set = |target: &str, line: usize| ScriptSet { target: target.to_owned(), value: "1".to_owned(), line };
    assert_eq!(add_set(&mut sets, set("cofdm.cn_db", 2)), Ok(()));
    assert_eq!(add_set(&mut sets, set("display.db_min", 3)), Ok(()));
    assert_eq!(
        add_set(&mut sets, set("cofdm.cn_db", 7)),
        Err(err(7, "`cofdm.cn_db` is set more than once (already on line 2)"))
    );
    assert_eq!(sets.len(), 2);
}

#[test]
fn steps_sort_by_time_keeping_equal_times_in_source_order() {
    let text = |t: f32, s: &str, line: usize| step(t, 1, Action::Text { text: s.to_owned() }, line);
    let sorted = sort_steps(vec![
        text(1.0, "c", 1),
        text(0.5, "a", 2),
        text(1.0, "d", 3),
        text(0.0, "z", 4),
        text(0.5, "b", 5),
    ]);
    let order: Vec<usize> = sorted.iter().map(|s| s.line).collect();
    assert_eq!(order, vec![4, 2, 5, 1, 3]);
    let neg_zero = sort_steps(vec![text(0.0, "p", 1), text(-0.0, "n", 2)]);
    assert_eq!(neg_zero[0].line, 2);
}

#[test]
fn replay_frames_deliver_steps_in_order() {
    let st = |t: f32, repeat: usize, action: Action, line: usize| Step { t_bits: t.to_bits(), repeat, action, line };
    let steps = vec![
        st(0.0, 1, Action::Source { mode: 2 }, 1),
        st(0.0, 1, Action::Assert { name: "center_hz".to_owned(), args: vec![] }, 2),
        st(0.5, 3, Action::Key { key: "I".to_owned(), modifiers: mods(false, false, false, false) }, 3),
        st(0.5, 1, Action::Still { label: Some("a".to_owned()) }, 4),
        st(0.5, 1, Action::Pane { pane: Pane::Waterfall, label: None }, 5),
        st(1.0, 1, Action::Text { text: "b".to_owned() }, 6),
    ];
    let mut d = Delivery::new();
    let f = |t: f32| t.to_bits();
    let p = d.frame(&steps, f(0.0), 0, 3);
    assert_eq!((p.deliver, p.still.clone(), p.panes.clone()), (Some(0), None, vec![]));
    assert_eq!(d.frame(&steps, f(0.1), 1, 3).deliver, Some(0));
    // The named source is active: the `source` step is done.
    assert_eq!(d.frame(&steps, f(0.2), 2, 3).deliver, None);
    assert_eq!(d.next, 1);
    // The assert is skipped; the key is not due yet.
    assert_eq!(d.frame(&steps, f(0.3), 2, 3).deliver, None);
    assert_eq!(d.next, 2);
    // Three frames of the key, and nothing else picked up meanwhile.
    for _ in 0..3 {
        let p = d.frame(&steps, f(0.5), 2, 3);
        assert_eq!(p.deliver, Some(2));
        assert_eq!(d.next, 3);
    }
    let p = d.frame(&steps, f(0.6), 2, 3);
    assert_eq!(p.deliver, None);
    assert_eq!(p.still, Some(Some("a".to_owned())));
    assert_eq!(p.panes, vec![4]);
    assert!(!d.finished(&steps));
    // The end time has come but a step is still to come: the run goes on.
    assert!(!d.run_over(&steps, f(0.9), f(0.5)));
    assert_eq!(d.frame(&steps, f(1.0), 2, 3).deliver, Some(5));
    assert!(d.finished(&steps));
    assert!(!d.run_over(&steps, f(1.0), f(2.0)));
    assert!(d.run_over(&steps, f(2.0), f(2.0)));
    assert!(d.run_over(&steps, f(3.5), f(2.0)));
}

#[test]
fn run_tally_counts_frames_and_source_changes() {
    let mut t = RunTally::new(0);
    assert!(!t.after_frame(800, 0));
    assert!(t.after_frame(800, 2));
    assert!(!t.after_frame(0, 2));
    assert_eq!((t.frames, t.samples, t.source), (3, 1600, 2));
}

#[test]
fn a_script_reads_line_by_line() {
    let mut r = ScriptReader::new();
    assert_eq!(r.feed("   ", 1, TimeReading::NotANumber, &LABELS), Ok(None));
    let rs = r.feed("set run.duration 30", 2, TimeReading::NotANumber, &LABELS).unwrap().unwrap();
    assert_eq!(rs.key, RunKey::Duration);
    assert_eq!(r.settings.apply(Setting::Duration(30.0f32.to_bits()), 2), Ok(()));
    assert_eq!(r.feed("1.0 text b", 3, at(1.0), &LABELS), Ok(None));
    assert_eq!(r.feed("0.5 text a", 4, at(0.5), &LABELS), Ok(None));
    assert_eq!(r.feed("set cofdm.cn_db 10", 5, TimeReading::NotANumber, &LABELS), Ok(None));
    assert_eq!(
        r.feed("set cofdm.cn_db 12", 6, TimeReading::NotANumber, &LABELS),
        Err(err(6, "`cofdm.cn_db` is set more than once (already on line 5)"))
    );
    assert_eq!(r.feed("2 jump", 7, at(2.0), &LABELS).map_err(|e| e.line), Err(7));
    assert_eq!(r.steps.len(), 2);
    let (settings, steps) = r.finish();
    assert_eq!(settings.duration, Some(30.0f32.to_bits()));
    assert_eq!(settings.sets.len(), 1);
    assert_eq!(steps.iter().map(|s| s.line).collect::<Vec<_>>(), vec![4, 3]);
}
