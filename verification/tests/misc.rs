use std::path::PathBuf;

use orion_sdr_view::decode::cw::{CwBlock, CwText};
use orion_sdr_view::decode::ticker::{ticker_update, Arrival, Shown};
use orion_sdr_view::replay::dump::Dump;
use orion_sdr_view::replay::run::{
    finish_run, is_stdout, to_run_error, DriveError, RunError, RunSummary,
};
use orion_sdr_view::source::ft8::{Ft8Mode, Ft8MsgType, Ft8ViewState};
use orion_sdr_view::utils::audio::morse;
use orion_sdr_view::utils::format::EpochInstant;
use orion_sdr_view::utils::script::ScriptError;
use orion_sdr_view::utils::term::{style, Level};
use orion_sdr_view::viewport::PanLimit;

#[test]
fn ft8_counts_clamp_at_999() {
    let mut s = Ft8ViewState::new();
    for _ in 0..1005 {
        s.on_decoded_frame(0);
        s.on_failed_frame();
    }
    assert_eq!(s.frame_count, 999);
    assert_eq!(s.err_count, 999);
    s.reset();
    assert_eq!(s.frame_count, 0);
    assert_eq!(s.last_timestamp, "");
}

#[test]
fn ft8_stamps_decoded_frames() {
    let mut s = Ft8ViewState::new();
    assert_eq!(s.format_decoded_text("CQ DX", 0), "|| --:--:--.--- | CQ DX ||");
    s.on_signal_rising_edge();
    assert!(s.pending_onset.is_some());
    let text = s.format_decoded_text("CQ", 0);
    assert!(text.starts_with("|| ") && text.ends_with(" | CQ ||"));
    assert_eq!(text.chars().count(), "|| HH:MM:SS.mmm | CQ ||".chars().count());
    s.on_decoded_frame(0);
    assert_eq!(s.frame_count, 1);
    assert!(s.pending_onset.is_none());
    assert_eq!(s.last_timestamp.len(), 12);
    let again = s.format_decoded_text("CQ", 0);
    assert_eq!(again, format!("|| {} | CQ ||", s.last_timestamp));
    s.mode = Ft8Mode::Ft4;
    s.msg_type = Ft8MsgType::FreeText;
    s.reset_to_defaults();
    assert_eq!(s.mode, Ft8Mode::Ft8);
    assert_eq!(s.msg_type, Ft8MsgType::Standard);
}

#[test]
fn ft8_onset_is_kept_within_a_burst() {
    let mut s = Ft8ViewState::new();
    let first = EpochInstant { secs: 45_296, millis: 789 };
    s.pending_onset = Some(first);
    s.on_signal_rising_edge();
    assert_eq!(s.pending_onset, Some(first));
    assert_eq!(s.format_decoded_text("CQ", 0), "|| 12:34:56.789 | CQ ||");
    assert_eq!(s.format_decoded_text("CQ", 60), "|| 13:34:56.789 | CQ ||");
    s.on_decoded_frame(-60);
    assert_eq!(s.last_timestamp, "11:34:56.789");
    assert!(s.pending_onset.is_none());
    s.on_signal_rising_edge();
    assert!(s.pending_onset.is_some());
}

#[test]
fn terminal_styling() {
    assert_eq!(style(Level::Info, "wrote x", true), "\u{2022} wrote x");
    assert_eq!(style(Level::Warn, "dropped", true), "\u{1b}[1;33m\u{26a0} dropped\u{1b}[0m");
    assert_eq!(style(Level::Error, "failed", true), "\u{1b}[1;31m\u{2717} failed\u{1b}[0m");
    assert_eq!(style(Level::Error, "failed", false), "\u{2717} failed");
    assert_eq!(Level::Warn.icon(), "\u{26a0}");
}

#[test]
fn morse_patterns() {
    assert_eq!(morse('A'), &[false, true]);
    assert_eq!(morse('0'), &[true, true, true, true, true]);
    assert_eq!(morse('Q'), &[true, true, false, true]);
    assert!(morse('a').is_empty());
    assert!(morse('?').is_empty());
}

#[test]
fn stdout_dump_path() {
    assert!(is_stdout("-"));
    assert!(!is_stdout("./-"));
    assert!(!is_stdout("runs/-"));
    assert!(!is_stdout("dash-"));
    assert!(!is_stdout(""));
}

#[test]
fn run_errors_carry_their_cause() {
    let e = to_run_error(DriveError::Dropped(3), PathBuf::from("x.jsonl"));
    assert!(matches!(e, RunError::DroppedChunks(3)));
    assert_eq!(
        e.message(),
        "3 decode chunk(s) were dropped; the dump measures the harness, not the link"
    );
    let e = to_run_error(DriveError::Capture("disk full".to_owned()), PathBuf::from("x"));
    assert_eq!(e.message(), "capture: disk full");
    let io = std::io::Error::new(std::io::ErrorKind::Other, "boom");
    let e = to_run_error(DriveError::Io(io), PathBuf::from("out.jsonl"));
    match &e {
        RunError::Io(p, _) => assert_eq!(p, &PathBuf::from("out.jsonl")),
        _ => panic!("expected an I/O error"),
    }
    assert_eq!(e.message(), "out.jsonl: boom");
    let s = RunError::Script(ScriptError { line: 4, message: "bad".to_owned() });
    assert_eq!(s.message(), "script: line 4: bad");
    assert_eq!(
        RunError::Unbounded.message(),
        "a headless run needs --script or --duration to bound it"
    );
}

#[test]
fn dump_counts_records() {
    let mut d = Dump::new(Vec::<u8>::new());
    assert_eq!(d.records(), 0);
    d.sink().extend_from_slice(b"{}\n");
    d.count_record();
    d.count_record();
    assert_eq!(d.records(), 2);
    assert!(d.flush().is_ok());
    assert_eq!(d.sink().len(), 3);
    let summary = RunSummary { frames: 60, samples: 48_000, records: 2, captures: vec![] };
    assert_eq!(summary.frames, 60);
    assert_ne!(PanLimit::Band, PanLimit::Overscan);
}

#[test]
fn cw_emits_characters_as_their_thresholds_are_reached() {
    let mut t = CwText::new();
    t.install_schedule(vec![('C', 10), ('Q', 20), (' ', 25), ('D', 40)], false);
    assert_eq!(t.advance(15), vec!['C']);
    assert_eq!(t.advance(10), vec!['Q', ' ']);
    assert_eq!(t.advance(0), Vec::<char>::new());
    assert_eq!(t.advance(100), vec!['D']);
    assert_eq!(t.advance(5), Vec::<char>::new());
    assert_eq!(t.accum_samples, 130);
    t.install_schedule(vec![('E', 5)], true);
    assert_eq!(t.accum_samples, 0);
    assert_eq!(t.advance(5), vec!['E']);
}

#[test]
fn cw_block_rides_through_keying_gaps() {
    let mut t = CwText::new();
    assert_eq!(t.observe_block(false, 100, 50), CwBlock::Idle);
    assert_eq!(t.observe_block(true, 100, 50), CwBlock::Active);
    t.install_schedule(vec![('K', 10)], false);
    assert_eq!(t.observe_block(false, 30, 50), CwBlock::Active);
    assert_eq!(t.observe_block(false, 20, 50), CwBlock::Active);
    assert_eq!(t.observe_block(false, 1, 50), CwBlock::GapDeclared);
    assert!(t.char_schedule.is_empty());
    assert_eq!(t.observe_block(false, 100, 50), CwBlock::Idle);
    assert_eq!(t.observe_block(true, 10, 50), CwBlock::Active);
    assert_eq!(t.silence_samples, 0);
}

#[test]
fn run_end_fails_on_dropped_chunks() {
    match finish_run(10, 4800, 7, 3, vec![PathBuf::from("a.png")]) {
        Err(DriveError::Dropped(n)) => assert_eq!(n, 3),
        other => panic!("expected a dropped-chunk failure, got {other:?}"),
    }
    let s = finish_run(10, 4800, 7, 0, vec![PathBuf::from("a.png")]).unwrap();
    assert_eq!((s.frames, s.samples, s.records), (10, 4800, 7));
    assert_eq!(s.captures, vec![PathBuf::from("a.png")]);
}

#[test]
fn ticker_holds_info_and_clears_on_gap() {
    let u = ticker_update(Shown::Info, Arrival::NoSignal, false);
    assert_eq!(u.show, None);
    let u = ticker_update(Shown::Info, Arrival::Info, true);
    assert_eq!(u.show, Some(Shown::Info));
    assert!(u.store_info);
    let u = ticker_update(Shown::Text, Arrival::Info, false);
    assert_eq!(u.show, Some(Shown::Info));
    let u = ticker_update(Shown::Text, Arrival::Text, false);
    assert!(u.queue_text && u.show.is_none() && u.in_gap == Some(false));
    let u = ticker_update(Shown::NoSignal, Arrival::Text, false);
    assert_eq!(u.show, Some(Shown::Text));
    let u = ticker_update(Shown::Info, Arrival::Gap, false);
    assert_eq!(u.show, Some(Shown::NoSignal));
    assert!(u.clear_burst && u.in_gap == Some(true));
    let u = ticker_update(Shown::Info, Arrival::Instrument, false);
    assert!(u.store_instrument && u.show.is_none() && !u.clear_burst);
    let u = ticker_update(Shown::NoSignal, Arrival::Probe, true);
    assert!(u.append_probe && u.show.is_none());
}
