use orion_sdr_view::utils::script::{
    fold_name, is_repeat, names_match, parse_label, parse_repeat, parse_scope, parse_usize,
    source_mode_by_name, split_set, strip_comment, Pane, Scope, ScriptSet,
};

const LABELS: [&str; 3] = ["Test Tone", "AM DSB", "PSK31"];

#[test]
fn folding_drops_case_and_punctuation() {
    assert_eq!(fold_name("AM DSB"), "amdsb");
    assert_eq!(fold_name("AM-DSB"), "amdsb");
    assert_eq!(fold_name("AM_DSB"), "amdsb");
    assert_eq!(fold_name("--"), "");
    assert_eq!(fold_name("Caf\u{e9} 9"), "caf9");
}

#[test]
fn names_match_after_folding() {
    assert!(names_match("AM DSB", "am_dsb"));
    assert!(names_match("cofdm", "COFDM"));
    assert!(!names_match("--", "__"));
    assert!(!names_match("", ""));
    assert!(!names_match("psk", "psk31"));
}

#[test]
fn sources_resolve_by_label() {
    assert_eq!(source_mode_by_name("AM DSB", &LABELS), Some(1));
    assert_eq!(source_mode_by_name("amdsb", &LABELS), Some(1));
    assert_eq!(source_mode_by_name("psk-31", &LABELS), Some(2));
    assert_eq!(source_mode_by_name("  ", &LABELS), None);
    assert_eq!(source_mode_by_name("FT8", &LABELS), None);
}

#[test]
fn source_spellings_that_fold_alike_agree() {
    for name in ["AM DSB", "AM-DSB", "AM_DSB", "amdsb", "Am.Dsb"] {
        assert_eq!(source_mode_by_name(name, &LABELS), Some(1));
    }
    assert_eq!(source_mode_by_name("", &LABELS), None);
    assert_eq!(source_mode_by_name(" - ", &LABELS), None);
    assert_eq!(source_mode_by_name("test tone", &LABELS), Some(0));
    assert_eq!(source_mode_by_name("x", &["X", "x"]), Some(0));
}

#[test]
fn panes_resolve_by_name() {
    assert_eq!(Pane::by_name("waterfall"), Some(Pane::Waterfall));
    assert_eq!(Pane::by_name("Spectro-Gram"), Some(Pane::Spectrogram));
    assert_eq!(Pane::by_name("CORRECTION"), Some(Pane::Correction));
    assert_eq!(Pane::by_name(""), None);
    assert_eq!(Pane::by_name("spectrum"), None);
    assert_eq!(Pane::by_name("--"), None);
    for p in [Pane::Waterfall, Pane::Spectrogram, Pane::Persistence, Pane::Constellation, Pane::Correction] {
        assert_eq!(Pane::by_name(p.name()), Some(p));
        assert_eq!(Pane::by_name(&p.name().to_uppercase()), Some(p));
        assert_eq!(Pane::by_name(&p.name().to_ascii_uppercase()), Some(p));
        assert_eq!(Pane::by_name(&format!(" {} ", p.name())), Some(p));
    }
}

#[test]
fn comments_are_stripped() {
    assert_eq!(strip_comment("0.50 key L  # lock"), "0.50 key L  ");
    assert_eq!(strip_comment("# whole line"), "");
    assert_eq!(strip_comment("0.0 text a"), "0.0 text a");
    assert_eq!(strip_comment("a#b#c"), "a");
}

#[test]
fn repeat_words() {
    assert!(is_repeat("x5"));
    assert!(is_repeat("x012"));
    assert!(!is_repeat("x"));
    assert!(!is_repeat("x5a"));
    assert!(!is_repeat("5"));
    assert!(!is_repeat("X5"));
}

#[test]
fn repeat_counts_parse() {
    assert_eq!(parse_repeat("x5", 3), Ok(5));
    assert_eq!(parse_repeat("x+7", 3), Ok(7));
    let e = parse_repeat("x0", 4).unwrap_err();
    assert_eq!(e.line, 4);
    assert_eq!(e.message, "a repeat count of 0 does nothing; drop the line instead");
    let e = parse_repeat("x99999999999999999999999", 9).unwrap_err();
    assert_eq!(e.message, "`x99999999999999999999999` is not a repeat count");
    assert_eq!(parse_usize("18446744073709551615"), Some(usize::MAX));
    assert_eq!(parse_usize("18446744073709551616"), None);
    assert_eq!(parse_usize("+"), None);
    assert_eq!(parse_usize(""), None);
    assert_eq!(parse_usize("-1"), None);
}

#[test]
fn labels_parse() {
    assert_eq!(parse_label(&[], 1), Ok(None));
    assert_eq!(parse_label(&["run-1_a"], 1), Ok(Some("run-1_a".to_owned())));
    let e = parse_label(&["a", "b"], 2).unwrap_err();
    assert_eq!(e.line, 2);
    assert_eq!(e.message, "a label is one whitespace-free word, got 2 \u{2014} try `a-b`");
    let e = parse_label(&["a.b"], 3).unwrap_err();
    assert_eq!(
        e.message,
        "label `a.b` may use only letters, digits, `-` and `_`; it becomes part of a filename"
    );
}

#[test]
fn set_takes_two_words() {
    assert_eq!(
        split_set(&["cofdm.cn_db", "10"], 1),
        Ok(("cofdm.cn_db".to_owned(), "10".to_owned()))
    );
    let e = split_set(&["cofdm.cn_db"], 5).unwrap_err();
    assert_eq!(e.line, 5);
    assert_eq!(
        e.message,
        "`set` takes a key path and one whitespace-free value, got 1 \u{2014} e.g. `set cofdm.cn_db 10`"
    );
}

#[test]
fn set_scopes() {
    assert_eq!(parse_scope("run.duration"), Scope::Run("duration".to_owned()));
    assert_eq!(parse_scope("cofdm.cn_db"), Scope::App("cofdm.cn_db".to_owned()));
    assert_eq!(parse_scope("run"), Scope::App("run".to_owned()));
    let s = ScriptSet { target: "cofdm.cn_db".to_owned(), value: "10".to_owned(), line: 3 };
    assert_eq!(s.line, 3);
}

#[test]
fn printed_counts_read_back() {
    for n in [1usize, 9, 10, 123, 4096, usize::MAX] {
        let w = format!("x{n}");
        assert!(is_repeat(&w));
        assert_eq!(parse_repeat(&w, 1), Ok(n));
    }
}

#[test]
fn folding_is_a_normal_form() {
    for s in ["AM DSB", "Test-Tone", "psk_31", "--", "\u{e9}t\u{e9} 2"] {
        let once = fold_name(s);
        assert_eq!(fold_name(&once), once);
        assert_eq!(names_match(s, &once), !once.is_empty());
    }
}
