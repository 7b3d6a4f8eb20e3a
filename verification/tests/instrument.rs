use orion_sdr_view::decode::common::{ChunkSequence, DecodeMode};
use orion_sdr_view::decode::di_bar::{di_bar_fit, di_field, di_lock_field, DiField, BER_W, DBFS_W, DB_W, HZ_W};
use orion_sdr_view::decode::instrument::{
    column_origins, column_widths, fmt_count, fmt_echo, fmt_fft_mode, fmt_fraction, fmt_yes_no,
    label, lock, merged_span_text, pair, render_text, value, Cell, CellStyle, ErrorUnit, Lock,
    rows_show_simulated, Metric, Provenance, Row, ABSENT, COLUMNS, COLUMN_PAD, MERGED_FROM,
};

#[test]
fn metric_constructors_carry_provenance() {
    let m = Metric::measured(3u32);
    assert_eq!(m.value, Some(3));
    assert_eq!(m.prov, Provenance::Measured);
    assert_eq!(Metric::known(1u32).prov, Provenance::Known);
    assert!(Metric::simulated(1u32).is_simulated());
    assert!(!Metric::measured(1u32).is_simulated());
    let u: Metric<u32> = Metric::unavailable();
    assert_eq!(u.value, None);
    assert_eq!(u.prov, Provenance::Unavailable);
}

#[test]
fn rate_labels_are_three_characters() {
    assert_eq!(ErrorUnit::Frame.rate_label(), "FER");
    assert_eq!(ErrorUnit::Packet.rate_label(), "PER");
    assert_eq!(ErrorUnit::default(), ErrorUnit::Frame);
}

#[test]
fn counts_are_fixed_width_and_mark_a_wrap() {
    assert_eq!(fmt_count(42, false), "000042 ");
    assert_eq!(fmt_count(42, true), "000042+");
    assert_eq!(fmt_count(1_000_042, true), "000042+");
    assert_eq!(fmt_count(999_999, false), "999999 ");
    assert_eq!(fmt_count(0, false).chars().count(), 7);
}

#[test]
fn fft_sizes_render_as_modes() {
    assert_eq!(fmt_fft_mode(2048), "2K");
    assert_eq!(fmt_fft_mode(4096), "4K");
    assert_eq!(fmt_fft_mode(8192), "8K");
    assert_eq!(fmt_fft_mode(16384), "16K");
    assert_eq!(fmt_fft_mode(3072), "3K");
    assert_eq!(fmt_fft_mode(256), "256");
    assert_eq!(fmt_fft_mode(1536), "1536");
}

#[test]
fn fractions_are_reduced() {
    assert_eq!(fmt_fraction(4, 8), "1/2");
    assert_eq!(fmt_fraction(32, 256), "1/8");
    assert_eq!(fmt_fraction(7, 8), "7/8");
    assert_eq!(fmt_fraction(0, 5), "0/1");
    assert_eq!(fmt_fraction(6, 4), "3/2");
    assert_eq!(fmt_fraction(3, 0), ABSENT);
    assert_eq!(fmt_fraction(0, 0), "\u{2014}");
}

#[test]
fn yes_no_and_echo() {
    assert_eq!(fmt_yes_no(true), "YES");
    assert_eq!(fmt_yes_no(false), "no");
    assert_eq!(fmt_echo(true), "OK");
    assert_eq!(fmt_echo(false), "OVER");
}

#[test]
fn value_cells_follow_provenance() {
    let c = value(&Metric::measured(5u32), |v| format!("{v} x"));
    assert_eq!(c.text, "5 x");
    assert_eq!(c.style, CellStyle::Normal);
    let c = value(&Metric::simulated(5u32), |v| format!("{v}"));
    assert_eq!(c.style, CellStyle::Simulated);
    let u: Metric<u32> = Metric::unavailable();
    let c = value(&u, |v| format!("{v}"));
    assert_eq!(c.text, ABSENT);
    assert_eq!(c.style, CellStyle::Absent);
    let odd = Metric { value: Some(1u32), prov: Provenance::Unavailable };
    assert_eq!(value(&odd, |v| format!("{v}")).text, ABSENT);
    let none_known: Metric<u32> = Metric { value: None, prov: Provenance::Known };
    assert_eq!(value(&none_known, |v| format!("{v}")).style, CellStyle::Absent);
}

#[test]
fn label_value_pairs() {
    let [l, v] = pair("err", &Metric::measured(42u32), |n| fmt_count(*n, false));
    assert_eq!(l.text, "err");
    assert_eq!(l.style, CellStyle::Normal);
    assert_eq!(v.text, "000042 ");
    assert_eq!(label("MER").text, "MER");
}

#[test]
fn lock_glyphs_and_span() {
    let car = lock("CAR", &Metric::measured(true));
    let tim = lock("TIM", &Metric::measured(false));
    let ts = lock("TS", &Metric::unavailable());
    let fec = lock("FEC", &Metric::simulated(true));
    assert_eq!(car.glyph, "\u{25cf}");
    assert_eq!(tim.glyph, "\u{25cb}");
    assert_eq!(ts.glyph, ABSENT);
    assert_eq!(fec.style, CellStyle::Simulated);
    let locks: Vec<Lock> = vec![car, tim, fec, ts];
    assert_eq!(merged_span_text(&locks), "CAR \u{25cf}  TIM \u{25cb}  FEC \u{25cf}  TS \u{2014}");
    assert_eq!(merged_span_text(&[]), "");
}

#[test]
fn chunk_sequence_counts_holes() {
    let mut s = ChunkSequence::new();
    assert!(!s.observe(7));
    assert!(!s.observe(8));
    assert!(s.observe(11));
    assert_eq!(s.dropped(), 2);
    assert!(!s.observe(12));
    assert_eq!(s.dropped(), 2);
    let mut w = ChunkSequence::new();
    w.observe(u64::MAX);
    assert!(!w.observe(0));
    assert_eq!(w.dropped(), 0);
    assert_eq!(DecodeMode::Cofdm, DecodeMode::Cofdm);
}

fn sample_rows() -> Vec<Row> {
    vec![
        Row {
            section: "RF",
            cells: vec![
                label("lvl"),
                Cell { text: "-12.0 dBFS".to_owned(), style: CellStyle::Normal },
            ],
            locks: Vec::new(),
        },
        Row {
            section: "Demod",
            cells: vec![
                label("BR"),
                Cell { text: "1.5 Mb/s".to_owned(), style: CellStyle::Normal },
                label("frm"),
                Cell { text: "12".to_owned(), style: CellStyle::Normal },
            ],
            locks: vec![lock("CAR", &Metric::measured(true))],
        },
    ]
}

#[test]
fn column_widths_take_widest_content_plus_pad() {
    let w = column_widths(&sample_rows());
    assert_eq!(COLUMNS, 9);
    assert_eq!(COLUMN_PAD, 2);
    assert_eq!(w, [7, 5, 12, 5, 4, 2, 2, 2, 2]);
}

#[test]
fn column_widths_count_characters_not_bytes() {
    let rows = vec![Row {
        section: "Channel",
        cells: vec![label("\u{394}t"), label("\u{2014}")],
        locks: Vec::new(),
    }];
    let w = column_widths(&rows);
    assert_eq!(&w[..3], &[9, 4, 3]);
}

#[test]
fn column_origins_are_running_sums() {
    let x = column_origins(&[7, 5, 12, 5, 4, 2, 2, 2, 2]);
    assert_eq!(x, [0, 7, 12, 24, 29, 33, 35, 37, 39]);
    assert_eq!(MERGED_FROM, 5);
}

#[test]
fn render_text_aligns_columns_and_places_locks() {
    let rows = sample_rows();
    let w = column_widths(&rows);
    let lines = render_text(&rows, &w);
    assert_eq!(lines.len(), 2);
    assert_eq!(lines[0], "RF     lvl  -12.0 dBFS");
    assert_eq!(lines[1], "Demod  BR   1.5 Mb/s    frm  12  CAR \u{25cf}");
}

#[test]
fn render_text_pads_short_rows_out_to_the_lock_span() {
    let rows = vec![Row {
        section: "Demod",
        cells: vec![label("BR"), label("x")],
        locks: vec![lock("TS", &Metric::measured(false))],
    }];
    let w = [7, 5, 12, 5, 4, 2, 2, 2, 2];
    let lines = render_text(&rows, &w);
    assert_eq!(lines[0], format!("Demod  BR   x{}TS \u{25cb}", " ".repeat(33 - 13)));
}

#[test]
fn render_text_keeps_the_grid_when_readings_change() {
    let w = [7, 5, 12, 5, 4, 2, 2, 2, 2];
    let narrow = vec![Row {
        section: "RF",
        cells: vec![label("lvl"), label("-1 dBFS"), label("pk"), label("0")],
        locks: Vec::new(),
    }];
    let wide = vec![Row {
        section: "RF",
        cells: vec![label("lvl"), label("-100.0 dBFS"), label("pk"), label("0")],
        locks: Vec::new(),
    }];
    let a = render_text(&narrow, &w);
    let b = render_text(&wide, &w);
    assert_eq!(a[0].find("pk"), Some(24));
    assert_eq!(b[0].find("pk"), Some(24));
}

#[test]
fn simulated_readings_are_flagged() {
    let mut rows = sample_rows();
    assert!(!rows_show_simulated(&rows));
    assert!(!rows_show_simulated(&[]));
    rows[0].cells.push(Cell { text: "3.0".to_owned(), style: CellStyle::Simulated });
    assert!(rows_show_simulated(&rows));
    let mut rows = sample_rows();
    rows[1].locks.push(lock("TS", &Metric::simulated(true)));
    assert!(rows_show_simulated(&rows));
}

fn di_fields() -> Vec<DiField> {
    let lock = Metric::simulated(true);
    let mut v = vec![
        di_field("C/N", "28.0", DB_W, false),
        di_field("MER", "26.5", DB_W, false),
        di_field("CBER", "<1E-9", BER_W, false),
    ];
    v.extend(di_lock_field(&[lock, lock, lock, lock]));
    v.push(di_field("\u{394}f", "+80 Hz", HZ_W, false));
    v.push(di_field("lvl", "-36.6 dBFS", DBFS_W, false));
    v
}

#[test]
fn di_fields_have_fixed_widths() {
    let f = di_fields();
    assert_eq!(f[0].text, "C/N 28.0 ");
    assert_eq!(f[2].text, "CBER <1E-9 ");
    assert_eq!(f[3].text, "lck \u{25cf}\u{25cf}\u{25cf}\u{25cf}");
    assert!(f[3].at_end && f[3].sim);
    assert_eq!(f[4].text, "\u{394}f +80 Hz  ");
    assert_eq!(f[5].text, "lvl -36.6 dBFS ");
    assert_eq!(di_field("MER", "100.25", DB_W, true).text, "MER 100.25");
    let mixed = [Metric::measured(true), Metric::unavailable(), Metric::known(false)];
    let l = di_lock_field(&mixed).unwrap();
    assert_eq!(l.text, "lck \u{25cf}\u{25cb}");
    assert!(!l.sim);
    assert!(di_lock_field(&[Metric::<bool>::unavailable()]).is_none());
}

#[test]
fn di_bar_drops_lowest_priority_fields_first() {
    let head = "COFDM 480.0kHz 240kHz";
    let f = di_fields();
    assert_eq!(
        di_bar_fit(head, &f, 200),
        "COFDM 480.0kHz 240kHz  C/N 28.0   MER 26.5   CBER <1E-9   \u{394}f +80 Hz    lvl -36.6 dBFS   lck \u{25cf}\u{25cf}\u{25cf}\u{25cf}  SIM"
    );
    assert_eq!(
        di_bar_fit(head, &f, 80),
        "COFDM 480.0kHz 240kHz  C/N 28.0   MER 26.5   CBER <1E-9   lck \u{25cf}\u{25cf}\u{25cf}\u{25cf}  SIM"
    );
    assert_eq!(di_bar_fit(head, &f, 60), "COFDM 480.0kHz 240kHz  C/N 28.0   MER 26.5   CBER <1E-9");
    assert_eq!(di_bar_fit(head, &f, 10), head);
    for budget in 0..120 {
        let s = di_bar_fit(head, &f, budget);
        assert!(s.chars().count() <= budget.max(head.chars().count()));
        assert!(s.starts_with(head));
    }
}
