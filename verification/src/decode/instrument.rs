//! COFDM instrumentation: the provenance-tagged metric model, the formatting
//! of the integer-valued readings, and the panel's cell and lock model.

use vstd::prelude::*;
use vstd::string::{StrSliceExecFns, StringExecFns};

use crate::text::{
    dec, dec_pad, lemma_dec_pad_len, pow10, push_char, push_dec, push_dec_pad, push_spaces, push_str,
    trim_end, trimmed_end,
};

verus! {

/// Where a metric's value came from.
#[derive(Clone, Copy, PartialEq, Eq, Debug, Structural)]
pub enum Provenance {
    /// Derived from the received signal.
    Measured,
    /// Declared by the source, or recovered from signalling (a frame header
    /// for generic COFDM, TPS for DVB-T).
    Known,
    /// Placeholder pending a demodulator.
    Simulated,
    /// No provider for this field.
    Unavailable,
}

/// A single instrument reading: an optional value and its provenance.
#[derive(Clone, Copy, PartialEq, Debug)]
pub struct Metric<T> {
    pub value: Option<T>,
    pub prov: Provenance,
}

impl<T> Metric<T> {
    /// A reading derived from the received signal.
    pub fn measured(v: T) -> (m: Self)
        ensures
            m.value == Some(v),
            m.prov == Provenance::Measured,
    {
        Metric { value: Some(v), prov: Provenance::Measured }
    }

    /// A reading declared by the source or recovered from signalling.
    pub fn known(v: T) -> (m: Self)
        ensures
            m.value == Some(v),
            m.prov == Provenance::Known,
    {
        Metric { value: Some(v), prov: Provenance::Known }
    }

    /// A placeholder reading.
    pub fn simulated(v: T) -> (m: Self)
        ensures
            m.value == Some(v),
            m.prov == Provenance::Simulated,
    {
        Metric { value: Some(v), prov: Provenance::Simulated }
    }

    /// A field nothing provides.
    pub fn unavailable() -> (m: Self)
        ensures
            m.value.is_none(),
            m.prov == Provenance::Unavailable,
    {
        Metric { value: None, prov: Provenance::Unavailable }
    }

    /// True when this reading is a placeholder rather than a real reading.
    pub fn is_simulated(&self) -> (b: bool)
        ensures
            b == (self.prov == Provenance::Simulated),
    {
        self.prov == Provenance::Simulated
    }
}

/// The granularity at which the whole-chain error metrics are counted.
#[derive(Clone, Copy, PartialEq, Eq, Debug, Default)]
pub enum ErrorUnit {
    #[default]
    Frame,
    Packet,
}

impl ErrorUnit {
    /// The error-rate label: `FER` for frames, `PER` for packets.
    pub fn rate_label(self) -> (s: &'static str)
        ensures
            s@ == (match self {
                ErrorUnit::Frame => "FER"@,
                ErrorUnit::Packet => "PER"@,
            }),
    {
        match self {
            ErrorUnit::Frame => "FER",
            ErrorUnit::Packet => "PER",
        }
    }
}

/// Rendered for a metric with no value: an em-dash.
pub const ABSENT: &'static str = "\u{2014}";

/// Largest error count the display distinguishes; the counter wraps here.
pub const ERROR_COUNT_WRAP: u32 = 1_000_000;

/// Zero-padded six-digit count of `n` modulo [`ERROR_COUNT_WRAP`], then `+`
/// when the counter has wrapped and a space when it has not.
pub open spec fn count_text(n: nat, wrapped: bool) -> Seq<char> {
    dec_pad(n % 1_000_000, 6) + seq![
        if wrapped {
            '+'
        } else {
            ' '
        },
    ]
}

/// Zero-padded fixed-width error count, so an increment cannot reflow the
/// grid; the last character marks a counter that has wrapped.
pub fn fmt_count(n: u32, wrapped: bool) -> (s: String)
    ensures
        s@ == count_text(n as nat, wrapped),
{
    let mut out = String::new();
    push_dec_pad(&mut out, (n % ERROR_COUNT_WRAP) as u64, 6);
    push_char(
        &mut out,
        if wrapped {
            '+'
        } else {
            ' '
        },
    );
    out
}

/// An error count renders seven characters wide whatever its value, so an
/// increment cannot reflow the grid.
pub proof fn lemma_count_width(n: nat, wrapped: bool)
    ensures
        count_text(n, wrapped).len() == 7,
{
    assert(pow10(6) == 1_000_000) by {
        reveal_with_fuel(pow10, 7);
    }
    lemma_dec_pad_len(n % 1_000_000, 6);
}

/// The two error-rate labels are both three characters, so a profile switch
/// cannot reflow the grid.
pub proof fn lemma_rate_labels_same_width()
    ensures
        "FER"@.len() == 3,
        "PER"@.len() == 3,
{
    reveal_strlit("FER");
    reveal_strlit("PER");
}

/// FFT size as a mode label: `2K`, `4K` and `8K` for the DVB-style sizes,
/// `nK` for any other multiple of 1024, the raw count otherwise.
pub open spec fn fft_mode_text(n: nat) -> Seq<char> {
    if n >= 1024 && n % 1024 == 0 {
        dec(n / 1024) + "K"@
    } else {
        dec(n)
    }
}

/// FFT size as a mode label rather than a bin count.
pub fn fmt_fft_mode(n_fft: usize) -> (s: String)
    ensures
        s@ == fft_mode_text(n_fft as nat),
{
    proof {
        reveal_strlit("K");
        reveal_strlit("2K");
        reveal_strlit("4K");
        reveal_strlit("8K");
        assert(dec(2) =~= seq!['2']);
        assert(dec(4) =~= seq!['4']);
        assert(dec(8) =~= seq!['8']);
    }
    if n_fft == 2048 {
        String::from_str("2K")
    } else if n_fft == 4096 {
        String::from_str("4K")
    } else if n_fft == 8192 {
        String::from_str("8K")
    } else if n_fft >= 1024 && n_fft % 1024 == 0 {
        let mut out = String::new();
        push_dec(&mut out, (n_fft / 1024) as u64);
        push_str(&mut out, "K");
        out
    } else {
        let mut out = String::new();
        push_dec(&mut out, n_fft as u64);
        out
    }
}

/// Euclid's greatest common divisor, with `gcd(0, 0)` taken as 1 so that it
/// can always divide.
pub open spec fn gcd_spec(a: nat, b: nat) -> nat
    decreases b,
{
    if b == 0 {
        if a == 0 {
            1
        } else {
            a
        }
    } else {
        gcd_spec(b, a % b)
    }
}

fn gcd(a: usize, b: usize) -> (g: usize)
    ensures
        g == gcd_spec(a as nat, b as nat),
    decreases b,
{
    if b == 0 {
        if a == 0 {
            1
        } else {
            a
        }
    } else {
        gcd(b, a % b)
    }
}

/// `d` divides `n`.
pub open spec fn divides(d: int, n: int) -> bool {
    d != 0 && n % d == 0
}

proof fn lemma_divides_mod(d: int, a: int, b: int)
    requires
        d > 0,
        b > 0,
        divides(d, a),
        divides(d, b),
    ensures
        divides(d, a % b),
{
    vstd::arithmetic::div_mod::lemma_fundamental_div_mod(a, b);
    let q = a / b;
    assert(a % b == a - b * q);
    vstd::arithmetic::div_mod::lemma_mod_multiples_vanish(-(b / d) * q, a, d)
        ;
    assert(d * (b / d) == b) by {
        vstd::arithmetic::div_mod::lemma_fundamental_div_mod(b, d);
    }
    assert(d * (-(b / d) * q) == -(b * q)) by (nonlinear_arith)
        requires
            d * (b / d) == b,
    ;
}

proof fn lemma_mod_divides(d: int, a: int, b: int)
    requires
        d > 0,
        b > 0,
        a >= 0,
        divides(d, b),
        divides(d, a % b),
    ensures
        divides(d, a),
{
    vstd::arithmetic::div_mod::lemma_fundamental_div_mod(a, b);
    let q = a / b;
    assert(a == b * q + a % b);
    assert(d * (b / d) == b) by {
        vstd::arithmetic::div_mod::lemma_fundamental_div_mod(b, d);
    }
    assert(b * q == d * ((b / d) * q)) by (nonlinear_arith)
        requires
            d * (b / d) == b,
    ;
    vstd::arithmetic::div_mod::lemma_mod_multiples_vanish((b / d) * q, a % b, d);
}

/// The greatest common divisor divides both numbers, and every common
/// divisor divides it.
pub proof fn lemma_gcd(a: nat, b: nat)
    requires
        a > 0 || b > 0,
    ensures
        divides(gcd_spec(a, b) as int, a as int),
        divides(gcd_spec(a, b) as int, b as int),
        forall|d: int| d > 0 && divides(d, a as int) && divides(d, b as int) ==> divides(d, gcd_spec(a, b) as int),
    decreases b,
{
    if b == 0 {
        assert((a as int) % (a as int) == 0) by {
            vstd::arithmetic::div_mod::lemma_mod_self_0(a as int);
        }
    } else {
        lemma_gcd(b, a % b);
        let g = gcd_spec(a, b) as int;
        if g > 0 {
            lemma_mod_divides(g, a as int, b as int);
        }
        assert forall|d: int| d > 0 && divides(d, a as int) && divides(d, b as int) implies divides(d, g) by {
            lemma_divides_mod(d, a as int, b as int);
        }
    }
}

/// A fraction label is in lowest terms and names the same ratio: its two
/// numbers share no divisor above 1, and `num/g : den/g` equals `num : den`.
pub proof fn lemma_fraction_lowest_terms(num: nat, den: nat)
    requires
        den > 0,
    ensures
        ({
            let g = gcd_spec(num, den);
            &&& g > 0
            &&& (num / g) * den == (den / g) * num
            &&& forall|d: int| d > 1 ==> !(#[trigger] divides(d, (num / g) as int) && divides(d, (den / g) as int))
        }),
{
    lemma_gcd(num, den);
    let g = gcd_spec(num, den) as int;
    let a = num as int / g;
    let b = den as int / g;
    vstd::arithmetic::div_mod::lemma_fundamental_div_mod(num as int, g);
    vstd::arithmetic::div_mod::lemma_fundamental_div_mod(den as int, g);
    assert(num == g * a);
    assert(den == g * b);
    assert(a * den == b * num) by (nonlinear_arith)
        requires
            num == g * a,
            den == g * b,
    ;
    assert forall|d: int| d > 1 implies !(divides(d, a) && divides(d, b)) by {
        if divides(d, a) && divides(d, b) {
            vstd::arithmetic::div_mod::lemma_fundamental_div_mod(a, d);
            vstd::arithmetic::div_mod::lemma_fundamental_div_mod(b, d);
            let qa = a / d;
            let qb = b / d;
            assert(num == (g * d) * qa) by (nonlinear_arith)
                requires
                    num == g * a,
                    a == d * qa,
            ;
            assert(den == (g * d) * qb) by (nonlinear_arith)
                requires
                    den == g * b,
                    b == d * qb,
            ;
            assert(g * d > 0) by (nonlinear_arith)
                requires
                    g > 0,
                    d > 1,
            ;
            vstd::arithmetic::div_mod::lemma_mod_multiples_basic(qa, g * d);
            vstd::arithmetic::div_mod::lemma_mod_multiples_basic(qb, g * d);
            assert(divides(g * d, num as int));
            assert(divides(g * d, den as int));
            assert(divides(g * d, g));
            vstd::arithmetic::div_mod::lemma_fundamental_div_mod(g, g * d);
            let q = g / (g * d);
            assert(g == (g * d) * q + g % (g * d));
            assert(g == (g * d) * q);
            assert(false) by (nonlinear_arith)
                requires
                    g == (g * d) * q,
                    g > 0,
                    d > 1,
            ;
        }
    }
}

/// A reduced fraction label, e.g. `1/2`, `1/8`; the em-dash for a zero
/// denominator.
pub open spec fn fraction_text(num: nat, den: nat) -> Seq<char> {
    if den == 0 {
        ABSENT@
    } else {
        let g = gcd_spec(num, den);
        dec(num / g) + "/"@ + dec(den / g)
    }
}

/// A reduced fraction label.  Used for both the guard interval
/// (`cp_len`/`n_fft`) and the inner code rate (`k`/`n`).
pub fn fmt_fraction(num: usize, den: usize) -> (s: String)
    ensures
        s@ == fraction_text(num as nat, den as nat),
{
    if den == 0 {
        return ABSENT.to_owned();
    }
    let g = gcd(num, den);
    proof {
        lemma_gcd(num as nat, den as nat);
    }
    let mut out = String::new();
    push_dec(&mut out, (num / g) as u64);
    push_str(&mut out, "/");
    push_dec(&mut out, (den / g) as u64);
    out
}

/// The `frm`/`err` counters left of the Di bar's loop timer: three digits
/// each (the counts modulo 1000), fixed width, trailing space.
pub open spec fn counter_text(frames: nat, errors: nat) -> Seq<char> {
    "frm "@ + dec_pad(frames % 1000, 3) + " err "@ + dec_pad(errors % 1000, 3) + " "@
}

/// The Di bar's counters for a frame count and an error count, or `None`
/// when there is no frame tally to show; a missing error count reads as 0.
pub fn di_counter_text(frames: Option<u32>, errors: Option<u32>) -> (s: Option<String>)
    ensures
        match frames {
            None => s.is_none(),
            Some(f) => s matches Some(t) && t@ == counter_text(
                f as nat,
                match errors {
                    Some(e) => e as nat,
                    None => 0,
                },
            ),
        },
{
    match frames {
        None => None,
        Some(f) => {
            let e: u32 = match errors {
                Some(e) => e,
                None => 0,
            };
            let mut out = String::from_str("frm ");
            push_dec_pad(&mut out, (f % 1000) as u64, 3);
            push_str(&mut out, " err ");
            push_dec_pad(&mut out, (e % 1000) as u64, 3);
            push_str(&mut out, " ");
            Some(out)
        },
    }
}

/// `YES` for true, `no` for false.
pub fn fmt_yes_no(v: bool) -> (s: String)
    ensures
        s@ == (if v {
            "YES"@
        } else {
            "no"@
        }),
{
    if v {
        "YES".to_owned()
    } else {
        "no".to_owned()
    }
}

/// Echo state relative to the guard interval: `OK` within it, `OVER`
/// beyond.
pub fn fmt_echo(within_guard: bool) -> (s: String)
    ensures
        s@ == (if within_guard {
            "OK"@
        } else {
            "OVER"@
        }),
{
    if within_guard {
        "OK".to_owned()
    } else {
        "OVER".to_owned()
    }
}

/// How a cell should be presented.
#[derive(Clone, Copy, PartialEq, Eq, Debug, Structural)]
pub enum CellStyle {
    /// Authoritative: `Measured` or `Known`.
    Normal,
    /// `Simulated`: rendered dim.
    Simulated,
    /// `Unavailable`, or no value: the em-dash.
    Absent,
}

/// The presentation of a reading of provenance `prov`.
pub open spec fn style_for(prov: Provenance, has_value: bool) -> CellStyle {
    if !has_value {
        CellStyle::Absent
    } else {
        match prov {
            Provenance::Simulated => CellStyle::Simulated,
            Provenance::Unavailable => CellStyle::Absent,
            Provenance::Measured | Provenance::Known => CellStyle::Normal,
        }
    }
}

impl CellStyle {
    fn for_prov(prov: Provenance, has_value: bool) -> (s: CellStyle)
        ensures
            s == style_for(prov, has_value),
    {
        if !has_value {
            return CellStyle::Absent;
        }
        match prov {
            Provenance::Simulated => CellStyle::Simulated,
            Provenance::Unavailable => CellStyle::Absent,
            Provenance::Measured | Provenance::Known => CellStyle::Normal,
        }
    }
}

/// One grid cell: a label or a value.
#[derive(Clone, PartialEq, Eq, Debug)]
pub struct Cell {
    pub text: String,
    pub style: CellStyle,
}

/// A lock indicator in the `Demod` row's merged span.
#[derive(Clone, PartialEq, Eq, Debug)]
pub struct Lock {
    pub label: &'static str,
    /// `●` locked, `○` unlocked, the em-dash when unavailable.
    pub glyph: &'static str,
    pub style: CellStyle,
}

/// A label cell.
pub fn label(text: &str) -> (c: Cell)
    ensures
        c.text@ == text@,
        c.style == CellStyle::Normal,
{
    Cell { text: text.to_owned(), style: CellStyle::Normal }
}

/// Render a metric into a value cell with `f`, or the em-dash when it has
/// no value or nothing provides it.
pub fn value<T, F: FnOnce(&T) -> String>(m: &Metric<T>, f: F) -> (c: Cell)
    requires
        m.value is Some && style_for(m.prov, true) != CellStyle::Absent ==> f.requires(
            (&m.value->0,),
        ),
    ensures
        c.style == style_for(m.prov, m.value is Some),
        c.style == CellStyle::Absent ==> c.text@ == ABSENT@,
        c.style != CellStyle::Absent ==> f.ensures((&m.value->0,), c.text),
{
    let style = CellStyle::for_prov(m.prov, m.value.is_some());
    let text = match &m.value {
        Some(v) => {
            if style != CellStyle::Absent {
                f(v)
            } else {
                ABSENT.to_owned()
            }
        },
        None => ABSENT.to_owned(),
    };
    Cell { text, style }
}

/// A label/value pair.
pub fn pair<T, F: FnOnce(&T) -> String>(name: &str, m: &Metric<T>, f: F) -> (cells: [Cell; 2])
    requires
        m.value is Some && style_for(m.prov, true) != CellStyle::Absent ==> f.requires(
            (&m.value->0,),
        ),
    ensures
        cells[0].text@ == name@,
        cells[0].style == CellStyle::Normal,
        cells[1].style == style_for(m.prov, m.value is Some),
        cells[1].style == CellStyle::Absent ==> cells[1].text@ == ABSENT@,
        cells[1].style != CellStyle::Absent ==> f.ensures((&m.value->0,), cells[1].text),
{
    [label(name), value(m, f)]
}

/// The glyph of a lock reading: the em-dash when it is absent, else `●`
/// for locked and `○` for unlocked.
pub open spec fn lock_glyph(m: Metric<bool>) -> Seq<char> {
    if style_for(m.prov, m.value is Some) == CellStyle::Absent {
        ABSENT@
    } else if m.value == Some(true) {
        "\u{25cf}"@
    } else {
        "\u{25cb}"@
    }
}

/// A lock indicator for the reading `m`.
pub fn lock(name: &'static str, m: &Metric<bool>) -> (l: Lock)
    ensures
        l.label == name,
        l.style == style_for(m.prov, m.value is Some),
        l.glyph@ == lock_glyph(*m),
{
    let style = CellStyle::for_prov(m.prov, m.value.is_some());
    let glyph: &'static str = if style == CellStyle::Absent {
        ABSENT
    } else {
        match m.value {
            Some(true) => "\u{25cf}",
            Some(false) => "\u{25cb}",
            None => ABSENT,
        }
    };
    Lock { label: name, glyph, style }
}

/// `label glyph` for each lock, joined by two spaces.
pub open spec fn span_text(locks: Seq<Lock>) -> Seq<char>
    decreases locks.len(),
{
    if locks.len() == 0 {
        Seq::empty()
    } else if locks.len() == 1 {
        locks[0].label@ + " "@ + locks[0].glyph@
    } else {
        span_text(locks.drop_last()) + "  "@ + locks.last().label@ + " "@ + locks.last().glyph@
    }
}

/// The rendered text of a `Demod` row's merged span, e.g.
/// `CAR ●  TIM ●  FEC ●  TS ○`.
pub fn merged_span_text(locks: &[Lock]) -> (s: String)
    ensures
        s@ == span_text(locks@),
{
    let mut out = String::new();
    let mut i: usize = 0;
    while i < locks.len()
        invariant
            i <= locks@.len(),
            out@ == span_text(locks@.subrange(0, i as int)),
        decreases locks.len() - i,
    {
        let ghost prev = locks@.subrange(0, i as int);
        assert(locks@.subrange(0, i + 1).drop_last() =~= prev);
        if i > 0 {
            push_str(&mut out, "  ");
        }
        push_str(&mut out, locks[i].label);
        push_str(&mut out, " ");
        push_str(&mut out, locks[i].glyph);
        proof {
            let cur = locks@.subrange(0, i + 1);
            if i == 0 {
                assert(out@ =~= cur[0].label@ + " "@ + cur[0].glyph@);
            } else {
                assert(out@ =~= span_text(prev) + "  "@ + cur.last().label@ + " "@
                    + cur.last().glyph@);
            }
        }
        i = i + 1;
    }
    assert(locks@.subrange(0, locks@.len() as int) =~= locks@);
    out
}


// The panel grid.

/// Columns in the instrumentation panel: a section name, then four
/// label/value pairs.
pub const COLUMNS: usize = 9;

/// The column at which the `Demod` row's lock indicators begin.  Everything
/// from here to the right edge is one merged span.
pub const MERGED_FROM: usize = 5;

/// Padding added to every column's widest content, in characters.  It
/// absorbs the gutter, so there is no separate inter-column spacing.
pub const COLUMN_PAD: usize = 2;

/// One panel row.
#[derive(Clone, PartialEq, Eq, Debug)]
pub struct Row {
    /// Column 0.
    pub section: &'static str,
    /// Alternating label/value cells from column 1.  Rows are ragged-right:
    /// a row with fewer than four pairs simply ends early.
    pub cells: Vec<Cell>,
    /// Lock indicators in the merged span from [`MERGED_FROM`]; empty for
    /// every row but `Demod`.
    pub locks: Vec<Lock>,
}

/// Some cell or lock indicator of `r` is rendered as simulated.
pub open spec fn row_shows_simulated(r: Row) -> bool {
    (exists|k: int| 0 <= k < r.cells@.len() && (#[trigger] r.cells@[k]).style == CellStyle::Simulated)
        || (exists|k: int| 0 <= k < r.locks@.len() && (#[trigger] r.locks@[k]).style
        == CellStyle::Simulated)
}

/// Whether any cell or lock indicator of the panel is rendered as simulated,
/// so a viewer knows some of the reading is not measured.
pub fn rows_show_simulated(rows: &[Row]) -> (b: bool)
    ensures
        b == exists|i: int| 0 <= i < rows@.len() && row_shows_simulated(#[trigger] rows@[i]),
{
    let mut i: usize = 0;
    while i < rows.len()
        invariant
            i <= rows@.len(),
            forall|j: int| 0 <= j < i ==> !row_shows_simulated(#[trigger] rows@[j]),
        decreases rows.len() - i,
    {
        let r = &rows[i];
        let mut k: usize = 0;
        while k < r.cells.len()
            invariant
                i < rows@.len(),
                *r == rows@[i as int],
                k <= r.cells@.len(),
                forall|m: int| 0 <= m < k ==> (#[trigger] r.cells@[m]).style != CellStyle::Simulated,
            decreases r.cells.len() - k,
        {
            if r.cells[k].style == CellStyle::Simulated {
                assert(row_shows_simulated(rows@[i as int]));
                return true;
            }
            k = k + 1;
        }
        let mut k: usize = 0;
        while k < r.locks.len()
            invariant
                i < rows@.len(),
                *r == rows@[i as int],
                k <= r.locks@.len(),
                forall|m: int| 0 <= m < k ==> (#[trigger] r.locks@[m]).style != CellStyle::Simulated,
            decreases r.locks.len() - k,
        {
            if r.locks[k].style == CellStyle::Simulated {
                assert(row_shows_simulated(rows@[i as int]));
                return true;
            }
            k = k + 1;
        }
        i = i + 1;
    }
    false
}

/// The columns that `row` fills: its section and its cells.
pub open spec fn row_span(row: Row) -> nat {
    row.cells@.len() + 1
}

/// The text in column `col` of `row`.
pub open spec fn col_text(row: Row, col: int) -> Seq<char> {
    if col == 0 {
        row.section@
    } else {
        row.cells@[col - 1].text@
    }
}

/// The characters in column `col` of `row`; none where the row ends first.
pub open spec fn col_len(row: Row, col: int) -> nat {
    if 0 <= col < row_span(row) {
        col_text(row, col).len()
    } else {
        0
    }
}

pub open spec fn larger(a: nat, b: nat) -> nat {
    if a >= b {
        a
    } else {
        b
    }
}

/// The widest content of column `col` over `rows`.
pub open spec fn widest(rows: Seq<Row>, col: int) -> nat
    decreases rows.len(),
{
    if rows.len() == 0 {
        0
    } else {
        larger(widest(rows.drop_last(), col), col_len(rows.last(), col))
    }
}

/// The left edge of column `c`: the widths of the columns before it.
pub open spec fn origin(widths: Seq<usize>, c: int) -> int
    decreases c,
{
    if c <= 0 {
        0
    } else {
        origin(widths, c - 1) + widths[c - 1]
    }
}

/// `n` spaces.
pub open spec fn spaces(n: nat) -> Seq<char> {
    Seq::new(n, |_i: int| ' ')
}

/// `t` padded with spaces to `w` characters.
pub open spec fn padded(t: Seq<char>, w: nat) -> Seq<char> {
    t + spaces((w - t.len()) as nat)
}

/// The first `k` columns of `row`, each padded to its width.
pub open spec fn grid_text(row: Row, widths: Seq<usize>, k: int) -> Seq<char>
    decreases k,
{
    if k <= 0 {
        Seq::empty()
    } else {
        grid_text(row, widths, k - 1) + padded(col_text(row, k - 1), widths[k - 1] as nat)
    }
}

/// A row's line before trailing space is cut: its padded columns, then,
/// for a row with locks, the merged span from the origin of
/// [`MERGED_FROM`].
pub open spec fn untrimmed_line(row: Row, widths: Seq<usize>) -> Seq<char> {
    let g = grid_text(row, widths, row_span(row) as int);
    if row.locks@.len() == 0 {
        g
    } else {
        let target = origin(widths, MERGED_FROM as int);
        let g2 = if g.len() < target {
            g + spaces((target - g.len()) as nat)
        } else {
            g
        };
        g2 + span_text(row.locks@)
    }
}

/// The rendered line of `row` on the grid `widths`.
pub open spec fn row_line(row: Row, widths: Seq<usize>) -> Seq<char> {
    trimmed_end(untrimmed_line(row, widths))
}

/// `row` fits the grid: it has no more cells than columns, and no column's
/// text is wider than the column.
pub open spec fn fits(row: Row, widths: Seq<usize>) -> bool {
    &&& row_span(row) <= COLUMNS
    &&& forall|c: int| 0 <= c < row_span(row) ==> #[trigger] col_text(row, c).len() <= widths[c]
}

proof fn lemma_widest_bound(rows: Seq<Row>, col: int, b: nat)
    requires
        forall|r: int| 0 <= r < rows.len() ==> col_len(#[trigger] rows[r], col) <= b,
    ensures
        widest(rows, col) <= b,
    decreases rows.len(),
{
    if rows.len() > 0 {
        lemma_widest_bound(rows.drop_last(), col, b);
        assert(col_len(rows[rows.len() - 1], col) <= b);
    }
}

proof fn lemma_origin_monotone(widths: Seq<usize>, a: int, b: int)
    requires
        0 <= a <= b,
    ensures
        origin(widths, a) <= origin(widths, b),
    decreases b,
{
    if a < b {
        lemma_origin_monotone(widths, a, b - 1);
    }
}

proof fn lemma_widest_covers(rows: Seq<Row>, col: int, r: int)
    requires
        0 <= r < rows.len(),
    ensures
        col_len(rows[r], col) <= widest(rows, col),
    decreases rows.len(),
{
    if r < rows.len() - 1 {
        lemma_widest_covers(rows.drop_last(), col, r);
        assert(rows.drop_last()[r] == rows[r]);
    }
}

/// The grid that [`column_widths`] gives for some rows fits each of those
/// rows that has no more cells than columns.
pub proof fn lemma_rows_fit_their_widths(rows: Seq<Row>, widths: Seq<usize>, r: int)
    requires
        widths.len() == COLUMNS,
        forall|c: int| 0 <= c < COLUMNS ==> #[trigger] widths[c] == widest(rows, c) + COLUMN_PAD,
        0 <= r < rows.len(),
        row_span(rows[r]) <= COLUMNS,
    ensures
        fits(rows[r], widths),
{
    assert forall|c: int| 0 <= c < row_span(rows[r]) implies #[trigger] col_text(rows[r], c).len()
        <= widths[c] by {
        lemma_widest_covers(rows, c, r);
    }
}

proof fn lemma_grid_prefix(row: Row, widths: Seq<usize>, c: int, k: int)
    requires
        fits(row, widths),
        0 <= c < k <= row_span(row),
    ensures
        grid_text(row, widths, k).subrange(origin(widths, c), origin(widths, c) + col_text(
            row,
            c,
        ).len()) == col_text(row, c),
    decreases k,
{
    lemma_grid_len(row, widths, k - 1);
    let prev = grid_text(row, widths, k - 1);
    let cur = grid_text(row, widths, k);
    let lo = origin(widths, c);
    let hi = lo + col_text(row, c).len();
    if c < k - 1 {
        lemma_grid_prefix(row, widths, c, k - 1);
        lemma_grid_len(row, widths, c + 1);
        lemma_origin_monotone(widths, c + 1, k - 1);
        assert(col_text(row, c).len() <= widths[c]);
        assert(cur.subrange(lo, hi) =~= prev.subrange(lo, hi));
    } else {
        assert(cur.subrange(lo, hi) =~= col_text(row, c));
    }
}

/// The grid does not move: in the line of any row that fits the grid,
/// column `c` starts at the origin of `c`, whatever the readings.
pub proof fn lemma_columns_aligned(row: Row, widths: Seq<usize>, c: int)
    requires
        fits(row, widths),
        0 <= c < row_span(row),
    ensures
        untrimmed_line(row, widths).subrange(
            origin(widths, c),
            origin(widths, c) + col_text(row, c).len(),
        ) == col_text(row, c),
{
    let k = row_span(row) as int;
    lemma_grid_prefix(row, widths, c, k);
    lemma_grid_len(row, widths, k);
    lemma_grid_len(row, widths, c + 1);
    lemma_origin_monotone(widths, c + 1, k);
    assert(col_text(row, c).len() <= widths[c]);
    let g = grid_text(row, widths, k);
    let lo = origin(widths, c);
    let hi = lo + col_text(row, c).len();
    assert(untrimmed_line(row, widths).subrange(lo, hi) =~= g.subrange(lo, hi));
}

/// Each column's width: its widest content over `rows`, measured in
/// characters, plus [`COLUMN_PAD`].  Cells past the last column are
/// ignored.
pub fn column_widths(rows: &[Row]) -> (w: [usize; COLUMNS])
    requires
        forall|r: int, c: int|
            0 <= r < rows@.len() && 0 <= c < COLUMNS ==> #[trigger] col_len(rows@[r], c)
                + COLUMN_PAD <= usize::MAX,
    ensures
        forall|c: int| 0 <= c < COLUMNS ==> w[c] == widest(rows@, c) + COLUMN_PAD,
{
    let mut w: [usize; COLUMNS] = [0, 0, 0, 0, 0, 0, 0, 0, 0];
    let mut r: usize = 0;
    while r < rows.len()
        invariant
            r <= rows@.len(),
            forall|c: int| 0 <= c < COLUMNS ==> w[c] == widest(rows@.subrange(0, r as int), c),
        decreases rows.len() - r,
    {
        let row = &rows[r];
        let ghost prev = rows@.subrange(0, r as int);
        let n0 = row.section.unicode_len();
        if n0 > w[0] {
            w[0] = n0;
        }
        let mut i: usize = 0;
        while i < row.cells.len()
            invariant
                i <= row.cells@.len(),
                *row == rows@[r as int],
                prev == rows@.subrange(0, r as int),
                forall|c: int|
                    0 <= c < COLUMNS ==> w[c] == (if c <= i {
                        larger(widest(prev, c), col_len(*row, c))
                    } else {
                        widest(prev, c)
                    }),
            decreases row.cells.len() - i,
        {
            if i + 1 < COLUMNS {
                let n = row.cells[i].text.as_str().unicode_len();
                if n > w[i + 1] {
                    w[i + 1] = n;
                }
            }
            i = i + 1;
        }
        proof {
            let next = rows@.subrange(0, r + 1);
            assert(next.drop_last() =~= prev);
            assert forall|c: int| 0 <= c < COLUMNS implies w[c] == widest(next, c) by {
                if c > i {
                    assert(col_len(*row, c) == 0);
                }
            }
        }
        r = r + 1;
    }
    assert(rows@.subrange(0, rows@.len() as int) =~= rows@);
    let mut c: usize = 0;
    while c < COLUMNS
        invariant
            c <= COLUMNS,
            forall|r: int, k: int|
                0 <= r < rows@.len() && 0 <= k < COLUMNS ==> #[trigger] col_len(rows@[r], k)
                    + COLUMN_PAD <= usize::MAX,
            forall|k: int|
                0 <= k < COLUMNS ==> w[k] == widest(rows@, k) + (if k < c {
                    COLUMN_PAD
                } else {
                    0
                }),
        decreases COLUMNS - c,
    {
        proof {
            assert forall|r: int| 0 <= r < rows@.len() implies col_len(#[trigger] rows@[r], c as int)
                <= usize::MAX - COLUMN_PAD by {}
            lemma_widest_bound(rows@, c as int, (usize::MAX - COLUMN_PAD) as nat);
        }
        let v = w[c] + COLUMN_PAD;
        w[c] = v;
        c = c + 1;
    }
    w
}

/// The left edge of each column: the running sum of `widths`.
pub fn column_origins(widths: &[usize; COLUMNS]) -> (x: [usize; COLUMNS])
    requires
        origin(widths@, COLUMNS - 1) <= usize::MAX,
    ensures
        forall|c: int| 0 <= c < COLUMNS ==> x[c] == origin(widths@, c),
{
    let mut x: [usize; COLUMNS] = [0, 0, 0, 0, 0, 0, 0, 0, 0];
    let mut i: usize = 1;
    while i < COLUMNS
        invariant
            1 <= i <= COLUMNS,
            origin(widths@, COLUMNS - 1) <= usize::MAX,
            forall|c: int| 0 <= c < i ==> x[c] == origin(widths@, c),
        decreases COLUMNS - i,
    {
        proof {
            lemma_origin_monotone(widths@, i as int, COLUMNS - 1);
        }
        let v = x[i - 1] + widths[i - 1];
        x[i] = v;
        i = i + 1;
    }
    x
}

/// Appends `t` padded with spaces to `w` characters.
fn push_padded(s: &mut String, t: &str, w: usize)
    requires
        t@.len() <= w,
    ensures
        final(s)@ == old(s)@ + padded(t@, w as nat),
{
    let n = t.unicode_len();
    push_str(s, t);
    push_spaces(s, w - n);
    assert(s@ =~= old(s)@ + padded(t@, w as nat));
}

proof fn lemma_grid_len(row: Row, widths: Seq<usize>, k: int)
    requires
        fits(row, widths),
        0 <= k <= row_span(row),
    ensures
        grid_text(row, widths, k).len() == origin(widths, k),
    decreases k,
{
    if k > 0 {
        lemma_grid_len(row, widths, k - 1);
        assert(col_text(row, k - 1).len() <= widths[k - 1]);
    }
}

/// The line of one row.
fn render_row(row: &Row, widths: &[usize; COLUMNS]) -> (s: String)
    requires
        fits(*row, widths@),
        origin(widths@, COLUMNS as int) <= usize::MAX,
    ensures
        s@ == row_line(*row, widths@),
{
    let mut line = String::new();
    assert(col_text(*row, 0).len() <= widths@[0]);
    let w0 = widths[0];
    push_padded(&mut line, row.section, w0);
    assert(grid_text(*row, widths@, 0) =~= Seq::<char>::empty());
    assert(line@ =~= grid_text(*row, widths@, 1));
    assert(origin(widths@, 1) == origin(widths@, 0) + widths@[0]);
    let mut len: usize = w0;
    let mut i: usize = 0;
    while i < row.cells.len()
        invariant
            fits(*row, widths@),
            origin(widths@, COLUMNS as int) <= usize::MAX,
            i <= row.cells@.len(),
            line@ == grid_text(*row, widths@, i + 1),
            len == origin(widths@, i + 1),
        decreases row.cells.len() - i,
    {
        assert(col_text(*row, i + 1).len() <= widths@[i + 1]);
        push_padded(&mut line, row.cells[i].text.as_str(), widths[i + 1]);
        proof {
            lemma_origin_monotone(widths@, i + 2, COLUMNS as int);
        }
        len = len + widths[i + 1];
        i = i + 1;
    }
    proof {
        lemma_grid_len(*row, widths@, row_span(*row) as int);
    }
    if row.locks.len() > 0 {
        proof {
            lemma_origin_monotone(widths@, COLUMNS - 1, COLUMNS as int);
        }
        let origins = column_origins(widths);
        let target = origins[MERGED_FROM];
        if len < target {
            push_spaces(&mut line, target - len);
        }
        let span = merged_span_text(row.locks.as_slice());
        push_str(&mut line, span.as_str());
    }
    assert(line@ =~= untrimmed_line(*row, widths@));
    trim_end(line.as_str()).to_owned()
}

/// The panel as monospace text, one line per row, on the grid `widths`
/// (those of [`column_widths`] over the layout reference, so that the grid
/// does not move with the readings).
pub fn render_text(rows: &[Row], widths: &[usize; COLUMNS]) -> (lines: Vec<String>)
    requires
        origin(widths@, COLUMNS as int) <= usize::MAX,
        forall|r: int| 0 <= r < rows@.len() ==> fits(#[trigger] rows@[r], widths@),
    ensures
        lines@.len() == rows@.len(),
        forall|r: int| 0 <= r < rows@.len() ==> (#[trigger] lines@[r])@ == row_line(rows@[r], widths@),
{
    let mut lines: Vec<String> = Vec::new();
    let mut r: usize = 0;
    while r < rows.len()
        invariant
            r <= rows@.len(),
            origin(widths@, COLUMNS as int) <= usize::MAX,
            forall|k: int| 0 <= k < rows@.len() ==> fits(#[trigger] rows@[k], widths@),
            lines@.len() == r,
            forall|k: int| 0 <= k < r ==> (#[trigger] lines@[k])@ == row_line(rows@[k], widths@),
        decreases rows.len() - r,
    {
        let line = render_row(&rows[r], widths);
        lines.push(line);
        r = r + 1;
    }
    lines
}

} // verus!
