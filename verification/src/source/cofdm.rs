//! The synthetic wideband COFDM source's numerology and spectral-shaping
//! parameters, its configuration labels, and the receiver's frame
//! accounting.

use vstd::prelude::*;
use vstd::string::StringExecFns;

use orion_sdr::fec::{InnerFec, PunctureRate};
use orion_sdr::modulate::{ConstellationOrder, McsTable};

use crate::text::{eq_ascii_fold, eq_ignore_ascii_case, push_str, str_eq, trim, trimmed};

verus! {

/// OFDM FFT size (number of subcarriers).
pub const COFDM_N_FFT: usize = 256;

/// Cyclic-prefix length in samples.
pub const COFDM_CP_LEN: usize = 32;

/// Outermost usable carrier, in bins from DC: `n_fft/2 - 1`.
pub const COFDM_MAX_CARRIER: usize = 127;

/// Largest edge guard: the band never narrows below `n_fft/32` carriers
/// each side of DC.
pub const COFDM_MAX_EDGE_GUARD: usize = 119;

/// Repeats and length of the Schmidl & Cox preamble's short block.
pub const COFDM_PREAMBLE_REPEATS: usize = 4;

pub const COFDM_PREAMBLE_REPEAT_LEN: usize = 64;

/// Samples at the head of every frame that are not payload: the preamble
/// plus the training symbol and its cyclic prefix.
pub fn frame_prefix_len() -> (n: usize)
    ensures
        n == COFDM_PREAMBLE_REPEATS * COFDM_PREAMBLE_REPEAT_LEN + COFDM_N_FFT + COFDM_CP_LEN,
{
    COFDM_PREAMBLE_REPEATS * COFDM_PREAMBLE_REPEAT_LEN + COFDM_N_FFT + COFDM_CP_LEN
}

/// Frames in the source's looped buffer; the sequence number wraps here.
pub const COFDM_BUFFER_FRAMES: usize = 40;

/// Occupied bandwidth as a fraction of the full display span (Nyquist).
#[derive(Clone, Copy, PartialEq, Eq, Debug, Structural)]
pub enum CofdmBwFraction {
    OneEighth,
    OneQuarter,
    OneThird,
    OneHalf,
    TwoThirds,
    ThreeQuarters,
    SevenEighths,
}

/// Default bandwidth fraction on startup / reset.
pub const COFDM_DEFAULT_BW_FRACTION: CofdmBwFraction = CofdmBwFraction::OneQuarter;

/// The fraction as `(numerator, denominator)`.
pub open spec fn fraction_parts(f: CofdmBwFraction) -> (int, int) {
    match f {
        CofdmBwFraction::OneEighth => (1, 8),
        CofdmBwFraction::OneQuarter => (1, 4),
        CofdmBwFraction::OneThird => (1, 3),
        CofdmBwFraction::OneHalf => (1, 2),
        CofdmBwFraction::TwoThirds => (2, 3),
        CofdmBwFraction::ThreeQuarters => (3, 4),
        CofdmBwFraction::SevenEighths => (7, 8),
    }
}

/// The display label of a fraction, e.g. `1/4`.
pub open spec fn fraction_label(f: CofdmBwFraction) -> Seq<char> {
    match f {
        CofdmBwFraction::OneEighth => "1/8"@,
        CofdmBwFraction::OneQuarter => "1/4"@,
        CofdmBwFraction::OneThird => "1/3"@,
        CofdmBwFraction::OneHalf => "1/2"@,
        CofdmBwFraction::TwoThirds => "2/3"@,
        CofdmBwFraction::ThreeQuarters => "3/4"@,
        CofdmBwFraction::SevenEighths => "7/8"@,
    }
}

/// The fractions in display order.
/// Every value is listed among the first 7.
pub proof fn lemma_fraction_listed(x: CofdmBwFraction)
    ensures
        exists|i: int| 0 <= i < 7 && #[trigger] fraction_at(i) == x,
{
    match x {
        CofdmBwFraction::OneEighth => assert(fraction_at(0) == x),
        CofdmBwFraction::OneQuarter => assert(fraction_at(1) == x),
        CofdmBwFraction::OneThird => assert(fraction_at(2) == x),
        CofdmBwFraction::OneHalf => assert(fraction_at(3) == x),
        CofdmBwFraction::TwoThirds => assert(fraction_at(4) == x),
        CofdmBwFraction::ThreeQuarters => assert(fraction_at(5) == x),
        CofdmBwFraction::SevenEighths => assert(fraction_at(6) == x),
    }
}

pub open spec fn fraction_at(i: int) -> CofdmBwFraction {
    if i == 0 {
        CofdmBwFraction::OneEighth
    } else if i == 1 {
        CofdmBwFraction::OneQuarter
    } else if i == 2 {
        CofdmBwFraction::OneThird
    } else if i == 3 {
        CofdmBwFraction::OneHalf
    } else if i == 4 {
        CofdmBwFraction::TwoThirds
    } else if i == 5 {
        CofdmBwFraction::ThreeQuarters
    } else {
        CofdmBwFraction::SevenEighths
    }
}

/// `fraction * n_fft / 4` rounded to the nearest carrier, halves away from
/// zero: the half-width of the fraction's band.
pub open spec fn half_for(f: CofdmBwFraction) -> int {
    round_ratio(64 * fraction_parts(f).0, fraction_parts(f).1)
}

/// `num / den` rounded to the nearest integer, halves up.
pub open spec fn round_ratio(num: int, den: int) -> int {
    (2 * num + den) / (2 * den)
}

impl CofdmBwFraction {
    /// Short label for the HUD / settings toggle (e.g. "1/4").
    pub fn label(self) -> (s: &'static str)
        ensures
            s@ == fraction_label(self),
    {
        match self {
            CofdmBwFraction::OneEighth => "1/8",
            CofdmBwFraction::OneQuarter => "1/4",
            CofdmBwFraction::OneThird => "1/3",
            CofdmBwFraction::OneHalf => "1/2",
            CofdmBwFraction::TwoThirds => "2/3",
            CofdmBwFraction::ThreeQuarters => "3/4",
            CofdmBwFraction::SevenEighths => "7/8",
        }
    }

    fn at(i: usize) -> (f: CofdmBwFraction)
        ensures
            f == fraction_at(i as int),
    {
        if i == 0 {
            CofdmBwFraction::OneEighth
        } else if i == 1 {
            CofdmBwFraction::OneQuarter
        } else if i == 2 {
            CofdmBwFraction::OneThird
        } else if i == 3 {
            CofdmBwFraction::OneHalf
        } else if i == 4 {
            CofdmBwFraction::TwoThirds
        } else if i == 5 {
            CofdmBwFraction::ThreeQuarters
        } else {
            CofdmBwFraction::SevenEighths
        }
    }

    /// Half-width (in subcarriers) of the DC-centred active carrier set for
    /// this fraction: `round(fraction * n_fft / 4)`, clamped to the plan's
    /// usable range `1..=n_fft/2 - 1`.  Independent of the sample rate.
    pub fn carrier_half(self) -> (h: usize)
        ensures
            h as int == half_for(self),
            1 <= h <= COFDM_MAX_CARRIER,
    {
        proof {
            assert(round_ratio(64, 8) == 8) by (nonlinear_arith);
            assert(round_ratio(64, 4) == 16) by (nonlinear_arith);
            assert(round_ratio(64, 3) == 21) by (nonlinear_arith);
            assert(round_ratio(64, 2) == 32) by (nonlinear_arith);
            assert(round_ratio(128, 3) == 43) by (nonlinear_arith);
            assert(round_ratio(192, 4) == 48) by (nonlinear_arith);
            assert(round_ratio(448, 8) == 56) by (nonlinear_arith);
        }
        match self {
            CofdmBwFraction::OneEighth => 8,
            CofdmBwFraction::OneQuarter => 16,
            CofdmBwFraction::OneThird => 21,
            CofdmBwFraction::OneHalf => 32,
            CofdmBwFraction::TwoThirds => 43,
            CofdmBwFraction::ThreeQuarters => 48,
            CofdmBwFraction::SevenEighths => 56,
        }
    }
}

/// Each fraction's half-width is a usable carrier count, and its edge guard
/// gives that half-width back: the guard is the bandwidth lever exactly.
pub proof fn lemma_fraction_guard_roundtrip(f: CofdmBwFraction)
    ensures
        1 <= half_for(f) <= COFDM_MAX_CARRIER,
        COFDM_MAX_CARRIER - (COFDM_MAX_CARRIER - half_for(f)) == half_for(f),
{
    assert(round_ratio(64, 8) == 8) by (nonlinear_arith);
    assert(round_ratio(64, 4) == 16) by (nonlinear_arith);
    assert(round_ratio(64, 3) == 21) by (nonlinear_arith);
    assert(round_ratio(64, 2) == 32) by (nonlinear_arith);
    assert(round_ratio(128, 3) == 43) by (nonlinear_arith);
    assert(round_ratio(192, 4) == 48) by (nonlinear_arith);
    assert(round_ratio(448, 8) == 56) by (nonlinear_arith);
}

/// The edge guard (null carriers per band edge) that reproduces
/// `fraction`'s occupied band.
pub fn cofdm_edge_guard_for(fraction: CofdmBwFraction) -> (g: usize)
    ensures
        g == COFDM_MAX_CARRIER - half_for(fraction),
{
    COFDM_MAX_CARRIER - fraction.carrier_half()
}

/// Outermost occupied carrier, in bins from DC, for an edge guard.
pub fn cofdm_occupied_half(edge_guard: usize) -> (h: usize)
    ensures
        h == (if edge_guard <= COFDM_MAX_CARRIER {
            COFDM_MAX_CARRIER - edge_guard
        } else {
            0
        }),
{
    if edge_guard <= COFDM_MAX_CARRIER {
        COFDM_MAX_CARRIER - edge_guard
    } else {
        0
    }
}

#[verifier::external_type_specification]
#[verifier::external_body]
pub struct ExCarrierPlan(orion_sdr::multicarrier::CarrierPlan);

/// Data carriers of `CarrierPlan::new(n_fft, cp_len)
/// .with_contiguous_data(edge_guard, include_dc)` with no pilots.  The
/// source fills the indices `-(n_fft/2) + 1 + edge_guard ..= (n_fft - 1)/2
/// - edge_guard`, skipping DC unless `include_dc`; the contract states that
/// count for an even FFT size.
#[verifier::external_body]
fn contiguous_data_count(n_fft: usize, cp_len: usize, edge_guard: usize, include_dc: bool) -> (n:
    usize)
    requires
        n_fft % 2 == 0,
        2 <= n_fft <= 65536,
        edge_guard <= 65536,
    ensures
        n == (if 2 * edge_guard + 1 <= n_fft - 1 {
            (n_fft - 1 - 2 * edge_guard - (if include_dc {
                0int
            } else {
                1int
            })) as usize
        } else {
            0
        }),
{
    orion_sdr::multicarrier::CarrierPlan::new(n_fft, cp_len).with_contiguous_data(
        edge_guard,
        include_dc,
    ).data_carriers().len()
}

/// The MCS ladder entry the source transmits.
pub const COFDM_MCS_INDEX: u8 = 1;

/// A constellation order of the coding chain.
#[derive(Clone, Copy, PartialEq, Eq, Debug, Structural)]
pub enum ConstellationKind {
    Bpsk,
    Qpsk,
    Qam16,
    Qam64,
    Qam256,
}

/// A convolutional code's puncturing.
#[derive(Clone, Copy, PartialEq, Eq, Debug, Structural)]
pub enum PunctureKind {
    R1_2,
    R2_3,
    R3_4,
    R5_6,
    R7_8,
}

/// An inner code of the coding chain: LDPC by its information and code
/// lengths, convolutional by its puncturing.
#[derive(Clone, Copy, PartialEq, Eq, Debug, Structural)]
pub enum InnerKind {
    Uncoded,
    Ldpc { k: usize, n: usize },
    Convolutional(PunctureKind),
}

/// An MCS entry: its constellation and inner code.
#[derive(Clone, Copy, PartialEq, Eq, Debug, Structural)]
pub struct McsEntry {
    pub constellation: ConstellationKind,
    pub inner: InnerKind,
}

/// The constellations of the coding chain's default MCS ladder, by index.
pub open spec fn ladder_constellation(index: u8) -> ConstellationKind {
    if index == 0 {
        ConstellationKind::Bpsk
    } else if index == 1 {
        ConstellationKind::Qpsk
    } else if index == 2 {
        ConstellationKind::Qam16
    } else {
        ConstellationKind::Qam64
    }
}

/// `McsTable::default_ladder().get(index)`, the entry's constellation and
/// inner code taken into the library's enums variant by variant.  Its
/// source builds the ladder as BPSK, QPSK, QAM16 and QAM64, each with the
/// rate-1/2 512-bit LDPC inner code, and `get` gives the entry at an index
/// below the ladder's length; the contract states that.
#[verifier::external_body]
fn default_ladder_entry(index: u8) -> (r: Option<McsEntry>)
    ensures
        r.is_some() == (index < 4),
        r matches Some(m) ==> m.constellation == ladder_constellation(index) && m.inner
            == (InnerKind::Ldpc { k: 256, n: 512 }),
{
    McsTable::default_ladder().get(index).map(|m| McsEntry {
        constellation: match m.constellation {
            ConstellationOrder::Bpsk => ConstellationKind::Bpsk, ConstellationOrder::Qpsk => ConstellationKind::Qpsk,
            ConstellationOrder::Qam16 => ConstellationKind::Qam16, ConstellationOrder::Qam64 => ConstellationKind::Qam64,
            ConstellationOrder::Qam256 => ConstellationKind::Qam256, },
        inner: match m.inner_fec {
            InnerFec::None => InnerKind::Uncoded,
            InnerFec::Ldpc(c) => InnerKind::Ldpc { k: c.k(), n: c.n() },
            InnerFec::Convolutional { rate, .. } => InnerKind::Convolutional(match rate {
                PunctureRate::R1_2 => PunctureKind::R1_2, PunctureRate::R2_3 => PunctureKind::R2_3,
                PunctureRate::R3_4 => PunctureKind::R3_4, PunctureRate::R5_6 => PunctureKind::R5_6,
                PunctureRate::R7_8 => PunctureKind::R7_8, }),
        },
    })
}

/// The name a constellation is shown by.
pub open spec fn constellation_name(c: ConstellationKind) -> Seq<char> {
    match c {
        ConstellationKind::Bpsk => "BPSK"@,
        ConstellationKind::Qpsk => "QPSK"@,
        ConstellationKind::Qam16 => "QAM16"@,
        ConstellationKind::Qam64 => "QAM64"@,
        ConstellationKind::Qam256 => "QAM256"@,
    }
}

/// Bits each carrier holds per symbol (`ConstellationOrder::bits_per_symbol`).
pub open spec fn constellation_bits(c: ConstellationKind) -> usize {
    match c {
        ConstellationKind::Bpsk => 1,
        ConstellationKind::Qpsk => 2,
        ConstellationKind::Qam16 => 4,
        ConstellationKind::Qam64 => 6,
        ConstellationKind::Qam256 => 8,
    }
}

/// An inner code's rate as `(k, n)`: information and code lengths for
/// LDPC, the puncturing for convolutional codes, `(1, 1)` uncoded.
pub open spec fn inner_rate(i: InnerKind) -> (usize, usize) {
    match i {
        InnerKind::Uncoded => (1, 1),
        InnerKind::Ldpc { k, n } => (k, n),
        InnerKind::Convolutional(PunctureKind::R1_2) => (1, 2),
        InnerKind::Convolutional(PunctureKind::R2_3) => (2, 3),
        InnerKind::Convolutional(PunctureKind::R3_4) => (3, 4),
        InnerKind::Convolutional(PunctureKind::R5_6) => (5, 6),
        InnerKind::Convolutional(PunctureKind::R7_8) => (7, 8),
    }
}

/// The instrumentation facts of an MCS entry: the constellation's name,
/// its bits per symbol, and the inner code rate.
pub fn mcs_facts(m: McsEntry) -> (r: (&'static str, usize, (usize, usize)))
    ensures
        r.0@ == constellation_name(m.constellation),
        r.1 == constellation_bits(m.constellation),
        r.2 == inner_rate(m.inner),
{
    let (name, bits): (&'static str, usize) = match m.constellation {
        ConstellationKind::Bpsk => ("BPSK", 1),
        ConstellationKind::Qpsk => ("QPSK", 2),
        ConstellationKind::Qam16 => ("QAM16", 4),
        ConstellationKind::Qam64 => ("QAM64", 6),
        ConstellationKind::Qam256 => ("QAM256", 8),
    };
    let rate: (usize, usize) = match m.inner {
        InnerKind::Uncoded => (1, 1),
        InnerKind::Ldpc { k, n } => (k, n),
        InnerKind::Convolutional(PunctureKind::R1_2) => (1, 2),
        InnerKind::Convolutional(PunctureKind::R2_3) => (2, 3),
        InnerKind::Convolutional(PunctureKind::R3_4) => (3, 4),
        InnerKind::Convolutional(PunctureKind::R5_6) => (5, 6),
        InnerKind::Convolutional(PunctureKind::R7_8) => (7, 8),
    };
    (name, bits, rate)
}

/// The MCS the source transmits, as instrumentation facts: QPSK, two bits
/// a symbol, and the inner rate-1/2 LDPC code's `(256, 512)`; the outer
/// code is not folded in.
pub fn cofdm_mcs_facts() -> (r: (&'static str, usize, (usize, usize)))
    ensures
        r.0@ == "QPSK"@,
        r.1 == 2,
        r.2 == (256usize, 512usize),
{
    match default_ladder_entry(COFDM_MCS_INDEX) {
        Some(m) => mcs_facts(m),
        None => {
            assert(false);
            ("QPSK", 2, (256, 512))
        },
    }
}

/// Number of data carriers in the plan an edge guard produces, read off the
/// library's carrier plan.
pub fn cofdm_data_carriers(edge_guard: usize, include_dc: bool) -> (n: usize)
    requires
        edge_guard <= 65536,
    ensures
        n == (if edge_guard <= COFDM_MAX_CARRIER {
            (255 - 2 * edge_guard - (if include_dc {
                0int
            } else {
                1int
            })) as usize
        } else {
            0
        }),
{
    contiguous_data_count(COFDM_N_FFT, COFDM_CP_LEN, edge_guard, include_dc)
}

/// Symbol-window roll-off, as a fraction of the guard (cyclic prefix).
#[derive(Clone, Copy, PartialEq, Eq, Debug, Structural)]
pub enum CofdmTaper {
    Off,
    Eighth,
    Quarter,
    ThreeEighths,
}

/// The display label of a taper.
pub open spec fn taper_label(t: CofdmTaper) -> Seq<char> {
    match t {
        CofdmTaper::Off => "off"@,
        CofdmTaper::Eighth => "1/8"@,
        CofdmTaper::Quarter => "1/4"@,
        CofdmTaper::ThreeEighths => "3/8"@,
    }
}

/// The tapers in display order.
/// Every value is listed among the first 4.
pub proof fn lemma_taper_listed(x: CofdmTaper)
    ensures
        exists|i: int| 0 <= i < 4 && #[trigger] taper_at(i) == x,
{
    match x {
        CofdmTaper::Off => assert(taper_at(0) == x),
        CofdmTaper::Eighth => assert(taper_at(1) == x),
        CofdmTaper::Quarter => assert(taper_at(2) == x),
        CofdmTaper::ThreeEighths => assert(taper_at(3) == x),
    }
}

pub open spec fn taper_at(i: int) -> CofdmTaper {
    if i == 0 {
        CofdmTaper::Off
    } else if i == 1 {
        CofdmTaper::Eighth
    } else if i == 2 {
        CofdmTaper::Quarter
    } else {
        CofdmTaper::ThreeEighths
    }
}

impl CofdmTaper {
    /// Raised-cosine taper length per symbol edge, in samples: 0, then 1/8,
    /// 1/4 and 3/8 of the cyclic prefix.
    pub fn roll_off(self) -> (n: usize)
        ensures
            n == (match self {
                CofdmTaper::Off => 0int,
                CofdmTaper::Eighth => COFDM_CP_LEN as int / 8,
                CofdmTaper::Quarter => COFDM_CP_LEN as int / 4,
                CofdmTaper::ThreeEighths => 3 * COFDM_CP_LEN as int / 8,
            }),
    {
        match self {
            CofdmTaper::Off => 0,
            CofdmTaper::Eighth => COFDM_CP_LEN / 8,
            CofdmTaper::Quarter => COFDM_CP_LEN / 4,
            CofdmTaper::ThreeEighths => 3 * COFDM_CP_LEN / 8,
        }
    }

    /// Short label for the HUD / settings toggle.
    pub fn label(self) -> (s: &'static str)
        ensures
            s@ == taper_label(self),
    {
        match self {
            CofdmTaper::Off => "off",
            CofdmTaper::Eighth => "1/8",
            CofdmTaper::Quarter => "1/4",
            CofdmTaper::ThreeEighths => "3/8",
        }
    }

    fn at(i: usize) -> (t: CofdmTaper)
        ensures
            t == taper_at(i as int),
    {
        if i == 0 {
            CofdmTaper::Off
        } else if i == 1 {
            CofdmTaper::Eighth
        } else if i == 2 {
            CofdmTaper::Quarter
        } else {
            CofdmTaper::ThreeEighths
        }
    }
}

/// Baseband spectral-mask stop-band depth.
#[derive(Clone, Copy, PartialEq, Eq, Debug, Structural)]
pub enum CofdmMask {
    Off,
    Db40,
    Db60,
    Db80,
}

/// The display label of a mask.
pub open spec fn mask_label(m: CofdmMask) -> Seq<char> {
    match m {
        CofdmMask::Off => "off"@,
        CofdmMask::Db40 => "40 dB"@,
        CofdmMask::Db60 => "60 dB"@,
        CofdmMask::Db80 => "80 dB"@,
    }
}

/// The number a mask's label carries before ` dB`; the whole label for
/// `off`, which has no such suffix.
pub open spec fn mask_number(m: CofdmMask) -> Option<Seq<char>> {
    match m {
        CofdmMask::Off => None,
        CofdmMask::Db40 => Some("40"@),
        CofdmMask::Db60 => Some("60"@),
        CofdmMask::Db80 => Some("80"@),
    }
}

/// The masks in display order.
/// Every value is listed among the first 4.
pub proof fn lemma_mask_listed(x: CofdmMask)
    ensures
        exists|i: int| 0 <= i < 4 && #[trigger] mask_at(i) == x,
{
    match x {
        CofdmMask::Off => assert(mask_at(0) == x),
        CofdmMask::Db40 => assert(mask_at(1) == x),
        CofdmMask::Db60 => assert(mask_at(2) == x),
        CofdmMask::Db80 => assert(mask_at(3) == x),
    }
}

pub open spec fn mask_at(i: int) -> CofdmMask {
    if i == 0 {
        CofdmMask::Off
    } else if i == 1 {
        CofdmMask::Db40
    } else if i == 2 {
        CofdmMask::Db60
    } else {
        CofdmMask::Db80
    }
}

impl CofdmMask {
    /// Short label for the HUD / settings toggle.
    pub fn label(self) -> (s: &'static str)
        ensures
            s@ == mask_label(self),
    {
        match self {
            CofdmMask::Off => "off",
            CofdmMask::Db40 => "40 dB",
            CofdmMask::Db60 => "60 dB",
            CofdmMask::Db80 => "80 dB",
        }
    }

    fn number(self) -> (s: Option<&'static str>)
        ensures
            match s {
                Some(n) => mask_number(self) == Some(n@),
                None => mask_number(self).is_none(),
            },
    {
        match self {
            CofdmMask::Off => None,
            CofdmMask::Db40 => Some("40"),
            CofdmMask::Db60 => Some("60"),
            CofdmMask::Db80 => Some("80"),
        }
    }

    fn at(i: usize) -> (m: CofdmMask)
        ensures
            m == mask_at(i as int),
    {
        if i == 0 {
            CofdmMask::Off
        } else if i == 1 {
            CofdmMask::Db40
        } else if i == 2 {
            CofdmMask::Db60
        } else {
            CofdmMask::Db80
        }
    }
}

/// Default taper and mask when shaping is enabled, and shaping's default.
pub const COFDM_DEFAULT_TAPER: CofdmTaper = CofdmTaper::Quarter;

pub const COFDM_DEFAULT_MASK: CofdmMask = CofdmMask::Db60;

pub const COFDM_DEFAULT_SHAPING_ENABLED: bool = true;

/// The out-of-band spectral-shaping parameter set.
#[derive(Clone, Copy, PartialEq, Eq, Debug, Structural)]
pub struct CofdmShaping {
    pub enabled: bool,
    /// Null carriers per band edge.
    pub edge_guard: usize,
    /// Occupy the DC subcarrier.
    pub include_dc: bool,
    pub taper: CofdmTaper,
    pub mask: CofdmMask,
}

impl CofdmShaping {
    /// The shaping-disabled configuration for a fraction: the guard the
    /// bandwidth toggle implies, no DC, no taper, no mask.
    pub fn derived(fraction: CofdmBwFraction) -> (s: Self)
        ensures
            s == (CofdmShaping {
                enabled: false,
                edge_guard: (COFDM_MAX_CARRIER - half_for(fraction)) as usize,
                include_dc: false,
                taper: CofdmTaper::Off,
                mask: CofdmMask::Off,
            }),
    {
        CofdmShaping {
            enabled: false,
            edge_guard: cofdm_edge_guard_for(fraction),
            include_dc: false,
            taper: CofdmTaper::Off,
            mask: CofdmMask::Off,
        }
    }

    /// The enabled defaults for a fraction.
    pub fn default_for(fraction: CofdmBwFraction) -> (s: Self)
        ensures
            s == (CofdmShaping {
                enabled: COFDM_DEFAULT_SHAPING_ENABLED,
                edge_guard: (COFDM_MAX_CARRIER - half_for(fraction)) as usize,
                include_dc: false,
                taper: COFDM_DEFAULT_TAPER,
                mask: COFDM_DEFAULT_MASK,
            }),
    {
        CofdmShaping {
            enabled: COFDM_DEFAULT_SHAPING_ENABLED,
            edge_guard: cofdm_edge_guard_for(fraction),
            include_dc: false,
            taper: COFDM_DEFAULT_TAPER,
            mask: COFDM_DEFAULT_MASK,
        }
    }

    /// What is actually rendered, given the smallest edge guard that fits the
    /// band centre: this set, or [`derived`](Self::derived) when shaping is
    /// off, with its edge guard clamped to `min_guard..=`
    /// [`COFDM_MAX_EDGE_GUARD`].
    pub fn effective_at(&self, fraction: CofdmBwFraction, min_guard: usize) -> (s: Self)
        requires
            min_guard <= COFDM_MAX_EDGE_GUARD,
        ensures
            ({
                let base = if self.enabled {
                    *self
                } else {
                    CofdmShaping {
                        enabled: false,
                        edge_guard: (COFDM_MAX_CARRIER - half_for(fraction)) as usize,
                        include_dc: false,
                        taper: CofdmTaper::Off,
                        mask: CofdmMask::Off,
                    }
                };
                s == CofdmShaping {
                    edge_guard: if base.edge_guard < min_guard {
                        min_guard
                    } else if base.edge_guard > COFDM_MAX_EDGE_GUARD {
                        COFDM_MAX_EDGE_GUARD
                    } else {
                        base.edge_guard
                    },
                    ..base
                }
            }),
    {
        let base = if self.enabled {
            *self
        } else {
            Self::derived(fraction)
        };
        let g = if base.edge_guard < min_guard {
            min_guard
        } else if base.edge_guard > COFDM_MAX_EDGE_GUARD {
            COFDM_MAX_EDGE_GUARD
        } else {
            base.edge_guard
        };
        CofdmShaping { edge_guard: g, ..base }
    }
}

/// The HUD submode text: the bandwidth fraction, plus a compact shaping tag
/// when shaping is on, e.g. `  bw 1/4  shp 1/4·60 dB`.
pub open spec fn submode_text(fraction: CofdmBwFraction, shaping: CofdmShaping) -> Seq<char> {
    "  bw "@ + fraction_label(fraction) + if shaping.enabled {
        "  shp "@ + taper_label(shaping.taper) + "\u{b7}"@ + mask_label(shaping.mask)
    } else {
        Seq::empty()
    }
}

/// Submode line for the top HUD.
pub fn hud_submode_str(fraction: CofdmBwFraction, shaping: &CofdmShaping) -> (s: String)
    ensures
        s@ == submode_text(fraction, *shaping),
{
    let mut s = String::from_str("  bw ");
    push_str(&mut s, fraction.label());
    if shaping.enabled {
        push_str(&mut s, "  shp ");
        push_str(&mut s, shaping.taper.label());
        push_str(&mut s, "\u{b7}");
        push_str(&mut s, shaping.mask.label());
    }
    s
}

/// The fraction a configured label names: the first whose label equals the
/// trimmed text.
pub fn parse_bw_fraction(s: &str) -> (r: Option<CofdmBwFraction>)
    ensures
        match r {
            Some(f) => fraction_label(f) == trimmed(s@),
            None => forall|i: int| 0 <= i < 7 ==> fraction_label(#[trigger] fraction_at(i)) != trimmed(s@),
        },
        r is None ==> forall|x: CofdmBwFraction| #[trigger] fraction_label(x) != trimmed(s@),
{
    let want = trim(s);
    let mut i: usize = 0;
    while i < 7
        invariant
            i <= 7,
            want@ == trimmed(s@),
            forall|j: int| 0 <= j < i ==> fraction_label(#[trigger] fraction_at(j)) != trimmed(s@),
        decreases 7 - i,
    {
        let f = CofdmBwFraction::at(i);
        if str_eq(f.label(), want) {
            return Some(f);
        }
        i = i + 1;
    }
    proof {
        assert forall|x: CofdmBwFraction| #[trigger] fraction_label(x) != trimmed(s@) by {
            lemma_fraction_listed(x);
            let k = choose|k: int| 0 <= k < 7 && #[trigger] fraction_at(k) == x;
            assert(fraction_label(fraction_at(k)) != trimmed(s@));
        }
    }
    None
}

/// The taper a configured label names, ignoring ASCII case.
pub fn parse_taper(s: &str) -> (r: Option<CofdmTaper>)
    ensures
        match r {
            Some(t) => eq_ascii_fold(taper_label(t), trimmed(s@)),
            None => forall|i: int| 0 <= i < 4 ==> !eq_ascii_fold(taper_label(#[trigger] taper_at(i)), trimmed(s@)),
        },
        r is None ==> forall|x: CofdmTaper| !eq_ascii_fold(#[trigger] taper_label(x), trimmed(s@)),
{
    let want = trim(s);
    let mut i: usize = 0;
    while i < 4
        invariant
            i <= 4,
            want@ == trimmed(s@),
            forall|j: int| 0 <= j < i ==> !eq_ascii_fold(taper_label(#[trigger] taper_at(j)), trimmed(s@)),
        decreases 4 - i,
    {
        let t = CofdmTaper::at(i);
        if eq_ignore_ascii_case(t.label(), want) {
            return Some(t);
        }
        i = i + 1;
    }
    proof {
        assert forall|x: CofdmTaper| !eq_ascii_fold(#[trigger] taper_label(x), trimmed(s@)) by {
            lemma_taper_listed(x);
            let k = choose|k: int| 0 <= k < 4 && #[trigger] taper_at(k) == x;
            assert(!eq_ascii_fold(taper_label(taper_at(k)), trimmed(s@)));
        }
    }
    None
}

/// A mask label matches a written value: the whole label, or its number
/// alone, ignoring ASCII case.
pub open spec fn mask_matches(m: CofdmMask, want: Seq<char>) -> bool {
    eq_ascii_fold(mask_label(m), want) || match mask_number(m) {
        Some(n) => eq_ascii_fold(n, want),
        None => false,
    }
}

/// The mask a configured label names: the display form (`60 dB`) or the
/// bare number (`60`).
pub fn parse_mask(s: &str) -> (r: Option<CofdmMask>)
    ensures
        match r {
            Some(m) => mask_matches(m, trimmed(s@)),
            None => forall|i: int| 0 <= i < 4 ==> !mask_matches(#[trigger] mask_at(i), trimmed(s@)),
        },
        r is None ==> forall|x: CofdmMask| !(#[trigger] mask_matches(x, trimmed(s@))),
{
    let want = trim(s);
    let mut i: usize = 0;
    while i < 4
        invariant
            i <= 4,
            want@ == trimmed(s@),
            forall|j: int| 0 <= j < i ==> !mask_matches(#[trigger] mask_at(j), trimmed(s@)),
        decreases 4 - i,
    {
        let m = CofdmMask::at(i);
        let hit = eq_ignore_ascii_case(m.label(), want) || match m.number() {
            Some(n) => eq_ignore_ascii_case(n, want),
            None => false,
        };
        if hit {
            return Some(m);
        }
        i = i + 1;
    }
    proof {
        assert forall|x: CofdmMask| !(#[trigger] mask_matches(x, trimmed(s@))) by {
            lemma_mask_listed(x);
            let k = choose|k: int| 0 <= k < 4 && #[trigger] mask_at(k) == x;
            assert(!mask_matches(mask_at(k), trimmed(s@)));
        }
    }
    None
}

/// Running frame accounting across a burst.
#[derive(Clone, Copy, Debug, Default, PartialEq, Eq)]
pub struct CofdmRxStats {
    /// Frames that decoded.
    pub decoded: u64,
    /// Frames the demodulator reported as failed.
    pub failed: u64,
    /// Frames that vanished with nothing reported: a sequence gap the
    /// failure count does not already explain.
    pub lost: u64,
}

impl CofdmRxStats {
    /// Frames that should have arrived.
    pub fn expected(&self) -> (n: u64)
        requires
            self.decoded + self.failed + self.lost <= u64::MAX,
        ensures
            n == self.decoded + self.failed + self.lost,
    {
        self.decoded + self.failed + self.lost
    }
}

/// Frames missing between the accepted sequence numbers `last` and `seq` of
/// a buffer of `COFDM_BUFFER_FRAMES` frames that loops: the distance modulo
/// the buffer length, less one.
pub open spec fn seq_gap(last: u32, seq: u32) -> nat {
    ((seq - last - 1) % (COFDM_BUFFER_FRAMES as int)) as nat
}

/// Frames lost between two accepted frames: the sequence gap less the
/// failures already reported for it.
pub open spec fn gap_loss(last: u32, seq: u32, failed_since_accept: u64) -> nat {
    if seq_gap(last, seq) > failed_since_accept {
        (seq_gap(last, seq) - failed_since_accept) as nat
    } else {
        0
    }
}

/// Failures are excluded, not double counted: a gap that the reported
/// failures explain loses nothing, and one they only partly explain loses
/// only the rest.
pub proof fn lemma_failures_not_double_counted(last: u32, seq: u32, failed: u64)
    ensures
        seq_gap(last, seq) <= failed ==> gap_loss(last, seq, failed) == 0,
        gap_loss(last, seq, failed) + failed >= seq_gap(last, seq),
        gap_loss(last, seq, failed) <= seq_gap(last, seq),
{
}

/// The buffer looping from its last frame back to frame 0 is not a gap, and
/// neither is any step to the next frame: consecutive frames lose nothing.
pub proof fn lemma_consecutive_frames_lose_nothing(last: u32)
    requires
        last < COFDM_BUFFER_FRAMES,
    ensures
        seq_gap(last, ((last + 1) % (COFDM_BUFFER_FRAMES as int)) as u32) == 0,
{
    if last == 39 {
        assert(((last + 1) % 40) == 0);
        assert((0 - 39 - 1) % 40 == 0int);
    } else {
        assert((last + 1) % 40 == last + 1);
    }
}

/// The receiver's frame accounting: decoded, failed and lost frames, the
/// last accepted sequence number, and the failures reported since it.
#[derive(Clone, Copy, Debug, Default, PartialEq, Eq)]
pub struct FrameAccounting {
    pub stats: CofdmRxStats,
    pub last_seq: Option<u32>,
    pub failed_since_accept: u64,
}

impl FrameAccounting {
    /// No frames yet.
    pub fn new() -> (a: Self)
        ensures
            a.stats == (CofdmRxStats { decoded: 0, failed: 0, lost: 0 }),
            a.last_seq.is_none(),
            a.failed_since_accept == 0,
    {
        FrameAccounting {
            stats: CofdmRxStats { decoded: 0, failed: 0, lost: 0 },
            last_seq: None,
            failed_since_accept: 0,
        }
    }

    /// A frame the demodulator reported as failed.
    pub fn on_failure(&mut self)
        requires
            old(self).stats.failed < u64::MAX,
            old(self).failed_since_accept < u64::MAX,
        ensures
            final(self).stats == (CofdmRxStats { failed: (old(self).stats.failed + 1) as u64, ..old(self).stats }),
            final(self).failed_since_accept == old(self).failed_since_accept + 1,
            final(self).last_seq == old(self).last_seq,
    {
        self.stats.failed = self.stats.failed + 1;
        self.failed_since_accept = self.failed_since_accept + 1;
    }

    /// Counts frames missing between the last accepted sequence number and
    /// `seq`, less the failures already reported for them.
    fn count_gap(&mut self, seq: u32)
        requires
            old(self).last_seq matches Some(last) ==> old(self).stats.lost + seq_gap(last, seq) <= u64::MAX,
        ensures
            final(self).stats.decoded == old(self).stats.decoded,
            final(self).stats.failed == old(self).stats.failed,
            final(self).stats.lost == old(self).stats.lost + match old(self).last_seq {
                Some(last) => if seq_gap(last, seq) > old(self).failed_since_accept {
                    seq_gap(last, seq) - old(self).failed_since_accept
                } else {
                    0
                },
                None => 0,
            },
            final(self).failed_since_accept == 0,
            final(self).last_seq == Some(seq),
    {
        let n: i64 = COFDM_BUFFER_FRAMES as i64;
        if let Some(last) = self.last_seq {
            let d: i64 = seq as i64 - last as i64 - 1;
            let gap = d.checked_rem_euclid(n).unwrap() as u64;
            let extra = if gap > self.failed_since_accept {
                gap - self.failed_since_accept
            } else {
                0
            };
            self.stats.lost = self.stats.lost + extra;
        }
        self.failed_since_accept = 0;
        self.last_seq = Some(seq);
    }

    /// A frame that decoded, carrying sequence number `seq`.
    pub fn on_accept(&mut self, seq: u32)
        requires
            old(self).stats.decoded < u64::MAX,
            old(self).last_seq matches Some(last) ==> old(self).stats.lost + seq_gap(last, seq) <= u64::MAX,
        ensures
            final(self).stats.decoded == old(self).stats.decoded + 1,
            final(self).stats.failed == old(self).stats.failed,
            final(self).stats.lost == old(self).stats.lost + match old(self).last_seq {
                Some(last) => if seq_gap(last, seq) > old(self).failed_since_accept {
                    seq_gap(last, seq) - old(self).failed_since_accept
                } else {
                    0
                },
                None => 0,
            },
            final(self).failed_since_accept == 0,
            final(self).last_seq == Some(seq),
    {
        self.stats.decoded = self.stats.decoded + 1;
        self.count_gap(seq);
    }

    /// Clears all accumulated state, so one burst's frame accounting is
    /// never attributed to the next.
    pub fn reset(&mut self)
        ensures
            *final(self) == FrameAccounting::new_spec(),
    {
        *self = FrameAccounting::new();
    }

    /// The empty accounting.
    pub open spec fn new_spec() -> Self {
        FrameAccounting {
            stats: CofdmRxStats { decoded: 0, failed: 0, lost: 0 },
            last_seq: None,
            failed_since_accept: 0,
        }
    }
}

} // verus!
