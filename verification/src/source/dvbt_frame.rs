//! DVB-T frame geometry: how many transport-stream packets fill one
//! 68-symbol frame at a constellation and inner code rate, found through the
//! coding chain's own block plan.

use orion_sdr::demodulate::CodecCache;
use orion_sdr::fec::{ConvCode, CrcKind, InnerFec, InterleaverKind, PunctureRate};
use orion_sdr::modulate::ofdm_frame::block_plan;
use orion_sdr::waveform::dvb_t::{DVB_T_FRAME_OUTER, DVB_T_FRAME_OUTER_IL};

use vstd::prelude::*;

use crate::text::{eq_ascii_fold, eq_ignore_ascii_case, str_eq, trim, trimmed};

verus! {

/// OFDM symbols in one DVB-T frame.
pub const DVBT_SYMBOLS_PER_FRAME: usize = 68;

/// Data carriers of the 2K mode.
pub const DVB_T_DATA_CARRIERS: usize = 1512;

/// Bytes of one transport-stream packet, and of its payload after the sync
/// byte.
pub const TS_PACKET_LEN: usize = 188;

pub const TS_PAYLOAD_LEN: usize = 187;

/// The DVB-T constellations.
#[derive(Clone, Copy, PartialEq, Eq, Debug, Structural)]
pub enum DvbTConstellation {
    Qpsk,
    Qam16,
    Qam64,
}

impl DvbTConstellation {
    /// Bits each data carrier holds per symbol.
    pub fn bits_per_symbol(self) -> (b: usize)
        ensures
            b == (match self {
                DvbTConstellation::Qpsk => 2usize,
                DvbTConstellation::Qam16 => 4usize,
                DvbTConstellation::Qam64 => 6usize,
            }),
    {
        match self {
            DvbTConstellation::Qpsk => 2,
            DvbTConstellation::Qam16 => 4,
            DvbTConstellation::Qam64 => 6,
        }
    }
}

/// The inner (punctured convolutional) code rates.
#[derive(Clone, Copy, PartialEq, Eq, Debug, Structural)]
pub enum DvbTCodeRate {
    R1_2,
    R2_3,
    R3_4,
    R5_6,
    R7_8,
}

/// The guard intervals, as fractions of the useful symbol.
#[derive(Clone, Copy, PartialEq, Eq, Debug, Structural)]
pub enum DvbTGuard {
    G1_32,
    G1_16,
    G1_8,
    G1_4,
}

/// Default guard interval: 1/32, the shortest prefix.
pub const DVBT_DEFAULT_GUARD: DvbTGuard = DvbTGuard::G1_32;

/// Default constellation: QPSK, the most robust.
pub const DVBT_DEFAULT_CONSTELLATION: DvbTConstellation = DvbTConstellation::Qpsk;

/// Default inner code rate: 3/4.
pub const DVBT_DEFAULT_CODE_RATE: DvbTCodeRate = DvbTCodeRate::R3_4;

/// Frames in a DVB-T super-frame.
pub const DVB_T_FRAMES_PER_SUPER_FRAME: usize = 4;

/// The 2K mode's FFT size.
pub const DVB_T_N_FFT: usize = 2048;

/// The label of a guard interval.
pub open spec fn guard_text(g: DvbTGuard) -> Seq<char> {
    match g {
        DvbTGuard::G1_32 => "1/32"@,
        DvbTGuard::G1_16 => "1/16"@,
        DvbTGuard::G1_8 => "1/8"@,
        DvbTGuard::G1_4 => "1/4"@,
    }
}

/// The guard intervals in display order.
pub open spec fn guard_at(i: int) -> DvbTGuard {
    if i == 0 {
        DvbTGuard::G1_32
    } else if i == 1 {
        DvbTGuard::G1_16
    } else if i == 2 {
        DvbTGuard::G1_8
    } else {
        DvbTGuard::G1_4
    }
}

/// The label of a constellation.
pub open spec fn constellation_text(c: DvbTConstellation) -> Seq<char> {
    match c {
        DvbTConstellation::Qpsk => "QPSK"@,
        DvbTConstellation::Qam16 => "QAM16"@,
        DvbTConstellation::Qam64 => "QAM64"@,
    }
}

/// The standard's hyphenated spelling of a QAM constellation, `16-QAM`.
pub open spec fn constellation_alt_text(c: DvbTConstellation) -> Option<Seq<char>> {
    match c {
        DvbTConstellation::Qpsk => None,
        DvbTConstellation::Qam16 => Some("16-QAM"@),
        DvbTConstellation::Qam64 => Some("64-QAM"@),
    }
}

/// The constellations in display order.
/// Every value is listed among the first 3.
pub proof fn lemma_constellation_listed(x: DvbTConstellation)
    ensures
        exists|i: int| 0 <= i < 3 && #[trigger] constellation_at(i) == x,
{
    match x {
        DvbTConstellation::Qpsk => assert(constellation_at(0) == x),
        DvbTConstellation::Qam16 => assert(constellation_at(1) == x),
        DvbTConstellation::Qam64 => assert(constellation_at(2) == x),
    }
}

pub open spec fn constellation_at(i: int) -> DvbTConstellation {
    if i == 0 {
        DvbTConstellation::Qpsk
    } else if i == 1 {
        DvbTConstellation::Qam16
    } else {
        DvbTConstellation::Qam64
    }
}

/// The label of a code rate.
pub open spec fn code_rate_text(r: DvbTCodeRate) -> Seq<char> {
    match r {
        DvbTCodeRate::R1_2 => "1/2"@,
        DvbTCodeRate::R2_3 => "2/3"@,
        DvbTCodeRate::R3_4 => "3/4"@,
        DvbTCodeRate::R5_6 => "5/6"@,
        DvbTCodeRate::R7_8 => "7/8"@,
    }
}

/// The code rates in display order.
pub open spec fn code_rate_at(i: int) -> DvbTCodeRate {
    if i == 0 {
        DvbTCodeRate::R1_2
    } else if i == 1 {
        DvbTCodeRate::R2_3
    } else if i == 2 {
        DvbTCodeRate::R3_4
    } else if i == 3 {
        DvbTCodeRate::R5_6
    } else {
        DvbTCodeRate::R7_8
    }
}

/// Every code rate is listed, and no two share a label.
pub proof fn lemma_code_rate_labels(a: DvbTCodeRate, b: DvbTCodeRate)
    ensures
        exists|i: int| 0 <= i < 5 && #[trigger] code_rate_at(i) == a,
        code_rate_text(a) == code_rate_text(b) ==> a == b,
{
    reveal_strlit("1/2");
    reveal_strlit("2/3");
    reveal_strlit("3/4");
    reveal_strlit("5/6");
    reveal_strlit("7/8");
    match a {
        DvbTCodeRate::R1_2 => assert(code_rate_at(0) == a),
        DvbTCodeRate::R2_3 => assert(code_rate_at(1) == a),
        DvbTCodeRate::R3_4 => assert(code_rate_at(2) == a),
        DvbTCodeRate::R5_6 => assert(code_rate_at(3) == a),
        DvbTCodeRate::R7_8 => assert(code_rate_at(4) == a),
    }
    if code_rate_text(a) == code_rate_text(b) {
        assert(code_rate_text(a)[0] == code_rate_text(b)[0]);
        assert(code_rate_text(a)[2] == code_rate_text(b)[2]);
    }
}

/// Every guard interval is listed, and no two share a label.
pub proof fn lemma_guard_labels(a: DvbTGuard, b: DvbTGuard)
    ensures
        exists|i: int| 0 <= i < 4 && #[trigger] guard_at(i) == a,
        guard_text(a) == guard_text(b) ==> a == b,
{
    reveal_strlit("1/32");
    reveal_strlit("1/16");
    reveal_strlit("1/8");
    reveal_strlit("1/4");
    match a {
        DvbTGuard::G1_32 => assert(guard_at(0) == a),
        DvbTGuard::G1_16 => assert(guard_at(1) == a),
        DvbTGuard::G1_8 => assert(guard_at(2) == a),
        DvbTGuard::G1_4 => assert(guard_at(3) == a),
    }
    if guard_text(a) == guard_text(b) {
        assert(guard_text(a).len() == guard_text(b).len());
        assert(guard_text(a)[2] == guard_text(b)[2]);
        if guard_text(a).len() == 4 {
            assert(guard_text(a)[3] == guard_text(b)[3]);
        }
    }
}

impl DvbTGuard {
    fn at(i: usize) -> (g: DvbTGuard)
        ensures
            g == guard_at(i as int),
    {
        if i == 0 {
            DvbTGuard::G1_32
        } else if i == 1 {
            DvbTGuard::G1_16
        } else if i == 2 {
            DvbTGuard::G1_8
        } else {
            DvbTGuard::G1_4
        }
    }

    /// The cyclic prefix's length in the 2K mode: the guard's fraction of
    /// 2048 samples.
    pub fn cp_len_2k(self) -> (n: usize)
        ensures
            n == (match self {
                DvbTGuard::G1_32 => 64usize,
                DvbTGuard::G1_16 => 128usize,
                DvbTGuard::G1_8 => 256usize,
                DvbTGuard::G1_4 => 512usize,
            }),
    {
        match self {
            DvbTGuard::G1_32 => DVB_T_N_FFT / 32,
            DvbTGuard::G1_16 => DVB_T_N_FFT / 16,
            DvbTGuard::G1_8 => DVB_T_N_FFT / 8,
            DvbTGuard::G1_4 => DVB_T_N_FFT / 4,
        }
    }
}

/// Short label for a guard interval.
pub fn guard_label(g: DvbTGuard) -> (s: &'static str)
    ensures
        s@ == guard_text(g),
{
    match g {
        DvbTGuard::G1_32 => "1/32",
        DvbTGuard::G1_16 => "1/16",
        DvbTGuard::G1_8 => "1/8",
        DvbTGuard::G1_4 => "1/4",
    }
}

impl DvbTConstellation {
    fn at(i: usize) -> (c: DvbTConstellation)
        ensures
            c == constellation_at(i as int),
    {
        if i == 0 {
            DvbTConstellation::Qpsk
        } else if i == 1 {
            DvbTConstellation::Qam16
        } else {
            DvbTConstellation::Qam64
        }
    }
}

/// Short label for a constellation.
pub fn constellation_label(c: DvbTConstellation) -> (s: &'static str)
    ensures
        s@ == constellation_text(c),
{
    match c {
        DvbTConstellation::Qpsk => "QPSK",
        DvbTConstellation::Qam16 => "QAM16",
        DvbTConstellation::Qam64 => "QAM64",
    }
}

fn constellation_alt_label(c: DvbTConstellation) -> (s: Option<&'static str>)
    ensures
        match s {
            Some(t) => constellation_alt_text(c) == Some(t@),
            None => constellation_alt_text(c).is_none(),
        },
{
    match c {
        DvbTConstellation::Qpsk => None,
        DvbTConstellation::Qam16 => Some("16-QAM"),
        DvbTConstellation::Qam64 => Some("64-QAM"),
    }
}

impl DvbTCodeRate {
    fn at(i: usize) -> (r: DvbTCodeRate)
        ensures
            r == code_rate_at(i as int),
    {
        if i == 0 {
            DvbTCodeRate::R1_2
        } else if i == 1 {
            DvbTCodeRate::R2_3
        } else if i == 2 {
            DvbTCodeRate::R3_4
        } else if i == 3 {
            DvbTCodeRate::R5_6
        } else {
            DvbTCodeRate::R7_8
        }
    }
}

/// Short label for an inner code rate.
pub fn code_rate_label(r: DvbTCodeRate) -> (s: &'static str)
    ensures
        s@ == code_rate_text(r),
{
    match r {
        DvbTCodeRate::R1_2 => "1/2",
        DvbTCodeRate::R2_3 => "2/3",
        DvbTCodeRate::R3_4 => "3/4",
        DvbTCodeRate::R5_6 => "5/6",
        DvbTCodeRate::R7_8 => "7/8",
    }
}

/// The inner code rate as `(k, n)`.
pub fn code_rate_fraction(r: DvbTCodeRate) -> (f: (usize, usize))
    ensures
        f == (match r {
            DvbTCodeRate::R1_2 => (1usize, 2usize),
            DvbTCodeRate::R2_3 => (2usize, 3usize),
            DvbTCodeRate::R3_4 => (3usize, 4usize),
            DvbTCodeRate::R5_6 => (5usize, 6usize),
            DvbTCodeRate::R7_8 => (7usize, 8usize),
        }),
{
    match r {
        DvbTCodeRate::R1_2 => (1, 2),
        DvbTCodeRate::R2_3 => (2, 3),
        DvbTCodeRate::R3_4 => (3, 4),
        DvbTCodeRate::R5_6 => (5, 6),
        DvbTCodeRate::R7_8 => (7, 8),
    }
}

/// The guard interval a configured label names exactly, trimmed.
pub fn parse_guard(s: &str) -> (r: Option<DvbTGuard>)
    ensures
        match r {
            Some(g) => guard_text(g) == trimmed(s@),
            None => forall|i: int| 0 <= i < 4 ==> guard_text(#[trigger] guard_at(i)) != trimmed(s@),
        },
        forall|g: DvbTGuard| #[trigger] guard_text(g) == trimmed(s@) ==> r == Some(g),
{

    let want = trim(s);
    let mut i: usize = 0;
    while i < 4
        invariant
            i <= 4,
            want@ == trimmed(s@),
            forall|j: int| 0 <= j < i ==> guard_text(#[trigger] guard_at(j)) != trimmed(s@),
        decreases 4 - i,
    {
        let g = DvbTGuard::at(i);
        if str_eq(guard_label(g), want) {
            proof {
                assert forall|c: DvbTGuard| #[trigger] guard_text(c) == trimmed(s@) implies Some(g)
                    == Some(c) by {
                    lemma_guard_labels(c, g);
                }
            }
            return Some(g);
        }
        i = i + 1;
    }
    proof {
        assert forall|c: DvbTGuard| #[trigger] guard_text(c) == trimmed(s@) implies None::<DvbTGuard>
            == Some(c) by {
            lemma_guard_labels(c, c);
            let k = choose|k: int| 0 <= k < 4 && #[trigger] guard_at(k) == c;
            assert(guard_text(guard_at(k)) != trimmed(s@));
        }
    }
    None
}

/// A constellation matches a written value: its label, or the standard's
/// `16-QAM` spelling, ignoring ASCII case.
pub open spec fn constellation_matches(c: DvbTConstellation, want: Seq<char>) -> bool {
    eq_ascii_fold(constellation_text(c), want) || match constellation_alt_text(c) {
        Some(t) => eq_ascii_fold(want, t),
        None => false,
    }
}

/// The constellation a configured label names: `QAM16` or `16-QAM`.
pub fn parse_constellation(s: &str) -> (r: Option<DvbTConstellation>)
    ensures
        match r {
            Some(c) => constellation_matches(c, trimmed(s@)),
            None => forall|i: int|
                0 <= i < 3 ==> !constellation_matches(#[trigger] constellation_at(i), trimmed(s@)),
        },
        r is None ==> forall|x: DvbTConstellation| !(#[trigger] constellation_matches(x, trimmed(s@))),
{
    let want = trim(s);
    let mut i: usize = 0;
    while i < 3
        invariant
            i <= 3,
            want@ == trimmed(s@),
            forall|j: int|
                0 <= j < i ==> !constellation_matches(#[trigger] constellation_at(j), trimmed(s@)),
        decreases 3 - i,
    {
        let c = DvbTConstellation::at(i);
        let hit = eq_ignore_ascii_case(constellation_label(c), want) || match constellation_alt_label(
            c,
        ) {
            Some(t) => eq_ignore_ascii_case(want, t),
            None => false,
        };
        if hit {
            return Some(c);
        }
        i = i + 1;
    }
    proof {
        assert forall|x: DvbTConstellation| !(#[trigger] constellation_matches(x, trimmed(s@))) by {
            lemma_constellation_listed(x);
            let k = choose|k: int| 0 <= k < 3 && #[trigger] constellation_at(k) == x;
            assert(!constellation_matches(constellation_at(k), trimmed(s@)));
        }
    }
    None
}

/// The code rate a configured label names exactly, trimmed.
pub fn parse_code_rate(s: &str) -> (r: Option<DvbTCodeRate>)
    ensures
        match r {
            Some(c) => code_rate_text(c) == trimmed(s@),
            None => forall|i: int| 0 <= i < 5 ==> code_rate_text(#[trigger] code_rate_at(i)) != trimmed(s@),
        },
        forall|c: DvbTCodeRate| #[trigger] code_rate_text(c) == trimmed(s@) ==> r == Some(c),
{

    let want = trim(s);
    let mut i: usize = 0;
    while i < 5
        invariant
            i <= 5,
            want@ == trimmed(s@),
            forall|j: int| 0 <= j < i ==> code_rate_text(#[trigger] code_rate_at(j)) != trimmed(s@),
        decreases 5 - i,
    {
        let r = DvbTCodeRate::at(i);
        if str_eq(code_rate_label(r), want) {
            proof {
                assert forall|c: DvbTCodeRate| #[trigger] code_rate_text(c) == trimmed(s@) implies Some(r)
                    == Some(c) by {
                    lemma_code_rate_labels(c, r);
                }
            }
            return Some(r);
        }
        i = i + 1;
    }
    proof {
        assert forall|c: DvbTCodeRate| #[trigger] code_rate_text(c) == trimmed(s@) implies None::<
            DvbTCodeRate,
        > == Some(c) by {
            lemma_code_rate_labels(c, c);
            let k = choose|k: int| 0 <= k < 5 && #[trigger] code_rate_at(k) == c;
            assert(code_rate_text(code_rate_at(k)) != trimmed(s@));
        }
    }
    None
}

/// Samples in one super-frame at a guard interval, at the waveform's rate:
/// `4 · 68 · (2048 + cp_len)`.
pub fn dvbt_super_frame_samples(guard: DvbTGuard) -> (n: usize)
    ensures
        n == 4 * 68 * (2048 + guard.cp_len_2k_spec()),
{
    DVB_T_FRAMES_PER_SUPER_FRAME * DVBT_SYMBOLS_PER_FRAME * (DVB_T_N_FFT + guard.cp_len_2k())
}

impl DvbTGuard {
    /// The cyclic prefix's length in the 2K mode.
    pub open spec fn cp_len_2k_spec(self) -> int {
        match self {
            DvbTGuard::G1_32 => 64,
            DvbTGuard::G1_16 => 128,
            DvbTGuard::G1_8 => 256,
            DvbTGuard::G1_4 => 512,
        }
    }
}

/// Bits one frame's data carriers hold: `68 · 1512 · v`.
pub open spec fn capacity_bits(c: DvbTConstellation) -> int {
    68 * 1512 * match c {
        DvbTConstellation::Qpsk => 2int,
        DvbTConstellation::Qam16 => 4int,
        DvbTConstellation::Qam64 => 6int,
    }
}

/// Bits one DVB-T frame's data carriers hold at a constellation.
pub fn dvbt_frame_capacity_bits(c: DvbTConstellation) -> (n: usize)
    ensures
        n == capacity_bits(c),
{
    DVBT_SYMBOLS_PER_FRAME * DVB_T_DATA_CARRIERS * c.bits_per_symbol()
}

/// The coded length, in bits, of `info_bytes` bytes through the DVB-T frame
/// chain at inner code rate `rate`: no CRC, RS(204,188), the Forney
/// interleaver, the K=7 convolutional code punctured to `rate`.
pub uninterp spec fn dvbt_coded_bits(info_bytes: nat, rate: DvbTCodeRate) -> nat;

/// Calls `block_plan` for the DVB-T frame chain and returns its
/// `coded_bits`.  The contract names the result, and states the one fact
/// its source shows about it that the search below needs: every stage of the
/// chain (Reed-Solomon, the interleaver's flush delay, a convolutional code
/// of rate at most 7/8) emits at least as many bits as it takes, so the
/// coded length is at least the eight bits of every input byte.
#[verifier::external_body]
fn coded_bits_for(info_bytes: usize, rate: DvbTCodeRate) -> (b: usize)
    requires
        info_bytes <= 1_000_000,
    ensures
        b == dvbt_coded_bits(info_bytes as nat, rate),
        b >= 8 * info_bytes,
{
    let rate = match rate {
        DvbTCodeRate::R1_2 => PunctureRate::R1_2,
        DvbTCodeRate::R2_3 => PunctureRate::R2_3,
        DvbTCodeRate::R3_4 => PunctureRate::R3_4,
        DvbTCodeRate::R5_6 => PunctureRate::R5_6,
        DvbTCodeRate::R7_8 => PunctureRate::R7_8,
    };
    let inner = InnerFec::Convolutional { rate, code: ConvCode::DvbK7 };
    let cache = CodecCache::new();
    block_plan(info_bytes, CrcKind::None, DVB_T_FRAME_OUTER, inner, DVB_T_FRAME_OUTER_IL,
        InterleaverKind::None, &cache).coded_bits
}

/// Coded bits of `n` whole transport-stream packets.
pub open spec fn packets_coded(n: int, rate: DvbTCodeRate) -> int {
    dvbt_coded_bits((n * 188) as nat, rate) as int
}

/// The packet count that fills a frame: the largest `n` whose coded stream
/// fits while `n + 1` packets' does not, or 1 when even one packet
/// overflows.
pub open spec fn fills_frame(n: int, c: DvbTConstellation, rate: DvbTCodeRate) -> bool {
    ||| (packets_coded(1, rate) > capacity_bits(c) && n == 1)
    ||| (n >= 1 && packets_coded(n, rate) <= capacity_bits(c) && packets_coded(n + 1, rate)
        > capacity_bits(c))
}

/// TS packets one frame carries when the payload fills it.  Coded length
/// grows with the packet count in practice, so a doubling search and then a
/// bisection find the boundary in about twenty block plans; the result is a
/// boundary between a count that fits and the next that does not, whatever
/// the coded lengths are.
pub fn dvbt_frame_payload_packets(c: DvbTConstellation, rate: DvbTCodeRate) -> (n: usize)
    ensures
        fills_frame(n as int, c, rate),
        1 <= n <= 1000,
{
    let capacity = dvbt_frame_capacity_bits(c);
    if coded_bits_for(TS_PACKET_LEN, rate) > capacity {
        return 1;
    }
    let mut lo: usize = 1;
    loop
        invariant
            capacity == capacity_bits(c),
            capacity <= 616896,
            1 <= lo,
            1504 * lo <= capacity,
            packets_coded(lo as int, rate) <= capacity,
        ensures
            1 <= lo,
            1504 * lo <= capacity,
            packets_coded(lo as int, rate) <= capacity,
            packets_coded(2 * lo as int, rate) > capacity,
        decreases capacity - lo,
    {
        let b = coded_bits_for(lo * 2 * TS_PACKET_LEN, rate);
        assert(packets_coded(2 * lo as int, rate) == b);
        if b > capacity {
            break;
        }
        lo = lo * 2;
    }
    let mut hi: usize = lo * 2;
    while hi - lo > 1
        invariant
            capacity == capacity_bits(c),
            1 <= lo < hi,
            hi <= 1000,
            packets_coded(lo as int, rate) <= capacity,
            packets_coded(hi as int, rate) > capacity,
        decreases hi - lo,
    {
        let mid = lo + (hi - lo) / 2;
        let b = coded_bits_for(mid * TS_PACKET_LEN, rate);
        assert(packets_coded(mid as int, rate) == b);
        if b <= capacity {
            lo = mid;
        } else {
            hi = mid;
        }
    }
    lo
}

/// TS payload bytes one frame carries when the payload fills it: the packet
/// count times the 187 payload bytes each carries.
pub fn dvbt_frame_payload_bytes(c: DvbTConstellation, rate: DvbTCodeRate) -> (n: usize)
    ensures
        exists|p: int| fills_frame(p, c, rate) && n == p * 187,
{
    let p = dvbt_frame_payload_packets(c, rate);
    p * TS_PAYLOAD_LEN
}

} // verus!
