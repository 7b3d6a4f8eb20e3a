//! The DVB-T source's channel bandwidths, spectral-shaping parameters,
//! configuration labels and frame accounting.

use vstd::prelude::*;

use crate::text::{eq_ascii_fold, eq_ignore_ascii_case, trim, trimmed};

verus! {

/// Samples of the symbol-window and mask budget, at every guard interval.
pub const DVBT_SHAPING_SLACK: usize = 32;

/// A DVB-T channel bandwidth: three narrowband (amateur DATV) modes and the
/// three broadcast widths.
#[derive(Clone, Copy, PartialEq, Eq, Debug, Structural)]
pub enum DvbTBandwidth {
    Bw333kHz,
    Bw1MHz,
    Bw2MHz,
    Bw6MHz,
    Bw7MHz,
    Bw8MHz,
}

/// Default bandwidth on startup / reset.
pub const DVBT_DEFAULT_BANDWIDTH: DvbTBandwidth = DvbTBandwidth::Bw1MHz;

/// The display label of a bandwidth.
pub open spec fn bandwidth_label(b: DvbTBandwidth) -> Seq<char> {
    match b {
        DvbTBandwidth::Bw333kHz => "333k"@,
        DvbTBandwidth::Bw1MHz => "1M"@,
        DvbTBandwidth::Bw2MHz => "2M"@,
        DvbTBandwidth::Bw6MHz => "6M"@,
        DvbTBandwidth::Bw7MHz => "7M"@,
        DvbTBandwidth::Bw8MHz => "8M"@,
    }
}

/// The bandwidths in display order.
/// Every value is listed among the first 6.
pub proof fn lemma_bandwidth_listed(x: DvbTBandwidth)
    ensures
        exists|i: int| 0 <= i < 6 && #[trigger] bandwidth_at(i) == x,
{
    match x {
        DvbTBandwidth::Bw333kHz => assert(bandwidth_at(0) == x),
        DvbTBandwidth::Bw1MHz => assert(bandwidth_at(1) == x),
        DvbTBandwidth::Bw2MHz => assert(bandwidth_at(2) == x),
        DvbTBandwidth::Bw6MHz => assert(bandwidth_at(3) == x),
        DvbTBandwidth::Bw7MHz => assert(bandwidth_at(4) == x),
        DvbTBandwidth::Bw8MHz => assert(bandwidth_at(5) == x),
    }
}

pub open spec fn bandwidth_at(i: int) -> DvbTBandwidth {
    if i == 0 {
        DvbTBandwidth::Bw333kHz
    } else if i == 1 {
        DvbTBandwidth::Bw1MHz
    } else if i == 2 {
        DvbTBandwidth::Bw2MHz
    } else if i == 3 {
        DvbTBandwidth::Bw6MHz
    } else if i == 4 {
        DvbTBandwidth::Bw7MHz
    } else {
        DvbTBandwidth::Bw8MHz
    }
}

impl DvbTBandwidth {
    /// Short label for the HUD / settings toggle.
    pub fn label(self) -> (s: &'static str)
        ensures
            s@ == bandwidth_label(self),
    {
        match self {
            DvbTBandwidth::Bw333kHz => "333k",
            DvbTBandwidth::Bw1MHz => "1M",
            DvbTBandwidth::Bw2MHz => "2M",
            DvbTBandwidth::Bw6MHz => "6M",
            DvbTBandwidth::Bw7MHz => "7M",
            DvbTBandwidth::Bw8MHz => "8M",
        }
    }

    fn at(i: usize) -> (b: DvbTBandwidth)
        ensures
            b == bandwidth_at(i as int),
    {
        if i == 0 {
            DvbTBandwidth::Bw333kHz
        } else if i == 1 {
            DvbTBandwidth::Bw1MHz
        } else if i == 2 {
            DvbTBandwidth::Bw2MHz
        } else if i == 3 {
            DvbTBandwidth::Bw6MHz
        } else if i == 4 {
            DvbTBandwidth::Bw7MHz
        } else {
            DvbTBandwidth::Bw8MHz
        }
    }
}

/// Symbol-window roll-off, as a fraction of the shaping budget.
#[derive(Clone, Copy, PartialEq, Eq, Debug, Structural)]
pub enum DvbTTaper {
    Off,
    Eighth,
    Quarter,
    ThreeEighths,
}

/// The display label of a taper.
pub open spec fn taper_label(t: DvbTTaper) -> Seq<char> {
    match t {
        DvbTTaper::Off => "off"@,
        DvbTTaper::Eighth => "1/8"@,
        DvbTTaper::Quarter => "1/4"@,
        DvbTTaper::ThreeEighths => "3/8"@,
    }
}

/// The tapers in display order.
/// Every value is listed among the first 4.
pub proof fn lemma_taper_listed(x: DvbTTaper)
    ensures
        exists|i: int| 0 <= i < 4 && #[trigger] taper_at(i) == x,
{
    match x {
        DvbTTaper::Off => assert(taper_at(0) == x),
        DvbTTaper::Eighth => assert(taper_at(1) == x),
        DvbTTaper::Quarter => assert(taper_at(2) == x),
        DvbTTaper::ThreeEighths => assert(taper_at(3) == x),
    }
}

pub open spec fn taper_at(i: int) -> DvbTTaper {
    if i == 0 {
        DvbTTaper::Off
    } else if i == 1 {
        DvbTTaper::Eighth
    } else if i == 2 {
        DvbTTaper::Quarter
    } else {
        DvbTTaper::ThreeEighths
    }
}

/// Taper length per symbol edge, in samples.
pub open spec fn taper_roll_off(t: DvbTTaper) -> int {
    match t {
        DvbTTaper::Off => 0,
        DvbTTaper::Eighth => DVBT_SHAPING_SLACK as int / 8,
        DvbTTaper::Quarter => DVBT_SHAPING_SLACK as int / 4,
        DvbTTaper::ThreeEighths => 3 * DVBT_SHAPING_SLACK as int / 8,
    }
}

impl DvbTTaper {
    /// Raised-cosine taper length per symbol edge, in samples.
    pub fn roll_off(self) -> (n: usize)
        ensures
            n == taper_roll_off(self),
    {
        match self {
            DvbTTaper::Off => 0,
            DvbTTaper::Eighth => DVBT_SHAPING_SLACK / 8,
            DvbTTaper::Quarter => DVBT_SHAPING_SLACK / 4,
            DvbTTaper::ThreeEighths => 3 * DVBT_SHAPING_SLACK / 8,
        }
    }

    /// Short label for the HUD / settings toggle.
    pub fn label(self) -> (s: &'static str)
        ensures
            s@ == taper_label(self),
    {
        match self {
            DvbTTaper::Off => "off",
            DvbTTaper::Eighth => "1/8",
            DvbTTaper::Quarter => "1/4",
            DvbTTaper::ThreeEighths => "3/8",
        }
    }

    fn at(i: usize) -> (t: DvbTTaper)
        ensures
            t == taper_at(i as int),
    {
        if i == 0 {
            DvbTTaper::Off
        } else if i == 1 {
            DvbTTaper::Eighth
        } else if i == 2 {
            DvbTTaper::Quarter
        } else {
            DvbTTaper::ThreeEighths
        }
    }
}

/// Baseband spectral-mask stop-band depth.
#[derive(Clone, Copy, PartialEq, Eq, Debug, Structural)]
pub enum DvbTMask {
    Off,
    Db40,
    Db60,
    Db80,
}

/// The display label of a mask.
pub open spec fn mask_label(m: DvbTMask) -> Seq<char> {
    match m {
        DvbTMask::Off => "off"@,
        DvbTMask::Db40 => "40 dB"@,
        DvbTMask::Db60 => "60 dB"@,
        DvbTMask::Db80 => "80 dB"@,
    }
}

/// The number before ` dB` in a mask's label.
pub open spec fn mask_number(m: DvbTMask) -> Option<Seq<char>> {
    match m {
        DvbTMask::Off => None,
        DvbTMask::Db40 => Some("40"@),
        DvbTMask::Db60 => Some("60"@),
        DvbTMask::Db80 => Some("80"@),
    }
}

/// The masks in display order.
/// Every value is listed among the first 4.
pub proof fn lemma_mask_listed(x: DvbTMask)
    ensures
        exists|i: int| 0 <= i < 4 && #[trigger] mask_at(i) == x,
{
    match x {
        DvbTMask::Off => assert(mask_at(0) == x),
        DvbTMask::Db40 => assert(mask_at(1) == x),
        DvbTMask::Db60 => assert(mask_at(2) == x),
        DvbTMask::Db80 => assert(mask_at(3) == x),
    }
}

pub open spec fn mask_at(i: int) -> DvbTMask {
    if i == 0 {
        DvbTMask::Off
    } else if i == 1 {
        DvbTMask::Db40
    } else if i == 2 {
        DvbTMask::Db60
    } else {
        DvbTMask::Db80
    }
}

impl DvbTMask {
    /// Short label for the HUD / settings toggle.
    pub fn label(self) -> (s: &'static str)
        ensures
            s@ == mask_label(self),
    {
        match self {
            DvbTMask::Off => "off",
            DvbTMask::Db40 => "40 dB",
            DvbTMask::Db60 => "60 dB",
            DvbTMask::Db80 => "80 dB",
        }
    }

    fn number(self) -> (s: Option<&'static str>)
        ensures
            match s {
                Some(n) => mask_number(self) == Some(n@),
                None => mask_number(self).is_none(),
            },
    {
        match self {
            DvbTMask::Off => None,
            DvbTMask::Db40 => Some("40"),
            DvbTMask::Db60 => Some("60"),
            DvbTMask::Db80 => Some("80"),
        }
    }

    fn at(i: usize) -> (m: DvbTMask)
        ensures
            m == mask_at(i as int),
    {
        if i == 0 {
            DvbTMask::Off
        } else if i == 1 {
            DvbTMask::Db40
        } else if i == 2 {
            DvbTMask::Db60
        } else {
            DvbTMask::Db80
        }
    }
}

/// Default taper (off), mask (60 dB) and shaping (on).
pub const DVBT_DEFAULT_TAPER: DvbTTaper = DvbTTaper::Off;

pub const DVBT_DEFAULT_MASK: DvbTMask = DvbTMask::Db60;

pub const DVBT_DEFAULT_SHAPING_ENABLED: bool = true;

/// The out-of-band spectral-shaping parameter set: a symbol taper and a
/// baseband mask.
#[derive(Clone, Copy, PartialEq, Eq, Debug, Structural)]
pub struct DvbTShaping {
    pub enabled: bool,
    pub taper: DvbTTaper,
    pub mask: DvbTMask,
}

/// The shaping-disabled configuration.
pub open spec fn shaping_off() -> DvbTShaping {
    DvbTShaping { enabled: false, taper: DvbTTaper::Off, mask: DvbTMask::Off }
}

/// What is rendered: the set itself when enabled, else no shaping.
pub open spec fn shaping_effective(s: DvbTShaping) -> DvbTShaping {
    if s.enabled {
        s
    } else {
        shaping_off()
    }
}

impl DvbTShaping {
    /// The shaping-disabled configuration: no taper, no mask.
    pub fn off() -> (s: Self)
        ensures
            s == shaping_off(),
    {
        DvbTShaping { enabled: false, taper: DvbTTaper::Off, mask: DvbTMask::Off }
    }

    /// The enabled defaults.
    pub fn default_enabled() -> (s: Self)
        ensures
            s == (DvbTShaping {
                enabled: DVBT_DEFAULT_SHAPING_ENABLED,
                taper: DVBT_DEFAULT_TAPER,
                mask: DVBT_DEFAULT_MASK,
            }),
    {
        DvbTShaping {
            enabled: DVBT_DEFAULT_SHAPING_ENABLED,
            taper: DVBT_DEFAULT_TAPER,
            mask: DVBT_DEFAULT_MASK,
        }
    }

    /// What is actually rendered: this set, or [`off`](Self::off) when
    /// shaping is disabled.
    pub fn effective(&self) -> (s: Self)
        ensures
            s == shaping_effective(*self),
    {
        if self.enabled {
            *self
        } else {
            Self::off()
        }
    }

    /// Symbol-window roll-off in samples, after the enable flag.
    pub fn roll_off(&self) -> (n: usize)
        ensures
            n == taper_roll_off(shaping_effective(*self).taper),
    {
        self.effective().taper.roll_off()
    }
}

/// A bandwidth value with a trailing `Hz` and then `hz` removed, each as
/// many times as it repeats: `trim_end_matches`.
pub open spec fn strip_all_suffix(s: Seq<char>, suf: Seq<char>) -> Seq<char>
    decreases s.len(),
{
    if suf.len() > 0 && s.len() >= suf.len() && s.subrange(s.len() - suf.len(), s.len() as int)
        == suf {
        strip_all_suffix(s.subrange(0, s.len() - suf.len()), suf)
    } else {
        s
    }
}

/// What a written bandwidth is compared as: trimmed, then with `Hz` and
/// then `hz` taken off the end.
pub open spec fn bandwidth_want(s: Seq<char>) -> Seq<char> {
    strip_all_suffix(strip_all_suffix(trimmed(s), "Hz"@), "hz"@)
}

fn ends_with_h_z(s: &str, n: usize, upper: bool) -> (r: bool)
    requires
        n == s@.len(),
    ensures
        r == (n >= 2 && s@.subrange(n - 2, n as int) == (if upper {
            "Hz"@
        } else {
            "hz"@
        })),
{
    proof {
        reveal_strlit("Hz");
        reveal_strlit("hz");
    }
    if n < 2 {
        return false;
    }
    let a = s.get_char(n - 2);
    let b = s.get_char(n - 1);
    let r = (if upper {
        a == 'H'
    } else {
        a == 'h'
    }) && b == 'z';
    proof {
        let t = s@.subrange(n - 2, n as int);
        let lit = if upper {
            "Hz"@
        } else {
            "hz"@
        };
        if r {
            assert(t =~= lit);
        } else {
            assert(t[0] != lit[0] || t[1] != lit[1]);
        }
    }
    r
}

fn strip_suffix_all<'a>(s: &'a str, upper: bool) -> (r: &'a str)
    ensures
        r@ == strip_all_suffix(
            s@,
            if upper {
                "Hz"@
            } else {
                "hz"@
            },
        ),
{
    proof {
        reveal_strlit("Hz");
        reveal_strlit("hz");
    }
    let ghost suf = if upper {
        "Hz"@
    } else {
        "hz"@
    };
    let mut cur: &'a str = s;
    let mut n = cur.unicode_len();
    while ends_with_h_z(cur, n, upper)
        invariant
            n == cur@.len(),
            suf.len() == 2,
            suf == (if upper {
                "Hz"@
            } else {
                "hz"@
            }),
            strip_all_suffix(cur@, suf) == strip_all_suffix(s@, suf),
        decreases n,
    {
        let next = cur.substring_char(0, n - 2);
        assert(strip_all_suffix(cur@, suf) == strip_all_suffix(next@, suf));
        cur = next;
        n = n - 2;
    }
    cur
}

/// The bandwidth a configured label names, ignoring ASCII case; the
/// spelled-out forms `1MHz` and `333kHz` are accepted too.
pub fn parse_bandwidth(s: &str) -> (r: Option<DvbTBandwidth>)
    ensures
        match r {
            Some(b) => eq_ascii_fold(bandwidth_label(b), bandwidth_want(s@)),
            None => forall|i: int|
                0 <= i < 6 ==> !eq_ascii_fold(bandwidth_label(#[trigger] bandwidth_at(i)), bandwidth_want(s@)),
        },
        r is None ==> forall|x: DvbTBandwidth| !eq_ascii_fold(#[trigger] bandwidth_label(x), bandwidth_want(s@)),
{
    let t = trim(s);
    let u = strip_suffix_all(t, true);
    let want = strip_suffix_all(u, false);
    let mut i: usize = 0;
    while i < 6
        invariant
            i <= 6,
            want@ == bandwidth_want(s@),
            forall|j: int|
                0 <= j < i ==> !eq_ascii_fold(bandwidth_label(#[trigger] bandwidth_at(j)), bandwidth_want(s@)),
        decreases 6 - i,
    {
        let b = DvbTBandwidth::at(i);
        if eq_ignore_ascii_case(b.label(), want) {
            return Some(b);
        }
        i = i + 1;
    }
    proof {
        assert forall|x: DvbTBandwidth| !eq_ascii_fold(#[trigger] bandwidth_label(x), bandwidth_want(s@)) by {
            lemma_bandwidth_listed(x);
            let k = choose|k: int| 0 <= k < 6 && #[trigger] bandwidth_at(k) == x;
            assert(!eq_ascii_fold(bandwidth_label(bandwidth_at(k)), bandwidth_want(s@)));
        }
    }
    None
}

/// The taper a configured label names, ignoring ASCII case.
pub fn parse_taper(s: &str) -> (r: Option<DvbTTaper>)
    ensures
        match r {
            Some(t) => eq_ascii_fold(taper_label(t), trimmed(s@)),
            None => forall|i: int| 0 <= i < 4 ==> !eq_ascii_fold(taper_label(#[trigger] taper_at(i)), trimmed(s@)),
        },
        r is None ==> forall|x: DvbTTaper| !eq_ascii_fold(#[trigger] taper_label(x), trimmed(s@)),
{
    let want = trim(s);
    let mut i: usize = 0;
    while i < 4
        invariant
            i <= 4,
            want@ == trimmed(s@),
            forall|j: int| 0 <= j < i ==> !eq_ascii_fold(taper_label(#[trigger] taper_at(j)), trimmed(s@)),
        decreases 4 - i,
    {
        let t = DvbTTaper::at(i);
        if eq_ignore_ascii_case(t.label(), want) {
            return Some(t);
        }
        i = i + 1;
    }
    proof {
        assert forall|x: DvbTTaper| !eq_ascii_fold(#[trigger] taper_label(x), trimmed(s@)) by {
            lemma_taper_listed(x);
            let k = choose|k: int| 0 <= k < 4 && #[trigger] taper_at(k) == x;
            assert(!eq_ascii_fold(taper_label(taper_at(k)), trimmed(s@)));
        }
    }
    None
}

/// A mask label matches a written value: the whole label, or its number
/// alone, ignoring ASCII case.
pub open spec fn mask_matches(m: DvbTMask, want: Seq<char>) -> bool {
    eq_ascii_fold(mask_label(m), want) || match mask_number(m) {
        Some(n) => eq_ascii_fold(n, want),
        None => false,
    }
}

/// The mask a configured label names: `60 dB` or `60`.
pub fn parse_mask(s: &str) -> (r: Option<DvbTMask>)
    ensures
        match r {
            Some(m) => mask_matches(m, trimmed(s@)),
            None => forall|i: int| 0 <= i < 4 ==> !mask_matches(#[trigger] mask_at(i), trimmed(s@)),
        },
        r is None ==> forall|x: DvbTMask| !(#[trigger] mask_matches(x, trimmed(s@))),
{
    let want = trim(s);
    let mut i: usize = 0;
    while i < 4
        invariant
            i <= 4,
            want@ == trimmed(s@),
            forall|j: int| 0 <= j < i ==> !mask_matches(#[trigger] mask_at(j), trimmed(s@)),
        decreases 4 - i,
    {
        let m = DvbTMask::at(i);
        let hit = eq_ignore_ascii_case(m.label(), want) || match m.number() {
            Some(n) => eq_ignore_ascii_case(n, want),
            None => false,
        };
        if hit {
            return Some(m);
        }
        i = i + 1;
    }
    proof {
        assert forall|x: DvbTMask| !(#[trigger] mask_matches(x, trimmed(s@))) by {
            lemma_mask_listed(x);
            let k = choose|k: int| 0 <= k < 4 && #[trigger] mask_at(k) == x;
            assert(!mask_matches(mask_at(k), trimmed(s@)));
        }
    }
    None
}

/// Running frame accounting across a burst.  Every fully-arrived frame is
/// reported one way or the other, so `decoded + failed` is the whole
/// population.
#[derive(Clone, Copy, Debug, Default, PartialEq, Eq)]
pub struct DvbTRxStats {
    /// Frames that decoded.
    pub decoded: u64,
    /// Frames the demodulator reported as failed.
    pub failed: u64,
    /// Bytes the outer code repaired across every decoded frame.
    pub corrected_bytes: u64,
}

impl DvbTRxStats {
    /// Frames that should have arrived.
    pub fn expected(&self) -> (n: u64)
        requires
            self.decoded + self.failed <= u64::MAX,
        ensures
            n == self.decoded + self.failed,
    {
        self.decoded + self.failed
    }
}

} // verus!
