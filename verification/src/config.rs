//! The viewer's configuration as the library reads it: the per-source
//! blocks' labelled and integer settings, and the accessors that resolve
//! each to its value or its default.

use vstd::prelude::*;

use crate::source::cofdm::{
    parse_bw_fraction, parse_mask as parse_cofdm_mask, parse_taper as parse_cofdm_taper,
    CofdmBwFraction, CofdmMask, CofdmTaper, COFDM_DEFAULT_BW_FRACTION, COFDM_DEFAULT_MASK,
    COFDM_DEFAULT_SHAPING_ENABLED, COFDM_DEFAULT_TAPER,
};
use crate::source::dvbt::{
    parse_bandwidth, parse_mask as parse_dvbt_mask, parse_taper as parse_dvbt_taper,
    DvbTBandwidth, DvbTMask, DvbTTaper, DVBT_DEFAULT_BANDWIDTH, DVBT_DEFAULT_MASK,
    DVBT_DEFAULT_SHAPING_ENABLED, DVBT_DEFAULT_TAPER,
};
use crate::source::cofdm;
use crate::source::dvbt_frame::{
    parse_code_rate, parse_constellation, parse_guard, DvbTCodeRate, DvbTConstellation, DvbTGuard,
    DVBT_DEFAULT_CODE_RATE, DVBT_DEFAULT_CONSTELLATION, DVBT_DEFAULT_GUARD,
};
use crate::source::dvbt_frame;
use crate::source::dvbt;
use crate::text::{eq_ascii_fold, trimmed};

verus! {

/// The `sources.cofdm` block.
#[derive(Debug, Clone, Default)]
pub struct CofdmConfig {
    /// One of "1/8", "1/4", "1/3", "1/2", "2/3", "3/4", "7/8".
    pub bandwidth: Option<String>,
    pub shaping: Option<bool>,
    /// Null carriers per band edge; absent means whatever `bandwidth` implies.
    pub edge_guard: Option<usize>,
    pub include_dc: Option<bool>,
    /// "off", "1/8", "1/4", "3/8".
    pub taper: Option<String>,
    /// "off", "40", "60", "80".
    pub mask: Option<String>,
}

/// The `sources.dvbt` block.
#[derive(Debug, Clone, Default)]
pub struct DvbTConfig {
    /// "333k", "1M", "2M", "6M", "7M", "8M".
    pub bandwidth: Option<String>,
    pub guard: Option<String>,
    pub constellation: Option<String>,
    pub code_rate: Option<String>,
    pub shaping: Option<bool>,
    pub taper: Option<String>,
    pub mask: Option<String>,
}

/// The `sources.cw` block.
#[derive(Debug, Clone, Default)]
pub struct CwConfig {
    pub canned_text: Option<String>,
    pub custom_text: Option<String>,
    pub msg_repeat: Option<u32>,
}

/// The `sources` section.
#[derive(Debug, Clone, Default)]
pub struct SourcesConfig {
    pub cofdm: Option<CofdmConfig>,
    pub dvbt: Option<DvbTConfig>,
    pub cw: Option<CwConfig>,
}

/// The configuration file.
#[derive(Debug, Clone, Default)]
pub struct ViewConfig {
    pub sources: Option<SourcesConfig>,
}

/// CW's default canned message.
pub const CW_DEFAULT_CANNED_TEXT: &'static str = "CQ CQ CQ DE N0GNR";

/// CW's default custom message.
pub const CW_DEFAULT_CUSTOM_TEXT: &'static str = "Custom message";

/// CW's default message repeat count.
pub const CW_DEFAULT_REPEAT: usize = 3;

impl ViewConfig {
    /// The `sources.cofdm` block, if any.
    pub open spec fn cofdm_spec(&self) -> Option<CofdmConfig> {
        match self.sources {
            Some(s) => s.cofdm,
            None => None,
        }
    }

    /// The `sources.dvbt` block, if any.
    pub open spec fn dvbt_spec(&self) -> Option<DvbTConfig> {
        match self.sources {
            Some(s) => s.dvbt,
            None => None,
        }
    }

    /// The `sources.cw` block, if any.
    pub open spec fn cw_spec(&self) -> Option<CwConfig> {
        match self.sources {
            Some(s) => s.cw,
            None => None,
        }
    }

    fn cofdm(&self) -> (r: Option<&CofdmConfig>)
        ensures
            match r {
                Some(c) => self.cofdm_spec() == Some(*c),
                None => self.cofdm_spec().is_none(),
            },
    {
        match &self.sources {
            Some(s) => match &s.cofdm {
                Some(c) => Some(c),
                None => None,
            },
            None => None,
        }
    }

    fn dvbt(&self) -> (r: Option<&DvbTConfig>)
        ensures
            match r {
                Some(c) => self.dvbt_spec() == Some(*c),
                None => self.dvbt_spec().is_none(),
            },
    {
        match &self.sources {
            Some(s) => match &s.dvbt {
                Some(c) => Some(c),
                None => None,
            },
            None => None,
        }
    }

    fn cw_cfg(&self) -> (r: Option<&CwConfig>)
        ensures
            match r {
                Some(c) => self.cw_spec() == Some(*c),
                None => self.cw_spec().is_none(),
            },
    {
        match &self.sources {
            Some(s) => match &s.cw {
                Some(c) => Some(c),
                None => None,
            },
            None => None,
        }
    }

    /// The configured COFDM bandwidth fraction: the one whose label is the
    /// trimmed text, or the default.
    pub fn cofdm_bw_fraction(&self) -> (r: CofdmBwFraction)
        ensures
            match self.cofdm_spec() {
                Some(c) => match c.bandwidth {
                    Some(s) => cofdm::fraction_label(r) == trimmed(s@) || (r
                        == COFDM_DEFAULT_BW_FRACTION && forall|i: int|
                        0 <= i < 7 ==> cofdm::fraction_label(#[trigger] cofdm::fraction_at(i))
                            != trimmed(s@)),
                    None => r == COFDM_DEFAULT_BW_FRACTION,
                },
                None => r == COFDM_DEFAULT_BW_FRACTION,
            },
    {
        match self.cofdm() {
            Some(c) => match &c.bandwidth {
                Some(s) => match parse_bw_fraction(s.as_str()) {
                    Some(f) => f,
                    None => COFDM_DEFAULT_BW_FRACTION,
                },
                None => COFDM_DEFAULT_BW_FRACTION,
            },
            None => COFDM_DEFAULT_BW_FRACTION,
        }
    }

    /// Whether COFDM shaping is on: as configured, else on.
    pub fn cofdm_shaping_enabled(&self) -> (r: bool)
        ensures
            r == match self.cofdm_spec() {
                Some(c) => match c.shaping {
                    Some(b) => b,
                    None => COFDM_DEFAULT_SHAPING_ENABLED,
                },
                None => COFDM_DEFAULT_SHAPING_ENABLED,
            },
    {
        match self.cofdm() {
            Some(c) => match c.shaping {
                Some(b) => b,
                None => COFDM_DEFAULT_SHAPING_ENABLED,
            },
            None => COFDM_DEFAULT_SHAPING_ENABLED,
        }
    }

    /// Configured COFDM edge guard, or `None` to derive it from the
    /// bandwidth fraction.
    pub fn cofdm_edge_guard(&self) -> (r: Option<usize>)
        ensures
            r == match self.cofdm_spec() {
                Some(c) => c.edge_guard,
                None => None,
            },
    {
        match self.cofdm() {
            Some(c) => c.edge_guard,
            None => None,
        }
    }

    /// Whether the COFDM DC subcarrier is occupied: as configured, else not.
    pub fn cofdm_include_dc(&self) -> (r: bool)
        ensures
            r == match self.cofdm_spec() {
                Some(c) => match c.include_dc {
                    Some(b) => b,
                    None => false,
                },
                None => false,
            },
    {
        match self.cofdm() {
            Some(c) => match c.include_dc {
                Some(b) => b,
                None => false,
            },
            None => false,
        }
    }

    /// The configured COFDM taper, matched ignoring ASCII case, or the
    /// default.
    pub fn cofdm_taper(&self) -> (r: CofdmTaper)
        ensures
            match self.cofdm_spec() {
                Some(c) => match c.taper {
                    Some(s) => eq_ascii_fold(cofdm::taper_label(r), trimmed(s@)) || (r
                        == COFDM_DEFAULT_TAPER && forall|i: int|
                        0 <= i < 4 ==> !eq_ascii_fold(
                            cofdm::taper_label(#[trigger] cofdm::taper_at(i)),
                            trimmed(s@),
                        )),
                    None => r == COFDM_DEFAULT_TAPER,
                },
                None => r == COFDM_DEFAULT_TAPER,
            },
    {
        match self.cofdm() {
            Some(c) => match &c.taper {
                Some(s) => match parse_cofdm_taper(s.as_str()) {
                    Some(t) => t,
                    None => COFDM_DEFAULT_TAPER,
                },
                None => COFDM_DEFAULT_TAPER,
            },
            None => COFDM_DEFAULT_TAPER,
        }
    }

    /// The configured COFDM mask (`60 dB` or `60`), or the default.
    pub fn cofdm_mask(&self) -> (r: CofdmMask)
        ensures
            match self.cofdm_spec() {
                Some(c) => match c.mask {
                    Some(s) => cofdm::mask_matches(r, trimmed(s@)) || (r == COFDM_DEFAULT_MASK
                        && forall|i: int|
                        0 <= i < 4 ==> !cofdm::mask_matches(#[trigger] cofdm::mask_at(i), trimmed(s@))),
                    None => r == COFDM_DEFAULT_MASK,
                },
                None => r == COFDM_DEFAULT_MASK,
            },
    {
        match self.cofdm() {
            Some(c) => match &c.mask {
                Some(s) => match parse_cofdm_mask(s.as_str()) {
                    Some(m) => m,
                    None => COFDM_DEFAULT_MASK,
                },
                None => COFDM_DEFAULT_MASK,
            },
            None => COFDM_DEFAULT_MASK,
        }
    }

    /// The configured DVB-T bandwidth, or the default.
    pub fn dvbt_bandwidth(&self) -> (r: DvbTBandwidth)
        ensures
            match self.dvbt_spec() {
                Some(c) => match c.bandwidth {
                    Some(s) => eq_ascii_fold(dvbt::bandwidth_label(r), dvbt::bandwidth_want(s@))
                        || (r == DVBT_DEFAULT_BANDWIDTH && forall|i: int|
                        0 <= i < 6 ==> !eq_ascii_fold(
                            dvbt::bandwidth_label(#[trigger] dvbt::bandwidth_at(i)),
                            dvbt::bandwidth_want(s@),
                        )),
                    None => r == DVBT_DEFAULT_BANDWIDTH,
                },
                None => r == DVBT_DEFAULT_BANDWIDTH,
            },
    {
        match self.dvbt() {
            Some(c) => match &c.bandwidth {
                Some(s) => match parse_bandwidth(s.as_str()) {
                    Some(b) => b,
                    None => DVBT_DEFAULT_BANDWIDTH,
                },
                None => DVBT_DEFAULT_BANDWIDTH,
            },
            None => DVBT_DEFAULT_BANDWIDTH,
        }
    }

    /// The configured DVB-T guard interval, or the default (1/32).
    pub fn dvbt_guard(&self) -> (r: DvbTGuard)
        ensures
            match self.dvbt_spec() {
                Some(c) => match c.guard {
                    Some(s) => dvbt_frame::guard_text(r) == trimmed(s@) || (r == DVBT_DEFAULT_GUARD
                        && forall|i: int|
                        0 <= i < 4 ==> dvbt_frame::guard_text(#[trigger] dvbt_frame::guard_at(i))
                            != trimmed(s@)),
                    None => r == DVBT_DEFAULT_GUARD,
                },
                None => r == DVBT_DEFAULT_GUARD,
            },
            match self.dvbt_spec() {
                Some(c) => match c.guard {
                    Some(s) => forall|k: DvbTGuard| #[trigger] dvbt_frame::guard_text(k) == trimmed(s@) ==> r == k,
                    None => true,
                },
                None => true,
            },
    {
        match self.dvbt() {
            Some(c) => match &c.guard {
                Some(s) => {
                    let t = s.as_str();
                    let parsed = parse_guard(t);
                    assert(t@ == s@);
                    match parsed {
                        Some(g) => g,
                        None => DVBT_DEFAULT_GUARD,
                    }
                },
                None => DVBT_DEFAULT_GUARD,
            },
            None => DVBT_DEFAULT_GUARD,
        }
    }

    /// The configured DVB-T constellation, or the default (QPSK).
    pub fn dvbt_constellation(&self) -> (r: DvbTConstellation)
        ensures
            match self.dvbt_spec() {
                Some(c) => match c.constellation {
                    Some(s) => dvbt_frame::constellation_matches(r, trimmed(s@)) || (r
                        == DVBT_DEFAULT_CONSTELLATION && forall|i: int|
                        0 <= i < 3 ==> !dvbt_frame::constellation_matches(
                            #[trigger] dvbt_frame::constellation_at(i),
                            trimmed(s@),
                        )),
                    None => r == DVBT_DEFAULT_CONSTELLATION,
                },
                None => r == DVBT_DEFAULT_CONSTELLATION,
            },
    {
        match self.dvbt() {
            Some(c) => match &c.constellation {
                Some(s) => match parse_constellation(s.as_str()) {
                    Some(k) => k,
                    None => DVBT_DEFAULT_CONSTELLATION,
                },
                None => DVBT_DEFAULT_CONSTELLATION,
            },
            None => DVBT_DEFAULT_CONSTELLATION,
        }
    }

    /// The configured DVB-T inner code rate, or the default (3/4).
    pub fn dvbt_code_rate(&self) -> (r: DvbTCodeRate)
        ensures
            match self.dvbt_spec() {
                Some(c) => match c.code_rate {
                    Some(s) => dvbt_frame::code_rate_text(r) == trimmed(s@) || (r
                        == DVBT_DEFAULT_CODE_RATE && forall|i: int|
                        0 <= i < 5 ==> dvbt_frame::code_rate_text(
                            #[trigger] dvbt_frame::code_rate_at(i),
                        ) != trimmed(s@)),
                    None => r == DVBT_DEFAULT_CODE_RATE,
                },
                None => r == DVBT_DEFAULT_CODE_RATE,
            },
            match self.dvbt_spec() {
                Some(c) => match c.code_rate {
                    Some(s) => forall|k: DvbTCodeRate| #[trigger] dvbt_frame::code_rate_text(k) == trimmed(s@) ==> r == k,
                    None => true,
                },
                None => true,
            },
    {
        match self.dvbt() {
            Some(c) => match &c.code_rate {
                Some(s) => {
                    let t = s.as_str();
                    let parsed = parse_code_rate(t);
                    assert(t@ == s@);
                    match parsed {
                        Some(k) => k,
                        None => DVBT_DEFAULT_CODE_RATE,
                    }
                },
                None => DVBT_DEFAULT_CODE_RATE,
            },
            None => DVBT_DEFAULT_CODE_RATE,
        }
    }

    /// Whether DVB-T shaping is on: as configured, else on.
    pub fn dvbt_shaping_enabled(&self) -> (r: bool)
        ensures
            r == match self.dvbt_spec() {
                Some(c) => match c.shaping {
                    Some(b) => b,
                    None => DVBT_DEFAULT_SHAPING_ENABLED,
                },
                None => DVBT_DEFAULT_SHAPING_ENABLED,
            },
    {
        match self.dvbt() {
            Some(c) => match c.shaping {
                Some(b) => b,
                None => DVBT_DEFAULT_SHAPING_ENABLED,
            },
            None => DVBT_DEFAULT_SHAPING_ENABLED,
        }
    }

    /// The configured DVB-T taper, or the default (off).
    pub fn dvbt_taper(&self) -> (r: DvbTTaper)
        ensures
            match self.dvbt_spec() {
                Some(c) => match c.taper {
                    Some(s) => eq_ascii_fold(dvbt::taper_label(r), trimmed(s@)) || (r
                        == DVBT_DEFAULT_TAPER && forall|i: int|
                        0 <= i < 4 ==> !eq_ascii_fold(
                            dvbt::taper_label(#[trigger] dvbt::taper_at(i)),
                            trimmed(s@),
                        )),
                    None => r == DVBT_DEFAULT_TAPER,
                },
                None => r == DVBT_DEFAULT_TAPER,
            },
    {
        match self.dvbt() {
            Some(c) => match &c.taper {
                Some(s) => match parse_dvbt_taper(s.as_str()) {
                    Some(t) => t,
                    None => DVBT_DEFAULT_TAPER,
                },
                None => DVBT_DEFAULT_TAPER,
            },
            None => DVBT_DEFAULT_TAPER,
        }
    }

    /// The configured DVB-T mask, or the default (60 dB).
    pub fn dvbt_mask(&self) -> (r: DvbTMask)
        ensures
            match self.dvbt_spec() {
                Some(c) => match c.mask {
                    Some(s) => dvbt::mask_matches(r, trimmed(s@)) || (r == DVBT_DEFAULT_MASK
                        && forall|i: int|
                        0 <= i < 4 ==> !dvbt::mask_matches(#[trigger] dvbt::mask_at(i), trimmed(s@))),
                    None => r == DVBT_DEFAULT_MASK,
                },
                None => r == DVBT_DEFAULT_MASK,
            },
    {
        match self.dvbt() {
            Some(c) => match &c.mask {
                Some(s) => match parse_dvbt_mask(s.as_str()) {
                    Some(m) => m,
                    None => DVBT_DEFAULT_MASK,
                },
                None => DVBT_DEFAULT_MASK,
            },
            None => DVBT_DEFAULT_MASK,
        }
    }

    /// The CW canned message: as configured, else the default.
    pub fn cw_canned_text(&self) -> (r: &str)
        ensures
            r@ == match self.cw_spec() {
                Some(c) => match c.canned_text {
                    Some(t) => t@,
                    None => CW_DEFAULT_CANNED_TEXT@,
                },
                None => CW_DEFAULT_CANNED_TEXT@,
            },
    {
        match self.cw_cfg() {
            Some(c) => match &c.canned_text {
                Some(t) => t.as_str(),
                None => CW_DEFAULT_CANNED_TEXT,
            },
            None => CW_DEFAULT_CANNED_TEXT,
        }
    }

    /// The CW custom message: as configured, else the default.
    pub fn cw_custom_text(&self) -> (r: &str)
        ensures
            r@ == match self.cw_spec() {
                Some(c) => match c.custom_text {
                    Some(t) => t@,
                    None => CW_DEFAULT_CUSTOM_TEXT@,
                },
                None => CW_DEFAULT_CUSTOM_TEXT@,
            },
    {
        match self.cw_cfg() {
            Some(c) => match &c.custom_text {
                Some(t) => t.as_str(),
                None => CW_DEFAULT_CUSTOM_TEXT,
            },
            None => CW_DEFAULT_CUSTOM_TEXT,
        }
    }

    /// The CW message repeat count: as configured but at least 1, else 3.
    pub fn cw_msg_repeat(&self) -> (r: usize)
        ensures
            r == match self.cw_spec() {
                Some(c) => match c.msg_repeat {
                    Some(v) => if v >= 1 {
                        v as usize
                    } else {
                        1
                    },
                    None => CW_DEFAULT_REPEAT,
                },
                None => CW_DEFAULT_REPEAT,
            },
    {
        match self.cw_cfg() {
            Some(c) => match c.msg_repeat {
                Some(v) => if v >= 1 {
                    v as usize
                } else {
                    1
                },
                None => CW_DEFAULT_REPEAT,
            },
            None => CW_DEFAULT_REPEAT,
        }
    }
}

} // verus!
