use orion_sdr_view::source::cofdm::{
    cofdm_mcs_facts, mcs_facts, ConstellationKind, InnerKind, McsEntry, PunctureKind, COFDM_MCS_INDEX,
};
use orion_sdr_view::source::tone::{advance_cycle, rest_phase, start_phase, CyclePhase, CycleState};
use orion_sdr_view::source::ft8::{format_ft8_message, Ft8Decoded};
use orion_sdr_view::config::{CofdmConfig, CwConfig, DvbTConfig, SourcesConfig, ViewConfig};
use orion_sdr_view::source::amdsb::BuiltinAudio;
use orion_sdr_view::source::codfm;
use orion_sdr_view::source::cofdm::{
    cofdm_data_carriers, cofdm_edge_guard_for, cofdm_occupied_half, hud_submode_str,
    parse_bw_fraction, parse_mask, parse_taper, CofdmBwFraction, CofdmMask, CofdmRxStats,
    CofdmShaping, CofdmTaper, FrameAccounting,
};
use orion_sdr_view::source::common::NoiseDomain;
use orion_sdr_view::source::cw::CwSyncFlags;
use orion_sdr_view::source::dvbt::{
    parse_bandwidth, parse_mask as parse_dvbt_mask, parse_taper as parse_dvbt_taper,
    DvbTBandwidth, DvbTMask, DvbTRxStats, DvbTShaping, DvbTTaper,
};
use orion_sdr_view::source::dvbt_frame::{
    code_rate_fraction, code_rate_label, constellation_label, dvbt_frame_capacity_bits,
    dvbt_frame_payload_bytes, dvbt_frame_payload_packets, dvbt_super_frame_samples, guard_label,
    parse_code_rate, parse_constellation, parse_guard, DvbTCodeRate, DvbTConstellation, DvbTGuard,
};
use orion_sdr_view::source::psk31::{hud_submode_str as psk31_hud, Psk31Mode};

#[test]
fn fraction_labels_and_half_widths() {
    assert_eq!(CofdmBwFraction::OneQuarter.label(), "1/4");
    assert_eq!(CofdmBwFraction::SevenEighths.label(), "7/8");
    assert_eq!(CofdmBwFraction::OneEighth.carrier_half(), 8);
    assert_eq!(CofdmBwFraction::OneThird.carrier_half(), 21);
    assert_eq!(CofdmBwFraction::TwoThirds.carrier_half(), 43);
    assert_eq!(CofdmBwFraction::SevenEighths.carrier_half(), 56);
}

#[test]
fn edge_guards_and_occupancy() {
    assert_eq!(cofdm_edge_guard_for(CofdmBwFraction::OneQuarter), 111);
    assert_eq!(cofdm_occupied_half(111), 16);
    assert_eq!(cofdm_occupied_half(127), 0);
    assert_eq!(cofdm_occupied_half(500), 0);
    for f in [CofdmBwFraction::OneEighth, CofdmBwFraction::OneHalf, CofdmBwFraction::ThreeQuarters] {
        assert_eq!(cofdm_occupied_half(cofdm_edge_guard_for(f)), f.carrier_half());
    }
}

#[test]
fn data_carriers_come_from_the_plan() {
    assert_eq!(cofdm_data_carriers(111, false), 32);
    assert_eq!(cofdm_data_carriers(111, true), 33);
    assert_eq!(cofdm_data_carriers(0, false), 254);
    assert_eq!(cofdm_data_carriers(127, false), 0);
    assert_eq!(cofdm_data_carriers(300, true), 0);
}

#[test]
fn taper_and_mask_labels() {
    assert_eq!(CofdmTaper::Quarter.roll_off(), 8);
    assert_eq!(CofdmTaper::ThreeEighths.roll_off(), 12);
    assert_eq!(CofdmTaper::Off.label(), "off");
    assert_eq!(CofdmMask::Db60.label(), "60 dB");
}

#[test]
fn shaping_sets() {
    let d = CofdmShaping::derived(CofdmBwFraction::OneHalf);
    assert!(!d.enabled);
    assert_eq!(d.edge_guard, 95);
    assert_eq!(d.taper, CofdmTaper::Off);
    let e = CofdmShaping::default_for(CofdmBwFraction::OneQuarter);
    assert!(e.enabled);
    assert_eq!(e.edge_guard, 111);
    assert_eq!(e.taper, CofdmTaper::Quarter);
    assert_eq!(e.mask, CofdmMask::Db60);
    let clamped = e.effective_at(CofdmBwFraction::OneQuarter, 0);
    assert_eq!(clamped.edge_guard, 111);
    let wide = CofdmShaping { edge_guard: 2, ..e }.effective_at(CofdmBwFraction::OneQuarter, 10);
    assert_eq!(wide.edge_guard, 10);
    let narrow = CofdmShaping { edge_guard: 125, ..e }.effective_at(CofdmBwFraction::OneQuarter, 0);
    assert_eq!(narrow.edge_guard, 119);
    let off = CofdmShaping { enabled: false, ..e }.effective_at(CofdmBwFraction::OneEighth, 0);
    assert_eq!(off, CofdmShaping::derived(CofdmBwFraction::OneEighth));
}

#[test]
fn cofdm_hud_text() {
    let s = CofdmShaping::default_for(CofdmBwFraction::OneQuarter);
    assert_eq!(hud_submode_str(CofdmBwFraction::OneQuarter, &s), "  bw 1/4  shp 1/4\u{b7}60 dB");
    let d = CofdmShaping::derived(CofdmBwFraction::OneThird);
    assert_eq!(hud_submode_str(CofdmBwFraction::OneThird, &d), "  bw 1/3");
}

#[test]
fn cofdm_labels_parse() {
    assert_eq!(parse_bw_fraction(" 1/4 "), Some(CofdmBwFraction::OneQuarter));
    assert_eq!(parse_bw_fraction("1/5"), None);
    assert_eq!(parse_taper("OFF"), Some(CofdmTaper::Off));
    assert_eq!(parse_taper("3/8"), Some(CofdmTaper::ThreeEighths));
    assert_eq!(parse_mask("60"), Some(CofdmMask::Db60));
    assert_eq!(parse_mask("40 DB"), Some(CofdmMask::Db40));
    assert_eq!(parse_mask("off"), Some(CofdmMask::Off));
    assert_eq!(parse_mask("70"), None);
}

#[test]
fn frame_accounting_excludes_failures_from_losses() {
    let mut a = FrameAccounting::new();
    a.on_accept(0);
    a.on_accept(1);
    a.on_failure();
    a.on_accept(3);
    assert_eq!(a.stats, CofdmRxStats { decoded: 3, failed: 1, lost: 0 });
    a.on_accept(7);
    assert_eq!(a.stats.lost, 3);
    assert_eq!(a.stats.expected(), 3 + 1 + 1 + 3);
    a.reset();
    assert_eq!(a, FrameAccounting::new());
}

#[test]
fn frame_accounting_wraps_at_the_buffer_seam() {
    let mut a = FrameAccounting::new();
    a.on_accept(38);
    a.on_accept(39);
    a.on_accept(0);
    a.on_accept(1);
    assert_eq!(a.stats.lost, 0);
    a.on_accept(5);
    assert_eq!(a.stats.lost, 3);
}

#[test]
fn dvbt_labels_parse() {
    assert_eq!(DvbTBandwidth::Bw333kHz.label(), "333k");
    assert_eq!(parse_bandwidth("1MHz"), Some(DvbTBandwidth::Bw1MHz));
    assert_eq!(parse_bandwidth(" 333kHz "), Some(DvbTBandwidth::Bw333kHz));
    assert_eq!(parse_bandwidth("8m"), Some(DvbTBandwidth::Bw8MHz));
    assert_eq!(parse_bandwidth("5M"), None);
    assert_eq!(parse_dvbt_taper("1/8"), Some(DvbTTaper::Eighth));
    assert_eq!(parse_dvbt_mask("80"), Some(DvbTMask::Db80));
    assert_eq!(DvbTTaper::ThreeEighths.roll_off(), 12);
}

#[test]
fn dvbt_shaping() {
    let d = DvbTShaping::default_enabled();
    assert!(d.enabled);
    assert_eq!(d.taper, DvbTTaper::Off);
    assert_eq!(d.mask, DvbTMask::Db60);
    let t = DvbTShaping { enabled: true, taper: DvbTTaper::Quarter, mask: DvbTMask::Db40 };
    assert_eq!(t.roll_off(), 8);
    assert_eq!(DvbTShaping { enabled: false, ..t }.roll_off(), 0);
    assert_eq!(DvbTShaping { enabled: false, ..t }.effective(), DvbTShaping::off());
    let s = DvbTRxStats { decoded: 4, failed: 1, corrected_bytes: 9 };
    assert_eq!(s.expected(), 5);
}

#[test]
fn dvbt_frames_fill_with_packets() {
    assert_eq!(dvbt_frame_capacity_bits(DvbTConstellation::Qpsk), 205_632);
    assert_eq!(dvbt_frame_payload_packets(DvbTConstellation::Qpsk, DvbTCodeRate::R1_2), 51);
    assert_eq!(dvbt_frame_payload_bytes(DvbTConstellation::Qpsk, DvbTCodeRate::R1_2), 51 * 187);
    let dense = dvbt_frame_payload_packets(DvbTConstellation::Qam64, DvbTCodeRate::R7_8);
    assert!(dense > 51);
}

#[test]
fn config_defaults_and_overrides() {
    let empty = ViewConfig::default();
    assert_eq!(empty.cofdm_bw_fraction(), CofdmBwFraction::OneQuarter);
    assert!(empty.cofdm_shaping_enabled());
    assert_eq!(empty.cofdm_edge_guard(), None);
    assert!(!empty.cofdm_include_dc());
    assert_eq!(empty.cofdm_taper(), CofdmTaper::Quarter);
    assert_eq!(empty.cofdm_mask(), CofdmMask::Db60);
    assert_eq!(empty.dvbt_bandwidth(), DvbTBandwidth::Bw1MHz);
    assert_eq!(empty.cw_canned_text(), "CQ CQ CQ DE N0GNR");
    assert_eq!(empty.cw_custom_text(), "Custom message");
    assert_eq!(empty.cw_msg_repeat(), 3);
    let cfg = ViewConfig {
        sources: Some(SourcesConfig {
            cofdm: Some(CofdmConfig {
                bandwidth: Some("1/2".to_owned()),
                shaping: Some(false),
                edge_guard: Some(40),
                include_dc: Some(true),
                taper: Some("nonsense".to_owned()),
                mask: Some("80".to_owned()),
            }),
            dvbt: Some(DvbTConfig {
                bandwidth: Some("6MHz".to_owned()),
                taper: Some("1/4".to_owned()),
                ..Default::default()
            }),
            cw: Some(CwConfig {
                canned_text: Some("TEST".to_owned()),
                custom_text: None,
                msg_repeat: Some(0),
            }),
        }),
    };
    assert_eq!(cfg.cofdm_bw_fraction(), CofdmBwFraction::OneHalf);
    assert!(!cfg.cofdm_shaping_enabled());
    assert_eq!(cfg.cofdm_edge_guard(), Some(40));
    assert!(cfg.cofdm_include_dc());
    assert_eq!(cfg.cofdm_taper(), CofdmTaper::Quarter);
    assert_eq!(cfg.cofdm_mask(), CofdmMask::Db80);
    assert_eq!(cfg.dvbt_bandwidth(), DvbTBandwidth::Bw6MHz);
    assert_eq!(cfg.dvbt_taper(), DvbTTaper::Quarter);
    assert_eq!(cfg.dvbt_mask(), DvbTMask::Db60);
    assert!(cfg.dvbt_shaping_enabled());
    assert_eq!(cfg.cw_canned_text(), "TEST");
    assert_eq!(cfg.cw_msg_repeat(), 1);
}

#[test]
fn small_source_types() {
    assert_eq!(BuiltinAudio::Morse.label(), "Morse");
    assert_eq!(BuiltinAudio::Voice.label(), "Voice");
    assert_eq!(codfm::hud_submode_str(), "");
    assert_eq!(psk31_hud(Psk31Mode::Bpsk31, false), "  mode b  msg n");
    assert_eq!(psk31_hud(Psk31Mode::Qpsk31, true), "  mode q  msg c");
    assert_eq!(NoiseDomain::Complex.components(), 2);
    assert!(CwSyncFlags::from_changes(false, true).wpm_or_word_space_changed);
    assert!(!CwSyncFlags::from_changes(false, false).wpm_or_word_space_changed);
}

#[test]
fn xorshift_step_from_one() {
    let mut rng: u64 = 1;
    let r = orion_sdr_view::source::common::next_u64(&mut rng);
    assert_eq!(r, 0x4082_2041);
    assert_eq!(rng, r);
    let r2 = orion_sdr_view::source::common::next_u64(&mut rng);
    assert_ne!(r2, 0);
    assert_ne!(r2, r);
}

#[test]
fn dvbt_guard_constellation_and_rate_parse() {
    assert_eq!(parse_guard(" 1/8 "), Some(DvbTGuard::G1_8));
    assert_eq!(parse_guard("1/32"), Some(DvbTGuard::G1_32));
    assert_eq!(parse_guard("1/3"), None);
    assert_eq!(parse_constellation("qam16"), Some(DvbTConstellation::Qam16));
    assert_eq!(parse_constellation("16-QAM"), Some(DvbTConstellation::Qam16));
    assert_eq!(parse_constellation("64-qam"), Some(DvbTConstellation::Qam64));
    assert_eq!(parse_constellation("QPSK"), Some(DvbTConstellation::Qpsk));
    assert_eq!(parse_constellation("256QAM"), None);
    assert_eq!(parse_code_rate("5/6"), Some(DvbTCodeRate::R5_6));
    assert_eq!(parse_code_rate("4/5"), None);
    assert_eq!(guard_label(DvbTGuard::G1_16), "1/16");
    assert_eq!(constellation_label(DvbTConstellation::Qam64), "QAM64");
    assert_eq!(code_rate_label(DvbTCodeRate::R7_8), "7/8");
    assert_eq!(code_rate_fraction(DvbTCodeRate::R2_3), (2, 3));
}

#[test]
fn dvbt_super_frame_lengths() {
    assert_eq!(dvbt_super_frame_samples(DvbTGuard::G1_32), 4 * 68 * 2112);
    assert_eq!(dvbt_super_frame_samples(DvbTGuard::G1_32), 574_464);
    assert_eq!(dvbt_super_frame_samples(DvbTGuard::G1_4), 4 * 68 * 2560);
    assert_eq!(DvbTGuard::G1_8.cp_len_2k(), 256);
}

#[test]
fn dvbt_config_guard_constellation_rate() {
    let empty = ViewConfig::default();
    assert_eq!(empty.dvbt_guard(), DvbTGuard::G1_32);
    assert_eq!(empty.dvbt_constellation(), DvbTConstellation::Qpsk);
    assert_eq!(empty.dvbt_code_rate(), DvbTCodeRate::R3_4);
    let cfg = ViewConfig {
        sources: Some(SourcesConfig {
            cofdm: None,
            dvbt: Some(DvbTConfig {
                guard: Some("1/4".to_owned()),
                constellation: Some("16-QAM".to_owned()),
                code_rate: Some("bogus".to_owned()),
                ..Default::default()
            }),
            cw: None,
        }),
    };
    assert_eq!(cfg.dvbt_guard(), DvbTGuard::G1_4);
    assert_eq!(cfg.dvbt_constellation(), DvbTConstellation::Qam16);
    assert_eq!(cfg.dvbt_code_rate(), DvbTCodeRate::R3_4);
}

#[test]
fn cofdm_frame_prefix_is_preamble_plus_training_symbol() {
    assert_eq!(orion_sdr_view::source::cofdm::frame_prefix_len(), 4 * 64 + 256 + 32);
}

#[test]
fn ft8_messages_format_for_the_ticker() {
    let std = |extra: &str| Ft8Decoded::Standard {
        call_to: "CQ".to_owned(),
        call_de: "N0GNR".to_owned(),
        extra: extra.to_owned(),
    };
    assert_eq!(format_ft8_message(&std("EM12"), "FT8"), "CQ DE N0GNR EM12");
    assert_eq!(format_ft8_message(&std(""), "FT8"), "CQ DE N0GNR");
    assert_eq!(format_ft8_message(&std("None"), "FT8"), "CQ DE N0GNR");
    assert_eq!(format_ft8_message(&std("-12"), "FT8"), "CQ DE N0GNR -12");
    assert_eq!(format_ft8_message(&Ft8Decoded::FreeText("TNX 73".to_owned()), "FT8"), "TNX 73");
    assert_eq!(
        format_ft8_message(
            &Ft8Decoded::NonStd { call_to: "K1ABC".to_owned(), call_de: "PJ4/K1ABC".to_owned() },
            "FT4"
        ),
        "K1ABC DE PJ4/K1ABC"
    );
    assert_eq!(
        format_ft8_message(&Ft8Decoded::Telemetry([0x00, 0x0f, 0xa5, 0xff, 1, 2, 3, 0x10, 0x7e]), "FT8"),
        "000FA5FF010203107E"
    );
    assert_eq!(format_ft8_message(&Ft8Decoded::Unknown, "FT8"), "[undecoded]");
}

#[test]
fn tone_cycle_runs_its_four_phases_in_order() {
    let ramp = 2u32;
    let pause = 1u32;
    let mut p = CyclePhase { state: CycleState::RampUp, samples_remaining: ramp };
    let mut seen = vec![p.state];
    for _ in 0..(ramp + 1 + pause + 1 + ramp + 1 + pause + 1) {
        p = advance_cycle(p, ramp, pause);
        if *seen.last().unwrap() != p.state {
            seen.push(p.state);
        }
    }
    assert_eq!(
        seen,
        vec![
            CycleState::RampUp,
            CycleState::PauseHigh,
            CycleState::RampDown,
            CycleState::PauseLow,
            CycleState::RampUp
        ]
    );
    assert_eq!(p, CyclePhase { state: CycleState::RampUp, samples_remaining: ramp });
    assert_eq!(
        advance_cycle(CyclePhase { state: CycleState::PauseLow, samples_remaining: 3 }, ramp, pause),
        CyclePhase { state: CycleState::PauseLow, samples_remaining: 2 }
    );
    assert_eq!(start_phase(7), CyclePhase { state: CycleState::RampDown, samples_remaining: 7 });
    assert_eq!(rest_phase(9), CyclePhase { state: CycleState::PauseHigh, samples_remaining: 9 });
}

#[test]
fn cofdm_mcs_facts_read_the_default_ladder() {
    assert_eq!(cofdm_mcs_facts(), ("QPSK", 2, (256, 512)));
    assert_eq!(COFDM_MCS_INDEX, 1);
    let conv = McsEntry {
        constellation: ConstellationKind::Qam64,
        inner: InnerKind::Convolutional(PunctureKind::R7_8),
    };
    assert_eq!(mcs_facts(conv), ("QAM64", 6, (7, 8)));
    let plain = McsEntry { constellation: ConstellationKind::Qam256, inner: InnerKind::Uncoded };
    assert_eq!(mcs_facts(plain), ("QAM256", 8, (1, 1)));
}
