use cctl::device::a2dp_codec::A2DPCodec;
use cctl::device::bluetooth_protocol::BluetoothProtocol;
use cctl::device::bus::Bus;
use cctl::device::card::Card;
use cctl::device::card_device::{find_default, volume_raw_of_pct, CardDevice};
use cctl::device::card_device_type::CardDeviceType;
use cctl::device::card_profile::CardProfile;
use cctl::device::device_state::DeviceState;
use cctl::device::form_factor::FormFactor;
use cctl::{parse_u64, scan_line, unquote_parsed_string_value};

#[test]
fn unquote_strips_one_layer_of_markers() {
    assert_eq!(unquote_parsed_string_value("\"Foo\""), "Foo");
    assert_eq!(unquote_parsed_string_value("<bar>"), "bar");
    assert_eq!(unquote_parsed_string_value("baz"), "baz");
    assert_eq!(unquote_parsed_string_value(""), "");
    assert_eq!(unquote_parsed_string_value("\""), "");
    assert_eq!(unquote_parsed_string_value("<only-open"), "only-open");
}

#[test]
fn scan_line_splits_key_and_value() {
    let sl = scan_line("index: 3").unwrap();
    assert_eq!(sl.key, "index");
    assert_eq!(sl.value, "3");
    assert!(!sl.starred);

    let sl = scan_line("* index: 7").unwrap();
    assert_eq!(sl.key, "index");
    assert_eq!(sl.value, "7");
    assert!(sl.starred);

    let sl = scan_line("device.description = \"Built-in Audio\"").unwrap();
    assert_eq!(sl.key, "device.description");
    assert_eq!(sl.value, "\"Built-in Audio\"");

    let sl = scan_line("profiles:").unwrap();
    assert_eq!(sl.key, "profiles");
    assert_eq!(sl.value, "");

    assert!(scan_line("2 card(s) available.").is_none());
    assert!(scan_line("").is_none());
}

#[test]
fn parse_u64_reads_decimal_numbers_exactly() {
    assert_eq!(parse_u64("0"), Some(0));
    assert_eq!(parse_u64("65535"), Some(65535));
    assert_eq!(parse_u64("18446744073709551615"), Some(u64::MAX));
    assert_eq!(parse_u64("18446744073709551616"), None);
    assert_eq!(parse_u64(""), None);
    assert_eq!(parse_u64("12a"), None);
    assert_eq!(parse_u64("-3"), None);
}

#[test]
fn tokens_parse_case_insensitively() {
    assert_eq!(Bus::from_pa_str("pci"), Bus::PCI);
    assert_eq!(Bus::from_pa_str("Bluetooth"), Bus::Bluetooth);
    assert_eq!(Bus::from_pa_str("USB"), Bus::USB);
    assert_eq!(Bus::try_from_pa_str("warp"), None);

    assert_eq!(FormFactor::from_pa_str("internal"), FormFactor::Internal);
    assert_eq!(FormFactor::from_pa_str("Headphone"), FormFactor::Headphones);
    assert_eq!(FormFactor::from_pa_str("webcam"), FormFactor::Webcam);
    assert_eq!(FormFactor::from_pa_str("headset"), FormFactor::Headset);
    assert_eq!(FormFactor::try_from_pa_str("speaker"), None);

    assert_eq!(DeviceState::from_pa_str("RUNNING"), DeviceState::Running);
    assert_eq!(DeviceState::from_pa_str("Idle"), DeviceState::Idle);
    assert_eq!(DeviceState::from_pa_str("suspended"), DeviceState::Suspended);

    assert_eq!(
        BluetoothProtocol::from_pa_str("headset_head_unit"),
        BluetoothProtocol::HeadsetHeadUnit
    );
    assert_eq!(BluetoothProtocol::from_pa_str("A2DP_SINK"), BluetoothProtocol::A2DPSink);

    assert_eq!(A2DPCodec::from_pa_str("sbc"), A2DPCodec::SBC);
    assert_eq!(A2DPCodec::from_pa_str("aac"), A2DPCodec::AAC);
    assert_eq!(A2DPCodec::from_pa_str("aptx"), A2DPCodec::AptX);
    assert_eq!(A2DPCodec::from_pa_str("APTX_HD"), A2DPCodec::AptXHD);
    assert_eq!(A2DPCodec::from_pa_str("ldac"), A2DPCodec::LDAC);

    assert_eq!(CardProfile::from_pa_str("a2dp_sink_aac"), CardProfile::A2DPSinkAAC);
    assert_eq!(CardProfile::from_pa_str("off"), CardProfile::Off);
    assert_eq!(CardProfile::try_from_pa_str("a2dp_sink_flac"), None);
}

#[test]
fn display_strings_use_the_documented_wording() {
    assert_eq!(Bus::PCI.to_display_string(), "PCI");
    assert_eq!(Bus::Bluetooth.to_display_string(), "Bluetooth");
    assert_eq!(FormFactor::Headphones.to_display_string(), "headphones");
    assert_eq!(DeviceState::Running.to_display_string(), "running");
    assert_eq!(
        BluetoothProtocol::HeadsetHeadUnit.to_display_string(),
        "Headset Head Unit (HSP/HFP)"
    );
    assert_eq!(A2DPCodec::AptXHD.to_display_string(), "AptXHD");
    assert_eq!(CardDeviceType::Source.to_display_string(), "Source");
    assert_eq!(CardDeviceType::Sink.to_display_string(), "Sink");
    assert_eq!(
        CardProfile::A2DPSinkLDAC.to_display_string(),
        "High Fidelity Playback (A2DP Sink: LDAC"
    );
}

#[test]
fn card_profile_tokens_round_trip() {
    let all = [
        CardProfile::HeadsetHeadUnit,
        CardProfile::A2DPSinkSBC,
        CardProfile::A2DPSinkAAC,
        CardProfile::A2DPSinkAptX,
        CardProfile::A2DPSinkAptXHD,
        CardProfile::A2DPSinkLDAC,
        CardProfile::Off,
    ];
    for p in all {
        assert_eq!(CardProfile::from_pa_str(&p.to_pa_str()), p);
    }
}

#[test]
fn defaults_match_the_documented_values() {
    assert_eq!(Bus::default(), Bus::PCI);
    assert_eq!(FormFactor::default(), FormFactor::Internal);
    assert_eq!(DeviceState::default(), DeviceState::Suspended);
    assert_eq!(CardProfile::default(), CardProfile::Off);

    let c = Card::default();
    assert_eq!(c.index, 0);
    assert_eq!(c.name, "");
    assert!(c.profiles.is_empty());
    assert_eq!(c.active_profile, CardProfile::Off);

    let d = CardDevice::default();
    assert_eq!(d.volume, 0);
    assert!(!d.is_default);
    assert_eq!(d.state, DeviceState::Suspended);
}

#[test]
fn volume_raw_of_pct_inverts_the_rescaling() {
    assert_eq!(volume_raw_of_pct(0), 0);
    assert_eq!(volume_raw_of_pct(50), 32768);
    assert_eq!(volume_raw_of_pct(100), 65535);
    assert_eq!(volume_raw_of_pct(150), 65535);
}

#[test]
fn find_default_picks_the_first_marked_endpoint() {
    let mut a = CardDevice::default();
    a.index = 1;
    let mut b = CardDevice::default();
    b.index = 2;
    b.is_default = true;
    let mut c = CardDevice::default();
    c.index = 3;
    c.is_default = true;

    let devices = vec![a, b, c];
    assert_eq!(find_default(&devices), Some(1));

    let nothing: Vec<CardDevice> = Vec::new();
    assert_eq!(find_default(&nothing), None);
}
