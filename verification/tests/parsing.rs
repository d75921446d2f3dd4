use cctl::device::audio_client::{clients_to_move, parse_client_indexes};
use cctl::device::bus::Bus;
use cctl::device::card_profile::CardProfile;
use cctl::device::device_state::DeviceState;
use cctl::device::form_factor::FormFactor;
use cctl::device::parse_card_devices::parse_card_devices;
use cctl::device::parse_cards::parse_cards;
use cctl::parse_error::{EntityKind, ParseErrorKind};

#[test]
fn cards_two_blocks_in_index_order() {
    let text = "\
2 card(s) available.
    index: 0
\tname: <alsa_card.pci-0000_00_1b.0>
\tdriver: <module-alsa-card.c>
\tproperties:
\t\tdevice.description = \"Built-in Audio\"
\t\tdevice.bus = \"pci\"
\t\tdevice.form_factor = \"internal\"
\tprofiles:
\t\toutput:analog-stereo: Analog Stereo Output (priority 6060)
\tactive profile: <output:analog-stereo>
\tsinks:
\t\talsa_output.pci-0000_00_1b.0.analog-stereo/#0: Built-in Audio Analog Stereo
\tsources:
\t\talsa_input.pci-0000_00_1b.0.analog-stereo/#1: Built-in Audio Analog Stereo
\tports:
\t\tanalog-input-internal-mic: Internal Microphone (priority 8900)
    index: 3
\tname: <bluez_card.AA_BB_CC_DD_EE_FF>
\tdriver: <module-bluez5-device.c>
\tproperties:
\t\tdevice.description = \"WH-1000XM3\"
\t\tdevice.bus = \"bluetooth\"
\t\tdevice.form_factor = \"headset\"
\tprofiles:
\t\theadset_head_unit: Headset Head Unit (HSP/HFP) (priority 30)
\t\ta2dp_sink_sbc: High Fidelity Playback (A2DP Sink: SBC) (priority 40)
\t\toff: Off (priority 0)
\tactive profile: <a2dp_sink_sbc>
\tsinks:
\t\tbluez_sink.AA_BB_CC_DD_EE_FF.a2dp_sink/#7: WH-1000XM3
\tsources:
\tports:
";
    let cards = parse_cards(text).unwrap();
    assert_eq!(cards.len(), 2);

    let c0 = &cards[0];
    assert_eq!(c0.index, 0);
    assert_eq!(c0.name, "alsa_card.pci-0000_00_1b.0");
    assert_eq!(c0.driver, "module-alsa-card.c");
    assert_eq!(c0.description, "Built-in Audio");
    assert_eq!(c0.bus, Bus::PCI);
    assert_eq!(c0.form_factor, FormFactor::Internal);
    assert_eq!(c0.sink_ids, vec![0]);
    assert_eq!(c0.source_ids, vec![1]);
    assert!(c0.profiles.is_empty());
    assert_eq!(c0.active_profile, CardProfile::Off);

    let c1 = &cards[1];
    assert_eq!(c1.index, 3);
    assert_eq!(c1.bus, Bus::Bluetooth);
    assert_eq!(c1.form_factor, FormFactor::Headset);
    assert_eq!(
        c1.profiles,
        vec![CardProfile::HeadsetHeadUnit, CardProfile::A2DPSinkSBC, CardProfile::Off]
    );
    assert_eq!(c1.active_profile, CardProfile::A2DPSinkSBC);
    assert_eq!(c1.sink_ids, vec![7]);
    assert!(c1.source_ids.is_empty());
}

#[test]
fn cards_empty_text_yields_no_cards() {
    assert!(parse_cards("").unwrap().is_empty());
}

#[test]
fn cards_noise_before_first_index_is_ignored() {
    let cards = parse_cards("name: <ghost>\ndriver: <ghost.c>\nindex: 5\n").unwrap();
    assert_eq!(cards.len(), 1);
    assert_eq!(cards[0].index, 5);
    assert_eq!(cards[0].name, "");
}

#[test]
fn cards_malformed_sink_entry_is_fatal() {
    let err = parse_cards("index: 0\nsinks:\nbroken_entry: no reference here\n").unwrap_err();
    assert_eq!(err.entity, EntityKind::Card);
    assert_eq!(err.kind, ParseErrorKind::MalformedEntityReference);
    assert_eq!(err.line, "broken_entry: no reference here");
}

#[test]
fn cards_non_numeric_index_is_fatal() {
    let err = parse_cards("index: zero\n").unwrap_err();
    assert_eq!(err.entity, EntityKind::Card);
    assert_eq!(err.kind, ParseErrorKind::InvalidNumber);
}

#[test]
fn cards_unknown_bus_token_is_fatal() {
    let err = parse_cards("index: 0\ndevice.bus = \"warp\"\n").unwrap_err();
    assert_eq!(err.entity, EntityKind::Card);
    assert_eq!(err.kind, ParseErrorKind::UnknownToken);
}

#[test]
fn devices_parse_with_volume_and_default() {
    let text = "\
2 sink(s) available.
  * index: 1
\tstate: SUSPENDED
\tname: <alsa_output.pci-0000_00_1b.0.analog-stereo>
\tdriver: <module-alsa-card.c>
\tvolume: front-left: 32768 /  50% / -18.06 dB,   front-right: 32768 /  50%
\tmuted: no
\tcard: 0 <alsa_card.pci-0000_00_1b.0>
\tdevice.description = \"Built-in Audio Analog Stereo\"
\tdevice.bus = \"pci\"
\tdevice.form_factor = \"internal\"
    index: 9
\tstate: RUNNING
\tname: <bluez_sink.AA_BB_CC_DD_EE_FF.a2dp_sink>
\tvolume: mono: 65535 / 100% / 0.00 dB
\tmuted: yes
\tcard: 3 <bluez_card.AA_BB_CC_DD_EE_FF>
\tbluetooth.protocol = \"a2dp_sink\"
\tbluetooth.a2dp_codec = \"ldac\"
\tdevice.bus = \"bluetooth\"
";
    let devs = parse_card_devices(text).unwrap();
    assert_eq!(devs.len(), 2);

    let d0 = &devs[0];
    assert_eq!(d0.index, 1);
    assert!(d0.is_default);
    assert_eq!(d0.state, DeviceState::Suspended);
    assert_eq!(d0.volume, 50);
    assert!(!d0.is_muted);
    assert_eq!(d0.card_index, 0);
    assert_eq!(d0.description, "Built-in Audio Analog Stereo");
    assert_eq!(d0.bus, Bus::PCI);
    assert_eq!(d0.bluetooth_protocol, None);
    assert_eq!(d0.a2dp_codec, None);

    let d1 = &devs[1];
    assert_eq!(d1.index, 9);
    assert!(!d1.is_default);
    assert_eq!(d1.state, DeviceState::Running);
    assert_eq!(d1.volume, 100);
    assert!(d1.is_muted);
    assert_eq!(d1.card_index, 3);
    assert_eq!(
        d1.bluetooth_protocol,
        Some(cctl::device::bluetooth_protocol::BluetoothProtocol::A2DPSink)
    );
    assert_eq!(d1.a2dp_codec, Some(cctl::device::a2dp_codec::A2DPCodec::LDAC));
    assert_eq!(d1.bus, Bus::Bluetooth);
}

#[test]
fn devices_volume_rounding_round_trip() {
    let full = parse_card_devices("index: 0\nvolume: mono: 65535 / 100%\n").unwrap();
    assert_eq!(full[0].volume, 100);
    let silent = parse_card_devices("index: 0\nvolume: mono: 0 / 0%\n").unwrap();
    assert_eq!(silent[0].volume, 0);
    let half = parse_card_devices("index: 0\nvolume: mono: 32768 / 50%\n").unwrap();
    assert_eq!(half[0].volume, 50);
}

#[test]
fn devices_monitor_block_is_absent_from_output() {
    let text = "\
    index: 4
\tname: <alsa_output.pci-0000_00_1b.0.analog-stereo.monitor>
\tvolume: mono: 65535 / 100%
\tmuted: yes
\tmonitor_of: 1
\tcard: 0 <alsa_card.pci-0000_00_1b.0>
    index: 5
\tname: <alsa_input.pci-0000_00_1b.0.analog-stereo>
";
    let devs = parse_card_devices(text).unwrap();
    assert_eq!(devs.len(), 1);
    assert_eq!(devs[0].index, 5);
}

#[test]
fn devices_monitor_block_at_end_of_input_is_absent() {
    let devs = parse_card_devices("index: 4\nmonitor_of: 1\n").unwrap();
    assert!(devs.is_empty());
}

#[test]
fn devices_unknown_state_token_is_fatal() {
    let err = parse_card_devices("index: 5\nstate: WEIRD\n").unwrap_err();
    assert_eq!(err.entity, EntityKind::Endpoint);
    assert_eq!(err.kind, ParseErrorKind::UnknownToken);
    assert_eq!(err.line, "state: WEIRD");
}

#[test]
fn devices_volume_without_number_is_fatal() {
    let err = parse_card_devices("index: 5\nvolume: mono: none\n").unwrap_err();
    assert_eq!(err.entity, EntityKind::Endpoint);
    assert_eq!(err.kind, ParseErrorKind::InvalidNumber);
}

#[test]
fn clients_keep_real_streams_only() {
    let text = "\
3 stream(s) listed.
    index: 42
\tsink: 0 <alsa_output.pci-0000_00_1b.0.analog-stereo>
\tclient: 32 <Firefox>
    index: 43
\tsource: 1 <alsa_output.pci-0000_00_1b.0.analog-stereo.monitor>
\tclient: 33 <OBS Studio>
    index: 44
\tsink: 0 <alsa_output.pci-0000_00_1b.0.analog-stereo>
\tclient: 34 <PulseAudio Volume Control>
";
    let pairs = parse_client_indexes(text).unwrap();
    assert_eq!(pairs, vec![(42, 0)]);
}

#[test]
fn clients_monitor_flag_resets_per_block() {
    let text = "\
    index: 1
\tsource: 6 <mic.monitor>
\tclient: 10 <Recorder>
    index: 2
\tclient: 11 <Player>
";
    // The second block names no source or sink: its `index` line reset the
    // monitor flag, and the endpoint index carried over from block one is
    // what the pair records.
    let pairs = parse_client_indexes(text).unwrap();
    assert_eq!(pairs, vec![(2, 6)]);
}

#[test]
fn clients_malformed_endpoint_reference_is_fatal() {
    let err = parse_client_indexes("index: 1\nsink: nonsense\n").unwrap_err();
    assert_eq!(err.entity, EntityKind::ClientAssociation);
    assert_eq!(err.kind, ParseErrorKind::MalformedEntityReference);
}

#[test]
fn clients_to_move_skips_streams_already_on_endpoint() {
    let pairs = vec![(10u64, 0u64), (11, 2), (12, 0), (13, 5)];
    assert_eq!(clients_to_move(&pairs, 0), vec![11, 13]);
    assert_eq!(clients_to_move(&pairs, 7), vec![10, 11, 12, 13]);
    assert_eq!(clients_to_move(&Vec::new(), 0), Vec::<u64>::new());
}

#[test]
fn devices_empty_text_yields_no_endpoints() {
    assert!(parse_card_devices("").unwrap().is_empty());
}

#[test]
fn clients_empty_text_yields_no_pairs() {
    assert!(parse_client_indexes("").unwrap().is_empty());
}
