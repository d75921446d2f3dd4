pub mod a2dp_codec;
pub mod bluetooth_protocol;
pub mod audio_client;
pub mod bus;
pub mod card;
pub mod card_device;
pub mod card_device_type;
pub mod parse_card_devices;
pub mod parse_cards;
pub mod card_profile;
pub mod device_state;
pub mod form_factor;
