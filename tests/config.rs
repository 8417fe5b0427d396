use ft60x::ft60x_config::ft60x_flash_rom_detection::{
    ConfigUsed, CustomConfigChecksum, CustomConfigValidity, FT60xFlashRomDetection, GPIOInput,
    MemoryStatus, MemoryType, GPIO0, GPIO1,
};
use ft60x::ft60x_config::{FT60xChannelConfig, FT60xConfig, FT60xFifoClock, FT60xFifoMode};
use ft60x::Error;

fn sample(manufacturer: &str, product: &str, serial: &str) -> FT60xConfig {
    FT60xConfig {
        vid: 0x0403,
        pid: 0x601f,
        manufacturer: manufacturer.to_string(),
        product_description: product.to_string(),
        serial_number: serial.to_string(),
        power_attributes: 0xe0,
        power_consumption: 0x0060,
        fifo_clock: FT60xFifoClock::Clock66MHz,
        fifo_mode: FT60xFifoMode::Mode600,
        channel_config: FT60xChannelConfig::OneChannelInPipe,
        optional_features_support: 0x1234,
        battery_charging_gpio_config: 0xe4,
        flash_eeprom_detection: FT60xFlashRomDetection::parse(0b1010_0101).unwrap(),
        msio_config: 0x0001_0800,
        gpio_config: 0xdead_beef,
        reserved1: 7,
        reserved2: 9,
    }
}

fn assert_same(a: &FT60xConfig, b: &FT60xConfig) {
    assert_eq!(a.vid, b.vid);
    assert_eq!(a.pid, b.pid);
    assert_eq!(a.manufacturer, b.manufacturer);
    assert_eq!(a.product_description, b.product_description);
    assert_eq!(a.serial_number, b.serial_number);
    assert_eq!(a.power_attributes, b.power_attributes);
    assert_eq!(a.power_consumption, b.power_consumption);
    assert_eq!(a.fifo_clock, b.fifo_clock);
    assert_eq!(a.fifo_mode, b.fifo_mode);
    assert_eq!(a.channel_config, b.channel_config);
    assert_eq!(a.optional_features_support, b.optional_features_support);
    assert_eq!(a.battery_charging_gpio_config, b.battery_charging_gpio_config);
    assert_eq!(a.flash_eeprom_detection, b.flash_eeprom_detection);
    assert_eq!(a.msio_config, b.msio_config);
    assert_eq!(a.gpio_config, b.gpio_config);
    assert_eq!(a.reserved1, b.reserved1);
    assert_eq!(a.reserved2, b.reserved2);
}

#[test]
fn flash_rom_detection_bits() {
    let d = FT60xFlashRomDetection::parse(0b0000_0001).unwrap();
    assert_eq!(d.memory_type, MemoryType::ROM);
    assert_eq!(d.memory_status, MemoryStatus::Exists);
    assert_eq!(d.gpio1, GPIO1::Low);
    let d = FT60xFlashRomDetection::parse(0b1001_0110).unwrap();
    assert_eq!(d.memory_type, MemoryType::Flash);
    assert_eq!(d.memory_status, MemoryStatus::ExistsNot);
    assert_eq!(d.custom_config_validity, CustomConfigValidity::Invalid);
    assert_eq!(d.custom_config_checksum, CustomConfigChecksum::Valid);
    assert_eq!(d.config_used, ConfigUsed::Custom);
    assert_eq!(d.gpio_input, GPIOInput::Ignore);
    assert_eq!(d.gpio0, GPIO0::Low);
    assert_eq!(d.gpio1, GPIO1::High);
    assert_eq!(d.encode(), 0b1001_0110);
}

#[test]
fn flash_rom_detection_round_trip_every_byte() {
    for b in 0..=255u8 {
        assert_eq!(FT60xFlashRomDetection::parse(b).unwrap().encode(), b);
    }
}

#[test]
fn enum_codes() {
    assert_eq!(FT60xFifoClock::parse(3).unwrap(), FT60xFifoClock::Clock40MHz);
    assert_eq!(FT60xFifoClock::Clock50MHz.encode(), 2);
    assert_eq!(FT60xFifoClock::parse(4).unwrap_err(), Error::UnknownFifoClock(4));
    assert_eq!(FT60xFifoMode::parse(0).unwrap(), FT60xFifoMode::Mode245);
    assert_eq!(FT60xFifoMode::Mode600.encode(), 1);
    assert_eq!(FT60xFifoMode::parse(2).unwrap_err(), Error::UnknownFifoMode(2));
    assert_eq!(FT60xChannelConfig::parse(4).unwrap(), FT60xChannelConfig::OneChannelInPipe);
    assert_eq!(FT60xChannelConfig::TwoChannels.encode(), 1);
    assert_eq!(FT60xChannelConfig::parse(5).unwrap_err(), Error::UnknownChannelConfig(5));
}

#[test]
fn encode_layout() {
    let bytes = sample("FTDI", "FT601", "1").encode().unwrap();
    assert_eq!(&bytes[0..4], &[0x03, 0x04, 0x1f, 0x60]);
    assert_eq!(&bytes[4..14], &[10, 3, b'F', 0, b'T', 0, b'D', 0, b'I', 0]);
    assert_eq!(&bytes[14..26], &[12, 3, b'F', 0, b'T', 0, b'6', 0, b'0', 0, b'1', 0]);
    assert_eq!(&bytes[26..30], &[4, 3, b'1', 0]);
    assert!(bytes[30..132].iter().all(|b| *b == 0));
    assert_eq!(&bytes[132..137], &[7, 0xe0, 0x60, 0x00, 9]);
    assert_eq!(&bytes[137..140], &[1, 1, 4]);
    assert_eq!(&bytes[140..144], &[0x34, 0x12, 0xe4, 0b1010_0101]);
    assert_eq!(&bytes[144..152], &[0x00, 0x08, 0x01, 0x00, 0xef, 0xbe, 0xad, 0xde]);
}

#[test]
fn round_trip_strings_of_length_zero() {
    let c = sample("", "", "");
    let back = FT60xConfig::parse(c.encode().unwrap()).unwrap();
    assert_same(&c, &back);
}

#[test]
fn round_trip_strings_of_length_one() {
    let c = sample("a", "b", "c");
    let back = FT60xConfig::parse(c.encode().unwrap()).unwrap();
    assert_same(&c, &back);
}

#[test]
fn round_trip_longest_strings() {
    let long = "x".repeat(61);
    for c in [sample(&long, "", ""), sample("", &long, ""), sample("", "", &long)] {
        let back = FT60xConfig::parse(c.encode().unwrap()).unwrap();
        assert_same(&c, &back);
    }
    let shared = sample(&"m".repeat(20), &"p".repeat(20), &"s".repeat(21));
    let back = FT60xConfig::parse(shared.encode().unwrap()).unwrap();
    assert_same(&shared, &back);
}

#[test]
fn round_trip_every_enum_value() {
    let clocks = [
        FT60xFifoClock::Clock100MHz,
        FT60xFifoClock::Clock66MHz,
        FT60xFifoClock::Clock50MHz,
        FT60xFifoClock::Clock40MHz,
    ];
    let modes = [FT60xFifoMode::Mode245, FT60xFifoMode::Mode600];
    let channels = [
        FT60xChannelConfig::FourChannels,
        FT60xChannelConfig::TwoChannels,
        FT60xChannelConfig::OneChannel,
        FT60xChannelConfig::OneChannelOutPipe,
        FT60xChannelConfig::OneChannelInPipe,
    ];
    for clock in clocks {
        for mode in modes {
            for channel in channels {
                let mut c = sample("FTDI", "FT601", "0001");
                c.fifo_clock = clock;
                c.fifo_mode = mode;
                c.channel_config = channel;
                let back = FT60xConfig::parse(c.encode().unwrap()).unwrap();
                assert_same(&c, &back);
            }
        }
    }
}

#[test]
fn strings_that_do_not_fit_are_refused() {
    let too_long = "x".repeat(62);
    assert_eq!(sample(&too_long, "", "").encode().unwrap_err(), Error::UnencodableString);
    let too_many = sample(&"m".repeat(21), &"p".repeat(20), &"s".repeat(21));
    assert_eq!(too_many.encode().unwrap_err(), Error::UnencodableString);
    assert_eq!(sample("é", "", "").encode().unwrap_err(), Error::UnencodableString);
}

#[test]
fn malformed_strings_are_refused() {
    let good = sample("ab", "c", "d").encode().unwrap();
    let mut bad_tag = good;
    bad_tag[5] = 4;
    assert_eq!(FT60xConfig::parse(bad_tag).unwrap_err(), Error::InvalidStringField);
    let mut bad_pad = good;
    bad_pad[7] = 1;
    assert_eq!(FT60xConfig::parse(bad_pad).unwrap_err(), Error::InvalidStringField);
    let mut not_ascii = good;
    not_ascii[6] = 0xc3;
    assert_eq!(FT60xConfig::parse(not_ascii).unwrap_err(), Error::InvalidStringField);
    let mut too_short = good;
    too_short[4] = 1;
    assert_eq!(FT60xConfig::parse(too_short).unwrap_err(), Error::InvalidStringField);
    let mut past_the_end = good;
    past_the_end[4] = 200;
    assert_eq!(FT60xConfig::parse(past_the_end).unwrap_err(), Error::InvalidStringField);
}

#[test]
fn unknown_enum_codes_are_refused() {
    let good = sample("ab", "c", "d").encode().unwrap();
    let mut clock = good;
    clock[137] = 9;
    assert_eq!(FT60xConfig::parse(clock).unwrap_err(), Error::UnknownFifoClock(9));
    let mut mode = good;
    mode[138] = 2;
    assert_eq!(FT60xConfig::parse(mode).unwrap_err(), Error::UnknownFifoMode(2));
    let mut channel = good;
    channel[139] = 7;
    assert_eq!(FT60xConfig::parse(channel).unwrap_err(), Error::UnknownChannelConfig(7));
}

#[test]
fn odd_descriptor_length_skips_a_byte() {
    let mut bytes = sample("", "", "").encode().unwrap();
    // manufacturer: length 5 announces one character and one byte that is skipped
    bytes[4..13].copy_from_slice(&[5, 3, b'Q', 0, 0xff, 2, 3, 2, 3]);
    let c = FT60xConfig::parse(bytes).unwrap();
    assert_eq!(c.manufacturer, "Q");
    assert_eq!(c.product_description, "");
    assert_eq!(c.serial_number, "");
}
