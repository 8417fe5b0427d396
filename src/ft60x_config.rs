//! The 152-byte configuration record of the chip and its fields.

use crate::byte_order::{
    le16, le16_at, le32, le32_at, lemma_le16_round_trip, lemma_le32_round_trip, push_le_u16, push_le_u32, read_le_u16, read_le_u32,
};
use crate::Error;
use vstd::prelude::*;
use vstd::string::*;
use vstd::utf8::is_ascii_chars;

pub mod ft60x_flash_rom_detection;

use ft60x_flash_rom_detection::FT60xFlashRomDetection;

verus! {

/// Bus protocol of the FIFO interface.
#[derive(Debug, Clone, Copy, PartialEq, Eq, Structural)]
pub enum FT60xFifoMode {
    Mode245,
    Mode600,
}

impl FT60xFifoMode {
    /// The byte that stands for the mode in the configuration record.
    pub open spec fn code(self) -> u8 {
        match self {
            FT60xFifoMode::Mode245 => 0,
            FT60xFifoMode::Mode600 => 1,
        }
    }

    /// The mode whose code is `num`, for `num <= 1`.
    pub open spec fn of_code(num: u8) -> Self {
        if num == 0 {
            FT60xFifoMode::Mode245
        } else {
            FT60xFifoMode::Mode600
        }
    }

    pub fn parse(num: u8) -> (r: Result<Self, Error>)
        ensures
            num <= 1 ==> r == Ok::<Self, Error>(Self::of_code(num)),
            num > 1 ==> r == Err::<Self, Error>(Error::UnknownFifoMode(num)),
    {
        match num {
            0 => Ok(FT60xFifoMode::Mode245),
            1 => Ok(FT60xFifoMode::Mode600),
            _ => Err(Error::UnknownFifoMode(num)),
        }
    }

    pub fn encode(&self) -> (r: u8)
        ensures
            r == self.code(),
    {
        match self {
            FT60xFifoMode::Mode245 => 0,
            FT60xFifoMode::Mode600 => 1,
        }
    }
}

/// Clock of the FIFO interface.
#[derive(Debug, Clone, Copy, PartialEq, Eq, Structural)]
pub enum FT60xFifoClock {
    Clock100MHz,
    Clock66MHz,
    Clock50MHz,
    Clock40MHz,
}

impl FT60xFifoClock {
    /// The byte that stands for the clock in the configuration record.
    pub open spec fn code(self) -> u8 {
        match self {
            FT60xFifoClock::Clock100MHz => 0,
            FT60xFifoClock::Clock66MHz => 1,
            FT60xFifoClock::Clock50MHz => 2,
            FT60xFifoClock::Clock40MHz => 3,
        }
    }

    /// The clock whose code is `num`, for `num <= 3`.
    pub open spec fn of_code(num: u8) -> Self {
        if num == 0 {
            FT60xFifoClock::Clock100MHz
        } else if num == 1 {
            FT60xFifoClock::Clock66MHz
        } else if num == 2 {
            FT60xFifoClock::Clock50MHz
        } else {
            FT60xFifoClock::Clock40MHz
        }
    }

    pub fn parse(num: u8) -> (r: Result<Self, Error>)
        ensures
            num <= 3 ==> r == Ok::<Self, Error>(Self::of_code(num)),
            num > 3 ==> r == Err::<Self, Error>(Error::UnknownFifoClock(num)),
    {
        match num {
            0 => Ok(FT60xFifoClock::Clock100MHz),
            1 => Ok(FT60xFifoClock::Clock66MHz),
            2 => Ok(FT60xFifoClock::Clock50MHz),
            3 => Ok(FT60xFifoClock::Clock40MHz),
            _ => Err(Error::UnknownFifoClock(num)),
        }
    }

    pub fn encode(&self) -> (r: u8)
        ensures
            r == self.code(),
    {
        match self {
            FT60xFifoClock::Clock100MHz => 0,
            FT60xFifoClock::Clock66MHz => 1,
            FT60xFifoClock::Clock50MHz => 2,
            FT60xFifoClock::Clock40MHz => 3,
        }
    }
}

/// How the chip splits its endpoints into channels.
#[derive(Debug, Clone, Copy, PartialEq, Eq, Structural)]
pub enum FT60xChannelConfig {
    FourChannels,
    TwoChannels,
    OneChannel,
    OneChannelOutPipe,
    OneChannelInPipe,
}

impl FT60xChannelConfig {
    /// The byte that stands for the channel layout in the configuration record.
    pub open spec fn code(self) -> u8 {
        match self {
            FT60xChannelConfig::FourChannels => 0,
            FT60xChannelConfig::TwoChannels => 1,
            FT60xChannelConfig::OneChannel => 2,
            FT60xChannelConfig::OneChannelOutPipe => 3,
            FT60xChannelConfig::OneChannelInPipe => 4,
        }
    }

    /// The channel layout whose code is `num`, for `num <= 4`.
    pub open spec fn of_code(num: u8) -> Self {
        if num == 0 {
            FT60xChannelConfig::FourChannels
        } else if num == 1 {
            FT60xChannelConfig::TwoChannels
        } else if num == 2 {
            FT60xChannelConfig::OneChannel
        } else if num == 3 {
            FT60xChannelConfig::OneChannelOutPipe
        } else {
            FT60xChannelConfig::OneChannelInPipe
        }
    }

    pub fn parse(num: u8) -> (r: Result<Self, Error>)
        ensures
            num <= 4 ==> r == Ok::<Self, Error>(Self::of_code(num)),
            num > 4 ==> r == Err::<Self, Error>(Error::UnknownChannelConfig(num)),
    {
        match num {
            0 => Ok(FT60xChannelConfig::FourChannels),
            1 => Ok(FT60xChannelConfig::TwoChannels),
            2 => Ok(FT60xChannelConfig::OneChannel),
            3 => Ok(FT60xChannelConfig::OneChannelOutPipe),
            4 => Ok(FT60xChannelConfig::OneChannelInPipe),
            _ => Err(Error::UnknownChannelConfig(num)),
        }
    }

    pub fn encode(&self) -> (r: u8)
        ensures
            r == self.code(),
    {
        match self {
            FT60xChannelConfig::FourChannels => 0,
            FT60xChannelConfig::TwoChannels => 1,
            FT60xChannelConfig::OneChannel => 2,
            FT60xChannelConfig::OneChannelOutPipe => 3,
            FT60xChannelConfig::OneChannelInPipe => 4,
        }
    }
}

/// Each code names its enum value, and each value has its code.
pub proof fn lemma_codes_round_trip(
    mode: FT60xFifoMode,
    clock: FT60xFifoClock,
    channels: FT60xChannelConfig,
)
    ensures
        FT60xFifoMode::of_code(mode.code()) == mode,
        FT60xFifoClock::of_code(clock.code()) == clock,
        FT60xChannelConfig::of_code(channels.code()) == channels,
        mode.code() <= 1,
        clock.code() <= 3,
        channels.code() <= 4,
{
}

/// Length of the configuration record on the wire.
pub const CONFIG_LEN: usize = 152;

/// Where the area of the three string descriptors starts in the record.
pub const STRINGS_START: usize = 4;

/// Length of the area of the three string descriptors.
pub const STRINGS_LEN: usize = 128;

/// Descriptor type of a string descriptor.
pub const STRING_DESCRIPTOR_TAG: u8 = 3;

/// The device configuration record exchanged over control transfers.
#[derive(Debug)]
pub struct FT60xConfig {
    pub vid: u16,
    pub pid: u16,
    pub manufacturer: String,
    pub product_description: String,
    pub serial_number: String,
    pub power_attributes: u8,
    pub power_consumption: u16,
    pub fifo_clock: FT60xFifoClock,
    pub fifo_mode: FT60xFifoMode,
    pub channel_config: FT60xChannelConfig,
    pub optional_features_support: u16,
    pub battery_charging_gpio_config: u8,
    pub flash_eeprom_detection: FT60xFlashRomDetection,
    pub msio_config: u32,
    pub gpio_config: u32,
    pub reserved1: u8,
    pub reserved2: u8,
}

/// The value of a configuration record, with its strings as character sequences.
pub struct ConfigView {
    pub vid: u16,
    pub pid: u16,
    pub manufacturer: Seq<char>,
    pub product_description: Seq<char>,
    pub serial_number: Seq<char>,
    pub power_attributes: u8,
    pub power_consumption: u16,
    pub fifo_clock: FT60xFifoClock,
    pub fifo_mode: FT60xFifoMode,
    pub channel_config: FT60xChannelConfig,
    pub optional_features_support: u16,
    pub battery_charging_gpio_config: u8,
    pub flash_eeprom_detection: FT60xFlashRomDetection,
    pub msio_config: u32,
    pub gpio_config: u32,
    pub reserved1: u8,
    pub reserved2: u8,
}

impl View for FT60xConfig {
    type V = ConfigView;

    open spec fn view(&self) -> ConfigView {
        ConfigView {
            vid: self.vid,
            pid: self.pid,
            manufacturer: self.manufacturer@,
            product_description: self.product_description@,
            serial_number: self.serial_number@,
            power_attributes: self.power_attributes,
            power_consumption: self.power_consumption,
            fifo_clock: self.fifo_clock,
            fifo_mode: self.fifo_mode,
            channel_config: self.channel_config,
            optional_features_support: self.optional_features_support,
            battery_charging_gpio_config: self.battery_charging_gpio_config,
            flash_eeprom_detection: self.flash_eeprom_detection,
            msio_config: self.msio_config,
            gpio_config: self.gpio_config,
            reserved1: self.reserved1,
            reserved2: self.reserved2,
        }
    }
}

/// A string descriptor: its total length, its type, then each character as one byte
/// followed by a zero byte.
pub open spec fn string_field(s: Seq<char>) -> Seq<u8> {
    Seq::new(
        (2 + 2 * s.len()) as nat,
        |i: int|
            if i == 0 {
                (2 + 2 * s.len()) as u8
            } else if i == 1 {
                STRING_DESCRIPTOR_TAG
            } else if i % 2 == 0 {
                s[(i - 2) / 2] as u8
            } else {
                0u8
            },
    )
}

/// The three string descriptors one after the other, padded with zeros to the area's length.
pub open spec fn strings_area(v: ConfigView) -> Seq<u8> {
    let f = string_field(v.manufacturer) + string_field(v.product_description) + string_field(
        v.serial_number,
    );
    f + Seq::new((STRINGS_LEN - f.len()) as nat, |i: int| 0u8)
}

/// The record's bytes: identifiers, strings, then the scalar fields, all little-endian.
pub open spec fn encode_spec(v: ConfigView) -> Seq<u8> {
    le16(v.vid) + le16(v.pid) + strings_area(v) + seq![v.reserved1, v.power_attributes] + le16(
        v.power_consumption,
    ) + seq![v.reserved2, v.fifo_clock.code(), v.fifo_mode.code(), v.channel_config.code()]
        + le16(v.optional_features_support) + seq![
        v.battery_charging_gpio_config,
        v.flash_eeprom_detection.bits(),
    ] + le32(v.msio_config) + le32(v.gpio_config)
}

/// The strings are ASCII and their descriptors fit the string area together.
pub open spec fn encodable(v: ConfigView) -> bool {
    &&& is_ascii_chars(v.manufacturer)
    &&& is_ascii_chars(v.product_description)
    &&& is_ascii_chars(v.serial_number)
    &&& 6 + 2 * (v.manufacturer.len() + v.product_description.len() + v.serial_number.len())
        <= STRINGS_LEN
}

/// The string area of a record.
pub open spec fn area_of(b: Seq<u8>) -> Seq<u8> {
    b.subrange(STRINGS_START as int, (STRINGS_START + STRINGS_LEN) as int)
}

/// Number of characters that the descriptor at `o` announces.
pub open spec fn field_chars(area: Seq<u8>, o: int) -> int {
    (area[o] as int - 2) / 2
}

/// Character `i` of the descriptor at `o` is an ASCII byte followed by a zero byte.
pub open spec fn char_ok(area: Seq<u8>, o: int, i: int) -> bool {
    area[o + 2 + 2 * i] < 128 && area[o + 3 + 2 * i] == 0
}

/// A well-formed string descriptor starts at `o` and lies inside the area.
pub open spec fn field_ok(area: Seq<u8>, o: int) -> bool {
    &&& 0 <= o
    &&& o + 2 <= area.len()
    &&& area[o] >= 2
    &&& area[o + 1] == STRING_DESCRIPTOR_TAG
    &&& o + 2 + 2 * field_chars(area, o) <= area.len()
    &&& forall|i: int| 0 <= i < field_chars(area, o) ==> #[trigger] char_ok(area, o, i)
}

/// The characters of the descriptor at `o`.
pub open spec fn field_text(area: Seq<u8>, o: int) -> Seq<char> {
    Seq::new(field_chars(area, o) as nat, |i: int| area[o + 2 + 2 * i] as char)
}

/// Where the descriptor after the one at `o` starts: its length byte counts the whole
/// descriptor.
pub open spec fn field_next(area: Seq<u8>, o: int) -> int {
    o + area[o] as int
}

/// Start of the second and third descriptors.
pub open spec fn second_field(area: Seq<u8>) -> int {
    field_next(area, 0)
}

pub open spec fn third_field(area: Seq<u8>) -> int {
    field_next(area, second_field(area))
}

/// All three descriptors are well-formed.
pub open spec fn strings_ok(area: Seq<u8>) -> bool {
    field_ok(area, 0) && field_ok(area, second_field(area)) && field_ok(area, third_field(area))
}

/// What a record of 152 bytes decodes to, or the first reason it does not: the strings, then
/// the FIFO clock, the FIFO mode and the channel layout.
pub open spec fn parse_spec(b: Seq<u8>) -> Result<ConfigView, Error> {
    let area = area_of(b);
    if !strings_ok(area) {
        Err(Error::InvalidStringField)
    } else if b[137] > 3 {
        Err(Error::UnknownFifoClock(b[137]))
    } else if b[138] > 1 {
        Err(Error::UnknownFifoMode(b[138]))
    } else if b[139] > 4 {
        Err(Error::UnknownChannelConfig(b[139]))
    } else {
        Ok(
            ConfigView {
                vid: le16_at(b, 0) as u16,
                pid: le16_at(b, 2) as u16,
                manufacturer: field_text(area, 0),
                product_description: field_text(area, second_field(area)),
                serial_number: field_text(area, third_field(area)),
                reserved1: b[132],
                power_attributes: b[133],
                power_consumption: le16_at(b, 134) as u16,
                reserved2: b[136],
                fifo_clock: FT60xFifoClock::of_code(b[137]),
                fifo_mode: FT60xFifoMode::of_code(b[138]),
                channel_config: FT60xChannelConfig::of_code(b[139]),
                optional_features_support: le16_at(b, 140) as u16,
                battery_charging_gpio_config: b[142],
                flash_eeprom_detection: FT60xFlashRomDetection::from_bits(b[143]),
                msio_config: le32_at(b, 144) as u32,
                gpio_config: le32_at(b, 148) as u32,
            },
        )
    }
}

/// The descriptor that `string_field` lays out at `o` reads back as the same string.
proof fn lemma_field_reads_back(area: Seq<u8>, o: int, s: Seq<char>)
    requires
        is_ascii_chars(s),
        s.len() <= 61,
        0 <= o,
        o + 2 + 2 * s.len() <= area.len(),
        area.subrange(o, o + 2 + 2 * s.len()) == string_field(s),
    ensures
        field_ok(area, o),
        field_text(area, o) == s,
        field_next(area, o) == o + 2 + 2 * s.len(),
{
    let f = string_field(s);
    assert(area[o] == f[0]);
    assert(area[o + 1] == f[1]);
    assert(field_chars(area, o) == s.len());
    assert forall|i: int| 0 <= i < field_chars(area, o) implies #[trigger] char_ok(area, o, i) by {
        assert(area[o + 2 + 2 * i] == f[2 + 2 * i]);
        assert(area[o + 3 + 2 * i] == f[3 + 2 * i]);
        assert((2 + 2 * i) % 2 == 0);
        assert((3 + 2 * i) % 2 == 1);
        assert((2 + 2 * i - 2) / 2 == i);
        let c = s[i];
        assert('\0' <= c <= '\u{7f}');
        assert((c as u8) < 128);
    }
    assert forall|i: int| 0 <= i < s.len() implies #[trigger] field_text(area, o)[i] == s[i] by {
        assert(area[o + 2 + 2 * i] == f[2 + 2 * i]);
        assert((2 + 2 * i) % 2 == 0);
        assert((2 + 2 * i - 2) / 2 == i);
        let c = s[i];
        assert('\0' <= c <= '\u{7f}');
        assert((c as u8) as char == c);
    }
    assert(field_text(area, o) =~= s);
}

/// The string area of an encodable record reads back as its three strings.
proof fn lemma_strings_read_back(v: ConfigView)
    requires
        encodable(v),
    ensures
        strings_area(v).len() == STRINGS_LEN,
        strings_ok(strings_area(v)),
        field_text(strings_area(v), 0) == v.manufacturer,
        field_text(strings_area(v), second_field(strings_area(v))) == v.product_description,
        field_text(strings_area(v), third_field(strings_area(v))) == v.serial_number,
{
    let f1 = string_field(v.manufacturer);
    let f2 = string_field(v.product_description);
    let f3 = string_field(v.serial_number);
    let area = strings_area(v);
    let l1 = f1.len() as int;
    let l2 = f2.len() as int;
    let l3 = f3.len() as int;
    assert(area.len() == STRINGS_LEN);
    assert(area.subrange(0, l1) =~= f1);
    assert(area.subrange(l1, l1 + l2) =~= f2);
    assert(area.subrange(l1 + l2, l1 + l2 + l3) =~= f3);
    lemma_field_reads_back(area, 0, v.manufacturer);
    lemma_field_reads_back(area, l1, v.product_description);
    lemma_field_reads_back(area, l1 + l2, v.serial_number);
}

/// The bytes of a record, laid out field by field.
proof fn lemma_encode_layout(v: ConfigView)
    requires
        encodable(v),
    ensures
        encode_spec(v).len() == CONFIG_LEN,
        area_of(encode_spec(v)) == strings_area(v),
        le16_at(encode_spec(v), 0) == v.vid as int,
        le16_at(encode_spec(v), 2) == v.pid as int,
        encode_spec(v)[132] == v.reserved1,
        encode_spec(v)[133] == v.power_attributes,
        le16_at(encode_spec(v), 134) == v.power_consumption as int,
        encode_spec(v)[136] == v.reserved2,
        encode_spec(v)[137] == v.fifo_clock.code(),
        encode_spec(v)[138] == v.fifo_mode.code(),
        encode_spec(v)[139] == v.channel_config.code(),
        le16_at(encode_spec(v), 140) == v.optional_features_support as int,
        encode_spec(v)[142] == v.battery_charging_gpio_config,
        encode_spec(v)[143] == v.flash_eeprom_detection.bits(),
        le32_at(encode_spec(v), 144) == v.msio_config as int,
        le32_at(encode_spec(v), 148) == v.gpio_config as int,
{
    let b = encode_spec(v);
    let area = strings_area(v);
    assert(area.len() == STRINGS_LEN);
    let vid = le16(v.vid);
    let pid = le16(v.pid);
    let pc = le16(v.power_consumption);
    let ofs = le16(v.optional_features_support);
    let msio = le32(v.msio_config);
    let gpio = le32(v.gpio_config);
    let tail = seq![
        v.reserved1,
        v.power_attributes,
        pc[0],
        pc[1],
        v.reserved2,
        v.fifo_clock.code(),
        v.fifo_mode.code(),
        v.channel_config.code(),
        ofs[0],
        ofs[1],
        v.battery_charging_gpio_config,
        v.flash_eeprom_detection.bits(),
        msio[0],
        msio[1],
        msio[2],
        msio[3],
        gpio[0],
        gpio[1],
        gpio[2],
        gpio[3],
    ];
    assert(b =~= seq![vid[0], vid[1], pid[0], pid[1]] + area + tail);
    assert(area_of(b) =~= area);
    lemma_le16_round_trip(v.vid);
    lemma_le16_round_trip(v.pid);
    lemma_le16_round_trip(v.power_consumption);
    lemma_le16_round_trip(v.optional_features_support);
    lemma_le32_round_trip(v.msio_config);
    lemma_le32_round_trip(v.gpio_config);
}

/// A record that can be encoded decodes back to the same field values: identifiers, the three
/// strings, every enum and every scalar.
pub proof fn lemma_config_round_trip(v: ConfigView)
    requires
        encodable(v),
    ensures
        encode_spec(v).len() == CONFIG_LEN,
        parse_spec(encode_spec(v)) == Ok::<ConfigView, Error>(v),
{
    lemma_encode_layout(v);
    lemma_strings_read_back(v);
    lemma_codes_round_trip(v.fifo_mode, v.fifo_clock, v.channel_config);
    ft60x_flash_rom_detection::lemma_flags_round_trip(v.flash_eeprom_detection);
}

/// Relies on `std::str::from_utf8`: a single byte is valid UTF-8 exactly when it is below
/// 0x80, and then it is the character of that code.
#[verifier::external_body]
fn utf8_of_byte(b: &[u8]) -> (r: Result<&str, core::str::Utf8Error>)
    requires
        b@.len() == 1,
    ensures
        r is Ok <==> b@[0] < 128,
        r matches Ok(s) ==> s@ == seq![b@[0] as char],
{
    std::str::from_utf8(b)
}

#[verifier::external_type_specification]
#[verifier::external_body]
pub struct ExUtf8Error(core::str::Utf8Error);

/// Reads the string descriptor at offset `o` of the string area.
fn parse_string(bytes: &[u8; 152], o: usize) -> (r: Result<(String, usize), Error>)
    requires
        o <= STRINGS_LEN,
    ensures
        r is Ok <==> field_ok(area_of(bytes@), o as int),
        r matches Ok((s, next)) ==> s@ == field_text(area_of(bytes@), o as int) && next
            == field_next(area_of(bytes@), o as int),
        r is Err ==> r == Err::<(String, usize), Error>(Error::InvalidStringField),
{
    let ghost area = area_of(bytes@);
    if o + 2 > STRINGS_LEN {
        return Err(Error::InvalidStringField);
    }
    let len_byte = bytes[STRINGS_START + o];
    if len_byte < 2 {
        return Err(Error::InvalidStringField);
    }
    if bytes[STRINGS_START + o + 1] != STRING_DESCRIPTOR_TAG {
        return Err(Error::InvalidStringField);
    }
    let n = ((len_byte - 2) / 2) as usize;
    assert(n == field_chars(area, o as int));
    if o + 2 + 2 * n > STRINGS_LEN {
        return Err(Error::InvalidStringField);
    }
    let s = bytes.as_slice();
    let mut res = String::new();
    let mut i: usize = 0;
    while i < n
        invariant
            s@ == bytes@,
            area == area_of(bytes@),
            n == field_chars(area, o as int),
            o + 2 + 2 * n <= STRINGS_LEN,
            i <= n,
            res@ == field_text(area, o as int).subrange(0, i as int),
            forall|j: int| 0 <= j < i ==> #[trigger] char_ok(area, o as int, j),
        decreases n - i,
    {
        let k = STRINGS_START + o + 2 + 2 * i;
        let c = match utf8_of_byte(&s[k..k + 1]) {
            Ok(c) => c,
            Err(_) => {
                assert(!char_ok(area, o as int, i as int));
                return Err(Error::InvalidStringField);
            },
        };
        if s[k + 1] != 0 {
            assert(!char_ok(area, o as int, i as int));
            return Err(Error::InvalidStringField);
        }
        res.append(c);
        assert(char_ok(area, o as int, i as int));
        i = i + 1;
        assert(res@ =~= field_text(area, o as int).subrange(0, i as int));
    }
    assert(res@ =~= field_text(area, o as int));
    Ok((res, o + len_byte as usize))
}

/// Appends the descriptor of an ASCII string of at most 61 characters.
fn push_string_field(out: &mut Vec<u8>, text: &String)
    requires
        is_ascii_chars(text@),
        text@.len() <= 61,
    ensures
        final(out)@ == old(out)@ + string_field(text@),
{
    let n = text.unicode_len();
    out.push((2 + 2 * n) as u8);
    out.push(STRING_DESCRIPTOR_TAG);
    let mut i: usize = 0;
    while i < n
        invariant
            n == text@.len(),
            n <= 61,
            is_ascii_chars(text@),
            i <= n,
            out@ == old(out)@ + string_field(text@).subrange(0, 2 + 2 * i),
        decreases n - i,
    {
        let c = text.as_str().get_ascii(i);
        out.push(c);
        out.push(0u8);
        i = i + 1;
        assert(out@ =~= old(out)@ + string_field(text@).subrange(0, 2 + 2 * i));
    }
    assert(string_field(text@).subrange(0, 2 + 2 * n) =~= string_field(text@));
}

impl FT60xConfig {
    /// Decodes the 152-byte configuration record.
    pub fn parse(bytes: [u8; 152]) -> (r: Result<FT60xConfig, Error>)
        ensures
            r is Ok <==> parse_spec(bytes@) is Ok,
            r matches Ok(c) ==> parse_spec(bytes@) == Ok::<ConfigView, Error>(c@),
            r matches Err(e) ==> parse_spec(bytes@) == Err::<ConfigView, Error>(e),
    {
        let ghost area = area_of(bytes@);
        let data = bytes.as_slice();
        let vid = read_le_u16(data, 0);
        let pid = read_le_u16(data, 2);
        let (manufacturer, offset) = match parse_string(&bytes, 0) {
            Ok(p) => p,
            Err(e) => return Err(e),
        };
        if offset > STRINGS_LEN {
            return Err(Error::InvalidStringField);
        }
        let (product_description, offset) = match parse_string(&bytes, offset) {
            Ok(p) => p,
            Err(e) => return Err(e),
        };
        if offset > STRINGS_LEN {
            return Err(Error::InvalidStringField);
        }
        let (serial_number, _) = match parse_string(&bytes, offset) {
            Ok(p) => p,
            Err(e) => return Err(e),
        };
        let reserved1 = bytes[132];
        let power_attributes = bytes[133];
        let power_consumption = read_le_u16(data, 134);
        let reserved2 = bytes[136];
        let fifo_clock = match FT60xFifoClock::parse(bytes[137]) {
            Ok(c) => c,
            Err(e) => return Err(e),
        };
        let fifo_mode = match FT60xFifoMode::parse(bytes[138]) {
            Ok(m) => m,
            Err(e) => return Err(e),
        };
        let channel_config = match FT60xChannelConfig::parse(bytes[139]) {
            Ok(c) => c,
            Err(e) => return Err(e),
        };
        let optional_features_support = read_le_u16(data, 140);
        let battery_charging_gpio_config = bytes[142];
        let flash_eeprom_detection = match FT60xFlashRomDetection::parse(bytes[143]) {
            Ok(d) => d,
            Err(e) => return Err(e),
        };
        let msio_config = read_le_u32(data, 144);
        let gpio_config = read_le_u32(data, 148);
        let r = FT60xConfig {
            vid,
            pid,
            manufacturer,
            product_description,
            serial_number,
            power_attributes,
            power_consumption,
            fifo_clock,
            fifo_mode,
            channel_config,
            optional_features_support,
            battery_charging_gpio_config,
            flash_eeprom_detection,
            msio_config,
            gpio_config,
            reserved1,
            reserved2,
        };
        assert(r@ == parse_spec(bytes@)->Ok_0);
        Ok(r)
    }

    /// Encodes the record into its 152 bytes; the strings must be ASCII and fit the string
    /// area.
    pub fn encode(&self) -> (r: Result<[u8; 152], Error>)
        ensures
            r is Ok <==> encodable(self@),
            r matches Ok(b) ==> b@ == encode_spec(self@),
            r is Err ==> r == Err::<[u8; 152], Error>(Error::UnencodableString),
    {
        if !self.manufacturer.is_ascii() || !self.product_description.is_ascii()
            || !self.serial_number.is_ascii() {
            return Err(Error::UnencodableString);
        }
        let l1 = self.manufacturer.as_str().unicode_len();
        let l2 = self.product_description.as_str().unicode_len();
        let l3 = self.serial_number.as_str().unicode_len();
        if l1 > 61 || l2 > 61 || l3 > 61 || 6 + 2 * (l1 + l2 + l3) > STRINGS_LEN {
            return Err(Error::UnencodableString);
        }
        let mut out: Vec<u8> = Vec::new();
        push_le_u16(&mut out, self.vid);
        push_le_u16(&mut out, self.pid);
        push_string_field(&mut out, &self.manufacturer);
        push_string_field(&mut out, &self.product_description);
        push_string_field(&mut out, &self.serial_number);
        let ghost fields = out@;
        while out.len() < STRINGS_START + STRINGS_LEN
            invariant
                fields.len() <= out@.len() <= STRINGS_START + STRINGS_LEN,
                out@.subrange(0, fields.len() as int) == fields,
                forall|j: int| fields.len() <= j < out@.len() ==> out@[j] == 0u8,
            decreases STRINGS_START + STRINGS_LEN - out.len(),
        {
            out.push(0u8);
        }
        proof {
            let f = string_field(self.manufacturer@) + string_field(self.product_description@)
                + string_field(self.serial_number@);
            assert(fields =~= le16(self.vid) + le16(self.pid) + f);
            assert(out@.len() == STRINGS_START + STRINGS_LEN);
            let pad = Seq::new((STRINGS_LEN - f.len()) as nat, |i: int| 0u8);
            assert(out@ =~= fields + pad);
            assert(strings_area(self@) == f + pad);
            assert(out@ =~= le16(self.vid) + le16(self.pid) + strings_area(self@));
        }
        out.push(self.reserved1);
        out.push(self.power_attributes);
        push_le_u16(&mut out, self.power_consumption);
        out.push(self.reserved2);
        out.push(self.fifo_clock.encode());
        out.push(self.fifo_mode.encode());
        out.push(self.channel_config.encode());
        push_le_u16(&mut out, self.optional_features_support);
        out.push(self.battery_charging_gpio_config);
        out.push(self.flash_eeprom_detection.encode());
        push_le_u32(&mut out, self.msio_config);
        push_le_u32(&mut out, self.gpio_config);
        assert(out@ =~= encode_spec(self@));
        let mut buf = [0u8; 152];
        let mut i: usize = 0;
        while i < CONFIG_LEN
            invariant
                out@ == encode_spec(self@),
                out@.len() == CONFIG_LEN,
                buf@.len() == CONFIG_LEN,
                i <= CONFIG_LEN,
                forall|j: int| 0 <= j < i ==> buf@[j] == out@[j],
            decreases CONFIG_LEN - i,
        {
            buf[i] = out[i];
            i = i + 1;
        }
        assert(buf@ =~= encode_spec(self@));
        Ok(buf)
    }
}

} // verus!
