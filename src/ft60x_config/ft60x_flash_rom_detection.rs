//! The flash/ROM detection flags of the configuration record.

use crate::Error;
use vstd::prelude::*;

verus! {

#[derive(Debug, Clone, Copy, PartialEq, Eq, Structural)]
pub enum MemoryType {
    Flash,
    ROM,
}

#[derive(Debug, Clone, Copy, PartialEq, Eq, Structural)]
pub enum MemoryStatus {
    Exists,
    ExistsNot,
}

#[derive(Debug, Clone, Copy, PartialEq, Eq, Structural)]
pub enum CustomConfigValidity {
    Valid,
    Invalid,
}

#[derive(Debug, Clone, Copy, PartialEq, Eq, Structural)]
pub enum CustomConfigChecksum {
    Valid,
    Invalid,
}

#[derive(Debug, Clone, Copy, PartialEq, Eq, Structural)]
pub enum GPIOInput {
    Ignore,
    Used,
}

#[derive(Debug, Clone, Copy, PartialEq, Eq, Structural)]
pub enum ConfigUsed {
    Default,
    Custom,
}

#[derive(Debug, Clone, Copy, PartialEq, Eq, Structural)]
pub enum GPIO0 {
    Low,
    High,
}

#[derive(Debug, Clone, Copy, PartialEq, Eq, Structural)]
pub enum GPIO1 {
    Low,
    High,
}

/// The flash/ROM detection byte of the configuration record, one flag per bit.
#[derive(Debug, Clone, Copy, PartialEq, Eq, Structural)]
pub struct FT60xFlashRomDetection {
    pub memory_type: MemoryType,
    pub memory_status: MemoryStatus,
    pub custom_config_validity: CustomConfigValidity,
    pub custom_config_checksum: CustomConfigChecksum,
    pub gpio_input: GPIOInput,
    pub config_used: ConfigUsed,
    pub gpio0: GPIO0,
    pub gpio1: GPIO1,
}

/// The byte with bits 0 to 7 set exactly where the flags say so.
pub open spec fn flag_byte(
    f0: bool,
    f1: bool,
    f2: bool,
    f3: bool,
    f4: bool,
    f5: bool,
    f6: bool,
    f7: bool,
) -> u8 {
    (if f0 { 1u8 } else { 0u8 }) | (if f1 { 2u8 } else { 0u8 }) | (if f2 { 4u8 } else { 0u8 }) | (
    if f3 { 8u8 } else { 0u8 }) | (if f4 { 16u8 } else { 0u8 }) | (if f5 { 32u8 } else { 0u8 }) | (
    if f6 { 64u8 } else { 0u8 }) | (if f7 { 128u8 } else { 0u8 })
}

/// Bit `k` of `flags` is set.
pub open spec fn bit_set(flags: u8, k: u8) -> bool {
    flags & (1u8 << k) != 0
}

impl FT60xFlashRomDetection {
    /// The record's byte: bit 0 ROM, 1 memory absent, 2 custom config invalid, 3 custom
    /// checksum invalid, 4 custom config used, 5 GPIO input used, 6 GPIO0 high, 7 GPIO1 high.
    pub open spec fn bits(self) -> u8 {
        flag_byte(
            self.memory_type is ROM,
            self.memory_status is ExistsNot,
            self.custom_config_validity is Invalid,
            self.custom_config_checksum is Invalid,
            self.config_used is Custom,
            self.gpio_input is Used,
            self.gpio0 is High,
            self.gpio1 is High,
        )
    }

    /// The flags that a byte holds, read bit by bit as `bits` lays them out.
    pub open spec fn from_bits(flags: u8) -> Self {
        FT60xFlashRomDetection {
            memory_type: if bit_set(flags, 0) { MemoryType::ROM } else { MemoryType::Flash },
            memory_status: if bit_set(flags, 1) { MemoryStatus::ExistsNot } else { MemoryStatus::Exists },
            custom_config_validity: if bit_set(flags, 2) {
                CustomConfigValidity::Invalid
            } else {
                CustomConfigValidity::Valid
            },
            custom_config_checksum: if bit_set(flags, 3) {
                CustomConfigChecksum::Invalid
            } else {
                CustomConfigChecksum::Valid
            },
            config_used: if bit_set(flags, 4) { ConfigUsed::Custom } else { ConfigUsed::Default },
            gpio_input: if bit_set(flags, 5) { GPIOInput::Used } else { GPIOInput::Ignore },
            gpio0: if bit_set(flags, 6) { GPIO0::High } else { GPIO0::Low },
            gpio1: if bit_set(flags, 7) { GPIO1::High } else { GPIO1::Low },
        }
    }

    /// Reads the flags from their byte; every byte is a valid set of flags.
    pub fn parse(flags: u8) -> (r: Result<FT60xFlashRomDetection, Error>)
        ensures
            r == Ok::<FT60xFlashRomDetection, Error>(Self::from_bits(flags)),
    {
        let memory_type = if flags & (1u8 << 0u8) == 0 { MemoryType::Flash } else { MemoryType::ROM };
        let memory_status = if flags & (1u8 << 1u8) == 0 {
            MemoryStatus::Exists
        } else {
            MemoryStatus::ExistsNot
        };
        let custom_config_validity = if flags & (1u8 << 2u8) == 0 {
            CustomConfigValidity::Valid
        } else {
            CustomConfigValidity::Invalid
        };
        let custom_config_checksum = if flags & (1u8 << 3u8) == 0 {
            CustomConfigChecksum::Valid
        } else {
            CustomConfigChecksum::Invalid
        };
        let config_used = if flags & (1u8 << 4u8) == 0 { ConfigUsed::Default } else { ConfigUsed::Custom };
        let gpio_input = if flags & (1u8 << 5u8) == 0 { GPIOInput::Ignore } else { GPIOInput::Used };
        let gpio0 = if flags & (1u8 << 6u8) == 0 { GPIO0::Low } else { GPIO0::High };
        let gpio1 = if flags & (1u8 << 7u8) == 0 { GPIO1::Low } else { GPIO1::High };
        Ok(
            FT60xFlashRomDetection {
                memory_type,
                memory_status,
                custom_config_validity,
                custom_config_checksum,
                gpio_input,
                config_used,
                gpio0,
                gpio1,
            },
        )
    }

    /// Packs the flags into their byte.
    pub fn encode(&self) -> (r: u8)
        ensures
            r == self.bits(),
    {
        let mut flags: u8 = if let MemoryType::ROM = self.memory_type { 1 } else { 0 };
        flags = flags | if let MemoryStatus::ExistsNot = self.memory_status { 2u8 } else { 0u8 };
        flags = flags | if let CustomConfigValidity::Invalid = self.custom_config_validity {
            4u8
        } else {
            0u8
        };
        flags = flags | if let CustomConfigChecksum::Invalid = self.custom_config_checksum {
            8u8
        } else {
            0u8
        };
        flags = flags | if let ConfigUsed::Custom = self.config_used { 16u8 } else { 0u8 };
        flags = flags | if let GPIOInput::Used = self.gpio_input { 32u8 } else { 0u8 };
        flags = flags | if let GPIO0::High = self.gpio0 { 64u8 } else { 0u8 };
        flags = flags | if let GPIO1::High = self.gpio1 { 128u8 } else { 0u8 };
        flags
    }
}

proof fn lemma_flag_byte_bits(
    f0: bool,
    f1: bool,
    f2: bool,
    f3: bool,
    f4: bool,
    f5: bool,
    f6: bool,
    f7: bool,
)
    ensures
        bit_set(flag_byte(f0, f1, f2, f3, f4, f5, f6, f7), 0) == f0,
        bit_set(flag_byte(f0, f1, f2, f3, f4, f5, f6, f7), 1) == f1,
        bit_set(flag_byte(f0, f1, f2, f3, f4, f5, f6, f7), 2) == f2,
        bit_set(flag_byte(f0, f1, f2, f3, f4, f5, f6, f7), 3) == f3,
        bit_set(flag_byte(f0, f1, f2, f3, f4, f5, f6, f7), 4) == f4,
        bit_set(flag_byte(f0, f1, f2, f3, f4, f5, f6, f7), 5) == f5,
        bit_set(flag_byte(f0, f1, f2, f3, f4, f5, f6, f7), 6) == f6,
        bit_set(flag_byte(f0, f1, f2, f3, f4, f5, f6, f7), 7) == f7,
{
    let v = flag_byte(f0, f1, f2, f3, f4, f5, f6, f7);
    assert(bit_set(v, 0) == f0 && bit_set(v, 1) == f1 && bit_set(v, 2) == f2 && bit_set(v, 3) == f3)
        by (bit_vector)
        requires
            v == flag_byte(f0, f1, f2, f3, f4, f5, f6, f7),
    ;
    assert(bit_set(v, 4) == f4 && bit_set(v, 5) == f5 && bit_set(v, 6) == f6 && bit_set(v, 7) == f7)
        by (bit_vector)
        requires
            v == flag_byte(f0, f1, f2, f3, f4, f5, f6, f7),
    ;
}

/// Reading the byte that a set of flags packs into gives the same flags back.
pub proof fn lemma_flags_round_trip(d: FT60xFlashRomDetection)
    ensures
        FT60xFlashRomDetection::from_bits(d.bits()) == d,
{
    lemma_flag_byte_bits(
        d.memory_type is ROM,
        d.memory_status is ExistsNot,
        d.custom_config_validity is Invalid,
        d.custom_config_checksum is Invalid,
        d.config_used is Custom,
        d.gpio_input is Used,
        d.gpio0 is High,
        d.gpio1 is High,
    );
}

/// Packing the flags read from a byte gives the same byte back.
pub proof fn lemma_byte_round_trip(flags: u8)
    ensures
        FT60xFlashRomDetection::from_bits(flags).bits() == flags,
{
    assert(flag_byte(
        bit_set(flags, 0),
        bit_set(flags, 1),
        bit_set(flags, 2),
        bit_set(flags, 3),
        bit_set(flags, 4),
        bit_set(flags, 5),
        bit_set(flags, 6),
        bit_set(flags, 7),
    ) == flags) by (bit_vector);
}

} // verus!
