use vstd::prelude::*;
use vstd::arithmetic::power2::pow2;
use vstd::arithmetic::power2::lemma_pow2_unfold;
use vstd::arithmetic::power2::lemma2_to64;
use vstd::arithmetic::mul::lemma_mul_is_associative;
use crate::rom::RomError;
use crate::rom::mapper::Mapper;

verus! {

/// How the two nametables are laid out in video memory.
#[derive(Clone, Copy, Debug, PartialEq, Eq, Structural)]
pub enum NametableArrangement {
    Vertical,
    Horizontal,
}

/// The video chip whose timing the extended layout asks for.
#[derive(Clone, Copy, Debug, PartialEq, Eq, Structural)]
pub enum TimingMode {
    Rp2c02,
    Rp2c07,
    MultipleRegion,
    Ua6538,
}

/// The television system a cartridge was made for.
#[derive(Clone, Copy, Debug, PartialEq, Eq, Structural)]
pub enum TvSystem {
    Ntsc,
    Pal,
    Dual,
}

/// How the bit fields of one header byte relate to the byte as a number.
proof fn lemma_byte_fields(b: u8)
    by (bit_vector)
    ensures
        b & 1 == b % 2,
        (b >> 1) & 1 == b / 2 % 2,
        (b >> 2) & 1 == b / 4 % 2,
        (b >> 3) & 1 == b / 8 % 2,
        (b >> 2) & 3 == b / 4 % 4,
        b & 3 == b % 4,
        b >> 2 == b / 4,
        b & 0x0f == b % 16,
        b >> 4 == b / 16,
        b & 0x3f == b % 64,
        b >> 6 == b / 64,
{
}

/// Header bytes 6 and 7: the flags that both layouts share.
#[derive(Clone, Copy, Debug, PartialEq, Eq, Structural)]
pub struct INesBits1 {
    /// Header byte 6.
    pub low: u8,
    /// Header byte 7.
    pub high: u8,
}

impl INesBits1 {
    /// How the nametables are arranged: bit 0 of byte 6, clear for vertical.
    pub open spec fn spec_nametable_arrangement(&self) -> NametableArrangement {
        if self.low % 2 == 0 {
            NametableArrangement::Vertical
        } else {
            NametableArrangement::Horizontal
        }
    }

    /// Whether the cartridge has memory that outlasts the power: bit 1 of
    /// byte 6.
    pub open spec fn spec_has_persistent_memory(&self) -> bool {
        self.low / 2 % 2 == 1
    }

    /// Whether a trainer stands before program memory: bit 2 of byte 6.
    pub open spec fn spec_has_trainer(&self) -> bool {
        self.low / 4 % 2 == 1
    }

    /// Whether the cartridge lays its nametables out in a way of its own:
    /// bit 3 of byte 6.
    pub open spec fn spec_has_alternative_nametable_layout(&self) -> bool {
        self.low / 8 % 2 == 1
    }

    /// The low nibble of the mapper number: bits 4 to 7 of byte 6.
    pub open spec fn spec_mapper_id_low(&self) -> u8 {
        self.low / 16
    }

    /// Whether the cartridge is for a Vs. Unisystem: bit 0 of byte 7.
    pub open spec fn spec_is_vs_unisystem(&self) -> bool {
        self.high % 2 == 1
    }

    /// Whether PlayChoice data follow character memory: bit 1 of byte 7.
    pub open spec fn spec_has_playchoice_data(&self) -> bool {
        self.high / 2 % 2 == 1
    }

    /// What tells the two layouts apart: bits 2 and 3 of byte 7.
    pub open spec fn spec_nes2_format_indicator(&self) -> u8 {
        self.high / 4 % 4
    }

    /// The high nibble of the mapper number: bits 4 to 7 of byte 7.
    pub open spec fn spec_mapper_id_high(&self) -> u8 {
        self.high / 16
    }

    /// The indicator reads 2 exactly where the header is in the extended layout.
    pub open spec fn spec_is_nes2_format(&self) -> bool {
        self.spec_nes2_format_indicator() == 2
    }

    /// The two mapper nibbles of these bytes as one number: the high nibble
    /// of byte 7 above the high nibble of byte 6.
    pub open spec fn spec_mapper_id(&self) -> u8 {
        (16 * self.spec_mapper_id_high() + self.spec_mapper_id_low()) as u8
    }

    /// Every field of byte 7 is zero.
    pub open spec fn spec_are_extra_flags_zero(&self) -> bool {
        !self.spec_is_vs_unisystem() && !self.spec_has_playchoice_data()
            && self.spec_nes2_format_indicator() == 0 && self.spec_mapper_id_high() == 0
    }

    /// Both console bits set in an extended header: the console type is in byte 13.
    pub open spec fn spec_has_extended_console_type(&self) -> bool {
        self.spec_is_nes2_format() && self.spec_is_vs_unisystem()
            && self.spec_has_playchoice_data()
    }

    /// The byte `low` with bit 2 replaced by `value`.
    pub open spec fn low_with_trainer_bit(low: u8, value: bool) -> int {
        low - 4 * (low / 4 % 2) + if value {
            4int
        } else {
            0int
        }
    }

    /// The flags that header bytes 6 and 7 hold.
    pub fn from_bytes(bytes: [u8; 2]) -> (r: Self)
        ensures
            r.low == bytes[0],
            r.high == bytes[1],
    {
        INesBits1 { low: bytes[0], high: bytes[1] }
    }

    /// How the nametables are arranged: bit 0 of byte 6, clear for vertical.
    #[verifier::when_used_as_spec(spec_nametable_arrangement)]
    pub fn nametable_arrangement(&self) -> (r: NametableArrangement)
        ensures
            r == self.spec_nametable_arrangement(),
    {
        proof {
            lemma_byte_fields(self.low);
        }
        if self.low & 1 == 0 {
            NametableArrangement::Vertical
        } else {
            NametableArrangement::Horizontal
        }
    }

    /// Whether the cartridge has memory that outlasts the power: bit 1 of
    /// byte 6.
    #[verifier::when_used_as_spec(spec_has_persistent_memory)]
    pub fn has_persistent_memory(&self) -> (r: bool)
        ensures
            r == self.spec_has_persistent_memory(),
    {
        proof {
            lemma_byte_fields(self.low);
        }
        (self.low >> 1) & 1 == 1
    }

    /// Whether a trainer stands before program memory: bit 2 of byte 6.
    #[verifier::when_used_as_spec(spec_has_trainer)]
    pub fn has_trainer(&self) -> (r: bool)
        ensures
            r == self.spec_has_trainer(),
    {
        proof {
            lemma_byte_fields(self.low);
        }
        (self.low >> 2) & 1 == 1
    }

    /// Replaces bit 2 of byte 6 and leaves every other bit as it was.
    pub fn set_has_trainer(&mut self, value: bool)
        ensures
            final(self).low == Self::low_with_trainer_bit(old(self).low, value),
            final(self).high == old(self).high,
            final(self).has_trainer() == value,
    {
        let low = self.low;
        if value {
            assert((low | 4) == low - 4 * (low / 4 % 2) + 4 && (low | 4) / 4 % 2 == 1)
                by (bit_vector);
            self.low = low | 4;
        } else {
            assert((low & 0xfb) == low - 4 * (low / 4 % 2) && (low & 0xfb) / 4 % 2 == 0)
                by (bit_vector);
            self.low = low & 0xfb;
        }
    }

    /// Whether the cartridge lays its nametables out in a way of its own:
    /// bit 3 of byte 6.
    #[verifier::when_used_as_spec(spec_has_alternative_nametable_layout)]
    pub fn has_alternative_nametable_layout(&self) -> (r: bool)
        ensures
            r == self.spec_has_alternative_nametable_layout(),
    {
        proof {
            lemma_byte_fields(self.low);
        }
        (self.low >> 3) & 1 == 1
    }

    /// The low nibble of the mapper number: bits 4 to 7 of byte 6.
    #[verifier::when_used_as_spec(spec_mapper_id_low)]
    pub fn mapper_id_low(&self) -> (r: u8)
        ensures
            r == self.spec_mapper_id_low(),
            r < 16,
    {
        proof {
            lemma_byte_fields(self.low);
        }
        self.low >> 4
    }

    /// Whether the cartridge is for a Vs. Unisystem: bit 0 of byte 7.
    #[verifier::when_used_as_spec(spec_is_vs_unisystem)]
    pub fn is_vs_unisystem(&self) -> (r: bool)
        ensures
            r == self.spec_is_vs_unisystem(),
    {
        proof {
            lemma_byte_fields(self.high);
        }
        self.high & 1 == 1
    }

    /// Whether PlayChoice data follow character memory: bit 1 of byte 7.
    #[verifier::when_used_as_spec(spec_has_playchoice_data)]
    pub fn has_playchoice_data(&self) -> (r: bool)
        ensures
            r == self.spec_has_playchoice_data(),
    {
        proof {
            lemma_byte_fields(self.high);
        }
        (self.high >> 1) & 1 == 1
    }

    /// What tells the two layouts apart: bits 2 and 3 of byte 7.
    #[verifier::when_used_as_spec(spec_nes2_format_indicator)]
    pub fn nes2_format_indicator(&self) -> (r: u8)
        ensures
            r == self.spec_nes2_format_indicator(),
            r < 4,
    {
        proof {
            lemma_byte_fields(self.high);
        }
        (self.high >> 2) & 3
    }

    /// The high nibble of the mapper number: bits 4 to 7 of byte 7.
    #[verifier::when_used_as_spec(spec_mapper_id_high)]
    pub fn mapper_id_high(&self) -> (r: u8)
        ensures
            r == self.spec_mapper_id_high(),
            r < 16,
    {
        proof {
            lemma_byte_fields(self.high);
        }
        self.high >> 4
    }

    /// The indicator reads 2 exactly where the header is in the extended layout.
    #[verifier::when_used_as_spec(spec_is_nes2_format)]
    pub fn is_nes2_format(&self) -> (r: bool)
        ensures
            r == self.spec_is_nes2_format(),
    {
        self.nes2_format_indicator() == 2
    }

    /// The two mapper nibbles of these bytes as one number: the high nibble
    /// of byte 7 above the high nibble of byte 6.
    #[verifier::when_used_as_spec(spec_mapper_id)]
    pub fn mapper_id(&self) -> (r: u8)
        ensures
            r == self.spec_mapper_id(),
            r == 16 * self.mapper_id_high() + self.mapper_id_low(),
    {
        let high = self.mapper_id_high();
        let low = self.mapper_id_low();
        assert((high << 4) | low == 16 * high + low) by (bit_vector)
            requires
                high < 16,
                low < 16,
        ;
        (high << 4) | low
    }

    /// Every field of byte 7 is zero.
    #[verifier::when_used_as_spec(spec_are_extra_flags_zero)]
    pub fn are_extra_flags_zero(&self) -> (r: bool)
        ensures
            r == self.spec_are_extra_flags_zero(),
            r == (self.high == 0),
    {
        !self.is_vs_unisystem() && !self.has_playchoice_data() && self.nes2_format_indicator() == 0
            && self.mapper_id_high() == 0
    }

    /// Both console bits set in an extended header: the console type is in byte 13.
    #[verifier::when_used_as_spec(spec_has_extended_console_type)]
    pub fn has_extended_console_type(&self) -> (r: bool)
        ensures
            r == self.spec_has_extended_console_type(),
    {
        self.is_nes2_format() && self.is_vs_unisystem() && self.has_playchoice_data()
    }
}

/// Header bytes 11 to 15, which only the extended layout gives a meaning.
#[derive(Clone, Copy, Debug, PartialEq, Eq, Structural)]
pub struct INesBits2 {
    /// Header byte 11: the two character-RAM size shifts.
    pub chr_ram: u8,
    /// Header byte 12: the timing mode.
    pub timing: u8,
    /// Header byte 13: the console subtype.
    pub console: u8,
    /// Header byte 14: the number of miscellaneous ROMs.
    pub misc_roms: u8,
    /// Header byte 15: the default expansion device.
    pub expansion: u8,
}

impl INesBits2 {
    /// The shift count for the size of character RAM: bits 0 to 3 of
    /// byte 11.
    pub open spec fn spec_chr_ram_size_shift(&self) -> u8 {
        self.chr_ram % 16
    }

    /// The shift count for the size of battery-backed character RAM: bits
    /// 4 to 7 of byte 11.
    pub open spec fn spec_chr_nvram_size_shift(&self) -> u8 {
        self.chr_ram / 16
    }

    /// The timing mode: bits 0 and 1 of byte 12.
    pub open spec fn spec_timing_mode(&self) -> TimingMode {
        if self.timing % 4 == 0 {
            TimingMode::Rp2c02
        } else if self.timing % 4 == 1 {
            TimingMode::Rp2c07
        } else if self.timing % 4 == 2 {
            TimingMode::MultipleRegion
        } else {
            TimingMode::Ua6538
        }
    }

    /// The video chip of a Vs. System, or else the console type: bits 0 to
    /// 3 of byte 13.
    pub open spec fn spec_vs_ppu_or_extended_console_type(&self) -> u8 {
        self.console % 16
    }

    /// The hardware of a Vs. System: bits 4 to 7 of byte 13.
    pub open spec fn spec_vs_hardware_type(&self) -> u8 {
        self.console / 16
    }

    /// The number of miscellaneous ROMs: bits 0 and 1 of byte 14.
    pub open spec fn spec_num_miscellaneous_roms(&self) -> u8 {
        self.misc_roms % 4
    }

    /// The expansion device that the cartridge expects: bits 0 to 5 of
    /// byte 15.
    pub open spec fn spec_default_expansion_device(&self) -> u8 {
        self.expansion % 64
    }

    /// Every field is zero, the reserved bits included: all five bytes are zero.
    pub open spec fn spec_is_all_zeroes(&self) -> bool {
        self.chr_ram == 0 && self.timing == 0 && self.console == 0 && self.misc_roms == 0
            && self.expansion == 0
    }

    /// The flags that header bytes 11 to 15 hold.
    pub fn from_bytes(bytes: [u8; 5]) -> (r: Self)
        ensures
            r.chr_ram == bytes[0],
            r.timing == bytes[1],
            r.console == bytes[2],
            r.misc_roms == bytes[3],
            r.expansion == bytes[4],
    {
        INesBits2 {
            chr_ram: bytes[0],
            timing: bytes[1],
            console: bytes[2],
            misc_roms: bytes[3],
            expansion: bytes[4],
        }
    }

    /// The shift count for the size of character RAM: bits 0 to 3 of
    /// byte 11.
    #[verifier::when_used_as_spec(spec_chr_ram_size_shift)]
    pub fn chr_ram_size_shift(&self) -> (r: u8)
        ensures
            r == self.spec_chr_ram_size_shift(),
            r < 16,
    {
        proof {
            lemma_byte_fields(self.chr_ram);
        }
        self.chr_ram & 0x0f
    }

    /// The shift count for the size of battery-backed character RAM: bits
    /// 4 to 7 of byte 11.
    #[verifier::when_used_as_spec(spec_chr_nvram_size_shift)]
    pub fn chr_nvram_size_shift(&self) -> (r: u8)
        ensures
            r == self.spec_chr_nvram_size_shift(),
            r < 16,
    {
        proof {
            lemma_byte_fields(self.chr_ram);
        }
        self.chr_ram >> 4
    }

    /// The timing mode: bits 0 and 1 of byte 12.
    #[verifier::when_used_as_spec(spec_timing_mode)]
    pub fn timing_mode(&self) -> (r: TimingMode)
        ensures
            r == self.spec_timing_mode(),
    {
        proof {
            lemma_byte_fields(self.timing);
        }
        match self.timing & 3 {
            0 => TimingMode::Rp2c02,
            1 => TimingMode::Rp2c07,
            2 => TimingMode::MultipleRegion,
            _ => TimingMode::Ua6538,
        }
    }

    /// The video chip of a Vs. System, or else the console type: bits 0 to
    /// 3 of byte 13.
    #[verifier::when_used_as_spec(spec_vs_ppu_or_extended_console_type)]
    pub fn vs_ppu_or_extended_console_type(&self) -> (r: u8)
        ensures
            r == self.spec_vs_ppu_or_extended_console_type(),
    {
        proof {
            lemma_byte_fields(self.console);
        }
        self.console & 0x0f
    }

    /// The hardware of a Vs. System: bits 4 to 7 of byte 13.
    #[verifier::when_used_as_spec(spec_vs_hardware_type)]
    pub fn vs_hardware_type(&self) -> (r: u8)
        ensures
            r == self.spec_vs_hardware_type(),
    {
        proof {
            lemma_byte_fields(self.console);
        }
        self.console >> 4
    }

    /// The number of miscellaneous ROMs: bits 0 and 1 of byte 14.
    #[verifier::when_used_as_spec(spec_num_miscellaneous_roms)]
    pub fn num_miscellaneous_roms(&self) -> (r: u8)
        ensures
            r == self.spec_num_miscellaneous_roms(),
            r < 4,
    {
        proof {
            lemma_byte_fields(self.misc_roms);
        }
        self.misc_roms & 3
    }

    /// The expansion device that the cartridge expects: bits 0 to 5 of
    /// byte 15.
    #[verifier::when_used_as_spec(spec_default_expansion_device)]
    pub fn default_expansion_device(&self) -> (r: u8)
        ensures
            r == self.spec_default_expansion_device(),
    {
        proof {
            lemma_byte_fields(self.expansion);
        }
        self.expansion & 0x3f
    }

    /// Every field is zero, the reserved bits included: all five bytes are zero.
    #[verifier::when_used_as_spec(spec_is_all_zeroes)]
    pub fn is_all_zeroes(&self) -> (r: bool)
        ensures
            r == self.spec_is_all_zeroes(),
    {
        self.chr_ram == 0 && self.timing == 0 && self.console == 0 && self.misc_roms == 0
            && self.expansion == 0
    }
}

/// The size in bytes that the byte `lsb` gives as a multiplier and an
/// exponent: its two low bits stand for the multiplier 1, 3, 5 or 7, which
/// is `2 * (lsb mod 4) + 1`, and its six high bits for the power of two by
/// which that is multiplied.
pub open spec fn exponential_size(lsb: u8) -> nat {
    let power = pow2((lsb / 4) as nat);
    if lsb % 4 == 0 {
        power
    } else if lsb % 4 == 1 {
        3 * power
    } else if lsb % 4 == 2 {
        5 * power
    } else {
        7 * power
    }
}

/// The exponential size is the multiplier `2 * (lsb mod 4) + 1` times two to
/// the power `lsb div 4`.
pub proof fn lemma_exponential_size(lsb: u8)
    ensures
        exponential_size(lsb) == (2 * (lsb % 4) + 1) * pow2((lsb / 4) as nat),
{
    let power = pow2((lsb / 4) as nat);
    let mult = 2 * (lsb % 4) + 1;
    assert(mult * power == exponential_size(lsb)) by (nonlinear_arith)
        requires
            mult == 1 || mult == 3 || mult == 5 || mult == 7,
            exponential_size(lsb) == if mult == 1 {
                power
            } else if mult == 3 {
                3 * power
            } else if mult == 5 {
                5 * power
            } else {
                7 * power
            },
    ;
}

/// The number of bytes that a ROM-size field of the header stands for.
///
/// The field counts units of `2^unit_shift` bytes. In the simple layout the
/// count is `lsb`. In the extended layout `lsb` is joined by the nibble
/// `msb`, and the count is the number `msb:lsb`, unless `msb` is at its
/// highest value: then the size is not counted in units but given in bytes
/// by `lsb` as a multiplier and an exponent.
pub open spec fn rom_size(lsb: u8, msb: u8, is_nes2: bool, unit_shift: nat) -> nat {
    if is_nes2 {
        if msb == 0x0f {
            exponential_size(lsb)
        } else {
            (lsb + 256 * msb) as nat * pow2(unit_shift)
        }
    } else {
        lsb as nat * pow2(unit_shift)
    }
}

/// Shifting left is multiplying by a power of two, as long as nothing is lost.
proof fn lemma_shl_is_mul_pow2(x: u128, shift: u128)
    requires
        shift < 128,
        x * pow2(shift as nat) <= u128::MAX,
    ensures
        x << shift == x * pow2(shift as nat),
    decreases shift,
{
    if shift == 0 {
        assert(x << 0u128 == x) by (bit_vector);
        lemma2_to64();
    } else {
        let prev = (shift - 1) as u128;
        lemma_pow2_unfold(shift as nat);
        lemma_mul_is_associative(x as int, 2, pow2(prev as nat) as int);
        assert(x * pow2(shift as nat) == 2 * (x * pow2(prev as nat))) by (nonlinear_arith)
            requires
                pow2(shift as nat) == 2 * pow2(prev as nat),
        ;
        lemma_shl_is_mul_pow2(x, prev);
        let half = x << prev;
        assert(x << shift == half * 2) by (bit_vector)
            requires
                0 < shift < 128,
                prev == shift - 1,
                half == x << prev,
                half <= 0x7fff_ffff_ffff_ffff_ffff_ffff_ffff_ffffu128,
        ;
    }
}

/// The number of bytes that a ROM-size field of the header stands for.
///
/// Where the size is counted in units, `nes1_shift` gives the unit as a
/// power of two, and has to leave room for the count above it.
pub fn decode_rom_size(lsb: u8, msb: u8, is_nes2: bool, nes1_shift: usize) -> (size: u128)
    requires
        !is_nes2 ==> nes1_shift <= 120,
        is_nes2 && msb != 0x0f ==> nes1_shift <= 112,
    ensures
        size == rom_size(lsb, msb, is_nes2, nes1_shift as nat),
{
    if is_nes2 {
        if msb == 0x0f {
            proof {
                lemma_byte_fields(lsb);
                lemma2_to64();
            }
            let mult: u128 = ((lsb & 3) * 2 + 1) as u128;
            let exp: u128 = (lsb >> 2) as u128;
            proof {
                lemma_small_times_pow2(mult as nat, exp as nat, 3, 63);
                lemma_shl_is_mul_pow2(mult, exp);
                lemma_exponential_size(lsb);
            }
            mult << exp
        } else {
            let low: u128 = lsb as u128;
            let high: u128 = msb as u128;
            let shift: u128 = nes1_shift as u128;
            assert(low | (high << 8) == low + 256 * high) by (bit_vector)
                requires
                    low < 256,
                    high < 256,
            ;
            let units: u128 = low | (high << 8);
            proof {
                lemma2_to64();
                lemma_small_times_pow2(units as nat, shift as nat, 16, 112);
                lemma_shl_is_mul_pow2(units, shift);
            }
            units << shift
        }
    } else {
        let low: u128 = lsb as u128;
        let shift: u128 = nes1_shift as u128;
        proof {
            lemma2_to64();
            lemma_small_times_pow2(low as nat, shift as nat, 8, 120);
            lemma_shl_is_mul_pow2(low, shift);
        }
        low << shift
    }
}

/// A number of at most `bits` bits times two to a power of at most `most`
/// has at most `bits + most` bits.
proof fn lemma_small_times_pow2(x: nat, e: nat, bits: nat, most: nat)
    requires
        x < pow2(bits),
        e <= most,
        bits + most <= 128,
    ensures
        x * pow2(e) <= u128::MAX,
{
    vstd::arithmetic::power2::lemma_pow2_adds(bits, most);
    vstd::arithmetic::power2::lemma_pow2_pos(e);
    if e < most {
        vstd::arithmetic::power2::lemma_pow2_strictly_increases(e, most);
    }
    assert(x * pow2(e) < pow2(bits) * pow2(most)) by (nonlinear_arith)
        requires
            x < pow2(bits),
            0 < pow2(e) <= pow2(most),
    ;
    if bits + most < 128 {
        vstd::arithmetic::power2::lemma_pow2_strictly_increases(bits + most, 128);
    }
    assert(pow2(128) == 0x1_0000_0000_0000_0000_0000_0000_0000_0000) by {
        lemma2_to64();
        vstd::arithmetic::power2::lemma_pow2_adds(64, 64);
    }
}

/// The header of a ROM image after its magic: bytes 4 to 15, field by field.
#[derive(Clone, Copy, Debug, PartialEq, Eq, Structural)]
pub struct Header {
    /// Header byte 4.
    pub prg_rom_size: u8,
    /// Header byte 5.
    pub chr_rom_size: u8,
    /// Header bytes 6 and 7.
    pub flags6_7: INesBits1,
    /// Header byte 8.
    pub prg_ram_size: u8,
    /// Header byte 9.
    pub flags9: u8,
    /// Header byte 10.
    pub flags10: u8,
    /// Header bytes 11 to 15.
    pub nes2_flags: INesBits2,
}

/// The number of bytes of a trainer.
pub const TRAINER_LEN: usize = 512;

/// The number of bytes before the first section: the magic and the header.
pub const HEADER_LEN: usize = 16;

impl Header {
    /// The header that the first sixteen bytes of `s` spell.
    pub open spec fn of(s: Seq<u8>) -> Header
        recommends
            s.len() >= HEADER_LEN,
    {
        Header {
            prg_rom_size: s[4],
            chr_rom_size: s[5],
            flags6_7: INesBits1 { low: s[6], high: s[7] },
            prg_ram_size: s[8],
            flags9: s[9],
            flags10: s[10],
            nes2_flags: INesBits2 {
                chr_ram: s[11],
                timing: s[12],
                console: s[13],
                misc_roms: s[14],
                expansion: s[15],
            },
        }
    }

    /// Whether the header is in the extended layout.
    pub open spec fn is_nes2_format(&self) -> bool {
        self.flags6_7.is_nes2_format()
    }

    /// Whether bytes 7 to 15 can be believed. An extended header is taken at
    /// its word. A simple one with anything set in bytes 11 to 15 was most
    /// likely written by a tool that left a signature there.
    pub open spec fn are_extra_flags_valid(&self) -> bool {
        self.is_nes2_format() || self.nes2_flags.is_all_zeroes()
    }

    /// The number of trainer bytes that follow the header.
    pub open spec fn trainer_len(&self) -> nat {
        if self.flags6_7.has_trainer() {
            TRAINER_LEN as nat
        } else {
            0
        }
    }

    /// The number of bytes of program memory, which is counted in units of
    /// 16 KiB. In the extended layout the low nibble of byte 9 extends
    /// byte 4.
    pub open spec fn prg_rom_len(&self) -> nat {
        rom_size(self.prg_rom_size, self.flags9 % 16, self.is_nes2_format(), 14)
    }

    /// The number of bytes of character memory, which is counted in units of
    /// 8 KiB. In the extended layout the high nibble of byte 9 extends
    /// byte 5.
    pub open spec fn chr_rom_len(&self) -> nat {
        rom_size(self.chr_rom_size, self.flags9 / 16, self.is_nes2_format(), 13)
    }

    /// The number of bytes that the header announces after itself.
    pub open spec fn payload_len(&self) -> nat {
        self.trainer_len() + self.prg_rom_len() + self.chr_rom_len()
    }

    /// The number of miscellaneous ROMs, which only the extended layout
    /// can announce.
    pub open spec fn num_miscellaneous_roms(&self) -> nat {
        if self.is_nes2_format() {
            self.nes2_flags.num_miscellaneous_roms() as nat
        } else {
            0
        }
    }

    /// The size that a shift count of the extended layout stands for:
    /// nothing for zero, else 64 bytes doubled `shift` times.
    pub open spec fn shifted_size(shift: u8) -> nat {
        if shift == 0 {
            0
        } else {
            64 * pow2(shift as nat)
        }
    }

    /// The number of bytes of volatile character RAM. A simple header cannot
    /// say, and 8 KiB is assumed.
    pub open spec fn chr_ram_size(&self) -> nat {
        if self.is_nes2_format() {
            Self::shifted_size(self.nes2_flags.chr_ram_size_shift())
        } else {
            8192
        }
    }

    /// The number of bytes of battery-backed character RAM.
    pub open spec fn chr_nvram_size(&self) -> nat {
        if self.is_nes2_format() {
            Self::shifted_size(self.nes2_flags.chr_nvram_size_shift())
        } else {
            0
        }
    }

    /// The variant of the mapper: bits 4 to 7 of byte 8, extended layout only.
    pub open spec fn submapper_id(&self) -> Option<u8> {
        if self.is_nes2_format() {
            Some((self.prg_ram_size / 16) as u8)
        } else {
            None
        }
    }

    /// The number of the mapper.
    ///
    /// Its low nibble is always that of byte 6. The high nibble of byte 7
    /// counts only where the extra flags are valid, and bits 0 to 3 of byte 8
    /// extend the number to twelve bits in the extended layout.
    pub open spec fn mapper_id(&self) -> nat {
        if !self.are_extra_flags_valid() {
            self.flags6_7.mapper_id_low() as nat
        } else if self.is_nes2_format() {
            (self.flags6_7.mapper_id() + 256 * (self.prg_ram_size % 16)) as nat
        } else {
            self.flags6_7.mapper_id() as nat
        }
    }

    /// The mapper by name, where its number is one that is known.
    pub open spec fn mapper(&self) -> Result<Mapper, RomError> {
        match Mapper::with_id(self.mapper_id()) {
            Some(m) => Ok(m),
            None => Err(RomError::UnknownMapper(self.mapper_id() as usize)),
        }
    }

    /// The television system.
    ///
    /// The extended layout names it in its timing mode. The simple layout
    /// has it in bits 0 and 1 of byte 10, or else in bit 0 of byte 9, and
    /// only where the extra flags are valid: otherwise it is unknown.
    pub open spec fn tv_system(&self) -> Option<TvSystem> {
        if self.is_nes2_format() {
            Some(
                match self.nes2_flags.timing_mode() {
                    TimingMode::Rp2c02 => TvSystem::Ntsc,
                    TimingMode::Rp2c07 | TimingMode::Ua6538 => TvSystem::Pal,
                    TimingMode::MultipleRegion => TvSystem::Dual,
                },
            )
        } else if self.are_extra_flags_valid() {
            Some(
                if self.flags10 % 4 == 1 || self.flags10 % 4 == 3 {
                    TvSystem::Dual
                } else if self.flags10 % 4 == 2 {
                    TvSystem::Pal
                } else if self.flags9 % 2 == 1 {
                    TvSystem::Pal
                } else {
                    TvSystem::Ntsc
                },
            )
        } else {
            None
        }
    }
}

/// In a simple header with anything set in bytes 11 to 15, the high nibble of
/// the mapper number is not believed: the number is the low nibble alone.
pub proof fn lemma_junk_flags_keep_low_nibble(h: Header)
    requires
        !h.is_nes2_format(),
        !h.nes2_flags.is_all_zeroes(),
    ensures
        h.mapper_id() == h.flags6_7.mapper_id_low(),
        h.mapper_id() < 16,
        h.tv_system() is None,
{
}

/// A ROM image taken apart: its header and the sections that follow it.
#[derive(Debug)]
pub struct INes {
    header: Header,
    trainer: Option<[u8; 512]>,
    prg_rom: Vec<u8>,
    chr_rom: Vec<u8>,
    miscellaneous_rom: Vec<u8>,
}

/// What an [`INes`] holds.
pub struct INesView {
    pub header: Header,
    pub trainer: Option<Seq<u8>>,
    pub prg_rom: Seq<u8>,
    pub chr_rom: Seq<u8>,
    pub miscellaneous_rom: Seq<u8>,
}

impl INesView {
    /// The sections are those that the header announces.
    pub open spec fn wf(&self) -> bool {
        &&& self.trainer is Some <==> self.header.flags6_7.has_trainer()
        &&& self.trainer matches Some(t) ==> t.len() == TRAINER_LEN
        &&& self.prg_rom.len() == self.header.prg_rom_len()
        &&& self.chr_rom.len() == self.header.chr_rom_len()
    }
}

impl View for INes {
    type V = INesView;

    closed spec fn view(&self) -> INesView {
        INesView {
            header: self.header,
            trainer: match self.trainer {
                Some(t) => Some(t@),
                None => None,
            },
            prg_rom: self.prg_rom@,
            chr_rom: self.chr_rom@,
            miscellaneous_rom: self.miscellaneous_rom@,
        }
    }
}

/// Whether `s` begins with the four bytes `NES\x1A`.
pub open spec fn has_magic(s: Seq<u8>) -> bool {
    s.len() >= 4 && s[0] == 0x4e && s[1] == 0x45 && s[2] == 0x53 && s[3] == 0x1a
}

/// The bytes of `bytes` from `start` up to `end`, as a vector of their own.
fn copy_range(bytes: &[u8], start: usize, end: usize) -> (r: Vec<u8>)
    requires
        start <= end <= bytes@.len(),
    ensures
        r@ == bytes@.subrange(start as int, end as int),
{
    let mut r: Vec<u8> = Vec::new();
    let mut i: usize = start;
    while i < end
        invariant
            start <= i <= end <= bytes@.len(),
            r@ == bytes@.subrange(start as int, i as int),
        decreases end - i,
    {
        r.push(bytes[i]);
        i += 1;
    }
    r
}

/// The 512 bytes of `bytes` from `start` on.
fn copy_trainer(bytes: &[u8], start: usize) -> (r: [u8; 512])
    requires
        start + 512 <= bytes@.len(),
    ensures
        r@ == bytes@.subrange(start as int, start + 512),
{
    let len: usize = bytes.len();
    let mut r: [u8; 512] = [0u8; 512];
    let mut i: usize = 0;
    while i < 512
        invariant
            i <= 512,
            start + 512 <= len == bytes@.len(),
            forall|j: int| 0 <= j < i ==> r@[j] == bytes@[start + j],
        decreases 512 - i,
    {
        r[i] = bytes[start + i];
        i += 1;
    }
    r
}

impl INes {
    /// The first rule of the layout that `s` breaks, if it breaks one: an
    /// image begins with the magic, holds a whole header, and is at least as
    /// long as the sections that its header announces.
    pub open spec fn layout_fault(s: Seq<u8>) -> Option<RomError> {
        if s.len() < 4 {
            Some(RomError::Truncated)
        } else if !has_magic(s) {
            Some(RomError::BadMagic)
        } else if s.len() < HEADER_LEN || s.len() - HEADER_LEN < Header::of(s).payload_len() {
            Some(RomError::Truncated)
        } else {
            None
        }
    }

    /// The parts of the image `s`: after the header the trainer, if the
    /// header announces one, then program memory, then character memory, and
    /// whatever is left as miscellaneous ROM.
    pub open spec fn image(s: Seq<u8>) -> INesView {
        let header = Header::of(s);
        let prg_start = HEADER_LEN + header.trainer_len();
        let chr_start = prg_start + header.prg_rom_len();
        let misc_start = chr_start + header.chr_rom_len();
        INesView {
            header,
            trainer: if header.flags6_7.has_trainer() {
                Some(s.subrange(HEADER_LEN as int, prg_start as int))
            } else {
                None
            },
            prg_rom: s.subrange(prg_start as int, chr_start as int),
            chr_rom: s.subrange(chr_start as int, misc_start as int),
            miscellaneous_rom: s.subrange(misc_start as int, s.len() as int),
        }
    }

    /// Takes a ROM image apart.
    pub fn parse(bytes: &[u8]) -> (r: Result<INes, RomError>)
        ensures
            match r {
                Ok(rom) => Self::layout_fault(bytes@) is None && rom@ == Self::image(bytes@)
                    && rom@.wf(),
                Err(e) => Self::layout_fault(bytes@) == Some(e),
            },
    {
        if bytes.len() < 4 {
            return Err(RomError::Truncated);
        }
        if bytes[0] != 0x4e || bytes[1] != 0x45 || bytes[2] != 0x53 || bytes[3] != 0x1a {
            return Err(RomError::BadMagic);
        }
        if bytes.len() < HEADER_LEN {
            return Err(RomError::Truncated);
        }
        let header = Header {
            prg_rom_size: bytes[4],
            chr_rom_size: bytes[5],
            flags6_7: INesBits1::from_bytes([bytes[6], bytes[7]]),
            prg_ram_size: bytes[8],
            flags9: bytes[9],
            flags10: bytes[10],
            nes2_flags: INesBits2::from_bytes(
                [bytes[11], bytes[12], bytes[13], bytes[14], bytes[15]],
            ),
        };
        proof {
            lemma_byte_fields(header.flags9);
        }
        let is_nes2 = header.flags6_7.is_nes2_format();
        let has_trainer = header.flags6_7.has_trainer();
        let trainer_len: usize = if has_trainer {
            TRAINER_LEN
        } else {
            0
        };
        let prg_len = decode_rom_size(header.prg_rom_size, header.flags9 & 0x0f, is_nes2, 14);
        let chr_len = decode_rom_size(header.chr_rom_size, header.flags9 >> 4, is_nes2, 13);
        let after_header = (bytes.len() - HEADER_LEN) as u128;
        if after_header < trainer_len as u128 {
            return Err(RomError::Truncated);
        }
        let after_trainer = after_header - trainer_len as u128;
        if after_trainer < prg_len {
            return Err(RomError::Truncated);
        }
        let after_prg = after_trainer - prg_len;
        if after_prg < chr_len {
            return Err(RomError::Truncated);
        }
        let prg_start = HEADER_LEN + trainer_len;
        let chr_start = prg_start + prg_len as usize;
        let misc_start = chr_start + chr_len as usize;
        let trainer = if has_trainer {
            Some(copy_trainer(bytes, HEADER_LEN))
        } else {
            None
        };
        Ok(
            INes {
                header,
                trainer,
                prg_rom: copy_range(bytes, prg_start, chr_start),
                chr_rom: copy_range(bytes, chr_start, misc_start),
                miscellaneous_rom: copy_range(bytes, misc_start, bytes.len()),
            },
        )
    }

    /// The trainer, if the image carries one.
    pub fn trainer(&self) -> (r: Option<&[u8; 512]>)
        ensures
            match r {
                Some(t) => self@.trainer == Some(t@),
                None => self@.trainer is None,
            },
    {
        self.trainer.as_ref()
    }

    /// Puts a trainer into the image, or takes it out, and has the header
    /// say so. Nothing else changes.
    pub fn set_trainer(&mut self, trainer: Option<[u8; 512]>)
        ensures
            final(self)@.trainer == match trainer {
                Some(t) => Some(t@),
                None => None,
            },
            final(self)@.header == (Header {
                flags6_7: INesBits1 {
                    low: INesBits1::low_with_trainer_bit(
                        old(self)@.header.flags6_7.low,
                        trainer is Some,
                    ) as u8,
                    high: old(self)@.header.flags6_7.high,
                },
                ..old(self)@.header
            }),
            final(self)@.header.flags6_7.has_trainer() == (trainer is Some),
            final(self)@.prg_rom == old(self)@.prg_rom,
            final(self)@.chr_rom == old(self)@.chr_rom,
            final(self)@.miscellaneous_rom == old(self)@.miscellaneous_rom,
            old(self)@.wf() ==> final(self)@.wf(),
    {
        self.header.flags6_7.set_has_trainer(trainer.is_some());
        self.trainer = trainer;
    }

    /// Program memory.
    pub fn prg_rom(&self) -> (r: &[u8])
        ensures
            r@ == self@.prg_rom,
    {
        self.prg_rom.as_slice()
    }

    /// Character memory.
    pub fn chr_rom(&self) -> (r: &[u8])
        ensures
            r@ == self@.chr_rom,
    {
        self.chr_rom.as_slice()
    }

    /// The number of miscellaneous ROMs that the header announces.
    pub fn num_miscellaneous_roms(&self) -> (r: usize)
        ensures
            r == self@.header.num_miscellaneous_roms(),
    {
        if self.header.flags6_7.is_nes2_format() {
            self.header.nes2_flags.num_miscellaneous_roms() as usize
        } else {
            0
        }
    }

    /// What follows character memory.
    pub fn miscellaneous_rom(&self) -> (r: &[u8])
        ensures
            r@ == self@.miscellaneous_rom,
    {
        self.miscellaneous_rom.as_slice()
    }

    /// The number of bytes of volatile character RAM.
    pub fn chr_ram_size(&self) -> (r: usize)
        ensures
            r == self@.header.chr_ram_size(),
    {
        if self.header.flags6_7.is_nes2_format() {
            shifted_size(self.header.nes2_flags.chr_ram_size_shift())
        } else {
            8192
        }
    }

    /// The number of bytes of battery-backed character RAM.
    pub fn chr_nvram_size(&self) -> (r: usize)
        ensures
            r == self@.header.chr_nvram_size(),
    {
        if self.header.flags6_7.is_nes2_format() {
            shifted_size(self.header.nes2_flags.chr_nvram_size_shift())
        } else {
            0
        }
    }

    /// The variant of the mapper, which only the extended layout names.
    pub fn submapper_id(&self) -> (r: Option<u8>)
        ensures
            r == self@.header.submapper_id(),
    {
        if self.header.flags6_7.is_nes2_format() {
            proof {
                lemma_byte_fields(self.header.prg_ram_size);
            }
            Some(self.header.prg_ram_size >> 4)
        } else {
            None
        }
    }

    /// The number of the mapper.
    pub fn mapper_id(&self) -> (r: usize)
        ensures
            r == self@.header.mapper_id(),
            r < 4096,
    {
        let mapper_id: u32 = self.header.flags6_7.mapper_id() as u32;
        if !self.are_extra_flags_valid() {
            assert(mapper_id & 0x0f == mapper_id % 16) by (bit_vector);
            (mapper_id & 0x0f) as usize
        } else if self.header.flags6_7.is_nes2_format() {
            let high: u32 = self.header.prg_ram_size as u32;
            assert(mapper_id | ((high & 0x0f) << 8) == mapper_id + 256 * (high % 16))
                by (bit_vector)
                requires
                    mapper_id < 256,
                    high < 256,
            ;
            (mapper_id | ((high & 0x0f) << 8)) as usize
        } else {
            mapper_id as usize
        }
    }

    /// The mapper, where its number is one that is known.
    pub fn mapper(&self) -> (r: Result<Mapper, RomError>)
        ensures
            r == self@.header.mapper(),
    {
        let mapper_id = self.mapper_id();
        match Mapper::from_usize(mapper_id) {
            Some(m) => Ok(m),
            None => Err(RomError::UnknownMapper(mapper_id)),
        }
    }

    /// The television system, where the header lets it be told.
    pub fn tv_system(&self) -> (r: Option<TvSystem>)
        ensures
            r == self@.header.tv_system(),
    {
        if self.header.flags6_7.is_nes2_format() {
            Some(
                match self.header.nes2_flags.timing_mode() {
                    TimingMode::Rp2c02 => TvSystem::Ntsc,
                    TimingMode::Rp2c07 | TimingMode::Ua6538 => TvSystem::Pal,
                    TimingMode::MultipleRegion => TvSystem::Dual,
                },
            )
        } else if self.are_extra_flags_valid() {
            proof {
                lemma_byte_fields(self.header.flags10);
                lemma_byte_fields(self.header.flags9);
            }
            Some(
                match self.header.flags10 & 3 {
                    1 | 3 => TvSystem::Dual,
                    2 => TvSystem::Pal,
                    _ => {
                        if self.header.flags9 & 1 == 1 {
                            TvSystem::Pal
                        } else {
                            TvSystem::Ntsc
                        }
                    },
                },
            )
        } else {
            None
        }
    }

    fn are_extra_flags_valid(&self) -> (r: bool)
        ensures
            r == self@.header.are_extra_flags_valid(),
    {
        self.header.flags6_7.is_nes2_format() || self.header.nes2_flags.is_all_zeroes()
    }
}

/// The size that a shift count of the extended layout stands for.
fn shifted_size(shift: u8) -> (r: usize)
    requires
        shift < 16,
    ensures
        r == Header::shifted_size(shift),
{
    if shift == 0 {
        0
    } else {
        let wide: u32 = shift as u32;
        proof {
            lemma2_to64();
            vstd::arithmetic::power2::lemma_pow2_strictly_increases(shift as nat, 16);
            assert(64 * pow2(shift as nat) <= u32::MAX);
            vstd::bits::lemma_u32_shl_is_mul(64, wide);
        }
        (64u32 << wide) as usize
    }
}

} // verus!
