use vstd::prelude::*;
use vstd::arithmetic::power2::pow2;
use vstd::arithmetic::power2::lemma2_to64;
use vstd::bits::lemma_u8_shl_is_mul;

verus! {

/// The registers of the processor.
pub struct Registers {
    a: u8,
    x: u8,
    y: u8,
    pc: u16,
    s: u8,
    p: u8,
}

/// The place of the carry flag in the status register.
pub const CARRY: u8 = 0;

/// The place of the zero flag in the status register.
pub const ZERO: u8 = 1;

/// The place of the flag that holds interrupts off.
pub const INTERRUPT_DISABLE: u8 = 2;

/// The place of the decimal flag in the status register.
pub const DECIMAL_MODE: u8 = 3;

/// The place of the break flag in the status register.
pub const BREAK_COMMAND: u8 = 4;

/// The place of the overflow flag in the status register.
pub const OVERFLOW: u8 = 6;

/// The place of the negative flag in the status register.
pub const NEGATIVE: u8 = 7;

impl Default for Registers {
    /// The registers as they are when the power comes on: the program
    /// counter at the reset vector, the stack pointer at `0xFD`, interrupts
    /// held off.
    fn default() -> (r: Self)
        ensures
            r.a() == 0,
            r.x() == 0,
            r.y() == 0,
            r.pc() == 0xFFFC,
            r.s() == 0xFD,
            r.p() == 0x24,
    {
        Self { a: 0, x: 0, y: 0, pc: 0xFFFC, s: 0xFD, p: 0b0010_0100 }
    }
}

/// How a bit of a byte and the two bytes of a word relate to the numbers.
proof fn lemma_bit_and_bytes(p: u8, bit: u8, pc: u16, value: u8)
    requires
        bit < 8,
    ensures
        1u8 << bit == pow2(bit as nat),
        (p & (1u8 << bit) != 0) == (p / (1u8 << bit) % 2 == 1),
        (p & !(1u8 << bit)) | (1u8 << bit) == p - (1u8 << bit) * (p / (1u8 << bit) % 2) + (1u8
            << bit),
        p & !(1u8 << bit) == p - (1u8 << bit) * (p / (1u8 << bit) % 2),
        pc & 0xff == pc % 256,
        pc >> 8 == pc / 256,
        (pc & 0xff00) | (value as u16) == (pc / 256) * 256 + value,
        (pc & 0x00ff) | ((value as u16) << 8) == value * 256 + pc % 256,
{
    lemma2_to64();
    assert(1 * pow2(bit as nat) <= u8::MAX) by {
        if bit < 7 {
            vstd::arithmetic::power2::lemma_pow2_strictly_increases(bit as nat, 7);
        }
    }
    lemma_u8_shl_is_mul(1, bit);
    assert((p & (1u8 << bit) != 0) == (p / (1u8 << bit) % 2 == 1)) by (bit_vector)
        requires
            bit < 8,
    ;
    assert((p & !(1u8 << bit)) | (1u8 << bit) == p - (1u8 << bit) * (p / (1u8 << bit) % 2) + (1u8
        << bit)) by (bit_vector)
        requires
            bit < 8,
    ;
    assert(p & !(1u8 << bit) == p - (1u8 << bit) * (p / (1u8 << bit) % 2)) by (bit_vector)
        requires
            bit < 8,
    ;
    assert(pc & 0xff == pc % 256 && pc >> 8 == pc / 256) by (bit_vector);
    assert((pc & 0xff00) | (value as u16) == (pc / 256) * 256 + value) by (bit_vector);
    assert((pc & 0x00ff) | ((value as u16) << 8) == value * 256 + pc % 256) by (bit_vector);
}

impl Registers {
    /// The accumulator.
    pub closed spec fn a(&self) -> u8 {
        self.a
    }

    /// The index register X.
    pub closed spec fn x(&self) -> u8 {
        self.x
    }

    /// The index register Y.
    pub closed spec fn y(&self) -> u8 {
        self.y
    }

    /// The program counter.
    pub closed spec fn pc(&self) -> u16 {
        self.pc
    }

    /// The stack pointer.
    pub closed spec fn s(&self) -> u8 {
        self.s
    }

    /// The status register.
    pub closed spec fn p(&self) -> u8 {
        self.p
    }

    /// Whether the bit of `p` at the place `bit` is set.
    pub open spec fn bit_of(p: u8, bit: u8) -> bool {
        p as nat / pow2(bit as nat) % 2 == 1
    }

    /// The byte `p` with the bit at the place `bit` replaced by `value`.
    pub open spec fn with_bit(p: u8, bit: u8, value: bool) -> int {
        p - pow2(bit as nat) * (p as nat / pow2(bit as nat) % 2) + if value {
            pow2(bit as nat) as int
        } else {
            0
        }
    }

    /// The same registers but for the program counter.
    pub open spec fn same_but_pc(&self, other: &Registers) -> bool {
        &&& other.a() == self.a()
        &&& other.x() == self.x()
        &&& other.y() == self.y()
        &&& other.s() == self.s()
        &&& other.p() == self.p()
    }

    /// The same registers but for the status register.
    pub open spec fn same_but_p(&self, other: &Registers) -> bool {
        &&& other.a() == self.a()
        &&& other.x() == self.x()
        &&& other.y() == self.y()
        &&& other.s() == self.s()
        &&& other.pc() == self.pc()
    }

    /// The low byte of the program counter.
    pub fn pcl(&self) -> (r: u8)
        ensures
            r == self.pc() % 256,
    {
        proof {
            lemma_bit_and_bytes(0, 0, self.pc, 0);
        }
        (self.pc & 0xff) as u8
    }

    /// Replaces the low byte of the program counter.
    pub fn set_pcl(&mut self, value: u8)
        ensures
            final(self).pc() == old(self).pc() / 256 * 256 + value,
            old(self).same_but_pc(final(self)),
    {
        proof {
            lemma_bit_and_bytes(0, 0, self.pc, value);
        }
        self.pc = (self.pc & 0xff00) | value as u16;
    }

    /// The high byte of the program counter.
    pub fn pch(&self) -> (r: u8)
        ensures
            r == self.pc() / 256,
    {
        proof {
            lemma_bit_and_bytes(0, 0, self.pc, 0);
        }
        (self.pc >> 8) as u8
    }

    /// Replaces the high byte of the program counter.
    pub fn set_pch(&mut self, value: u8)
        ensures
            final(self).pc() == value * 256 + old(self).pc() % 256,
            old(self).same_but_pc(final(self)),
    {
        proof {
            lemma_bit_and_bytes(0, 0, self.pc, value);
        }
        self.pc = (self.pc & 0x00ff) | (value as u16) << 8;
    }

    /// Whether the flag at the place `bit` of the status register is set.
    pub fn status(&self, bit: u8) -> (r: bool)
        requires
            bit < 8,
        ensures
            r == Self::bit_of(self.p(), bit),
    {
        proof {
            lemma_bit_and_bytes(self.p, bit, 0, 0);
        }
        self.p & (1 << bit) != 0
    }

    /// Sets or clears the flag at the place `bit` of the status register.
    pub fn set_status(&mut self, bit: u8, value: bool)
        requires
            bit < 8,
        ensures
            final(self).p() == Self::with_bit(old(self).p(), bit, value),
            Self::bit_of(final(self).p(), bit) == value,
            forall|other: u8|
                other < 8 && other != bit ==> Self::bit_of(final(self).p(), other) == Self::bit_of(
                    old(self).p(),
                    other,
                ),
            old(self).same_but_p(final(self)),
    {
        proof {
            lemma_bit_and_bytes(self.p, bit, 0, 0);
        }
        let cleared = self.p & !(1 << bit);
        self.p = if value {
            cleared | (1 << bit)
        } else {
            cleared
        };
        proof {
            lemma_other_bits_stay(old(self).p, self.p, bit, value);
        }
    }

    /// Whether the carry flag is set.
    pub fn carry(&self) -> (r: bool)
        ensures
            r == Self::bit_of(self.p(), CARRY),
    {
        self.status(CARRY)
    }

    /// Sets or clears the carry flag.
    pub fn set_carry(&mut self, value: bool)
        ensures
            final(self).p() == Self::with_bit(old(self).p(), CARRY, value),
            Self::bit_of(final(self).p(), CARRY) == value,
            old(self).same_but_p(final(self)),
    {
        self.set_status(CARRY, value);
    }

    /// Whether the zero flag is set.
    pub fn zero(&self) -> (r: bool)
        ensures
            r == Self::bit_of(self.p(), ZERO),
    {
        self.status(ZERO)
    }

    /// Sets or clears the zero flag.
    pub fn set_zero(&mut self, value: bool)
        ensures
            final(self).p() == Self::with_bit(old(self).p(), ZERO, value),
            Self::bit_of(final(self).p(), ZERO) == value,
            old(self).same_but_p(final(self)),
    {
        self.set_status(ZERO, value);
    }

    /// Whether the interrupt-disable flag is set.
    pub fn interrupt_disable(&self) -> (r: bool)
        ensures
            r == Self::bit_of(self.p(), INTERRUPT_DISABLE),
    {
        self.status(INTERRUPT_DISABLE)
    }

    /// Sets or clears the interrupt-disable flag.
    pub fn set_interrupt_disable(&mut self, value: bool)
        ensures
            final(self).p() == Self::with_bit(old(self).p(), INTERRUPT_DISABLE, value),
            Self::bit_of(final(self).p(), INTERRUPT_DISABLE) == value,
            old(self).same_but_p(final(self)),
    {
        self.set_status(INTERRUPT_DISABLE, value);
    }

    /// Whether the decimal flag is set.
    pub fn decimal_mode(&self) -> (r: bool)
        ensures
            r == Self::bit_of(self.p(), DECIMAL_MODE),
    {
        self.status(DECIMAL_MODE)
    }

    /// Sets or clears the decimal flag.
    pub fn set_decimal_mode(&mut self, value: bool)
        ensures
            final(self).p() == Self::with_bit(old(self).p(), DECIMAL_MODE, value),
            Self::bit_of(final(self).p(), DECIMAL_MODE) == value,
            old(self).same_but_p(final(self)),
    {
        self.set_status(DECIMAL_MODE, value);
    }

    /// Whether the break flag is set.
    pub fn break_command(&self) -> (r: bool)
        ensures
            r == Self::bit_of(self.p(), BREAK_COMMAND),
    {
        self.status(BREAK_COMMAND)
    }

    /// Sets or clears the break flag.
    pub fn set_break_command(&mut self, value: bool)
        ensures
            final(self).p() == Self::with_bit(old(self).p(), BREAK_COMMAND, value),
            Self::bit_of(final(self).p(), BREAK_COMMAND) == value,
            old(self).same_but_p(final(self)),
    {
        self.set_status(BREAK_COMMAND, value);
    }

    /// Whether the overflow flag is set.
    pub fn overflow(&self) -> (r: bool)
        ensures
            r == Self::bit_of(self.p(), OVERFLOW),
    {
        self.status(OVERFLOW)
    }

    /// Sets or clears the overflow flag.
    pub fn set_overflow(&mut self, value: bool)
        ensures
            final(self).p() == Self::with_bit(old(self).p(), OVERFLOW, value),
            Self::bit_of(final(self).p(), OVERFLOW) == value,
            old(self).same_but_p(final(self)),
    {
        self.set_status(OVERFLOW, value);
    }

    /// Whether the negative flag is set.
    pub fn negative(&self) -> (r: bool)
        ensures
            r == Self::bit_of(self.p(), NEGATIVE),
    {
        self.status(NEGATIVE)
    }

    /// Sets or clears the negative flag.
    pub fn set_negative(&mut self, value: bool)
        ensures
            final(self).p() == Self::with_bit(old(self).p(), NEGATIVE, value),
            Self::bit_of(final(self).p(), NEGATIVE) == value,
            old(self).same_but_p(final(self)),
    {
        self.set_status(NEGATIVE, value);
    }
}

/// Replacing one bit of a byte sets that bit and leaves the others.
proof fn lemma_other_bits_stay(before: u8, after: u8, bit: u8, value: bool)
    requires
        bit < 8,
        after == Registers::with_bit(before, bit, value),
    ensures
        Registers::bit_of(after, bit) == value,
        forall|other: u8|
            other < 8 && other != bit ==> Registers::bit_of(after, other) == Registers::bit_of(
                before,
                other,
            ),
{
    lemma2_to64();
    assert forall|other: u8| other < 8 implies (1u8 << other) == pow2(other as nat) by {
        if other < 7 {
            vstd::arithmetic::power2::lemma_pow2_strictly_increases(other as nat, 7);
        }
        lemma_u8_shl_is_mul(1, other);
    }
    let mask = 1u8 << bit;
    assert(after == before - mask * (before / mask % 2) + if value {
        mask as int
    } else {
        0
    });
    assert(before - mask * (before / mask % 2) == before & !mask) by (bit_vector)
        requires
            bit < 8,
            mask == 1u8 << bit,
    ;
    assert(after == if value {
        (before & !mask) | mask
    } else {
        before & !mask
    }) by {
        assert((before & !mask) | mask == (before & !mask) + mask) by (bit_vector)
            requires
                bit < 8,
                mask == 1u8 << bit,
        ;
    }
    assert((after / mask % 2 == 1) == value) by (bit_vector)
        requires
            bit < 8,
            mask == 1u8 << bit,
            after == if value {
                (before & !mask) | mask
            } else {
                before & !mask
            },
    ;
    assert forall|other: u8| other < 8 && other != bit implies Registers::bit_of(after, other)
        == Registers::bit_of(before, other) by {
        let place = 1u8 << other;
        assert((after / place % 2 == 1) == (before / place % 2 == 1)) by (bit_vector)
            requires
                bit < 8,
                other < 8,
                other != bit,
                mask == 1u8 << bit,
                place == 1u8 << other,
                after == if value {
                    (before & !mask) | mask
                } else {
                    before & !mask
                },
        ;
    }
}

/// The processor: its registers and its two kilobytes of memory.
pub struct Cpu {
    regs: Registers,
    ram: [u8; 0x800],
}

} // verus!
