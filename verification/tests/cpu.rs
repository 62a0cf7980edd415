use ners::hw::cpu::Registers;
use ners::hw::cpu::BREAK_COMMAND;
use ners::hw::cpu::CARRY;
use ners::hw::cpu::DECIMAL_MODE;
use ners::hw::cpu::INTERRUPT_DISABLE;
use ners::hw::cpu::NEGATIVE;
use ners::hw::cpu::OVERFLOW;
use ners::hw::cpu::ZERO;

#[test]
fn registers_at_power_on() {
    let regs = Registers::default();
    assert_eq!(regs.pcl(), 0xfc);
    assert_eq!(regs.pch(), 0xff);
    assert!(!regs.carry());
    assert!(!regs.zero());
    assert!(regs.interrupt_disable());
    assert!(!regs.decimal_mode());
    assert!(!regs.break_command());
    assert!(regs.status(5));
    assert!(!regs.overflow());
    assert!(!regs.negative());
}

#[test]
fn program_counter_is_set_byte_by_byte() {
    let mut regs = Registers::default();
    regs.set_pcl(0x34);
    assert_eq!(regs.pcl(), 0x34);
    assert_eq!(regs.pch(), 0xff);
    regs.set_pch(0x12);
    assert_eq!(regs.pcl(), 0x34);
    assert_eq!(regs.pch(), 0x12);
    regs.set_pcl(0);
    regs.set_pch(0);
    assert_eq!(regs.pcl(), 0);
    assert_eq!(regs.pch(), 0);
    regs.set_pch(0xff);
    assert_eq!(regs.pcl(), 0);
    assert_eq!(regs.pch(), 0xff);
    assert!(regs.interrupt_disable());
}

#[test]
fn status_flags_are_set_one_by_one() {
    let mut regs = Registers::default();
    for bit in 0..8u8 {
        for value in [true, false, false, true] {
            let others: Vec<bool> = (0..8u8).map(|other| regs.status(other)).collect();
            regs.set_status(bit, value);
            for other in 0..8u8 {
                if other == bit {
                    assert_eq!(regs.status(other), value);
                } else {
                    assert_eq!(regs.status(other), others[other as usize]);
                }
            }
        }
    }
    for bit in 0..8u8 {
        assert!(regs.status(bit));
    }
    assert_eq!(regs.pcl(), 0xfc);
    assert_eq!(regs.pch(), 0xff);
}

#[test]
fn named_flags_have_their_places() {
    assert_eq!(
        [CARRY, ZERO, INTERRUPT_DISABLE, DECIMAL_MODE, BREAK_COMMAND, OVERFLOW, NEGATIVE],
        [0, 1, 2, 3, 4, 6, 7]
    );
    let mut regs = Registers::default();
    regs.set_carry(true);
    assert!(regs.carry() && regs.status(0));
    regs.set_zero(true);
    assert!(regs.zero() && regs.status(1));
    regs.set_interrupt_disable(false);
    assert!(!regs.interrupt_disable() && !regs.status(2));
    regs.set_decimal_mode(true);
    assert!(regs.decimal_mode() && regs.status(3));
    regs.set_break_command(true);
    assert!(regs.break_command() && regs.status(4));
    regs.set_overflow(true);
    assert!(regs.overflow() && regs.status(6));
    regs.set_negative(true);
    assert!(regs.negative() && regs.status(7));
    regs.set_carry(false);
    assert!(!regs.carry() && regs.zero() && regs.negative());
}
