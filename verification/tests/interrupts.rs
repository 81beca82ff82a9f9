use nitro_rs::aux::interrupts::{
    enter_critical_section, initialize_interrupts, leave_critical_section, IME,
};
use nitro_rs::aux::Flags;

#[test]
fn flags_check_u8() {
    assert!(0b0000_0011u8.check(0b10));
    assert!(!0b0000_0001u8.check(0b10));
    assert!(!0u8.check(0xff));
}

#[test]
fn flags_check_u16() {
    assert!(0x8080u16.check(0x0080));
    assert!(!0x8000u16.check(0x0080));
}

#[test]
fn ime_from_bits_accepts_only_zero_and_one() {
    assert_eq!(IME::from_bits(0).map(|i| i.bits()), Some(0));
    assert_eq!(IME::from_bits(1).map(|i| i.bits()), Some(1));
    assert!(IME::from_bits(2).is_none());
    assert!(IME::from_bits(u32::MAX).is_none());
}

#[test]
fn ime_into_u32() {
    let on: u32 = IME::enable().into();
    let off: u32 = IME::disable().into();
    assert_eq!(on, 1);
    assert_eq!(off, 0);
}

#[test]
fn critical_section_masks_and_restores() {
    let mut reg = IME::enable();
    let saved = enter_critical_section(&mut reg);
    assert_eq!(reg.bits(), 0);
    assert_eq!(saved.bits(), 1);
    leave_critical_section(&mut reg, saved);
    assert_eq!(reg.bits(), 1);
}

#[test]
fn nested_critical_sections() {
    let mut reg = IME::enable();
    let outer = enter_critical_section(&mut reg);
    let inner = enter_critical_section(&mut reg);
    assert_eq!(inner.bits(), 0);
    leave_critical_section(&mut reg, inner);
    assert_eq!(reg.bits(), 0);
    leave_critical_section(&mut reg, outer);
    assert_eq!(reg.bits(), 1);
}

#[test]
fn critical_section_from_masked_stays_masked() {
    let mut reg = IME::disable();
    let saved = enter_critical_section(&mut reg);
    leave_critical_section(&mut reg, saved);
    assert_eq!(reg.bits(), 0);
}

#[test]
fn initialize_interrupts_enables() {
    let mut reg = IME::disable();
    initialize_interrupts(&mut reg);
    assert_eq!(reg.bits(), 1);
}
