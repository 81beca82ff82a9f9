use nitro_rs::arm7::{select_user_settings, swiCRC16, user_settings_slot_addresses, UserSettingsSlot};

fn slot(data: Vec<u8>, count: u8, valid: bool) -> UserSettingsSlot {
    let crc = swiCRC16(0xffff, &data);
    UserSettingsSlot { data, count, crc: if valid { crc } else { crc ^ 1 } }
}

#[test]
fn crc16_known_values() {
    assert_eq!(swiCRC16(0xffff, b"123456789"), 0x4b37);
    assert_eq!(swiCRC16(0xffff, &[]), 0xffff);
    assert_eq!(swiCRC16(0, &[1]), 0xc0c1);
}

#[test]
fn crc16_chains_over_pieces() {
    let whole = swiCRC16(0xffff, b"123456789");
    let part = swiCRC16(swiCRC16(0xffff, b"1234"), b"56789");
    assert_eq!(whole, part);
}

#[test]
fn no_valid_slot() {
    assert_eq!(select_user_settings(&slot(vec![1; 0x70], 3, false), &slot(vec![2; 0x70], 4, false)), None);
}

#[test]
fn only_one_valid_slot() {
    assert_eq!(select_user_settings(&slot(vec![1; 0x70], 3, true), &slot(vec![2; 0x70], 4, false)), Some(0));
    assert_eq!(select_user_settings(&slot(vec![1; 0x70], 3, false), &slot(vec![2; 0x70], 9, true)), Some(1));
}

#[test]
fn both_valid_newer_second() {
    assert_eq!(select_user_settings(&slot(vec![1; 0x70], 3, true), &slot(vec![2; 0x70], 4, true)), Some(1));
    // The counter wraps at 0x80.
    assert_eq!(select_user_settings(&slot(vec![1; 0x70], 0x7f, true), &slot(vec![2; 0x70], 0, true)), Some(1));
}

#[test]
fn both_valid_newer_first() {
    assert_eq!(select_user_settings(&slot(vec![1; 0x70], 4, true), &slot(vec![2; 0x70], 3, true)), Some(0));
    assert_eq!(select_user_settings(&slot(vec![1; 0x70], 5, true), &slot(vec![2; 0x70], 5, true)), Some(0));
}

#[test]
fn slot_addresses() {
    assert_eq!(user_settings_slot_addresses(0x7fc0), (0x3fe00, 0x3ff00));
}
