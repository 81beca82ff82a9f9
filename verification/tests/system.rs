use nitro_rs::arm7::system::{PersonalData, SystemData, SystemDataRepresentation};

fn fields(r: &SystemDataRepresentation) -> [usize; 7] {
    [
        r.language,
        r.gba_screen,
        r.default_brightness,
        r.auto_mode,
        r.reserved_5,
        r.settings_lost,
        r.reserved_6,
    ]
}

#[test]
fn unpack_system_data() {
    // language 5, GBA screen 1, brightness 2, auto mode 1, reserved 3,
    // settings lost 1, reserved 0x2a
    let d: u16 = 5 | 1 << 3 | 2 << 4 | 1 << 6 | 3 << 7 | 1 << 9 | 0x2a << 10;
    let r: SystemDataRepresentation = SystemData::from(d).into();
    assert_eq!(fields(&r), [5, 1, 2, 1, 3, 1, 0x2a]);
}

#[test]
fn unpack_zero_and_all_ones() {
    let r: SystemDataRepresentation = SystemData::from(0u16).into();
    assert_eq!(fields(&r), [0; 7]);
    let r: SystemDataRepresentation = SystemData::from(0xffffu16).into();
    assert_eq!(fields(&r), [7, 1, 3, 1, 3, 1, 63]);
}

#[test]
fn system_data_halfword_round_trip() {
    let d: u16 = SystemData::from(0x1234u16).into();
    assert_eq!(d, 0x1234);
}

#[test]
fn pack_system_data() {
    let r = SystemDataRepresentation {
        language: 6,
        gba_screen: 0,
        default_brightness: 0,
        auto_mode: 0,
        reserved_5: 2,
        settings_lost: 1,
        reserved_6: 5,
    };
    let d: u16 = SystemData::from_representation(r).into();
    assert_eq!(d, 6 | 2 << 7 | 1 << 9 | 5 << 10);
    let back: SystemDataRepresentation = SystemData::from(d).into();
    assert_eq!(fields(&back), [6, 0, 0, 0, 2, 1, 5]);
}

#[test]
fn pack_places_screen_and_brightness_as_written() {
    // The GBA screen goes to bit 4 and the brightness to bits 6-7; the auto
    // mode is not stored.
    let r = SystemDataRepresentation {
        language: 0,
        gba_screen: 1,
        default_brightness: 3,
        auto_mode: 1,
        reserved_5: 0,
        settings_lost: 0,
        reserved_6: 0,
    };
    let d: u16 = SystemData::from_representation(r).into();
    assert_eq!(d, 1 << 4 | 3 << 6);
}

#[test]
fn pack_then_unpack_moves_the_screen_bit() {
    let r = SystemDataRepresentation {
        language: 0,
        gba_screen: 1,
        default_brightness: 0,
        auto_mode: 0,
        reserved_5: 0,
        settings_lost: 0,
        reserved_6: 0,
    };
    let back: SystemDataRepresentation = SystemData::from(u16::from(SystemData::from_representation(r))).into();
    assert_eq!(fields(&back), [0, 0, 1, 0, 0, 0, 0]);
}

fn sample_block() -> [u8; 112] {
    let mut raw = [0u8; 112];
    for (i, b) in raw.iter_mut().enumerate() {
        *b = i as u8;
    }
    raw
}

#[test]
fn personal_data_layout() {
    let mut raw = sample_block();
    // name[0] = -2 (0xfffe)
    raw[6] = 0xfe;
    raw[7] = 0xff;
    let p = PersonalData::from_bytes(&raw);
    assert_eq!(p.reserved_0, [0, 1]);
    assert_eq!(p.theme, 2);
    assert_eq!(p.birth_month, 3);
    assert_eq!(p.birth_day, 4);
    assert_eq!(p.reserved_1, 5);
    assert_eq!(p.name[0], -2);
    assert_eq!(p.name[1], 0x0908);
    assert_eq!(p.name[9], 0x1918);
    assert_eq!(p.name_length, 0x1b1a);
    assert_eq!(p.message[0], 0x1d1c);
    assert_eq!(p.message[25], 0x4f4e);
    assert_eq!(p.message_length, 0x5150);
    assert_eq!(p.alarm_hour, 0x52);
    assert_eq!(p.alarm_minute, 0x53);
    assert_eq!(p.reserved_2, [0x54, 0x55, 0x56, 0x57]);
    assert_eq!(p.calibration_x1, 0x5958);
    assert_eq!(p.calibration_y1, 0x5b5a);
    assert_eq!(p.calibration_1px, 0x5c);
    assert_eq!(p.calibration_1py, 0x5d);
    assert_eq!(p.calibration_x2, 0x5f5e);
    assert_eq!(p.calibration_y2, 0x6160);
    assert_eq!(p.calibration_2px, 0x62);
    assert_eq!(p.calibration_2py, 0x63);
    assert_eq!(u16::from(p.sys_data), 0x6564);
    assert_eq!(p.reserved_3, 0x6766);
    assert_eq!(p.rtc_offset, 0x6b6a6968);
    assert_eq!(p.reserved_4, 0x6f6e6d6c);
}

#[test]
fn personal_data_settings_lost_flag() {
    let mut raw = [0u8; 112];
    raw[100] = 0x00;
    raw[101] = 0x02;
    let p = PersonalData::from_bytes(&raw);
    let r: SystemDataRepresentation = p.sys_data.into();
    assert_eq!(r.settings_lost, 1);
}
