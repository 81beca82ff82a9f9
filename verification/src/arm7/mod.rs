use vstd::prelude::*;

pub mod constants;
pub mod firmware;
pub mod system;

verus! {

/// The bit-serial CRC-16 step: shift right, folding the reflected
/// polynomial 0xA001 back in when a one bit falls out; `n` times.
pub open spec fn crc16_shift(crc: u16, n: nat) -> u16
    decreases n,
{
    if n == 0 {
        crc
    } else {
        let c = crc16_shift(crc, (n - 1) as nat);
        if c & 1 == 1 {
            (c >> 1u16) ^ 0xA001
        } else {
            c >> 1u16
        }
    }
}

/// The CRC-16 (reflected polynomial 0xA001, no final inversion) of `data`,
/// starting from `crc`.
pub open spec fn crc16(crc: u16, data: Seq<u8>) -> u16
    decreases data.len(),
{
    if data.len() == 0 {
        crc
    } else {
        crc16_shift(crc16(crc, data.drop_last()) ^ (data.last() as u16), 8)
    }
}

/// The CRC-16 of `data` from the initial value `crc`, as the BIOS call
/// GetCRC16 computes it.
#[allow(non_snake_case)]
pub fn swiCRC16(crc: u16, data: &[u8]) -> (r: u16)
    ensures
        r == crc16(crc, data@),
{
    let mut value = crc;
    let mut i: usize = 0;
    while i < data.len()
        invariant
            i <= data@.len(),
            value == crc16(crc, data@.take(i as int)),
        decreases data@.len() - i,
    {
        assert(data@.take(i + 1).drop_last() =~= data@.take(i as int));
        let start = value ^ data[i] as u16;
        value = start;
        let mut j: u32 = 0;
        while j < 8
            invariant
                j <= 8,
                value == crc16_shift(start, j as nat),
            decreases 8 - j,
        {
            if value & 1 == 1 {
                value = (value >> 1) ^ 0xA001;
            } else {
                value = value >> 1;
            }
            j = j + 1;
        }
        i = i + 1;
    }
    assert(data@.take(i as int) =~= data@);
    value
}

/// The CRC of two pieces one after the other is the CRC of the second
/// started from the CRC of the first.
pub proof fn lemma_crc16_concat(crc: u16, a: Seq<u8>, b: Seq<u8>)
    ensures
        crc16(crc16(crc, a), b) == crc16(crc, a + b),
    decreases b.len(),
{
    if b.len() == 0 {
        assert(a + b =~= a);
    } else {
        lemma_crc16_concat(crc, a, b.drop_last());
        assert((a + b).drop_last() =~= a + b.drop_last());
        assert((a + b).last() == b.last());
    }
}


/// Firmware address of the halfword that holds the user settings' address
/// divided by 8.
pub const USER_SETTINGS_POINTER: usize = 0x20;

/// Bytes of settings in a slot, which the CRC covers.
pub const USER_SETTINGS_SIZE: usize = 0x70;

/// Offset in a slot of its update counter.
pub const SLOT_COUNT_OFFSET: usize = 0x70;

/// Offset in a slot of its CRC.
pub const SLOT_CRC_OFFSET: usize = 0x72;

/// Where the settings in force are kept in main memory.
pub const PERSONAL_DATA_LOCATION: usize = 0x2FFFC80;

/// The firmware addresses of the two settings slots, the second one page
/// after the first, from the value stored at `USER_SETTINGS_POINTER`.
pub fn user_settings_slot_addresses(base: usize) -> (r: (usize, usize))
    requires
        base * 8 + 0x100 + SLOT_CRC_OFFSET <= usize::MAX,
    ensures
        r.0 == base * 8,
        r.1 == base * 8 + 0x100,
{
    let slot0_addr = base * 8;
    let slot1_addr = base * 8 + 0x100;
    (slot0_addr, slot1_addr)
}

/// One of the two copies of the user settings kept in the firmware.
pub struct UserSettingsSlot {
    /// The settings bytes.
    pub data: Vec<u8>,
    /// The update counter, which counts modulo 0x80.
    pub count: u8,
    /// The stored CRC of the settings bytes.
    pub crc: u16,
}

/// A slot is valid when its stored CRC is the CRC (from 0xFFFF) of its
/// settings bytes.
pub open spec fn slot_valid(slot: &UserSettingsSlot) -> bool {
    crc16(0xffff, slot.data@) == slot.crc
}

/// The slot in force: none when neither is valid, the valid one when only one
/// is, and when both are, the second if its counter is one past the first's
/// (modulo 0x80), else the first.
pub open spec fn chosen_slot(valid0: bool, valid1: bool, count0: u8, count1: u8) -> Option<usize> {
    if !(valid0 || valid1) {
        None
    } else if valid0 && valid1 {
        if count1 == (count0 + 1) % 0x80 {
            Some(1)
        } else {
            Some(0)
        }
    } else if valid1 {
        Some(1)
    } else {
        Some(0)
    }
}

/// Which of the two slots holds the settings in force (0 or 1), if any.
/// When both are valid, the first one's counter must leave room for one more.
pub fn select_user_settings(slot0: &UserSettingsSlot, slot1: &UserSettingsSlot) -> (r: Option<
    usize,
>)
    requires
        slot_valid(slot0) && slot_valid(slot1) ==> slot0.count < 255,
    ensures
        r == chosen_slot(slot_valid(slot0), slot_valid(slot1), slot0.count, slot1.count),
{
    let slot0_calculated_crc = swiCRC16(0xffff, slot0.data.as_slice());
    let slot1_calculated_crc = swiCRC16(0xffff, slot1.data.as_slice());

    let slot0_valid = slot0_calculated_crc == slot0.crc;
    let slot1_valid = slot1_calculated_crc == slot1.crc;

    if !(slot0_valid || slot1_valid) {
        None
    } else if slot0_valid && slot1_valid {
        let incremented: u8 = slot0.count + 1;
        let next = incremented & 0x7f;
        assert(incremented & 0x7f == incremented % 0x80) by (bit_vector);
        if slot1.count == next {
            Some(1)
        } else {
            Some(0)
        }
    } else if slot1_valid {
        Some(1)
    } else {
        Some(0)
    }
}

/// When both slots are valid, the second is in force exactly when its
/// counter is the first's plus one, the counter running from 0 to 0x7f and
/// then wrapping to 0.
pub proof fn lemma_both_valid_newer_slot(count0: u8, count1: u8)
    ensures
        count0 < 0x7f ==> (chosen_slot(true, true, count0, count1) == Some(1usize) <==> count1
            == count0 + 1),
        count0 == 0x7f ==> (chosen_slot(true, true, count0, count1) == Some(1usize) <==> count1
            == 0),
        chosen_slot(true, true, count0, count1) == Some(0usize) || chosen_slot(
            true,
            true,
            count0,
            count1,
        ) == Some(1usize),
{
}

/// A slot is only ever chosen when it is valid.
pub proof fn lemma_chosen_slot_is_valid(valid0: bool, valid1: bool, count0: u8, count1: u8)
    ensures
        chosen_slot(valid0, valid1, count0, count1) == Some(0usize) ==> valid0,
        chosen_slot(valid0, valid1, count0, count1) == Some(1usize) ==> valid1,
        chosen_slot(valid0, valid1, count0, count1) is None <==> !valid0 && !valid1,
{
}

} // verus!
