use vstd::prelude::*;

verus! {

/// The user settings block of the firmware, as laid out byte for byte
/// (little-endian, no padding).
pub struct PersonalData {
    ///	??? (0x05 0x00). (version according to gbatek)
    pub reserved_0: [u8; 2],
    ///The user's theme color (0-15).
    pub theme: u8,
    ///The user's birth month (1-12).
    pub birth_month: u8,
    ///The user's birth day (1-31).
    pub birth_day: u8,
    ///	???
    pub reserved_1: u8,
    ///The user's name in UTF-16 format.
    pub name: [i16; 10],
    ///The length of the user's name in characters.
    pub name_length: u16,
    ///The user's message.
    pub message: [i16; 26],
    ///The length of the user's message in characters.
    pub message_length: u16,
    ///What hour the alarm clock is set to (0-23).
    pub alarm_hour: u8,
    ///What minute the alarm clock is set to (0-59).
    pub alarm_minute: u8,
    ///??? 0x02FFFCD4
    pub reserved_2: [u8; 4],
    ///	Touchscreen calibration: first X touch
    pub calibration_x1: u16,
    ///	Touchscreen calibration: first Y touch
    pub calibration_y1: u16,
    ///	Touchscreen calibration: first X touch pixel
    pub calibration_1px: u8,
    ///	Touchscreen calibration: first X touch pixel
    pub calibration_1py: u8,
    ///	Touchscreen calibration: second X touch
    pub calibration_x2: u16,
    ///	Touchscreen calibration: second Y touch
    pub calibration_y2: u16,
    ///	Touchscreen calibration: second X touch pixel
    pub calibration_2px: u8,
    ///	Touchscreen calibration: second X touch pixel
    pub calibration_2py: u8,
    pub sys_data: SystemData,
    ///???
    pub reserved_3: u16,
    ///Real Time Clock offset.
    pub rtc_offset: u32,
    ///???
    pub reserved_4: u32,
}

/// The little-endian halfword at `at` in `b`.
pub open spec fn le_u16(b: Seq<u8>, at: int) -> u16 {
    (b[at] + 256 * b[at + 1]) as u16
}

/// The little-endian word at `at` in `b`.
pub open spec fn le_u32(b: Seq<u8>, at: int) -> u32 {
    (le_u16(b, at) + 0x10000 * le_u16(b, at + 2)) as u32
}

fn read_u16(raw: &[u8; 112], at: usize) -> (r: u16)
    requires
        at + 2 <= 112,
    ensures
        r == le_u16(raw@, at as int),
{
    raw[at] as u16 + 256 * raw[at + 1] as u16
}

fn read_u32(raw: &[u8; 112], at: usize) -> (r: u32)
    requires
        at + 4 <= 112,
    ensures
        r == le_u32(raw@, at as int),
{
    read_u16(raw, at) as u32 + 0x10000 * read_u16(raw, at + 2) as u32
}

/// The `count` halfwords from `at` in `b`, as signed values.
pub open spec fn le_i16s(b: Seq<u8>, at: int, count: int) -> Seq<i16> {
    Seq::new(count as nat, |i: int| le_u16(b, at + 2 * i) as i16)
}

impl PersonalData {
    /// `self` is the block whose bytes are `b`: each field read
    /// little-endian at its offset.
    pub open spec fn is_layout_of(&self, b: Seq<u8>) -> bool {
        &&& self.reserved_0@ == b.subrange(0, 2)
        &&& self.theme == b[2]
        &&& self.birth_month == b[3]
        &&& self.birth_day == b[4]
        &&& self.reserved_1 == b[5]
        &&& self.name@ == le_i16s(b, 6, 10)
        &&& self.name_length == le_u16(b, 26)
        &&& self.message@ == le_i16s(b, 28, 26)
        &&& self.message_length == le_u16(b, 80)
        &&& self.alarm_hour == b[82]
        &&& self.alarm_minute == b[83]
        &&& self.reserved_2@ == b.subrange(84, 88)
        &&& self.calibration_x1 == le_u16(b, 88)
        &&& self.calibration_y1 == le_u16(b, 90)
        &&& self.calibration_1px == b[92]
        &&& self.calibration_1py == b[93]
        &&& self.calibration_x2 == le_u16(b, 94)
        &&& self.calibration_y2 == le_u16(b, 96)
        &&& self.calibration_2px == b[98]
        &&& self.calibration_2py == b[99]
        &&& self.sys_data@ == le_u16(b, 100)
        &&& self.reserved_3 == le_u16(b, 102)
        &&& self.rtc_offset == le_u32(b, 104)
        &&& self.reserved_4 == le_u32(b, 108)
    }

    /// Reads the block from its 112 bytes.
    pub fn from_bytes(raw: &[u8; 112]) -> (r: PersonalData)
        ensures
            r.is_layout_of(raw@),
    {
        let mut name = [0i16; 10];
        let mut i: usize = 0;
        while i < 10
            invariant
                i <= 10,
                forall|k: int| 0 <= k < i ==> name@[k] == le_u16(raw@, 6 + 2 * k) as i16,
            decreases 10 - i,
        {
            name[i] = read_u16(raw, 6 + 2 * i) as i16;
            i = i + 1;
        }
        let mut message = [0i16; 26];
        let mut j: usize = 0;
        while j < 26
            invariant
                j <= 26,
                forall|k: int| 0 <= k < j ==> message@[k] == le_u16(raw@, 28 + 2 * k) as i16,
            decreases 26 - j,
        {
            message[j] = read_u16(raw, 28 + 2 * j) as i16;
            j = j + 1;
        }
        let r = PersonalData {
            reserved_0: [raw[0], raw[1]],
            theme: raw[2],
            birth_month: raw[3],
            birth_day: raw[4],
            reserved_1: raw[5],
            name,
            name_length: read_u16(raw, 26),
            message,
            message_length: read_u16(raw, 80),
            alarm_hour: raw[82],
            alarm_minute: raw[83],
            reserved_2: [raw[84], raw[85], raw[86], raw[87]],
            calibration_x1: read_u16(raw, 88),
            calibration_y1: read_u16(raw, 90),
            calibration_1px: raw[92],
            calibration_1py: raw[93],
            calibration_x2: read_u16(raw, 94),
            calibration_y2: read_u16(raw, 96),
            calibration_2px: raw[98],
            calibration_2py: raw[99],
            sys_data: SystemData(read_u16(raw, 100)),
            reserved_3: read_u16(raw, 102),
            rtc_offset: read_u32(raw, 104),
            reserved_4: read_u32(raw, 108),
        };
        assert(r.reserved_0@ =~= raw@.subrange(0, 2));
        assert(r.reserved_2@ =~= raw@.subrange(84, 88));
        assert(r.name@ =~= le_i16s(raw@, 6, 10));
        assert(r.message@ =~= le_i16s(raw@, 28, 26));
        r
    }
}

/// The packed system settings halfword of the user settings (language,
/// screen, brightness and boot flags).
#[derive(Clone, Copy)]
pub struct SystemData(u16);

impl View for SystemData {
    type V = u16;

    closed spec fn view(&self) -> u16 {
        self.0
    }
}

/// The fields of `SystemData`, one per value.
pub struct SystemDataRepresentation {
    pub language: usize,
    ///GBA screen selection (lower screen if set, otherwise upper screen).
    pub gba_screen: usize,
    ///Brightness level at power on, dslite.
    pub default_brightness: usize,
    ///The DS should boot from the DS cart or GBA cart automatically if one is inserted.
    pub auto_mode: usize,
    ///???
    pub reserved_5: usize,
    ///User Settings Lost (0=Normal, 1=Prompt/Settings Lost)
    pub settings_lost: usize,
    ///???
    pub reserved_6: usize,
}

impl From<u16> for SystemData {
    fn from(value: u16) -> (r: SystemData) {
        SystemData(value)
    }
}

impl vstd::std_specs::convert::FromSpecImpl<u16> for SystemData {
    open spec fn obeys_from_spec() -> bool {
        true
    }

    open spec fn from_spec(v: u16) -> SystemData {
        SystemData::from_halfword(v)
    }
}

impl From<SystemData> for u16 {
    fn from(value: SystemData) -> (r: u16) {
        value.0
    }
}

impl vstd::std_specs::convert::FromSpecImpl<SystemData> for u16 {
    open spec fn obeys_from_spec() -> bool {
        true
    }

    open spec fn from_spec(v: SystemData) -> u16 {
        v@
    }
}

impl SystemData {
    /// The `SystemData` whose halfword is `v`.
    pub closed spec fn from_halfword(v: u16) -> SystemData {
        SystemData(v)
    }

    /// `from_halfword` gives back the halfword it was made from.
    pub proof fn lemma_from_halfword(v: u16)
        ensures
            SystemData::from_halfword(v)@ == v,
    {
    }
}

/// The `bit_count` bits of `data` that start at bit `offset`.
pub open spec fn bit_field(data: usize, bit_count: usize, offset: usize) -> usize {
    (data >> offset) & (((1usize << bit_count) - 1) as usize)
}

/// Extracts the `bit_count` bits of `data` that start at bit `offset`.
fn mask(data: usize, bit_count: usize, offset: usize) -> (r: usize)
    requires
        bit_count < usize::BITS,
        offset < usize::BITS,
    ensures
        r == bit_field(data, bit_count, offset),
{
    assert(1usize << bit_count >= 1) by (bit_vector)
        requires
            bit_count < usize::BITS,
    ;
    let mask: usize = (1 << bit_count) - 1;
    assert((data & (mask << offset)) >> offset == (data >> offset) & mask) by (bit_vector)
        requires
            offset < usize::BITS,
    ;
    (data & (mask << offset)) >> offset
}


impl SystemDataRepresentation {
    /// The fields held in the halfword `d`: language in bits 0-2, GBA screen
    /// in bit 3, brightness in bits 4-5, auto mode in bit 6, reserved bits
    /// 7-8, settings lost in bit 9 and reserved bits 10-15.
    pub open spec fn of_halfword(d: u16) -> SystemDataRepresentation {
        let data = d as usize;
        SystemDataRepresentation {
            language: bit_field(data, 3, 0),
            gba_screen: bit_field(data, 1, 3),
            default_brightness: bit_field(data, 2, 4),
            auto_mode: bit_field(data, 1, 6),
            reserved_5: bit_field(data, 2, 7),
            settings_lost: bit_field(data, 1, 9),
            reserved_6: bit_field(data, 6, 10),
        }
    }

    /// Each field fits in the number of bits it has in the halfword.
    pub open spec fn fields_in_range(self) -> bool {
        &&& self.language < 8
        &&& self.gba_screen < 2
        &&& self.default_brightness < 4
        &&& self.auto_mode < 2
        &&& self.reserved_5 < 4
        &&& self.settings_lost < 2
        &&& self.reserved_6 < 64
    }

    /// The halfword that packing these fields gives: the language at bit 0,
    /// the GBA screen at bit 4, the brightness at bit 6, the first reserved
    /// field at bit 7, settings lost at bit 9 and the second reserved field at
    /// bit 10; the auto mode is not stored.
    pub open spec fn packed(self) -> u16 {
        (self.language | self.gba_screen << 4usize | self.default_brightness << 6usize
            | self.reserved_5 << 7usize | self.settings_lost << 9usize | self.reserved_6
            << 10usize) as u16
    }
}

impl From<SystemData> for SystemDataRepresentation {
    fn from(value: SystemData) -> (r: SystemDataRepresentation) {
        let data = value.0 as usize;
        SystemDataRepresentation {
            language: mask(data, 3, 0),
            gba_screen: mask(data, 1, 3),
            default_brightness: mask(data, 2, 4),
            auto_mode: mask(data, 1, 6),
            reserved_5: mask(data, 2, 7),
            settings_lost: mask(data, 1, 9),
            reserved_6: mask(data, 6, 10),
        }
    }
}

impl vstd::std_specs::convert::FromSpecImpl<SystemData> for SystemDataRepresentation {
    open spec fn obeys_from_spec() -> bool {
        true
    }

    open spec fn from_spec(v: SystemData) -> SystemDataRepresentation {
        SystemDataRepresentation::of_halfword(v@)
    }
}

impl SystemData {
    /// Packs the fields into the halfword; every field must fit in its width.
    pub fn from_representation(value: SystemDataRepresentation) -> (r: SystemData)
        requires
            value.fields_in_range(),
        ensures
            r@ == value.packed(),
    {
        let data: usize = value.language << 0 | value.gba_screen << 4 | value.default_brightness
            << 6 | value.reserved_5 << 7 | value.settings_lost << 9 | value.reserved_6 << 10;
        let (lang, screen, bright, res5, lost, res6) = (
            value.language,
            value.gba_screen,
            value.default_brightness,
            value.reserved_5,
            value.settings_lost,
            value.reserved_6,
        );
        assert(data < 0x10000 && data == (lang | screen << 4usize | bright << 6usize | res5
            << 7usize | lost << 9usize | res6 << 10usize)) by (bit_vector)
            requires
                data == lang << 0usize | screen << 4usize | bright << 6usize | res5 << 7usize | lost
                    << 9usize | res6 << 10usize,
                lang < 8,
                screen < 2,
                bright < 4,
                res5 < 4,
                lost < 2,
                res6 < 64,
        ;
        SystemData(data as u16)
    }
}

/// Unpacking reads each field from its own bits alone: the language is the
/// halfword modulo 8, the GBA screen bit 3, the brightness bits 4-5, the auto
/// mode bit 6, the first reserved field bits 7-8, settings lost bit 9 and the
/// second reserved field the bits from 10 up.
pub proof fn lemma_unpacked_fields(d: u16)
    ensures
        ({
            let r = SystemDataRepresentation::of_halfword(d);
            &&& r.language == d % 8
            &&& r.gba_screen == d / 8 % 2
            &&& r.default_brightness == d / 16 % 4
            &&& r.auto_mode == d / 64 % 2
            &&& r.reserved_5 == d / 128 % 4
            &&& r.settings_lost == d / 512 % 2
            &&& r.reserved_6 == d / 1024
        }),
{
    let data = d as usize;
    assert({
        &&& bit_field(data, 3, 0) == d % 8
        &&& bit_field(data, 1, 3) == d / 8 % 2
        &&& bit_field(data, 2, 4) == d / 16 % 4
        &&& bit_field(data, 1, 6) == d / 64 % 2
        &&& bit_field(data, 2, 7) == d / 128 % 4
        &&& bit_field(data, 1, 9) == d / 512 % 2
        &&& bit_field(data, 6, 10) == d / 1024
    }) by (bit_vector)
        requires
            data == d as usize,
    ;
}

/// Every field that unpacking a halfword gives fits in its width, so it can
/// be packed again.
pub proof fn lemma_unpacked_fields_in_range(d: u16)
    ensures
        SystemDataRepresentation::of_halfword(d).fields_in_range(),
{
    let data = d as usize;
    assert(bit_field(data, 3, 0) < 8 && bit_field(data, 1, 3) < 2 && bit_field(data, 2, 4) < 4
        && bit_field(data, 1, 6) < 2 && bit_field(data, 2, 7) < 4 && bit_field(data, 1, 9) < 2
        && bit_field(data, 6, 10) < 64) by (bit_vector);
}

/// Unpacking the halfword that packing gives returns the same fields, for
/// fields in range whose GBA screen, brightness and auto mode are zero (the
/// packing stores these three elsewhere than unpacking reads them, or not at
/// all).
pub proof fn lemma_unpack_after_pack(r: SystemDataRepresentation)
    requires
        r.fields_in_range(),
        r.gba_screen == 0,
        r.default_brightness == 0,
        r.auto_mode == 0,
    ensures
        SystemDataRepresentation::of_halfword(r.packed()) == r,
{
    let (lang, res5, lost, res6) = (r.language, r.reserved_5, r.settings_lost, r.reserved_6);
    let d = r.packed();
    assert(d == (lang | 0usize << 4usize | 0usize << 6usize | res5 << 7usize | lost << 9usize
        | res6 << 10usize) as u16);
    let data = d as usize;
    assert({
        &&& bit_field(data, 3, 0) == lang
        &&& bit_field(data, 1, 3) == 0
        &&& bit_field(data, 2, 4) == 0
        &&& bit_field(data, 1, 6) == 0
        &&& bit_field(data, 2, 7) == res5
        &&& bit_field(data, 1, 9) == lost
        &&& bit_field(data, 6, 10) == res6
    }) by (bit_vector)
        requires
            data == ((lang | 0usize << 4usize | 0usize << 6usize | res5 << 7usize | lost << 9usize
                | res6 << 10usize) as u16) as usize,
            lang < 8,
            res5 < 4,
            lost < 2,
            res6 < 64,
    ;
}

/// Packing the fields of a halfword gives the halfword back when its bits 3
/// to 6 (GBA screen, brightness and auto mode) are clear.
pub proof fn lemma_pack_after_unpack(d: u16)
    requires
        d & 0x78 == 0,
    ensures
        SystemDataRepresentation::of_halfword(d).packed() == d,
{
    let data = d as usize;
    assert(((bit_field(data, 3, 0) | bit_field(data, 1, 3) << 4usize | bit_field(data, 2, 4)
        << 6usize | bit_field(data, 2, 7) << 7usize | bit_field(data, 1, 9) << 9usize
        | bit_field(data, 6, 10) << 10usize) as u16) == d) by (bit_vector)
        requires
            data == d as usize,
            d & 0x78 == 0,
    ;
}

} // verus!
