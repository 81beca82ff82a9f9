use vstd::prelude::*;

verus! {

/// A 15-bit BGR colour as VRAM holds it: red in bits 10-14, green in bits
/// 5-9, blue in bits 0-4.
#[derive(Clone, Copy)]
pub struct Color(u16);

impl View for Color {
    type V = u16;

    closed spec fn view(&self) -> u16 {
        self.0
    }
}

/// The colour value of white.
pub open spec fn white_value() -> u16 {
    0x7fff
}

impl Color {
    /// Keeps the five low bits of a channel.
    fn normalize(v: u8) -> (r: u16)
        ensures
            r == v % 32,
    {
        assert(v & 0b11111 == v % 32) by (bit_vector);
        (v & 0b11111) as u16
    }

    /// The colour with the low five bits of each channel.
    pub fn new(r: u8, g: u8, b: u8) -> (c: Color)
        ensures
            c@ == (r % 32) * 1024 + (g % 32) * 32 + b % 32,
    {
        let (r, g, b) = (Self::normalize(r), Self::normalize(g), Self::normalize(b));
        assert(r << 10u16 | g << 5u16 | b == r * 1024 + g * 32 + b) by (bit_vector)
            requires
                r < 32,
                g < 32,
                b < 32,
        ;
        Self(r << 10 | g << 5 | b)
    }

    fn white() -> (c: Color)
        ensures
            c@ == white_value(),
    {
        Color::new(63, 63, 63)
    }

    fn black() -> (c: Color)
        ensures
            c@ == 0,
    {
        Color::new(0, 0, 0)
    }

    /// The value that goes into VRAM.
    pub fn value(&self) -> (r: u16)
        ensures
            r == self@,
    {
        self.0
    }
}


// The glyphs of the built-in font, five rows of three pixels each, written
// top row first and leftmost pixel first: a set bit is a white pixel.
pub const GLYPH_X: u16 = 0b000_000_101_010_101;
pub const GLYPH_0: u16 = 0b111_101_101_101_111;
pub const GLYPH_1: u16 = 0b010_110_010_010_111;
pub const GLYPH_2: u16 = 0b111_001_111_100_111;
pub const GLYPH_3: u16 = 0b111_001_011_001_111;
pub const GLYPH_4: u16 = 0b101_101_111_001_001;
pub const GLYPH_5: u16 = 0b111_100_111_001_111;
pub const GLYPH_6: u16 = 0b100_100_111_101_111;
pub const GLYPH_7: u16 = 0b111_001_001_001_001;
pub const GLYPH_8: u16 = 0b111_101_111_101_111;
pub const GLYPH_9: u16 = 0b111_101_111_001_001;
pub const GLYPH_A: u16 = 0b010_101_111_101_101;
pub const GLYPH_B: u16 = 0b110_101_110_101_110;
pub const GLYPH_C: u16 = 0b111_100_100_100_111;
pub const GLYPH_D: u16 = 0b110_101_101_101_110;
pub const GLYPH_E: u16 = 0b111_100_110_100_111;
pub const GLYPH_F: u16 = 0b111_100_110_100_100;

/// The glyph of the hexadecimal digit `n`.
pub open spec fn hex_glyph(n: int) -> u16 {
    if n == 0 {
        GLYPH_0
    } else if n == 1 {
        GLYPH_1
    } else if n == 2 {
        GLYPH_2
    } else if n == 3 {
        GLYPH_3
    } else if n == 4 {
        GLYPH_4
    } else if n == 5 {
        GLYPH_5
    } else if n == 6 {
        GLYPH_6
    } else if n == 7 {
        GLYPH_7
    } else if n == 8 {
        GLYPH_8
    } else if n == 9 {
        GLYPH_9
    } else if n == 10 {
        GLYPH_A
    } else if n == 11 {
        GLYPH_B
    } else if n == 12 {
        GLYPH_C
    } else if n == 13 {
        GLYPH_D
    } else if n == 14 {
        GLYPH_E
    } else {
        GLYPH_F
    }
}

/// The font's digit glyphs in digit order, from 0 to F.
pub open spec fn digit_font() -> Seq<u16> {
    seq![
        GLYPH_0, GLYPH_1, GLYPH_2, GLYPH_3, GLYPH_4, GLYPH_5, GLYPH_6, GLYPH_7,
        GLYPH_8, GLYPH_9, GLYPH_A, GLYPH_B, GLYPH_C, GLYPH_D, GLYPH_E, GLYPH_F,
    ]
}

/// Each hexadecimal digit is drawn with its own glyph of the font, and no two
/// digits look alike.
pub proof fn lemma_hex_glyphs(d: int, e: int)
    requires
        0 <= d < 16,
        0 <= e < 16,
    ensures
        hex_glyph(d) == digit_font()[d],
        d != e ==> hex_glyph(d) != hex_glyph(e),
        hex_glyph(d) != x_glyph(),
{
}

/// The glyph of the letter `x`.
pub open spec fn x_glyph() -> u16 {
    GLYPH_X
}

/// Whether the pixel in column `dx` and row `dy` of the glyph `bits` is white.
pub open spec fn glyph_lit(bits: u16, dx: int, dy: int) -> bool {
    (bits >> ((14 - 3 * dy - dx) as u16)) & 1 == 1
}

/// The colour value of the pixel in column `dx` and row `dy` of the glyph
/// `bits`: white where it is lit, black elsewhere.
pub open spec fn glyph_color(bits: u16, dx: int, dy: int) -> u16 {
    if glyph_lit(bits, dx, dy) {
        white_value()
    } else {
        0
    }
}

#[derive(Clone, Copy)]
struct Glyph(u16);

impl Glyph {
    /// The glyph of the hexadecimal digit `n`.
    fn number(n: usize) -> (g: Glyph)
        requires
            n < 16,
        ensures
            g.0 == hex_glyph(n as int),
    {
        let bits = match n {
            0 => GLYPH_0,
            1 => GLYPH_1,
            2 => GLYPH_2,
            3 => GLYPH_3,
            4 => GLYPH_4,
            5 => GLYPH_5,
            6 => GLYPH_6,
            7 => GLYPH_7,
            8 => GLYPH_8,
            9 => GLYPH_9,
            10 => GLYPH_A,
            11 => GLYPH_B,
            12 => GLYPH_C,
            13 => GLYPH_D,
            14 => GLYPH_E,
            _ => GLYPH_F,
        };
        Glyph(bits)
    }

    /// The glyph of the letter `x`.
    fn x() -> (g: Glyph)
        ensures
            g.0 == x_glyph(),
    {
        Glyph(GLYPH_X)
    }

    /// The colour of the pixel at column `index.0` and row `index.1`.
    fn index(&self, index: (u8, u8)) -> (c: Color)
        requires
            index.0 < 3,
            index.1 < 5,
        ensures
            c@ == glyph_color(self.0, index.0 as int, index.1 as int),
    {
        let shift: u16 = 14 - 3 * index.1 as u16 - index.0 as u16;
        if (self.0 >> shift) & 1 == 1 {
            Color::white()
        } else {
            Color::black()
        }
    }
}

/// One pixel to be written to the screen.
#[derive(Clone, Copy)]
pub struct Pixel {
    pub x: u8,
    pub y: u8,
    pub color: Color,
}

impl View for Pixel {
    type V = (u8, u8, u16);

    open spec fn view(&self) -> (u8, u8, u16) {
        (self.x, self.y, self.color@)
    }
}

impl Pixel {
    /// The index of the pixel in VRAM, 256 pixels per line.
    pub fn vram_offset(&self) -> (r: usize)
        ensures
            r == 256 * self.y + self.x,
    {
        256 * self.y as usize + self.x as usize
    }
}

/// The pixels, as `(x, y, colour)`, that drawing the glyph `bits` in text row
/// `row` and text column `col` writes: rows top to bottom, each left to right,
/// in cells of 4 by 6 pixels with a one-pixel margin.
pub open spec fn glyph_pixels(row: int, col: int, bits: u16) -> Seq<(u8, u8, u16)> {
    Seq::new(
        15,
        |k: int|
            ((1 + col * 4 + k % 3) as u8, (1 + row * 6 + k / 3) as u8, glyph_color(bits, k % 3, k / 3)),
    )
}

/// The hexadecimal digit of `value` at position `offset`, counted in nibbles
/// from the least significant one.
pub open spec fn nibble(value: u32, offset: int) -> int {
    ((value >> ((4 * offset) as u32)) & 0xf) as int
}

/// The pixels of the first `n` of the eight hexadecimal digits of `value`,
/// most significant first, drawn from text column `col` on.
pub open spec fn digit_pixels(row: int, col: int, value: u32, n: int) -> Seq<(u8, u8, u16)>
    decreases n,
{
    if n <= 0 {
        Seq::empty()
    } else {
        digit_pixels(row, col, value, n - 1) + glyph_pixels(row, col + n - 1, hex_glyph(nibble(value, 8 - n)))
    }
}

/// The pixels that writing `value` as `0x` and eight hexadecimal digits from
/// text column `col` of text row `row` draws.
pub open spec fn number_pixels(row: int, col: int, value: u32) -> Seq<(u8, u8, u16)> {
    glyph_pixels(row, col, hex_glyph(0)) + glyph_pixels(row, col + 1, x_glyph()) + digit_pixels(
        row,
        col + 2,
        value,
        8,
    )
}

/// The views of a list of pixels.
pub open spec fn pixel_views(pixels: Seq<Pixel>) -> Seq<(u8, u8, u16)> {
    pixels.map_values(|p: Pixel| p@)
}

/// A cursor over the text grid of the screen; each write returns the pixels
/// to draw.
pub struct TextDisplay {
    row: u8,
    col: u8,
}

impl View for TextDisplay {
    /// `(row, column)` of the cursor.
    type V = (u8, u8);

    closed spec fn view(&self) -> (u8, u8) {
        (self.row, self.col)
    }
}

impl TextDisplay {
    /// A display with the cursor at the top left.
    pub fn init() -> (r: Self)
        ensures
            r@ == (0u8, 0u8),
    {
        TextDisplay { row: 0, col: 0 }
    }

    /// The cursor, as `(row, column)`.
    pub fn cursor(&self) -> (r: (u8, u8))
        ensures
            r == self@,
    {
        (self.row, self.col)
    }

    /// Moves the cursor to the start of the next row.
    pub fn new_line(&mut self)
        requires
            old(self)@.0 < 255,
        ensures
            final(self)@ == ((old(self)@.0 + 1) as u8, 0u8),
    {
        self.row += 1;
        self.col = 0;
    }

    /// Draws `value` as `0x` followed by eight hexadecimal digits at the
    /// cursor, then moves to the next row. The ten glyphs must fit on the
    /// text grid.
    pub fn write(&mut self, value: u32) -> (pixels: Vec<Pixel>)
        requires
            old(self)@.0 < 42,
            old(self)@.1 <= 54,
        ensures
            final(self)@ == ((old(self)@.0 + 1) as u8, 0u8),
            pixel_views(pixels@) == number_pixels(old(self)@.0 as int, old(self)@.1 as int, value),
    {
        let ghost row = self.row as int;
        let ghost col = self.col as int;
        let mut pixels = self.write_glyph(Glyph::number(0));
        let mut x_pixels = self.write_glyph(Glyph::x());
        pixels.append(&mut x_pixels);
        let mut i: u32 = 0;
        while i < 8
            invariant
                i <= 8,
                self.row == row,
                self.col == col + 2 + i,
                row < 42,
                col <= 54,
                pixel_views(pixels@) == glyph_pixels(row, col, hex_glyph(0)) + glyph_pixels(
                    row,
                    col + 1,
                    x_glyph(),
                ) + digit_pixels(row, col + 2, value, i as int),
            decreases 8 - i,
        {
            let offset: u32 = 7 - i;
            let n = ((value >> (offset * 4)) & 0xF) as usize;
            assert(((value >> (offset * 4)) & 0xF) < 16) by (bit_vector);
            let mut digit = self.write_glyph(Glyph::number(n));
            let ghost before = pixels@;
            pixels.append(&mut digit);
            proof {
                assert(nibble(value, 8 - (i + 1)) == n);
                assert(pixel_views(pixels@) =~= pixel_views(before) + glyph_pixels(
                    row,
                    col + 2 + i,
                    hex_glyph(n as int),
                ));
            }
            i = i + 1;
        }
        self.new_line();
        pixels
    }

    /// Draws one glyph at the cursor and moves it one column right.
    fn write_glyph(&mut self, glyph: Glyph) -> (pixels: Vec<Pixel>)
        requires
            old(self)@.0 < 42,
            old(self)@.1 < 64,
        ensures
            final(self)@ == (old(self)@.0, (old(self)@.1 + 1) as u8),
            pixel_views(pixels@) == glyph_pixels(old(self)@.0 as int, old(self)@.1 as int, glyph.0),
    {
        let (x, y) = (self.col * 4, self.row * 6);
        let mut pixels: Vec<Pixel> = Vec::new();
        let ghost target = glyph_pixels(self.row as int, self.col as int, glyph.0);
        for dy in 0..5u8
            invariant
                x == self.col * 4,
                y == self.row * 6,
                self.row < 42,
                self.col < 64,
                target == glyph_pixels(self.row as int, self.col as int, glyph.0),
                pixel_views(pixels@) == target.take(3 * dy),
        {
            for dx in 0..3u8
                invariant
                    x == self.col * 4,
                    y == self.row * 6,
                    self.row < 42,
                    self.col < 64,
                    dy < 5,
                    target == glyph_pixels(self.row as int, self.col as int, glyph.0),
                    pixel_views(pixels@) == target.take(3 * dy + dx),
            {
                let ghost before = pixels@;
                pixels.push(Pixel { x: 1 + x + dx, y: 1 + y + dy, color: glyph.index((dx, dy)) });
                proof {
                    let k = 3 * dy + dx;
                    assert(k % 3 == dx as int && k / 3 == dy as int);
                    assert(pixel_views(before).len() == before.len());
                    assert(target.take(k).len() == k);
                    assert(before.len() == k);
                    assert(pixels@ == before.push(pixels@[k]));
                    assert(pixels@[k]@ == target[k]);
                    assert(pixel_views(pixels@) =~= pixel_views(before).push(pixels@[k]@));
                    assert(pixel_views(pixels@) =~= target.take(k + 1));
                }
            }
        }
        self.col += 1;
        assert(target.take(15) =~= target);
        pixels
    }
}

} // verus!
