use vstd::prelude::*;
use crate::color::{Color, InvalidColor, Pixel};
use crate::geometry::{
    bit_index, bit_mask, get_bit, in_grid, lemma_bit_injective, lemma_index_in_range,
    lemma_mask_facts, packed_len, valid_grid,
};

verus! {

/// The byte `b` after writing color `c` under mask `m`.
pub open spec fn write_bit(b: u8, m: u8, c: Color) -> u8 {
    match c {
        Color::Black => b & !m,
        Color::White => b | m,
    }
}

/// The packed buffer `buf` after writing pixel `(x, y)`; a pixel off the
/// grid is discarded and leaves the buffer as it was.
pub open spec fn write_pixel(buf: Seq<u8>, width: int, height: int, x: int, y: int, c: Color) -> Seq<u8> {
    if in_grid(width, height, x, y) {
        let i = bit_index(x, y, width, height);
        buf.update(i, write_bit(buf[i], bit_mask(y), c))
    } else {
        buf
    }
}

/// The color of pixel `(x, y)` in `buf`.
pub open spec fn pixel_at(buf: Seq<u8>, width: int, height: int, x: int, y: int) -> Color {
    if buf[bit_index(x, y, width, height)] & bit_mask(y) != 0 {
        Color::White
    } else {
        Color::Black
    }
}

/// The packed buffer `buf` after writing the pixels of `ps` in order.
pub open spec fn write_pixels(buf: Seq<u8>, width: int, height: int, ps: Seq<Pixel>) -> Seq<u8>
    decreases ps.len(),
{
    if ps.len() == 0 {
        buf
    } else {
        let p = ps.last();
        write_pixel(
            write_pixels(buf, width, height, ps.drop_last()),
            width,
            height,
            p.x as int,
            p.y as int,
            p.color,
        )
    }
}

/// The buffer of a fresh framebuffer: every bit set.
pub open spec fn blank(width: int, height: int) -> Seq<u8> {
    Seq::new(packed_len(width, height) as nat, |i: int| 0xFFu8)
}

proof fn lemma_bit_facts()
    ensures
        forall|b: u8, k: u8| k < 8 ==> ((b & !(0x80u8 >> k)) & (0x80u8 >> k)) == 0,
        forall|b: u8, k: u8| k < 8 ==> ((b | (0x80u8 >> k)) & (0x80u8 >> k)) != 0,
        forall|b: u8, k1: u8, k2: u8|
            k1 < 8 && k2 < 8 && k1 != k2 ==> ((b & !(0x80u8 >> k1)) & (0x80u8 >> k2)) == (b & (
            0x80u8 >> k2)),
        forall|b: u8, k1: u8, k2: u8|
            k1 < 8 && k2 < 8 && k1 != k2 ==> ((b | (0x80u8 >> k1)) & (0x80u8 >> k2)) == (b & (
            0x80u8 >> k2)),
        forall|b: u8, k: u8| k < 8 && (b & (0x80u8 >> k)) != 0 ==> (b | (0x80u8 >> k)) == b,
        forall|b: u8, k: u8| k < 8 && (b & (0x80u8 >> k)) == 0 ==> (b & !(0x80u8 >> k)) == b,
        forall|k: u8| k < 8 ==> (0xFFu8 & (0x80u8 >> k)) != 0,
{
    assert(forall|b: u8, k: u8| k < 8 ==> ((b & !(0x80u8 >> k)) & (0x80u8 >> k)) == 0)
        by (bit_vector);
    assert(forall|b: u8, k: u8| k < 8 ==> ((b | (0x80u8 >> k)) & (0x80u8 >> k)) != 0)
        by (bit_vector);
    assert(forall|b: u8, k1: u8, k2: u8|
        k1 < 8 && k2 < 8 && k1 != k2 ==> ((b & !(0x80u8 >> k1)) & (0x80u8 >> k2)) == (b & (0x80u8
            >> k2))) by (bit_vector);
    assert(forall|b: u8, k1: u8, k2: u8|
        k1 < 8 && k2 < 8 && k1 != k2 ==> ((b | (0x80u8 >> k1)) & (0x80u8 >> k2)) == (b & (0x80u8
            >> k2))) by (bit_vector);
    assert(forall|b: u8, k: u8| k < 8 && (b & (0x80u8 >> k)) != 0 ==> (b | (0x80u8 >> k)) == b)
        by (bit_vector);
    assert(forall|b: u8, k: u8| k < 8 && (b & (0x80u8 >> k)) == 0 ==> (b & !(0x80u8 >> k)) == b)
        by (bit_vector);
    assert(forall|k: u8| k < 8 ==> (0xFFu8 & (0x80u8 >> k)) != 0) by (bit_vector);
}

/// Writing a pixel keeps the buffer's length, gives that pixel the color
/// written and leaves every other pixel as it was.
pub proof fn lemma_write_pixel(buf: Seq<u8>, width: int, height: int, x: int, y: int, c: Color)
    requires
        valid_grid(width, height),
        buf.len() == packed_len(width, height),
    ensures
        write_pixel(buf, width, height, x, y, c).len() == buf.len(),
        in_grid(width, height, x, y) ==> pixel_at(write_pixel(buf, width, height, x, y, c), width, height, x, y) == c,
        forall|x2: int, y2: int|
            in_grid(width, height, x2, y2) && !(x2 == x && y2 == y) ==> #[trigger] pixel_at(
                write_pixel(buf, width, height, x, y, c),
                width,
                height,
                x2,
                y2,
            ) == pixel_at(buf, width, height, x2, y2),
{
    lemma_bit_facts();
    lemma_mask_facts();
    if in_grid(width, height, x, y) {
        lemma_index_in_range(x, y, width, height);
        let i = bit_index(x, y, width, height);
        let k = (y % 8) as u8;
        assert(buf[i] & !bit_mask(y) & bit_mask(y) == 0);
        assert forall|x2: int, y2: int|
            in_grid(width, height, x2, y2) && !(x2 == x && y2 == y) implies #[trigger] pixel_at(
                write_pixel(buf, width, height, x, y, c),
                width,
                height,
                x2,
                y2,
            ) == pixel_at(buf, width, height, x2, y2) by {
            lemma_index_in_range(x2, y2, width, height);
            let i2 = bit_index(x2, y2, width, height);
            if i2 == i {
                if bit_mask(y2) == bit_mask(y) {
                    lemma_bit_injective(x, y, x2, y2, width, height);
                }
                let k2 = (y2 % 8) as u8;
                assert(k2 != k);
            }
        }
    }
}

/// Clearing a background pixel to the foreground and then writing the
/// background back restores the buffer exactly.
pub proof fn lemma_clear_then_restore(buf: Seq<u8>, width: int, height: int, x: int, y: int)
    requires
        valid_grid(width, height),
        buf.len() == packed_len(width, height),
        pixel_at(buf, width, height, x, y) == Color::White,
    ensures
        write_pixel(
            write_pixel(buf, width, height, x, y, Color::Black),
            width,
            height,
            x,
            y,
            Color::White,
        ) == buf,
{
    if in_grid(width, height, x, y) {
        lemma_bit_facts();
        lemma_index_in_range(x, y, width, height);
        let i = bit_index(x, y, width, height);
        let k = (y % 8) as u8;
        let b = buf[i];
        let m = bit_mask(y);
        assert(b & m != 0);
        assert((b & !m) | m == b) by (bit_vector)
            requires b & m != 0u8, m == 0x80u8 >> k, k < 8;
        let mid = write_pixel(buf, width, height, x, y, Color::Black);
        assert(mid.update(i, write_bit(mid[i], m, Color::White)) =~= buf);
    }
}

/// Drawing keeps the length of the buffer.
pub proof fn lemma_write_pixels_len(buf: Seq<u8>, width: int, height: int, ps: Seq<Pixel>)
    requires
        valid_grid(width, height),
        buf.len() == packed_len(width, height),
    ensures
        write_pixels(buf, width, height, ps).len() == buf.len(),
    decreases ps.len(),
{
    if ps.len() > 0 {
        lemma_write_pixels_len(buf, width, height, ps.drop_last());
        let p = ps.last();
        lemma_write_pixel(write_pixels(buf, width, height, ps.drop_last()), width, height, p.x as int, p.y as int, p.color);
    }
}

/// Drawing source `a` and then source `b`: where the last pixel of `b`
/// lies, the picture has that pixel's color, whatever `a` drew there.
pub proof fn lemma_last_write_wins(buf: Seq<u8>, width: int, height: int, a: Seq<Pixel>, b: Seq<Pixel>)
    requires
        valid_grid(width, height),
        buf.len() == packed_len(width, height),
        b.len() > 0,
        in_grid(width, height, b.last().x as int, b.last().y as int),
    ensures
        pixel_at(
            write_pixels(write_pixels(buf, width, height, a), width, height, b),
            width,
            height,
            b.last().x as int,
            b.last().y as int,
        ) == b.last().color,
{
    let mid = write_pixels(buf, width, height, a);
    lemma_write_pixels_len(buf, width, height, a);
    lemma_write_pixels_len(mid, width, height, b.drop_last());
    let p = b.last();
    lemma_write_pixel(write_pixels(mid, width, height, b.drop_last()), width, height, p.x as int, p.y as int, p.color);
}

/// Every pixel of a fresh framebuffer is background.
pub proof fn lemma_blank_is_background(width: int, height: int)
    requires
        valid_grid(width, height),
    ensures
        forall|x: int, y: int|
            in_grid(width, height, x, y) ==> #[trigger] pixel_at(blank(width, height), width, height, x, y)
                == Color::White,
{
    lemma_bit_facts();
    assert forall|x: int, y: int|
        in_grid(width, height, x, y) implies #[trigger] pixel_at(blank(width, height), width, height, x, y)
            == Color::White by {
        lemma_index_in_range(x, y, width, height);
        let k = (y % 8) as u8;
        assert(0xFFu8 & (0x80u8 >> k) != 0);
    }
}

/// A pixel as a renderer hands it out: position and color ordinal.
pub type RawPixel = (u32, u32, u8);

/// Every ordinal of `raw` names a color.
pub open spec fn all_colors_valid(raw: Seq<RawPixel>) -> bool {
    forall|k: int| 0 <= k < raw.len() ==> (#[trigger] raw[k]).2 <= 1
}

/// The pixels of `raw` with their ordinals read as colors.
pub open spec fn as_pixels(raw: Seq<RawPixel>) -> Seq<Pixel> {
    raw.map_values(
        |t: RawPixel|
            Pixel {
                x: t.0,
                y: t.1,
                color: if t.2 == 0 {
                    Color::Black
                } else {
                    Color::White
                },
            },
    )
}

/// `e` reports an ordinal of `raw` that names no color.
pub open spec fn reports_invalid(raw: Seq<RawPixel>, e: InvalidColor) -> bool {
    exists|k: int| 0 <= k < raw.len() && (#[trigger] raw[k]).2 > 1 && e.value == raw[k].2 as u16
}

/// The packed buffer `buf` after drawing each source of `steps` in order.
pub open spec fn draw_all(buf: Seq<u8>, width: int, height: int, steps: Seq<Seq<Pixel>>) -> Seq<u8>
    decreases steps.len(),
{
    if steps.len() == 0 {
        buf
    } else {
        write_pixels(draw_all(buf, width, height, steps.drop_last()), width, height, steps.last())
    }
}

/// Drawing two lists of sources one after the other is drawing their
/// concatenation.
pub proof fn lemma_draw_all_append(
    buf: Seq<u8>,
    width: int,
    height: int,
    s1: Seq<Seq<Pixel>>,
    s2: Seq<Seq<Pixel>>,
)
    ensures
        draw_all(draw_all(buf, width, height, s1), width, height, s2) == draw_all(buf, width, height, s1 + s2),
    decreases s2.len(),
{
    if s2.len() == 0 {
        assert(s1 + s2 =~= s1);
    } else {
        lemma_draw_all_append(buf, width, height, s1, s2.drop_last());
        assert((s1 + s2).drop_last() =~= s1 + s2.drop_last());
        assert((s1 + s2).last() == s2.last());
    }
}

/// Drawing one more source.
pub proof fn lemma_draw_all_push(buf: Seq<u8>, width: int, height: int, s: Seq<Seq<Pixel>>, p: Seq<Pixel>)
    ensures
        draw_all(buf, width, height, s.push(p)) == write_pixels(draw_all(buf, width, height, s), width, height, p),
{
    assert(s.push(p).drop_last() =~= s);
}

/// A packed monochrome framebuffer of `rows` by `cols` logical pixels.
pub struct Display {
    buff: Vec<u8>,
    rows: u32,
    cols: u32,
}

impl Display {
    pub closed spec fn bytes(&self) -> Seq<u8> {
        self.buff@
    }

    pub closed spec fn rows(&self) -> int {
        self.rows as int
    }

    pub closed spec fn cols(&self) -> int {
        self.cols as int
    }

    pub open spec fn wf(&self) -> bool {
        &&& valid_grid(self.rows(), self.cols())
        &&& self.bytes().len() == packed_len(self.rows(), self.cols())
    }

    /// The color of pixel `(x, y)`.
    pub open spec fn pixel(&self, x: int, y: int) -> Color {
        pixel_at(self.bytes(), self.rows(), self.cols(), x, y)
    }

    /// A framebuffer of `rows` by `cols` pixels, all of them background.
    pub fn new(rows: u32, cols: u32) -> (r: Display)
        requires
            valid_grid(rows as int, cols as int),
        ensures
            r.wf(),
            r.rows() == rows,
            r.cols() == cols,
            r.bytes() == blank(rows as int, cols as int),
    {
        proof {
            lemma_index_in_range(0, 0, rows as int, cols as int);
        }
        let n: u32 = rows * (cols / 8);
        let mut buff: Vec<u8> = Vec::new();
        let mut i: u32 = 0;
        while i < n
            invariant
                i <= n,
                n == packed_len(rows as int, cols as int),
                buff@ == Seq::new(i as nat, |k: int| 0xFFu8),
            decreases n - i,
        {
            buff.push(0xFFu8);
            i = i + 1;
            assert(buff@ =~= Seq::new(i as nat, |k: int| 0xFFu8));
        }
        Display { buff, rows, cols }
    }

    /// Number of pixel rows (the logical `x` range).
    pub fn rows_count(&self) -> (r: u32)
        ensures
            r == self.rows(),
    {
        self.rows
    }

    /// Number of pixel columns (the logical `y` range).
    pub fn cols_count(&self) -> (r: u32)
        ensures
            r == self.cols(),
    {
        self.cols
    }

    /// The packed bytes.
    pub fn payload(&self) -> (r: &Vec<u8>)
        ensures
            r@ == self.bytes(),
    {
        &self.buff
    }

    /// The color of pixel `(x, y)`, which must lie on the grid.
    pub fn get_pixel(&self, x: u32, y: u32) -> (r: Color)
        requires
            self.wf(),
            in_grid(self.rows(), self.cols(), x as int, y as int),
        ensures
            r == self.pixel(x as int, y as int),
    {
        let (index, bit) = get_bit(x, y, self.rows, self.cols);
        if self.buff[index as usize] & bit != 0 {
            Color::White
        } else {
            Color::Black
        }
    }

    /// Writes one pixel: `Black` clears its bit, `White` sets it. A pixel
    /// off the grid is discarded.
    pub fn set_pixel(&mut self, x: u32, y: u32, color: Color)
        requires
            old(self).wf(),
        ensures
            final(self).wf(),
            final(self).rows() == old(self).rows(),
            final(self).cols() == old(self).cols(),
            final(self).bytes() == write_pixel(
                old(self).bytes(),
                old(self).rows(),
                old(self).cols(),
                x as int,
                y as int,
                color,
            ),
    {
        if x >= self.rows || y >= self.cols {
            return;
        }
        let (index, bit) = get_bit(x, y, self.rows, self.cols);
        let index = index as usize;
        let b = self.buff[index];
        match color {
            Color::Black => {
                self.buff.set(index, b & !bit);
            },
            Color::White => {
                self.buff.set(index, b | bit);
            },
        }
    }

    /// Draws a source whose colors arrive as ordinals. If one of them names
    /// no color, nothing is drawn and that ordinal is reported.
    pub fn draw_raw(&mut self, raw: &Vec<RawPixel>) -> (r: Result<(), InvalidColor>)
        requires
            old(self).wf(),
        ensures
            final(self).wf(),
            final(self).rows() == old(self).rows(),
            final(self).cols() == old(self).cols(),
            (r is Ok) == all_colors_valid(raw@),
            (r is Ok) ==> final(self).bytes() == write_pixels(
                old(self).bytes(),
                old(self).rows(),
                old(self).cols(),
                as_pixels(raw@),
            ),
            (r is Err) ==> final(self).bytes() == old(self).bytes(),
            (r is Err) ==> reports_invalid(raw@, r->Err_0),
    {
        let mut pixels: Vec<Pixel> = Vec::new();
        let mut i: usize = 0;
        while i < raw.len()
            invariant
                i <= raw@.len(),
                pixels@ == as_pixels(raw@.subrange(0, i as int)),
                all_colors_valid(raw@.subrange(0, i as int)),
                *self == *old(self),
                self.wf(),
            decreases raw@.len() - i,
        {
            let (x, y, c) = raw[i];
            match Color::from_u8(c) {
                Ok(color) => {
                    pixels.push(Pixel { x, y, color });
                    assert(as_pixels(raw@.subrange(0, i + 1)) =~= as_pixels(raw@.subrange(0, i as int)).push(
                        Pixel { x, y, color },
                    ));
                },
                Err(e) => {
                    assert(raw@[i as int].2 > 1);
                    return Err(e);
                },
            }
            assert forall|k: int| 0 <= k < i + 1 implies (#[trigger] raw@.subrange(0, i + 1)[k]).2 <= 1 by {
                if k < i {
                    assert(raw@.subrange(0, i + 1)[k] == raw@.subrange(0, i as int)[k]);
                }
            }
            i = i + 1;
        }
        assert(raw@.subrange(0, i as int) =~= raw@);
        self.draw(&pixels);
        Ok(())
    }

    /// Writes the pixels of a drawable source in order, so that a later
    /// pixel overwrites an earlier one at the same place.
    pub fn draw(&mut self, pixels: &Vec<Pixel>)
        requires
            old(self).wf(),
        ensures
            final(self).wf(),
            final(self).rows() == old(self).rows(),
            final(self).cols() == old(self).cols(),
            final(self).bytes() == write_pixels(
                old(self).bytes(),
                old(self).rows(),
                old(self).cols(),
                pixels@,
            ),
    {
        let ghost start = self.bytes();
        let mut i: usize = 0;
        while i < pixels.len()
            invariant
                i <= pixels@.len(),
                self.wf(),
                self.rows() == old(self).rows(),
                self.cols() == old(self).cols(),
                start == old(self).bytes(),
                self.bytes() == write_pixels(start, self.rows(), self.cols(), pixels@.subrange(0, i as int)),
            decreases pixels@.len() - i,
        {
            let p = pixels[i];
            self.set_pixel(p.x, p.y, p.color);
            assert(pixels@.subrange(0, i + 1).drop_last() =~= pixels@.subrange(0, i as int));
            i = i + 1;
        }
        assert(pixels@.subrange(0, pixels@.len() as int) =~= pixels@);
    }
}

} // verus!
