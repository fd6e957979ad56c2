use vstd::prelude::*;
use vstd::string::*;
use embedded_graphics::coord::Coord;
use embedded_graphics::drawable::Pixel as GlyphPixel;
use embedded_graphics::fonts::Font;
use embedded_graphics::image::Image1BPP;
use embedded_graphics::style::WithStyle;
use embedded_graphics::transform::Transform;
use embedded_graphics::unsignedcoord::UnsignedCoord;
use profont::{ProFont14Point, ProFont24Point, ProFont9Point};
use crate::color::Pixel;
use crate::framebuffer::{
    all_colors_valid, as_pixels, draw_all, lemma_draw_all_push, write_pixels, Display, RawPixel,
};

verus! {

/// The pixels that ProFont at 9 points draws for `text` placed at `(x, y)`.
pub uninterp spec fn profont9_of(text: Seq<char>, x: int, y: int, stroke: u8, fill: u8) -> Seq<RawPixel>;

/// The pixels that ProFont at 14 points draws for `text` placed at `(x, y)`.
pub uninterp spec fn profont14_of(text: Seq<char>, x: int, y: int, stroke: u8, fill: u8) -> Seq<RawPixel>;

/// The pixels that ProFont at 24 points draws for `text` placed at `(x, y)`.
pub uninterp spec fn profont24_of(text: Seq<char>, x: int, y: int, stroke: u8, fill: u8) -> Seq<RawPixel>;

/// The lines that textwrap makes of `text` at `width` columns.
pub uninterp spec fn wrapped_of(text: Seq<char>, width: int) -> Seq<Seq<char>>;

/// Longest text run that is rendered, in characters.
pub const MAX_TEXT: usize = 0x100_0000;

/// A text run short enough that the renderer's pixel arithmetic stays
/// within `i32`.
pub open spec fn text_fits(text: Seq<char>) -> bool {
    text.len() <= MAX_TEXT
}

/// A placement close enough to the origin that glyph offsets added to it
/// stay within `i32`.
pub open spec fn position_fits(x: int, y: int) -> bool {
    -0x1000_0000 <= x <= 0x1000_0000 && -0x1000_0000 <= y <= 0x1000_0000
}

/// Every pixel is drawn in one of the two colors given.
pub open spec fn two_colored(raw: Seq<RawPixel>, stroke: u8, fill: u8) -> bool {
    forall|k: int| 0 <= k < raw.len() ==> (#[trigger] raw[k]).2 == stroke || raw[k].2 == fill
}

/// Relies on profont's `ProFont9Point` through embedded-graphics'
/// `FontBuilder`: glyph pixels come out in `stroke`, the cell around them in
/// `fill`, pixels left or above the origin are dropped. The bounds keep its
/// `i32` position arithmetic (at most 4 bytes per character, 16 pixels per
/// glyph) from overflowing.
#[verifier::external_body]
fn render_profont9(text: &str, x: i32, y: i32, stroke: u8, fill: u8) -> (r: Vec<RawPixel>)
    requires
        text_fits(text@),
        position_fits(x as int, y as int),
    ensures
        r@ == profont9_of(text@, x as int, y as int, stroke, fill),
        two_colored(r@, stroke, fill),
{
    let t: ProFont9Point<u8> = ProFont9Point::render_str(text);
    let t = t.stroke(Some(stroke)).fill(Some(fill)).translate(Coord::new(x, y));
    t.into_iter().map(|GlyphPixel(UnsignedCoord(px, py), c)| (px, py, c)).collect()
}

/// Relies on profont's `ProFont14Point` through embedded-graphics'
/// `FontBuilder`: glyph pixels come out in `stroke`, the cell around them in
/// `fill`, pixels left or above the origin are dropped. The bounds keep its
/// `i32` position arithmetic (at most 4 bytes per character, 16 pixels per
/// glyph) from overflowing.
#[verifier::external_body]
fn render_profont14(text: &str, x: i32, y: i32, stroke: u8, fill: u8) -> (r: Vec<RawPixel>)
    requires
        text_fits(text@),
        position_fits(x as int, y as int),
    ensures
        r@ == profont14_of(text@, x as int, y as int, stroke, fill),
        two_colored(r@, stroke, fill),
{
    let t: ProFont14Point<u8> = ProFont14Point::render_str(text);
    let t = t.stroke(Some(stroke)).fill(Some(fill)).translate(Coord::new(x, y));
    t.into_iter().map(|GlyphPixel(UnsignedCoord(px, py), c)| (px, py, c)).collect()
}

/// Relies on profont's `ProFont24Point` through embedded-graphics'
/// `FontBuilder`: glyph pixels come out in `stroke`, the cell around them in
/// `fill`, pixels left or above the origin are dropped. The bounds keep its
/// `i32` position arithmetic (at most 4 bytes per character, 16 pixels per
/// glyph) from overflowing.
#[verifier::external_body]
fn render_profont24(text: &str, x: i32, y: i32, stroke: u8, fill: u8) -> (r: Vec<RawPixel>)
    requires
        text_fits(text@),
        position_fits(x as int, y as int),
    ensures
        r@ == profont24_of(text@, x as int, y as int, stroke, fill),
        two_colored(r@, stroke, fill),
{
    let t: ProFont24Point<u8> = ProFont24Point::render_str(text);
    let t = t.stroke(Some(stroke)).fill(Some(fill)).translate(Coord::new(x, y));
    t.into_iter().map(|GlyphPixel(UnsignedCoord(px, py), c)| (px, py, c)).collect()
}

/// Bytes per row of a one-bit bitmap `w` pixels wide.
pub open spec fn row_bytes(w: int) -> int {
    w / 8 + if w % 8 > 0 {
        1int
    } else {
        0int
    }
}

/// Bit `(px, py)` of a one-bit bitmap, rows padded to whole bytes, most
/// significant bit leftmost.
pub open spec fn bitmap_bit(data: Seq<u8>, w: int, px: int, py: int) -> u8 {
    (data[row_bytes(w) * py + px / 8] >> ((7 - px % 8) as u8)) & 1u8
}

/// The pixels of a `w` by `h` one-bit bitmap placed at `(x, y)`, row by row.
pub open spec fn bitmap_pixels(data: Seq<u8>, w: int, h: int, x: int, y: int) -> Seq<RawPixel> {
    Seq::new(
        (w * h) as nat,
        |k: int| ((x + k % w) as u32, (y + k / w) as u32, bitmap_bit(data, w, k % w, k / w)),
    )
}

/// Relies on embedded-graphics' `Image1BPP` iterator: it walks the bitmap
/// row by row and hands out each bit as the ordinal of its pixel.
#[verifier::external_body]
fn decode_bitmap(data: &[u8], w: u32, h: u32, x: i32, y: i32) -> (r: Vec<RawPixel>)
    requires
        0 < w <= 1024,
        0 < h <= 1024,
        data@.len() >= row_bytes(w as int) * h,
        0 <= x <= 0x7fff_0000,
        0 <= y <= 0x7fff_0000,
    ensures
        r@ == bitmap_pixels(data@, w as int, h as int, x as int, y as int),
{
    let image: Image1BPP<u8> = Image1BPP::new(data, w, h).translate(Coord::new(x, y));
    (&image).into_iter().map(|GlyphPixel(UnsignedCoord(px, py), c)| (px, py, c)).collect()
}

/// Relies on textwrap's `wrap`: the lines of `text` filled to `width`
/// columns, the same lines that `fill` joins with newlines.
#[verifier::external_body]
pub(crate) fn wrap_text(text: &str, width: usize) -> (r: Vec<String>)
    requires
        width > 0,
    ensures
        r@.len() == wrapped_of(text@, width as int).len(),
        forall|k: int| 0 <= k < r@.len() ==> (#[trigger] r@[k])@ == wrapped_of(text@, width as int)[k],
{
    textwrap::wrap(text, width).into_iter().map(|l| l.into_owned()).collect()
}

/// The source that a text run in ProFont at `points` placed at `(x, y)`
/// hands to the framebuffer: glyphs in black on white. A run longer than
/// `MAX_TEXT` characters cannot fit any panel and draws nothing.
pub open spec fn text_source(points: int, text: Seq<char>, x: int, y: int) -> Seq<Pixel> {
    if !text_fits(text) {
        Seq::empty()
    } else if points == 9 {
        as_pixels(profont9_of(text, x, y, 0, 1))
    } else if points == 14 {
        as_pixels(profont14_of(text, x, y, 0, 1))
    } else {
        as_pixels(profont24_of(text, x, y, 0, 1))
    }
}

/// The source of a 40 by 40 bitmap placed at `(x, y)`.
pub open spec fn bitmap_source(data: Seq<u8>, x: int, y: int) -> Seq<Pixel> {
    as_pixels(bitmap_pixels(data, 40, 40, x, y))
}

/// Side of the square icon bitmaps.
pub const ICON_SIZE: u32 = 40;

/// Bytes of one icon bitmap.
pub open spec fn icon_len() -> int {
    200
}

/// Drawing a single source.
pub proof fn lemma_draw_one(buf: Seq<u8>, width: int, height: int, p: Seq<Pixel>)
    ensures
        draw_all(buf, width, height, seq![p]) == write_pixels(buf, width, height, p),
{
    lemma_draw_all_push(buf, width, height, Seq::empty(), p);
    assert(Seq::<Seq<Pixel>>::empty().push(p) =~= seq![p]);
}

/// Draws `text` in ProFont at `points` (9, 14 or 24) at `(x, y)`, black on
/// white; a run longer than `MAX_TEXT` characters draws nothing.
pub fn draw_text(d: &mut Display, points: u32, text: &str, x: i32, y: i32)
    requires
        old(d).wf(),
        points == 9 || points == 14 || points == 24,
        position_fits(x as int, y as int),
    ensures
        final(d).wf(),
        final(d).rows() == old(d).rows(),
        final(d).cols() == old(d).cols(),
        final(d).bytes() == draw_all(
            old(d).bytes(),
            old(d).rows(),
            old(d).cols(),
            seq![text_source(points as int, text@, x as int, y as int)],
        ),
{
    if text.unicode_len() > MAX_TEXT {
        proof {
            lemma_draw_one(d.bytes(), d.rows(), d.cols(), Seq::empty());
            assert(write_pixels(d.bytes(), d.rows(), d.cols(), Seq::empty()) == d.bytes());
        }
        return;
    }
    let raw = if points == 9 {
        render_profont9(text, x, y, 0, 1)
    } else if points == 14 {
        render_profont14(text, x, y, 0, 1)
    } else {
        render_profont24(text, x, y, 0, 1)
    };
    proof {
        lemma_draw_one(d.bytes(), d.rows(), d.cols(), as_pixels(raw@));
        assert(all_colors_valid(raw@));
    }
    let _ = d.draw_raw(&raw);
}

/// Draws a 40 by 40 bitmap at `(x, y)`.
pub fn draw_bitmap(d: &mut Display, data: &Vec<u8>, x: i32, y: i32)
    requires
        old(d).wf(),
        data@.len() >= icon_len(),
        0 <= x <= 0x7fff_0000,
        0 <= y <= 0x7fff_0000,
    ensures
        final(d).wf(),
        final(d).rows() == old(d).rows(),
        final(d).cols() == old(d).cols(),
        final(d).bytes() == draw_all(
            old(d).bytes(),
            old(d).rows(),
            old(d).cols(),
            seq![bitmap_source(data@, x as int, y as int)],
        ),
{
    let raw = decode_bitmap(data.as_slice(), ICON_SIZE, ICON_SIZE, x, y);
    proof {
        lemma_draw_one(d.bytes(), d.rows(), d.cols(), as_pixels(raw@));
        assert forall|k: int| 0 <= k < raw@.len() implies (#[trigger] raw@[k]).2 <= 1 by {
            let b = raw@[k].2;
            let v = data@[row_bytes(40) * (k / 40) + (k % 40) / 8];
            let sh = (7 - (k % 40) % 8) as u8;
            assert((v >> sh) & 1u8 <= 1u8) by (bit_vector);
        }
    }
    let _ = d.draw_raw(&raw);
}

} // verus!
