use vstd::prelude::*;

verus! {

/// A grid of `width` logical columns (`x`) by `height` logical rows (`y`)
/// can be packed: `height` is a whole number of bytes and the packed size
/// in bytes fits in a `u32`.
pub open spec fn valid_grid(width: int, height: int) -> bool {
    &&& width > 0
    &&& height > 0
    &&& height % 8 == 0
    &&& width * (height / 8) <= u32::MAX
}

pub open spec fn in_grid(width: int, height: int, x: int, y: int) -> bool {
    0 <= x < width && 0 <= y < height
}

/// Number of bytes of the packed buffer.
pub open spec fn packed_len(width: int, height: int) -> int {
    width * (height / 8)
}

/// Byte that holds logical pixel `(x, y)`: the `x` axis is reversed and is
/// the outer stride, eight consecutive `y` share a byte.
pub open spec fn bit_index(x: int, y: int, width: int, height: int) -> int {
    y / 8 + (width - 1 - x) * (height / 8)
}

/// Bit of that byte, most significant first.
pub open spec fn bit_mask(y: int) -> u8 {
    0x80u8 >> ((y % 8) as u8)
}

pub proof fn lemma_index_in_range(x: int, y: int, width: int, height: int)
    requires
        valid_grid(width, height),
        in_grid(width, height, x, y),
    ensures
        0 <= bit_index(x, y, width, height) < packed_len(width, height),
        packed_len(width, height) * 8 == width * height,
        packed_len(width, height) <= u32::MAX,
{
    let q = height / 8;
    assert(0 <= y / 8 < q) by (nonlinear_arith)
        requires 0 <= y < height, height % 8 == 0, q == height / 8;
    assert(height == 8 * q) by (nonlinear_arith)
        requires height % 8 == 0, q == height / 8;
    assert(0 <= (width - 1 - x) * q <= (width - 1) * q) by (nonlinear_arith)
        requires 0 <= x < width, q > 0;
    assert((width - 1) * q + q == width * q) by (nonlinear_arith);
    assert(width * q * 8 == width * height) by (nonlinear_arith)
        requires height == 8 * q;
}

pub proof fn lemma_mask_facts()
    ensures
        forall|k: u8| k < 8 ==> (0x80u8 >> k) != 0,
        forall|k1: u8, k2: u8| k1 < 8 && k2 < 8 && (0x80u8 >> k1) == (0x80u8 >> k2) ==> k1 == k2,
{
    assert(forall|k: u8| k < 8 ==> (0x80u8 >> k) != 0) by (bit_vector);
    assert(forall|k1: u8, k2: u8|
        k1 < 8 && k2 < 8 && (0x80u8 >> k1) == (0x80u8 >> k2) ==> k1 == k2) by (bit_vector);
}

/// Maps logical pixel `(x, y)` of a `width` by `height` grid to its byte
/// index in the packed buffer and the mask of its bit in that byte.
pub fn get_bit(x: u32, y: u32, width: u32, height: u32) -> (r: (u32, u8))
    requires
        valid_grid(width as int, height as int),
        in_grid(width as int, height as int, x as int, y as int),
    ensures
        r.0 as int == bit_index(x as int, y as int, width as int, height as int),
        r.1 == bit_mask(y as int),
        (r.0 as int) < packed_len(width as int, height as int),
{
    proof {
        lemma_index_in_range(x as int, y as int, width as int, height as int);
        assert((width - 1 - x) * (height / 8) <= packed_len(width as int, height as int));
    }
    let stride: u32 = height / 8;
    let row: u32 = width - 1 - x;
    (y / 8 + row * stride, 0x80u8 >> ((y % 8) as u8))
}

/// The pixel that owns bit `0x80 >> k` of byte `i` is recovered from them:
/// `x = width - 1 - i / (height / 8)` and `y = 8 * (i % (height / 8)) + k`.
pub proof fn lemma_bit_inverse(x: int, y: int, width: int, height: int, k: int)
    requires
        valid_grid(width, height),
        in_grid(width, height, x, y),
        0 <= k < 8,
        bit_mask(y) == 0x80u8 >> (k as u8),
    ensures
        x == width - 1 - bit_index(x, y, width, height) / (height / 8),
        y == 8 * (bit_index(x, y, width, height) % (height / 8)) + k,
{
    let q = height / 8;
    let i = bit_index(x, y, width, height);
    assert(q > 0 && height == 8 * q) by (nonlinear_arith)
        requires height % 8 == 0, q == height / 8, height > 0;
    assert(0 <= y / 8 < q) by (nonlinear_arith)
        requires 0 <= y < height, height == 8 * q, q > 0;
    let a = width - 1 - x;
    assert(i / q == a && i % q == y / 8) by (nonlinear_arith)
        requires i == y / 8 + a * q, 0 <= y / 8 < q, a >= 0, q > 0;
    lemma_mask_facts();
    assert((y % 8) as u8 == k as u8);
    assert(y == 8 * (y / 8) + y % 8);
}

/// Two pixels of the grid never share a bit.
pub proof fn lemma_bit_injective(x1: int, y1: int, x2: int, y2: int, width: int, height: int)
    requires
        valid_grid(width, height),
        in_grid(width, height, x1, y1),
        in_grid(width, height, x2, y2),
        bit_index(x1, y1, width, height) == bit_index(x2, y2, width, height),
        bit_mask(y1) == bit_mask(y2),
    ensures
        x1 == x2,
        y1 == y2,
{
    let q = height / 8;
    assert(0 <= y1 / 8 < q && 0 <= y2 / 8 < q) by (nonlinear_arith)
        requires 0 <= y1 < height, 0 <= y2 < height, height % 8 == 0, q == height / 8;
    let a1 = width - 1 - x1;
    let a2 = width - 1 - x2;
    assert(a1 == a2) by (nonlinear_arith)
        requires
            y1 / 8 + a1 * q == y2 / 8 + a2 * q,
            0 <= y1 / 8 < q,
            0 <= y2 / 8 < q,
            a1 >= 0,
            a2 >= 0,
    {
        if a1 < a2 {
            assert(a1 * q + q <= a2 * q) by (nonlinear_arith) requires a1 < a2, q > 0;
        } else if a2 < a1 {
            assert(a2 * q + q <= a1 * q) by (nonlinear_arith) requires a2 < a1, q > 0;
        }
    }
    lemma_mask_facts();
    assert((y1 % 8) as u8 == (y2 % 8) as u8);
    assert(y1 == 8 * (y1 / 8) + y1 % 8);
    assert(y2 == 8 * (y2 / 8) + y2 % 8);
}

/// Some pixel of the grid owns bit `k` (counted from the most significant)
/// of byte `i`.
pub open spec fn bit_reached(width: int, height: int, i: int, k: int) -> bool {
    exists|x: int, y: int|
        #![trigger bit_index(x, y, width, height), bit_mask(y)]
        in_grid(width, height, x, y) && bit_index(x, y, width, height) == i && bit_mask(y) == 0x80u8
            >> (k as u8)
}

/// The pixels of the grid reach every bit of the packed buffer: mapping
/// pixels to bits is a bijection.
pub proof fn lemma_bit_bijection(width: int, height: int)
    requires
        valid_grid(width, height),
    ensures
        forall|x: int, y: int|
            #![trigger bit_index(x, y, width, height)]
            in_grid(width, height, x, y) ==> 0 <= bit_index(x, y, width, height) < packed_len(width, height),
        forall|x1: int, y1: int, x2: int, y2: int|
            #![trigger bit_index(x1, y1, width, height), bit_index(x2, y2, width, height)]
            in_grid(width, height, x1, y1) && in_grid(width, height, x2, y2)
                && bit_index(x1, y1, width, height) == bit_index(x2, y2, width, height)
                && bit_mask(y1) == bit_mask(y2) ==> x1 == x2 && y1 == y2,
        forall|i: int, k: int|
            0 <= i < packed_len(width, height) && 0 <= k < 8 ==> #[trigger] bit_reached(
                width,
                height,
                i,
                k,
            ),
{
    assert forall|x: int, y: int|
        #![trigger bit_index(x, y, width, height)]
        in_grid(width, height, x, y) implies 0 <= bit_index(x, y, width, height) < packed_len(width, height) by {
        lemma_index_in_range(x, y, width, height);
    }
    assert forall|x1: int, y1: int, x2: int, y2: int|
        #![trigger bit_index(x1, y1, width, height), bit_index(x2, y2, width, height)]
        in_grid(width, height, x1, y1) && in_grid(width, height, x2, y2)
            && bit_index(x1, y1, width, height) == bit_index(x2, y2, width, height)
            && bit_mask(y1) == bit_mask(y2) implies x1 == x2 && y1 == y2 by {
        lemma_bit_injective(x1, y1, x2, y2, width, height);
    }
    assert forall|i: int, k: int|
        0 <= i < packed_len(width, height) && 0 <= k < 8 implies #[trigger] bit_reached(
            width,
            height,
            i,
            k,
        ) by {
        let q = height / 8;
        assert(q > 0 && height == 8 * q) by (nonlinear_arith)
            requires height % 8 == 0, q == height / 8, height > 0;
        let a = i / q;
        let b = i % q;
        assert(0 <= a < width && 0 <= b < q && i == a * q + b) by (nonlinear_arith)
            requires 0 <= i < width * q, q > 0, a == i / q, b == i % q;
        let x = width - 1 - a;
        let y = 8 * b + k;
        assert(y / 8 == b && y % 8 == k) by (nonlinear_arith)
            requires y == 8 * b + k, 0 <= k < 8, b >= 0;
        assert(y < height) by (nonlinear_arith)
            requires y == 8 * b + k, 0 <= k < 8, b < q, height == 8 * q;
        assert(bit_index(x, y, width, height) == i);
        assert(bit_mask(y) == 0x80u8 >> (k as u8));
        assert(in_grid(width, height, x, y));
    }
}

} // verus!
