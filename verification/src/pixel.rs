//! Geometry of an RGBA8 pixel buffer: the flat byte index of a channel of a
//! pixel, its unique decomposition back into coordinates, and a verified
//! snapshot of a buffer.

use vstd::prelude::*;
use vstd::arithmetic::div_mod::{
    lemma_div_is_ordered, lemma_div_pos_is_pos, lemma_fundamental_div_mod,
    lemma_fundamental_div_mod_converse, lemma_mod_division_less_than_divisor,
};
use vstd::arithmetic::mul::lemma_mul_is_commutative;

verus! {

/// The flat byte index of channel `c` of pixel `(x, y)` in a row-major RGBA8
/// buffer of width `w`.
pub open spec fn byte_index(w: int, x: int, y: int, c: int) -> int {
    (y * w + x) * 4 + c
}

/// A flat byte index of a pixel inside the image decomposes uniquely back
/// into its pixel coordinates and channel.
pub proof fn lemma_pixel_index(w: int, h: int, x: int, y: int, c: int)
    requires
        0 <= x < w,
        0 <= y < h,
        0 <= c < 4,
    ensures
        ({
            let i = byte_index(w, x, y, c);
            &&& 0 <= i
            &&& i < w * h * 4
            &&& i % 4 == c
            &&& i / 4 == y * w + x
            &&& (y * w + x) % w == x
            &&& (y * w + x) / w == y
        }),
{
    let p = y * w + x;
    let i = p * 4 + c;
    assert(0 <= p && p < w * h && 0 <= i && i < w * h * 4) by (nonlinear_arith)
        requires
            0 <= x < w,
            0 <= y < h,
            0 <= c < 4,
            p == y * w + x,
            i == p * 4 + c,
    ;
    lemma_fundamental_div_mod_converse(i, 4, p, c);
    lemma_fundamental_div_mod_converse(p, w, y, x);
}

/// Conversely, every flat byte index inside the buffer is the byte index of
/// exactly one in-range coordinate triple, recovered by division and
/// remainder.
pub proof fn lemma_index_decompose(w: int, h: int, i: int)
    requires
        0 < w,
        0 < h,
        0 <= i < w * h * 4,
    ensures
        ({
            let c = i % 4;
            let p = i / 4;
            let x = p % w;
            let y = p / w;
            &&& 0 <= c < 4
            &&& 0 <= x < w
            &&& 0 <= y < h
            &&& i == byte_index(w, x, y, c)
        }),
{
    let c = i % 4;
    let p = i / 4;
    lemma_fundamental_div_mod(i, 4);
    lemma_mod_division_less_than_divisor(i, 4);
    lemma_div_pos_is_pos(i, 4);
    lemma_fundamental_div_mod_converse(w * h * 4 - 1, 4, w * h - 1, 3);
    lemma_div_is_ordered(i, w * h * 4 - 1, 4);
    let x = p % w;
    let y = p / w;
    lemma_fundamental_div_mod(p, w);
    lemma_mod_division_less_than_divisor(p, w);
    lemma_div_pos_is_pos(p, w);
    assert(w * h - 1 == (h - 1) * w + (w - 1)) by (nonlinear_arith);
    lemma_fundamental_div_mod_converse(w * h - 1, w, h - 1, w - 1);
    lemma_div_is_ordered(p, w * h - 1, w);
    lemma_mul_is_commutative(w, y);
}

/// A fresh byte-for-byte snapshot of the buffer, taken before a filter pass
/// so that every read of the pass sees the buffer as it stood at the start.
pub fn snapshot_bytes(data: &Vec<u8>) -> (r: Vec<u8>)
    ensures
        r@ == data@,
{
    let mut r: Vec<u8> = Vec::new();
    let mut i: usize = 0;
    while i < data.len()
        invariant
            i <= data.len(),
            r@ == data@.subrange(0, i as int),
        decreases data.len() - i,
    {
        r.push(data[i]);
        proof {
            assert(r@ =~= data@.subrange(0, i + 1));
        }
        i += 1;
    }
    proof {
        assert(r@ =~= data@);
    }
    r
}

} // verus!
