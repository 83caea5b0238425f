//! Single pixels inside a packed byte.
//!
//! The display packs eight horizontally adjacent pixels into one byte, the
//! leftmost pixel in the most significant bit. Everything the rest of the
//! crate says about pixels goes through [`lit`].

use vstd::prelude::*;

verus! {

/// Whether the pixel in column `k` of a packed byte is on. Column 0 is the
/// leftmost pixel, held in the most significant bit; columns outside `0..8`
/// hold no pixel.
pub open spec fn lit(byte: u8, k: int) -> bool {
    0 <= k < 8 && (byte >> ((7 - k) as u8)) & 1u8 == 1u8
}

/// A zero byte has no pixel on.
pub proof fn lemma_lit_zero(k: int)
    ensures
        !lit(0u8, k),
{
    if 0 <= k < 8 {
        let s: u8 = (7 - k) as u8;
        assert((0u8 >> s) & 1u8 != 1u8) by (bit_vector);
    }
}

/// XOR of two bytes flips exactly the pixels that are on in the second.
pub proof fn lemma_lit_xor(a: u8, b: u8, k: int)
    ensures
        lit(a ^ b, k) == (lit(a, k) != lit(b, k)),
{
    if 0 <= k < 8 {
        let s: u8 = (7 - k) as u8;
        assert((((a ^ b) >> s) & 1u8 == 1u8) == (((a >> s) & 1u8 == 1u8) != ((b >> s) & 1u8
            == 1u8))) by (bit_vector)
            requires
                s < 8,
        ;
    }
}

/// AND of two bytes keeps exactly the pixels that are on in both.
pub proof fn lemma_lit_and(a: u8, b: u8, k: int)
    ensures
        lit(a & b, k) == (lit(a, k) && lit(b, k)),
{
    if 0 <= k < 8 {
        let s: u8 = (7 - k) as u8;
        assert((((a & b) >> s) & 1u8 == 1u8) == (((a >> s) & 1u8 == 1u8) && ((b >> s) & 1u8
            == 1u8))) by (bit_vector)
            requires
                s < 8,
        ;
    }
}

/// Shifting a byte right by `o` moves every pixel `o` columns to the right;
/// the `o` leftmost columns become dark.
pub proof fn lemma_lit_shr(a: u8, o: u8, k: int)
    requires
        o < 8,
    ensures
        lit(a >> o, k) == (o <= k < 8 && lit(a, k - o)),
{
    if 0 <= k < 8 {
        let s: u8 = (7 - k) as u8;
        if k >= o {
            let t: u8 = (7 - (k - o)) as u8;
            assert((((a >> o) >> s) & 1u8 == 1u8) == ((a >> t) & 1u8 == 1u8)) by (bit_vector)
                requires
                    s < 8,
                    o < 8,
                    t == s + o,
                    t < 8,
            ;
        } else {
            assert(((a >> o) >> s) & 1u8 != 1u8) by (bit_vector)
                requires
                    s < 8,
                    o < 8,
                    s + o >= 8,
            ;
        }
    }
}

/// Shifting a byte left by `8 - o` keeps its `o` rightmost pixels and moves
/// them to the `o` leftmost columns.
pub proof fn lemma_lit_shl(a: u8, o: u8, k: int)
    requires
        0 < o < 8,
    ensures
        lit(a << ((8 - o) as u8), k) == (0 <= k < o && lit(a, k + 8 - o)),
{
    if 0 <= k < 8 {
        let s: u8 = (7 - k) as u8;
        let sh: u8 = (8 - o) as u8;
        if k < o {
            let t: u8 = (7 - (k + 8 - o)) as u8;
            assert((((a << sh) >> s) & 1u8 == 1u8) == ((a >> t) & 1u8 == 1u8)) by (bit_vector)
                requires
                    s < 8,
                    0 < sh < 8,
                    t + sh == s,
                    t < 8,
            ;
        } else {
            assert(((a << sh) >> s) & 1u8 != 1u8) by (bit_vector)
                requires
                    s < 8,
                    0 < sh < 8,
                    s < sh,
            ;
        }
    }
}

/// A byte is non-zero exactly when one of its pixels is on; the witness is
/// returned.
pub proof fn lemma_lit_witness(a: u8) -> (k: int)
    requires
        a != 0,
    ensures
        lit(a, k),
{
    assert(((a >> 7u8) & 1u8 == 1u8) || ((a >> 6u8) & 1u8 == 1u8) || ((a >> 5u8) & 1u8 == 1u8) || ((
    a >> 4u8) & 1u8 == 1u8) || ((a >> 3u8) & 1u8 == 1u8) || ((a >> 2u8) & 1u8 == 1u8) || ((a
        >> 1u8) & 1u8 == 1u8) || ((a >> 0u8) & 1u8 == 1u8)) by (bit_vector)
        requires
            a != 0,
    ;
    if lit(a, 0) {
        0
    } else if lit(a, 1) {
        1
    } else if lit(a, 2) {
        2
    } else if lit(a, 3) {
        3
    } else if lit(a, 4) {
        4
    } else if lit(a, 5) {
        5
    } else if lit(a, 6) {
        6
    } else {
        7
    }
}

/// Testing bit `j`, counted from the least significant, reads column `7 - j`.
pub proof fn lemma_lit_mask(a: u8, j: u8)
    requires
        j < 8,
    ensures
        (a & (1u8 << j) != 0) == lit(a, 7 - j),
{
    assert((a & (1u8 << j) != 0) == ((a >> j) & 1u8 == 1u8)) by (bit_vector)
        requires
            j < 8,
    ;
}

} // verus!
