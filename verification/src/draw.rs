//! Sprite drawing: an 8-pixel-wide, n-row bitmap is XOR-composited onto the
//! 64x32 framebuffer, each axis wrapping independently, and a collision flag
//! reports whether any written pixel was already set.

use vstd::prelude::*;
use vstd::arithmetic::div_mod::lemma_fundamental_div_mod;
use vstd::arithmetic::div_mod::lemma_mod_bound;

verus! {

/// Whether bit `cx` (counted from the left) of a sprite row byte is set.
pub open spec fn sprite_bit(row: u8, cx: int) -> bool {
    (row >> ((7 - cx) as u8)) & 1 == 1
}

/// The framebuffer index that sprite cell (cx, cy) lands on when the sprite
/// is drawn at (vx, vy): each coordinate wraps around its own axis.
pub open spec fn pix_index(vx: u8, vy: u8, cx: int, cy: int) -> int {
    ((vy + cy) % 32) * 64 + (vx + cx) % 64
}

/// Whether some sprite cell strictly before row `py`, or on row `py` before
/// column `px`, is set and lands on framebuffer index `idx`.
pub open spec fn covers_prefix(
    mem: Seq<u8>, i: int, vx: u8, vy: u8, py: int, px: int, idx: int,
) -> bool {
    exists |cy: int, cx: int|
        0 <= cy && 0 <= cx < 8
        && (cy < py || (cy == py && cx < px))
        && sprite_bit(mem[i + cy], cx)
        && pix_index(vx, vy, cx, cy) == idx
}

/// Whether some set cell of the n-row sprite at memory[i..i+n) lands on
/// framebuffer index `idx`.
pub open spec fn sprite_covers(
    mem: Seq<u8>, i: int, vx: u8, vy: u8, n: int, idx: int,
) -> bool {
    covers_prefix(mem, i, vx, vy, n, 0, idx)
}

/// Whether some set cell strictly before (py, px) lands on a pixel that is
/// set in `fb`: the collision accumulated so far.
pub open spec fn coll_prefix(
    fb: Seq<bool>, mem: Seq<u8>, i: int, vx: u8, vy: u8, py: int, px: int,
) -> bool {
    exists |cy: int, cx: int|
        0 <= cy && 0 <= cx < 8
        && (cy < py || (cy == py && cx < px))
        && sprite_bit(mem[i + cy], cx)
        && fb[pix_index(vx, vy, cx, cy)]
}

/// The framebuffer after the n-row sprite at memory[i..i+n) is XOR-drawn at
/// (vx, vy): a pixel flips exactly when a set sprite cell lands on it.
pub open spec fn spec_draw_fb(
    fb: Seq<bool>, mem: Seq<u8>, i: int, vx: u8, vy: u8, n: int,
) -> Seq<bool> {
    Seq::new(2048, |idx: int| fb[idx] != sprite_covers(mem, i, vx, vy, n, idx))
}

/// Whether the draw collides: some set sprite cell lands on a pixel that was
/// already set before the draw.
pub open spec fn spec_draw_collision(
    fb: Seq<bool>, mem: Seq<u8>, i: int, vx: u8, vy: u8, n: int,
) -> bool {
    coll_prefix(fb, mem, i, vx, vy, n, 0)
}

/// Distinct sprite cells land on distinct framebuffer indices: the row
/// offsets stay inside one 32-row wrap and the column offsets inside one
/// 64-column wrap.
proof fn lemma_pix_index_injective(vx: u8, vy: u8, cx1: int, cy1: int, cx2: int, cy2: int)
    requires
        0 <= cx1 < 8,
        0 <= cx2 < 8,
        0 <= cy1 < 16,
        0 <= cy2 < 16,
        (cx1, cy1) != (cx2, cy2),
    ensures
        pix_index(vx, vy, cx1, cy1) != pix_index(vx, vy, cx2, cy2),
{
    let r1 = (vy + cy1) % 32;
    let r2 = (vy + cy2) % 32;
    let c1 = (vx + cx1) % 64;
    let c2 = (vx + cx2) % 64;
    lemma_mod_bound(vy + cy1, 32);
    lemma_mod_bound(vy + cy2, 32);
    lemma_mod_bound(vx + cx1, 64);
    lemma_mod_bound(vx + cx2, 64);
    lemma_fundamental_div_mod(vy + cy1, 32);
    lemma_fundamental_div_mod(vy + cy2, 32);
    lemma_fundamental_div_mod(vx + cx1, 64);
    lemma_fundamental_div_mod(vx + cx2, 64);
    if cy1 != cy2 {
        // Rows differ by less than 32, so their wrapped rows differ.
        let qd = (vy + cy2) / 32 - (vy + cy1) / 32;
        if r1 == r2 {
            assert(cy2 - cy1 == 32 * qd) by (nonlinear_arith)
                requires
                    vy + cy1 == 32 * ((vy + cy1) / 32) + r1,
                    vy + cy2 == 32 * ((vy + cy2) / 32) + r2,
                    r1 == r2,
                    qd == (vy + cy2) / 32 - (vy + cy1) / 32,
            ;
            assert(-16 < 32 * qd < 16 ==> qd == 0) by (nonlinear_arith);
            assert(false);
        }
        assert(r1 * 64 + c1 != r2 * 64 + c2) by (nonlinear_arith)
            requires r1 != r2, 0 <= c1 < 64, 0 <= c2 < 64, 0 <= r1, 0 <= r2,
        ;
    } else {
        // Same row: columns differ by less than 64, so wrapped columns differ.
        let qd = (vx + cx2) / 64 - (vx + cx1) / 64;
        if c1 == c2 {
            assert(cx2 - cx1 == 64 * qd) by (nonlinear_arith)
                requires
                    vx + cx1 == 64 * ((vx + cx1) / 64) + c1,
                    vx + cx2 == 64 * ((vx + cx2) / 64) + c2,
                    c1 == c2,
                    qd == (vx + cx2) / 64 - (vx + cx1) / 64,
            ;
            assert(-8 < 64 * qd < 8 ==> qd == 0) by (nonlinear_arith);
            assert(false);
        }
    }
}

/// A wrapped framebuffer index is in range.
pub proof fn lemma_pix_index_in_range(vx: u8, vy: u8, cx: int, cy: int)
    requires 0 <= cx, 0 <= cy,
    ensures 0 <= pix_index(vx, vy, cx, cy) < 2048,
{
    lemma_mod_bound(vy + cy, 32);
    lemma_mod_bound(vx + cx, 64);
    assert(((vy + cy) % 32) * 64 <= 31 * 64) by (nonlinear_arith)
        requires 0 <= (vy + cy) % 32 < 32,
    ;
    assert(0 <= ((vy + cy) % 32) * 64) by (nonlinear_arith)
        requires 0 <= (vy + cy) % 32,
    ;
}

/// No cell strictly before (py, px) of the first `n` rows lands on the index
/// of cell (px, py) itself: the target pixel is still untouched when the
/// engine reaches that cell.
proof fn lemma_prefix_misses_current(
    mem: Seq<u8>, i: int, vx: u8, vy: u8, py: int, px: int, n: int,
)
    requires
        0 <= py < n <= 16,
        0 <= px < 8,
    ensures
        !covers_prefix(mem, i, vx, vy, py, px, pix_index(vx, vy, px, py)),
{
    let idx = pix_index(vx, vy, px, py);
    assert forall |cy: int, cx: int|
        0 <= cy && 0 <= cx < 8
        && (cy < py || (cy == py && cx < px))
        && sprite_bit(mem[i + cy], cx)
        implies #[trigger] pix_index(vx, vy, cx, cy) != idx
    by {
        lemma_pix_index_injective(vx, vy, cx, cy, px, py);
    }
}

/// Draws the n-row sprite at memory[i..i+n) onto the framebuffer at
/// (vx, vy) and reports the collision flag.
pub(crate) fn draw_sprite(
    fb: &mut Vec<bool>, mem: &Vec<u8>, i: usize, vx: u8, vy: u8, n: usize,
) -> (collision: bool)
    requires
        old(fb)@.len() == 2048,
        mem@.len() == 4096,
        n <= 15,
        i + n <= 4096,
    ensures
        final(fb)@ == spec_draw_fb(old(fb)@, mem@, i as int, vx, vy, n as int),
        collision == spec_draw_collision(old(fb)@, mem@, i as int, vx, vy, n as int),
{
    let ghost fb0 = fb@;
    let mut collision = false;
    let mut cy: usize = 0;
    while cy < n
        invariant
            0 <= cy <= n <= 15,
            i + n <= 4096,
            mem@.len() == 4096,
            fb@.len() == 2048,
            forall |idx: int| 0 <= idx < 2048 ==>
                fb@[idx] == (fb0[idx] != covers_prefix(mem@, i as int, vx, vy, cy as int, 0, idx)),
            collision == coll_prefix(fb0, mem@, i as int, vx, vy, cy as int, 0),
        decreases n - cy,
    {
        let row: u8 = mem[i + cy];
        let mut cx: usize = 0;
        while cx < 8
            invariant
                0 <= cy < n <= 15,
                i + n <= 4096,
                mem@.len() == 4096,
                row == mem@[i + cy],
                0 <= cx <= 8,
                fb@.len() == 2048,
                forall |idx: int| 0 <= idx < 2048 ==>
                    fb@[idx] == (fb0[idx] != covers_prefix(mem@, i as int, vx, vy, cy as int, cx as int, idx)),
                collision == coll_prefix(fb0, mem@, i as int, vx, vy, cy as int, cx as int),
            decreases 8 - cx,
        {
            let sh: u8 = (7 - cx) as u8;
            let bit_set = ((row >> sh) & 1) == 1;
            proof {
                lemma_pix_index_in_range(vx, vy, cx as int, cy as int);
            }
            if bit_set {
                let col: usize = (vx as usize + cx) % 64;
                let r: usize = (vy as usize + cy) % 32;
                let t: usize = r * 64 + col;
                proof {
                    assert(t == pix_index(vx, vy, cx as int, cy as int));
                    lemma_prefix_misses_current(mem@, i as int, vx, vy, cy as int, cx as int, n as int);
                    assert(fb@[t as int] == fb0[t as int]);
                }
                let before = fb[t];
                if before {
                    collision = true;
                }
                fb.set(t, !before);
                proof {
                    assert forall |idx: int| 0 <= idx < 2048 implies
                        fb@[idx] == (fb0[idx] != covers_prefix(mem@, i as int, vx, vy, cy as int, cx as int + 1, idx))
                    by {
                        if covers_prefix(mem@, i as int, vx, vy, cy as int, cx as int + 1, idx) {
                            let (wy, wx) = choose |wy: int, wx: int|
                                0 <= wy && 0 <= wx < 8
                                && (wy < cy || (wy == cy && wx < cx as int + 1))
                                && sprite_bit(mem@[i + wy], wx)
                                && pix_index(vx, vy, wx, wy) == idx;
                            if wy == cy && wx == cx as int {
                                assert(idx == t);
                            } else {
                                assert(covers_prefix(mem@, i as int, vx, vy, cy as int, cx as int, idx));
                                if idx == t {
                                    lemma_pix_index_injective(vx, vy, wx, wy, cx as int, cy as int);
                                    assert(false);
                                }
                            }
                        } else {
                            assert(!covers_prefix(mem@, i as int, vx, vy, cy as int, cx as int, idx));
                            assert(idx != t);
                        }
                    }
                    assert(coll_prefix(fb0, mem@, i as int, vx, vy, cy as int, cx as int + 1)
                        == (coll_prefix(fb0, mem@, i as int, vx, vy, cy as int, cx as int) || fb0[t as int]))
                    by {
                        if coll_prefix(fb0, mem@, i as int, vx, vy, cy as int, cx as int + 1) {
                            let (wy, wx) = choose |wy: int, wx: int|
                                0 <= wy && 0 <= wx < 8
                                && (wy < cy || (wy == cy && wx < cx as int + 1))
                                && sprite_bit(mem@[i + wy], wx)
                                && fb0[pix_index(vx, vy, wx, wy)];
                            if !(wy == cy && wx == cx as int) {
                                assert(coll_prefix(fb0, mem@, i as int, vx, vy, cy as int, cx as int));
                            }
                        }
                        if fb0[t as int] {
                            assert(sprite_bit(mem@[i + cy as int], cx as int)
                                && fb0[pix_index(vx, vy, cx as int, cy as int)]);
                        }
                    }
                }
            } else {
                proof {
                    assert forall |idx: int| 0 <= idx < 2048 implies
                        covers_prefix(mem@, i as int, vx, vy, cy as int, cx as int + 1, idx)
                        == covers_prefix(mem@, i as int, vx, vy, cy as int, cx as int, idx)
                    by {
                        if covers_prefix(mem@, i as int, vx, vy, cy as int, cx as int + 1, idx) {
                            let (wy, wx) = choose |wy: int, wx: int|
                                0 <= wy && 0 <= wx < 8
                                && (wy < cy || (wy == cy && wx < cx as int + 1))
                                && sprite_bit(mem@[i + wy], wx)
                                && pix_index(vx, vy, wx, wy) == idx;
                            assert(!(wy == cy && wx == cx as int));
                            assert(covers_prefix(mem@, i as int, vx, vy, cy as int, cx as int, idx));
                        }
                    }
                    assert(coll_prefix(fb0, mem@, i as int, vx, vy, cy as int, cx as int + 1)
                        == coll_prefix(fb0, mem@, i as int, vx, vy, cy as int, cx as int))
                    by {
                        if coll_prefix(fb0, mem@, i as int, vx, vy, cy as int, cx as int + 1) {
                            let (wy, wx) = choose |wy: int, wx: int|
                                0 <= wy && 0 <= wx < 8
                                && (wy < cy || (wy == cy && wx < cx as int + 1))
                                && sprite_bit(mem@[i + wy], wx)
                                && fb0[pix_index(vx, vy, wx, wy)];
                            assert(!(wy == cy && wx == cx as int));
                            assert(coll_prefix(fb0, mem@, i as int, vx, vy, cy as int, cx as int));
                        }
                    }
                }
            }
            cx = cx + 1;
        }
        proof {
            assert forall |idx: int| 0 <= idx < 2048 implies
                covers_prefix(mem@, i as int, vx, vy, cy as int, 8, idx)
                == covers_prefix(mem@, i as int, vx, vy, cy as int + 1, 0, idx)
            by {
                if covers_prefix(mem@, i as int, vx, vy, cy as int, 8, idx) {
                    let (wy, wx) = choose |wy: int, wx: int|
                        0 <= wy && 0 <= wx < 8
                        && (wy < cy || (wy == cy && wx < 8))
                        && sprite_bit(mem@[i + wy], wx)
                        && pix_index(vx, vy, wx, wy) == idx;
                    assert(wy < cy as int + 1);
                    assert(covers_prefix(mem@, i as int, vx, vy, cy as int + 1, 0, idx));
                }
                if covers_prefix(mem@, i as int, vx, vy, cy as int + 1, 0, idx) {
                    let (wy, wx) = choose |wy: int, wx: int|
                        0 <= wy && 0 <= wx < 8
                        && (wy < cy as int + 1 || (wy == cy as int + 1 && wx < 0))
                        && sprite_bit(mem@[i + wy], wx)
                        && pix_index(vx, vy, wx, wy) == idx;
                    assert(wy < cy || (wy == cy && wx < 8));
                    assert(covers_prefix(mem@, i as int, vx, vy, cy as int, 8, idx));
                }
            }
            assert(coll_prefix(fb0, mem@, i as int, vx, vy, cy as int, 8)
                == coll_prefix(fb0, mem@, i as int, vx, vy, cy as int + 1, 0))
            by {
                if coll_prefix(fb0, mem@, i as int, vx, vy, cy as int, 8) {
                    let (wy, wx) = choose |wy: int, wx: int|
                        0 <= wy && 0 <= wx < 8
                        && (wy < cy || (wy == cy && wx < 8))
                        && sprite_bit(mem@[i + wy], wx)
                        && fb0[pix_index(vx, vy, wx, wy)];
                    assert(wy < cy as int + 1);
                    assert(coll_prefix(fb0, mem@, i as int, vx, vy, cy as int + 1, 0));
                }
                if coll_prefix(fb0, mem@, i as int, vx, vy, cy as int + 1, 0) {
                    let (wy, wx) = choose |wy: int, wx: int|
                        0 <= wy && 0 <= wx < 8
                        && (wy < cy as int + 1 || (wy == cy as int + 1 && wx < 0))
                        && sprite_bit(mem@[i + wy], wx)
                        && fb0[pix_index(vx, vy, wx, wy)];
                    assert(wy < cy || (wy == cy && wx < 8));
                    assert(coll_prefix(fb0, mem@, i as int, vx, vy, cy as int, 8));
                }
            }
        }
        cy = cy + 1;
    }
    proof {
        assert(fb@ =~= spec_draw_fb(fb0, mem@, i as int, vx, vy, n as int));
    }
    collision
}

} // verus!
