use vstd::prelude::*;

use crate::semantics::{draw_collision, pix_at, spr_bit, sprite_hits};
use crate::state::SCREEN_SIZE;
use vstd::arithmetic::div_mod::{lemma_fundamental_div_mod, lemma_mod_bound};

verus! {

/// Whether screen index `p` is covered by a set sprite bit among the
/// cells already processed by the drawing loops: every full row below
/// `rl`, and in row `rl` the columns below `cl`.
pub(crate) open spec fn hits_before(
    ram: Seq<u8>,
    i: int,
    x0: int,
    y0: int,
    rl: int,
    cl: int,
    p: int,
) -> bool {
    exists|row: int, col: int|
        0 <= row && 0 <= col < 8 && (row < rl || (row == rl && col < cl)) && spr_bit(
            ram[i + row],
            col,
        ) && p == pix_at(x0, y0, col, row)
}

/// Whether some pixel that was set before the draw began is covered by an
/// already-processed set sprite bit — the running collision flag.
pub(crate) open spec fn collision_before(
    s: Seq<bool>,
    ram: Seq<u8>,
    i: int,
    x0: int,
    y0: int,
    rl: int,
    cl: int,
) -> bool {
    exists|p: int| 0 <= p < SCREEN_SIZE && s[p] && hits_before(ram, i, x0, y0, rl, cl, p)
}

/// The screen index of every sprite cell lies on the screen.
pub(crate) proof fn lemma_pix_at_range(x0: int, y0: int, c: int, r: int)
    requires
        0 <= x0,
        0 <= y0,
        0 <= c,
        0 <= r,
    ensures
        0 <= pix_at(x0, y0, c, r) < SCREEN_SIZE,
{
    lemma_mod_bound(x0 + c, 64);
    lemma_mod_bound(y0 + r, 32);
}

/// Distinct sprite cells of one draw land on distinct screen indices:
/// the eight columns stay within one 64-pixel row wrap, and up to sixteen
/// rows stay within one 32-row wrap.
pub(crate) proof fn lemma_pix_at_injective(
    x0: int,
    y0: int,
    c1: int,
    r1: int,
    c2: int,
    r2: int,
)
    requires
        0 <= x0,
        0 <= y0,
        0 <= c1 < 8,
        0 <= c2 < 8,
        0 <= r1 < 32,
        0 <= r2 < 32,
        pix_at(x0, y0, c1, r1) == pix_at(x0, y0, c2, r2),
    ensures
        c1 == c2,
        r1 == r2,
{
    lemma_mod_bound(x0 + c1, 64);
    lemma_mod_bound(x0 + c2, 64);
    lemma_mod_bound(y0 + r1, 32);
    lemma_mod_bound(y0 + r2, 32);
    assert((x0 + c1) % 64 == (x0 + c2) % 64 && (y0 + r1) % 32 == (y0 + r2) % 32);
    lemma_fundamental_div_mod(x0 + c1, 64);
    lemma_fundamental_div_mod(x0 + c2, 64);
    lemma_fundamental_div_mod(y0 + r1, 32);
    lemma_fundamental_div_mod(y0 + r2, 32);
}

/// Before any cell is processed, nothing is covered.
pub(crate) proof fn lemma_hits_before_none(ram: Seq<u8>, i: int, x0: int, y0: int)
    ensures
        forall|p: int| !hits_before(ram, i, x0, y0, 0, 0, p),
{
}

/// Processing one more column extends the covered set by at most the one
/// screen index that cell lands on.
pub(crate) proof fn lemma_hits_before_col_step(
    ram: Seq<u8>,
    i: int,
    x0: int,
    y0: int,
    rl: int,
    cl: int,
)
    requires
        0 <= rl,
        0 <= cl < 8,
    ensures
        forall|p: int|
            hits_before(ram, i, x0, y0, rl, cl + 1, p) == (hits_before(ram, i, x0, y0, rl, cl, p)
                || (spr_bit(ram[i + rl], cl) && p == pix_at(x0, y0, cl, rl))),
{
    assert forall|p: int|
        hits_before(ram, i, x0, y0, rl, cl + 1, p) == (hits_before(ram, i, x0, y0, rl, cl, p) || (
        spr_bit(ram[i + rl], cl) && p == pix_at(x0, y0, cl, rl))) by {
        if hits_before(ram, i, x0, y0, rl, cl + 1, p) {
            let (row, col) = choose|row: int, col: int|
                0 <= row && 0 <= col < 8 && (row < rl || (row == rl && col < cl + 1)) && spr_bit(
                    ram[i + row],
                    col,
                ) && p == pix_at(x0, y0, col, row);
            if row < rl || (row == rl && col < cl) {
                assert(hits_before(ram, i, x0, y0, rl, cl, p));
            } else {
                assert(row == rl && col == cl);
            }
        }
        if hits_before(ram, i, x0, y0, rl, cl, p) {
            let (row, col) = choose|row: int, col: int|
                0 <= row && 0 <= col < 8 && (row < rl || (row == rl && col < cl)) && spr_bit(
                    ram[i + row],
                    col,
                ) && p == pix_at(x0, y0, col, row);
            assert(hits_before(ram, i, x0, y0, rl, cl + 1, p));
        }
        if spr_bit(ram[i + rl], cl) && p == pix_at(x0, y0, cl, rl) {
            assert(0 <= rl && 0 <= cl < 8 && (rl < rl || (rl == rl && cl < cl + 1)) && spr_bit(
                ram[i + rl],
                cl,
            ) && p == pix_at(x0, y0, cl, rl));
            assert(hits_before(ram, i, x0, y0, rl, cl + 1, p));
        }
    }
}

/// A fully processed row covers the same cells as standing at the start
/// of the next row.
pub(crate) proof fn lemma_hits_before_row_step(
    ram: Seq<u8>,
    i: int,
    x0: int,
    y0: int,
    rl: int,
)
    requires
        0 <= rl,
    ensures
        forall|p: int|
            hits_before(ram, i, x0, y0, rl, 8, p) == hits_before(ram, i, x0, y0, rl + 1, 0, p),
{
    assert forall|p: int|
        hits_before(ram, i, x0, y0, rl, 8, p) == hits_before(ram, i, x0, y0, rl + 1, 0, p) by {
        if hits_before(ram, i, x0, y0, rl, 8, p) {
            let (row, col) = choose|row: int, col: int|
                0 <= row && 0 <= col < 8 && (row < rl || (row == rl && col < 8)) && spr_bit(
                    ram[i + row],
                    col,
                ) && p == pix_at(x0, y0, col, row);
            assert(row < rl + 1);
            assert(hits_before(ram, i, x0, y0, rl + 1, 0, p));
        }
        if hits_before(ram, i, x0, y0, rl + 1, 0, p) {
            let (row, col) = choose|row: int, col: int|
                0 <= row && 0 <= col < 8 && (row < rl + 1 || (row == rl + 1 && col < 0)) && spr_bit(
                    ram[i + row],
                    col,
                ) && p == pix_at(x0, y0, col, row);
            assert(row < rl || (row == rl && col < 8));
            assert(hits_before(ram, i, x0, y0, rl, 8, p));
        }
    }
}

/// Once all `n` rows are processed, the covered set is exactly the set
/// the sprite hits.
pub(crate) proof fn lemma_hits_before_full(ram: Seq<u8>, i: int, n: int, x0: int, y0: int)
    ensures
        forall|p: int| hits_before(ram, i, x0, y0, n, 0, p) == sprite_hits(ram, i, n, x0, y0, p),
{
    assert forall|p: int|
        hits_before(ram, i, x0, y0, n, 0, p) == sprite_hits(ram, i, n, x0, y0, p) by {
        if hits_before(ram, i, x0, y0, n, 0, p) {
            let (row, col) = choose|row: int, col: int|
                0 <= row && 0 <= col < 8 && (row < n || (row == n && col < 0)) && spr_bit(
                    ram[i + row],
                    col,
                ) && p == pix_at(x0, y0, col, row);
            assert(0 <= row < n && 0 <= col < 8 && spr_bit(ram[i + row], col) && p == pix_at(
                x0,
                y0,
                col,
                row,
            ));
            assert(sprite_hits(ram, i, n, x0, y0, p));
        }
        if sprite_hits(ram, i, n, x0, y0, p) {
            let (row, col) = choose|row: int, col: int|
                0 <= row < n && 0 <= col < 8 && spr_bit(ram[i + row], col) && p == pix_at(
                    x0,
                    y0,
                    col,
                    row,
                );
            assert(hits_before(ram, i, x0, y0, n, 0, p));
        }
    }
}

/// The cell being processed has not been covered by any earlier cell:
/// the cells of one draw land on pairwise distinct screen indices.
pub(crate) proof fn lemma_not_hit_before(
    ram: Seq<u8>,
    i: int,
    x0: int,
    y0: int,
    rl: int,
    cl: int,
)
    requires
        0 <= x0,
        0 <= y0,
        0 <= rl < 32,
        0 <= cl < 8,
    ensures
        !hits_before(ram, i, x0, y0, rl, cl, pix_at(x0, y0, cl, rl)),
{
    if hits_before(ram, i, x0, y0, rl, cl, pix_at(x0, y0, cl, rl)) {
        let (row, col) = choose|row: int, col: int|
            0 <= row && 0 <= col < 8 && (row < rl || (row == rl && col < cl)) && spr_bit(
                ram[i + row],
                col,
            ) && pix_at(x0, y0, cl, rl) == pix_at(x0, y0, col, row);
        lemma_pix_at_injective(x0, y0, col, row, cl, rl);
        assert(false);
    }
}

/// Exchange the covered-set description under the running collision
/// flag: pointwise equal coverage gives an equal flag.
pub(crate) proof fn lemma_collision_congruence(
    s: Seq<bool>,
    ram: Seq<u8>,
    i: int,
    x0: int,
    y0: int,
    rl1: int,
    cl1: int,
    rl2: int,
    cl2: int,
)
    requires
        forall|p: int|
            hits_before(ram, i, x0, y0, rl1, cl1, p) == hits_before(ram, i, x0, y0, rl2, cl2, p),
    ensures
        collision_before(s, ram, i, x0, y0, rl1, cl1) == collision_before(
            s,
            ram,
            i,
            x0,
            y0,
            rl2,
            cl2,
        ),
{
    if collision_before(s, ram, i, x0, y0, rl1, cl1) {
        let p = choose|p: int|
            0 <= p < SCREEN_SIZE && s[p] && hits_before(ram, i, x0, y0, rl1, cl1, p);
        assert(hits_before(ram, i, x0, y0, rl2, cl2, p));
        assert(collision_before(s, ram, i, x0, y0, rl2, cl2));
    }
    if collision_before(s, ram, i, x0, y0, rl2, cl2) {
        let p = choose|p: int|
            0 <= p < SCREEN_SIZE && s[p] && hits_before(ram, i, x0, y0, rl2, cl2, p);
        assert(hits_before(ram, i, x0, y0, rl1, cl1, p));
        assert(collision_before(s, ram, i, x0, y0, rl1, cl1));
    }
}

/// The running collision flag starts out clear.
pub(crate) proof fn lemma_collision_before_none(
    s: Seq<bool>,
    ram: Seq<u8>,
    i: int,
    x0: int,
    y0: int,
)
    ensures
        !collision_before(s, ram, i, x0, y0, 0, 0),
{
    lemma_hits_before_none(ram, i, x0, y0);
}

/// Processing one more column ORs into the running collision flag
/// exactly whether that cell is a set bit over an already-set pixel.
pub(crate) proof fn lemma_collision_col_step(
    s: Seq<bool>,
    ram: Seq<u8>,
    i: int,
    x0: int,
    y0: int,
    rl: int,
    cl: int,
)
    requires
        0 <= x0,
        0 <= y0,
        0 <= rl,
        0 <= cl < 8,
        s.len() == SCREEN_SIZE,
    ensures
        collision_before(s, ram, i, x0, y0, rl, cl + 1) == (collision_before(
            s,
            ram,
            i,
            x0,
            y0,
            rl,
            cl,
        ) || (spr_bit(ram[i + rl], cl) && s[pix_at(x0, y0, cl, rl)])),
{
    lemma_hits_before_col_step(ram, i, x0, y0, rl, cl);
    lemma_pix_at_range(x0, y0, cl, rl);
    let q = pix_at(x0, y0, cl, rl);
    if collision_before(s, ram, i, x0, y0, rl, cl + 1) {
        let p = choose|p: int|
            0 <= p < SCREEN_SIZE && s[p] && hits_before(ram, i, x0, y0, rl, cl + 1, p);
        if hits_before(ram, i, x0, y0, rl, cl, p) {
            assert(collision_before(s, ram, i, x0, y0, rl, cl));
        } else {
            assert(spr_bit(ram[i + rl], cl) && p == q);
        }
    }
    if collision_before(s, ram, i, x0, y0, rl, cl) {
        let p = choose|p: int|
            0 <= p < SCREEN_SIZE && s[p] && hits_before(ram, i, x0, y0, rl, cl, p);
        assert(hits_before(ram, i, x0, y0, rl, cl + 1, p));
        assert(collision_before(s, ram, i, x0, y0, rl, cl + 1));
    }
    if spr_bit(ram[i + rl], cl) && s[q] {
        assert(hits_before(ram, i, x0, y0, rl, cl + 1, q));
        assert(collision_before(s, ram, i, x0, y0, rl, cl + 1));
    }
}

/// Once all rows are processed, the running collision flag is exactly
/// the draw's reported collision.
pub(crate) proof fn lemma_collision_full(
    s: Seq<bool>,
    ram: Seq<u8>,
    i: int,
    n: int,
    x0: int,
    y0: int,
)
    ensures
        collision_before(s, ram, i, x0, y0, n, 0) == draw_collision(s, ram, i, n, x0, y0),
{
    lemma_hits_before_full(ram, i, n, x0, y0);
    if collision_before(s, ram, i, x0, y0, n, 0) {
        let p = choose|p: int| 0 <= p < SCREEN_SIZE && s[p] && hits_before(ram, i, x0, y0, n, 0, p);
        assert(sprite_hits(ram, i, n, x0, y0, p));
        assert(draw_collision(s, ram, i, n, x0, y0));
    }
    if draw_collision(s, ram, i, n, x0, y0) {
        let p = choose|p: int| 0 <= p < SCREEN_SIZE && s[p] && sprite_hits(ram, i, n, x0, y0, p);
        assert(hits_before(ram, i, x0, y0, n, 0, p));
        assert(collision_before(s, ram, i, x0, y0, n, 0));
    }
}

} // verus!
