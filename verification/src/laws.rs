use vstd::prelude::*;

use crate::semantics::{
    draw_collision, draw_screen, is_call, is_cls, is_drw, is_ret, nib1, nib2, nib3, nib4,
    op_fault, op_step, sprite_hits,
};
use crate::state::{MachineView, SCREEN_SIZE, STACK_SIZE};

verus! {

/// Adding one register to another sets VF exactly when the true sum
/// carries past 255, and (for a destination other than the flag register
/// itself) leaves the wrapped sum behind.
pub proof fn lemma_add_register(m: MachineView, op: u16)
    requires
        m.wf(),
        nib1(op) == 0x8,
        nib4(op) == 0x4,
    ensures
        ({
            let x = nib2(op) as int;
            let y = nib3(op) as int;
            let m1 = op_step(m, op, 0);
            &&& op_fault(m, op) is None
            &&& m1.v[15] == (if m.v[x] + m.v[y] > 255 { 1u8 } else { 0u8 })
            &&& (x != 15 ==> m1.v[x] == (m.v[x] + m.v[y]) % 256)
        }),
{
}

/// Subtracting Vy from Vx sets VF exactly when no borrow occurs, that
/// is when Vx is at least Vy, and (for a destination other than the flag
/// register itself) leaves the wrapped difference behind.
pub proof fn lemma_sub_register(m: MachineView, op: u16)
    requires
        m.wf(),
        nib1(op) == 0x8,
        nib4(op) == 0x5,
    ensures
        ({
            let x = nib2(op) as int;
            let y = nib3(op) as int;
            let m1 = op_step(m, op, 0);
            &&& op_fault(m, op) is None
            &&& m1.v[15] == (if m.v[x] >= m.v[y] { 1u8 } else { 0u8 })
            &&& (x != 15 ==> m1.v[x] == (m.v[x] - m.v[y]) % 256)
        }),
{
}

/// Shifting right keeps bit 0 of the pre-shift value in VF, and (for a
/// destination other than the flag register itself) halves the value.
pub proof fn lemma_shift_right(m: MachineView, op: u16)
    requires
        m.wf(),
        nib1(op) == 0x8,
        nib4(op) == 0x6,
    ensures
        ({
            let x = nib2(op) as int;
            let m1 = op_step(m, op, 0);
            &&& op_fault(m, op) is None
            &&& m1.v[15] == m.v[x] % 2
            &&& (x != 15 ==> m1.v[x] == m.v[x] / 2)
        }),
{
}

/// Clearing the screen twice leaves exactly the state that clearing it
/// once leaves: clear is idempotent.
pub proof fn lemma_clear_idempotent(m: MachineView, op: u16)
    requires
        is_cls(op),
    ensures
        op_step(op_step(m, op, 0), op, 0) == op_step(m, op, 0),
{
}

/// A draw immediately after a clear lights at most the pixels the sprite
/// covers: any pixel set afterwards is hit by a set sprite bit.
pub proof fn lemma_clear_then_draw(m: MachineView, cls_op: u16, drw_op: u16, p: int)
    requires
        m.wf(),
        is_cls(cls_op),
        is_drw(drw_op),
        op_fault(op_step(m, cls_op, 0), drw_op) is None,
        0 <= p < SCREEN_SIZE,
    ensures
        op_step(op_step(m, cls_op, 0), drw_op, 0).screen[p] ==> sprite_hits(
            m.ram,
            m.i as int,
            nib4(drw_op) as int,
            m.v[nib2(drw_op) as int] as int,
            m.v[nib3(drw_op) as int] as int,
            p,
        ),
{
}

/// XOR-drawing a sprite is its own inverse on the screen: drawing the
/// same sprite at the same coordinates twice restores every pixel, and
/// the second draw reports a collision exactly when the first draw set
/// some pixel.
pub proof fn lemma_draw_self_inverse(
    s: Seq<bool>,
    ram: Seq<u8>,
    i: int,
    n: int,
    x0: int,
    y0: int,
)
    requires
        s.len() == SCREEN_SIZE,
    ensures
        draw_screen(draw_screen(s, ram, i, n, x0, y0), ram, i, n, x0, y0) =~= s,
        draw_collision(draw_screen(s, ram, i, n, x0, y0), ram, i, n, x0, y0) <==> (exists|p: int|
            0 <= p < SCREEN_SIZE && !s[p] && sprite_hits(ram, i, n, x0, y0, p)),
{
    let s1 = draw_screen(s, ram, i, n, x0, y0);
    assert forall|p: int| 0 <= p < SCREEN_SIZE implies draw_screen(s1, ram, i, n, x0, y0)[p]
        == s[p] by {
        assert(s1[p] == (s[p] != sprite_hits(ram, i, n, x0, y0, p)));
    }
    if draw_collision(s1, ram, i, n, x0, y0) {
        let p = choose|p: int| 0 <= p < SCREEN_SIZE && s1[p] && sprite_hits(ram, i, n, x0, y0, p);
        assert(!s[p] && sprite_hits(ram, i, n, x0, y0, p));
    }
    if exists|p: int| 0 <= p < SCREEN_SIZE && !s[p] && sprite_hits(ram, i, n, x0, y0, p) {
        let p = choose|p: int| 0 <= p < SCREEN_SIZE && !s[p] && sprite_hits(ram, i, n, x0, y0, p);
        assert(s1[p]);
        assert(draw_collision(s1, ram, i, n, x0, y0));
    }
}

/// Executing the same draw opcode twice in a row (with coordinate
/// registers other than VF) restores the pre-draw screen, and the second
/// draw reports a collision exactly where the first draw set a pixel.
pub proof fn lemma_draw_twice(m: MachineView, op: u16)
    requires
        m.wf(),
        is_drw(op),
        nib2(op) != 15,
        nib3(op) != 15,
        op_fault(m, op) is None,
    ensures
        op_fault(op_step(m, op, 0), op) is None,
        ({
            let i = m.i as int;
            let n = nib4(op) as int;
            let x0 = m.v[nib2(op) as int] as int;
            let y0 = m.v[nib3(op) as int] as int;
            let m2 = op_step(op_step(m, op, 0), op, 0);
            &&& m2.screen == m.screen
            &&& m2.v[15] == (if (exists|p: int|
                0 <= p < SCREEN_SIZE && !m.screen[p] && sprite_hits(m.ram, i, n, x0, y0, p)) {
                1u8
            } else {
                0u8
            })
        }),
{
    let i = m.i as int;
    let n = nib4(op) as int;
    let x0 = m.v[nib2(op) as int] as int;
    let y0 = m.v[nib3(op) as int] as int;
    lemma_draw_self_inverse(m.screen, m.ram, i, n, x0, y0);
}

/// A call followed immediately by a return restores the program counter
/// to the instruction after the call (the post-fetch counter the call
/// pushed) and leaves the stack pointer as it was before the call.
pub proof fn lemma_call_return(m: MachineView, call_op: u16, ret_op: u16)
    requires
        m.wf(),
        is_call(call_op),
        is_ret(ret_op),
        m.sp < STACK_SIZE,
    ensures
        op_fault(m, call_op) is None,
        op_fault(op_step(m, call_op, 0), ret_op) is None,
        ({
            let m2 = op_step(op_step(m, call_op, 0), ret_op, 0);
            m2.pc == m.pc && m2.sp == m.sp
        }),
{
}

} // verus!
