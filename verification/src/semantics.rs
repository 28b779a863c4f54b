use vstd::prelude::*;

use crate::fault::Fault;
use crate::state::{blank_screen, MachineView, NUM_KEYS, RAM_SIZE, SCREEN_SIZE};

verus! {

/// Most significant nibble of an opcode.
pub open spec fn nib1(op: u16) -> u16 {
    op / 0x1000
}

/// Second nibble of an opcode; names the register `Vx`.
pub open spec fn nib2(op: u16) -> u16 {
    (op / 0x100) % 16
}

/// Third nibble of an opcode; names the register `Vy`.
pub open spec fn nib3(op: u16) -> u16 {
    (op / 16) % 16
}

/// Least significant nibble of an opcode.
pub open spec fn nib4(op: u16) -> u16 {
    op % 16
}

/// The 12-bit address immediate of an opcode.
pub open spec fn addr_of(op: u16) -> u16 {
    op % 0x1000
}

/// The low byte immediate of an opcode.
pub open spec fn byte_of(op: u16) -> u8 {
    (op % 0x100) as u8
}

/// An integer reduced to an 8-bit register value (wraparound arithmetic).
pub open spec fn to_byte(n: int) -> u8 {
    (n % 0x100) as u8
}

/// An integer reduced to a 16-bit word (wraparound arithmetic).
pub open spec fn to_word(n: int) -> u16 {
    (n % 0x10000) as u16
}

/// Whether any key of the pad is pressed.
pub open spec fn any_pressed(keys: Seq<bool>) -> bool {
    exists|k: int| 0 <= k < NUM_KEYS && keys[k]
}

/// The lowest pressed key index at or above `k`, or 16 when none is.
pub open spec fn first_pressed_from(keys: Seq<bool>, k: int) -> int
    decreases NUM_KEYS - k,
{
    if k < 0 || k >= NUM_KEYS {
        16
    } else if keys[k] {
        k
    } else {
        first_pressed_from(keys, k + 1)
    }
}

/// When every key below `k` is up and key `k` is down, the scan from
/// key zero stops exactly at `k`.
pub(crate) proof fn lemma_first_pressed_skip(keys: Seq<bool>, j: int, k: int)
    requires
        0 <= j <= k < NUM_KEYS,
        keys[k],
        forall|t: int| j <= t < k ==> !keys[t],
    ensures
        first_pressed_from(keys, j) == k,
    decreases k - j,
{
    if j < k {
        lemma_first_pressed_skip(keys, j + 1, k);
    }
}

/// Bit `col` (0 is leftmost) of one sprite row byte.
pub open spec fn spr_bit(b: u8, col: int) -> bool {
    (b >> ((7 - col) as u8)) & 1 == 1
}

/// The screen index a sprite cell lands on: coordinates wrap around the
/// 64x32 display, row-major.
pub open spec fn pix_at(x0: int, y0: int, col: int, row: int) -> int {
    (x0 + col) % 64 + 64 * ((y0 + row) % 32)
}

/// Whether the sprite of `n` rows at memory index `i`, drawn with its top
/// left corner at `(x0, y0)`, covers screen index `p` with a set bit.
pub open spec fn sprite_hits(ram: Seq<u8>, i: int, n: int, x0: int, y0: int, p: int) -> bool {
    exists|row: int, col: int|
        0 <= row < n && 0 <= col < 8 && spr_bit(ram[i + row], col) && p == pix_at(x0, y0, col, row)
}

/// The screen after XOR-drawing a sprite: every covered pixel flips.
pub open spec fn draw_screen(s: Seq<bool>, ram: Seq<u8>, i: int, n: int, x0: int, y0: int) -> Seq<
    bool,
> {
    Seq::new(SCREEN_SIZE as nat, |p: int| s[p] != sprite_hits(ram, i, n, x0, y0, p))
}

/// Whether XOR-drawing a sprite turns some already-set pixel off.
pub open spec fn draw_collision(s: Seq<bool>, ram: Seq<u8>, i: int, n: int, x0: int, y0: int) -> bool {
    exists|p: int| 0 <= p < SCREEN_SIZE && s[p] && sprite_hits(ram, i, n, x0, y0, p)
}

/// Whether the opcode is the clear-screen instruction, 0x00E0.
pub open spec fn is_cls(op: u16) -> bool {
    op == 0x00E0
}

/// Whether the opcode is the return instruction, 0x00EE.
pub open spec fn is_ret(op: u16) -> bool {
    op == 0x00EE
}

/// Whether the opcode is a call instruction.
pub open spec fn is_call(op: u16) -> bool {
    nib1(op) == 2
}

/// Whether the opcode is a draw-sprite instruction.
pub open spec fn is_drw(op: u16) -> bool {
    nib1(op) == 0xD
}

/// The effect of executing one decoded opcode against the post-fetch state
/// `m` (the program counter has already advanced past the opcode).
///
/// Returns the successor state together with `None`, or the unchanged
/// state together with the fault that halts the machine.  `rnd` feeds the
/// random-byte instruction and is ignored by every other opcode; whether a
/// fault occurs never depends on it.
pub open spec fn op_effect(m: MachineView, op: u16, rnd: u8) -> (MachineView, Option<Fault>) {
    let d1 = nib1(op);
    let d3 = nib3(op);
    let d4 = nib4(op);
    let x = nib2(op) as int;
    let y = nib3(op) as int;
    let kk = byte_of(op);
    let nnn = addr_of(op);
    let n = nib4(op) as int;
    if op == 0x00E0 {
        // clear screen
        (MachineView { screen: blank_screen(), ..m }, None)
    } else if op == 0x00EE {
        // return
        if m.sp == 0 {
            (m, Some(Fault::StackUnderflow))
        } else {
            (MachineView { pc: m.stack[m.sp - 1], sp: (m.sp - 1) as u16, ..m }, None)
        }
    } else if d1 == 0x1 {
        // jump
        (MachineView { pc: nnn, ..m }, None)
    } else if d1 == 0x2 {
        // call
        if m.sp >= 16 {
            (m, Some(Fault::StackOverflow))
        } else {
            (
                MachineView {
                    pc: nnn,
                    sp: (m.sp + 1) as u16,
                    stack: m.stack.update(m.sp as int, m.pc),
                    ..m
                },
                None,
            )
        }
    } else if d1 == 0x3 {
        // skip if Vx equals the immediate byte
        (MachineView { pc: if m.v[x] == kk { to_word(m.pc + 2) } else { m.pc }, ..m }, None)
    } else if d1 == 0x4 {
        // skip if Vx differs from the immediate byte
        (MachineView { pc: if m.v[x] != kk { to_word(m.pc + 2) } else { m.pc }, ..m }, None)
    } else if d1 == 0x5 && d4 == 0x0 {
        // skip if Vx equals Vy
        (MachineView { pc: if m.v[x] == m.v[y] { to_word(m.pc + 2) } else { m.pc }, ..m }, None)
    } else if d1 == 0x6 {
        // load immediate
        (MachineView { v: m.v.update(x, kk), ..m }, None)
    } else if d1 == 0x7 {
        // add immediate, wraparound, no flag
        (MachineView { v: m.v.update(x, to_byte(m.v[x] + kk)), ..m }, None)
    } else if d1 == 0x8 {
        if d4 == 0x0 {
            // copy register
            (MachineView { v: m.v.update(x, m.v[y]), ..m }, None)
        } else if d4 == 0x1 {
            // bitwise or
            (MachineView { v: m.v.update(x, m.v[x] | m.v[y]), ..m }, None)
        } else if d4 == 0x2 {
            // bitwise and
            (MachineView { v: m.v.update(x, m.v[x] & m.v[y]), ..m }, None)
        } else if d4 == 0x3 {
            // bitwise xor
            (MachineView { v: m.v.update(x, m.v[x] ^ m.v[y]), ..m }, None)
        } else if d4 == 0x4 {
            // add registers: VF becomes 1 exactly when the sum carries
            (
                MachineView {
                    v: m.v.update(x, to_byte(m.v[x] + m.v[y])).update(
                        15,
                        if m.v[x] + m.v[y] > 255 { 1u8 } else { 0u8 },
                    ),
                    ..m
                },
                None,
            )
        } else if d4 == 0x5 {
            // subtract Vy from Vx: VF becomes 1 exactly when no borrow occurs
            (
                MachineView {
                    v: m.v.update(x, to_byte(m.v[x] - m.v[y])).update(
                        15,
                        if m.v[x] >= m.v[y] { 1u8 } else { 0u8 },
                    ),
                    ..m
                },
                None,
            )
        } else if d4 == 0x6 {
            // shift right: VF keeps bit 0 of the pre-shift value
            (
                MachineView {
                    v: m.v.update(x, m.v[x] / 2).update(15, m.v[x] % 2),
                    ..m
                },
                None,
            )
        } else if d4 == 0x7 {
            // subtract Vx from Vy: VF becomes 1 exactly when no borrow occurs
            (
                MachineView {
                    v: m.v.update(x, to_byte(m.v[y] - m.v[x])).update(
                        15,
                        if m.v[y] >= m.v[x] { 1u8 } else { 0u8 },
                    ),
                    ..m
                },
                None,
            )
        } else if d4 == 0xE {
            // shift left: VF keeps bit 7 of the pre-shift value
            (
                MachineView {
                    v: m.v.update(x, to_byte(2 * m.v[x])).update(15, m.v[x] / 128),
                    ..m
                },
                None,
            )
        } else {
            (m, Some(Fault::UnknownOpcode))
        }
    } else if d1 == 0x9 && d4 == 0x0 {
        // skip if Vx differs from Vy
        (MachineView { pc: if m.v[x] != m.v[y] { to_word(m.pc + 2) } else { m.pc }, ..m }, None)
    } else if d1 == 0xA {
        // load index immediate
        (MachineView { i: nnn, ..m }, None)
    } else if d1 == 0xB {
        // jump with offset
        (MachineView { pc: to_word(m.v[0] + nnn), ..m }, None)
    } else if d1 == 0xC {
        // random byte masked by the immediate
        (MachineView { v: m.v.update(x, rnd & kk), ..m }, None)
    } else if d1 == 0xD {
        // draw sprite
        if m.i + n > RAM_SIZE {
            (m, Some(Fault::MemoryOutOfBounds))
        } else {
            let x0 = m.v[x] as int;
            let y0 = m.v[y] as int;
            (
                MachineView {
                    screen: draw_screen(m.screen, m.ram, m.i as int, n, x0, y0),
                    v: m.v.update(
                        15,
                        if draw_collision(m.screen, m.ram, m.i as int, n, x0, y0) {
                            1u8
                        } else {
                            0u8
                        },
                    ),
                    ..m
                },
                None,
            )
        }
    } else if d1 == 0xE && d3 == 0x9 && d4 == 0xE {
        // skip if the key named by Vx is pressed
        if m.v[x] >= 16 {
            (m, Some(Fault::BadKeyIndex))
        } else {
            (
                MachineView { pc: if m.keys[m.v[x] as int] { to_word(m.pc + 2) } else { m.pc }, ..m },
                None,
            )
        }
    } else if d1 == 0xE && d3 == 0xA && d4 == 0x1 {
        // skip if the key named by Vx is not pressed
        if m.v[x] >= 16 {
            (m, Some(Fault::BadKeyIndex))
        } else {
            (
                MachineView { pc: if !m.keys[m.v[x] as int] { to_word(m.pc + 2) } else { m.pc }, ..m },
                None,
            )
        }
    } else if d1 == 0xF && d3 == 0x0 && d4 == 0x7 {
        // load Vx from the delay timer
        (MachineView { v: m.v.update(x, m.dt), ..m }, None)
    } else if d1 == 0xF && d3 == 0x0 && d4 == 0xA {
        // block until a key is pressed: store the lowest pressed index,
        // or step the program counter back to re-execute this opcode
        if any_pressed(m.keys) {
            (MachineView { v: m.v.update(x, first_pressed_from(m.keys, 0) as u8), ..m }, None)
        } else {
            (MachineView { pc: to_word(m.pc - 2), ..m }, None)
        }
    } else if d1 == 0xF && d3 == 0x1 && d4 == 0x5 {
        // store Vx to the delay timer
        (MachineView { dt: m.v[x], ..m }, None)
    } else if d1 == 0xF && d3 == 0x1 && d4 == 0x8 {
        // store Vx to the sound timer
        (MachineView { st: m.v[x], ..m }, None)
    } else if d1 == 0xF && d3 == 0x1 && d4 == 0xE {
        // add Vx to the index register, wraparound, no flag
        (MachineView { i: to_word(m.i + m.v[x]), ..m }, None)
    } else if d1 == 0xF && d3 == 0x2 && d4 == 0x9 {
        // point the index register at the font glyph for Vx
        (MachineView { i: (m.v[x] * 5) as u16, ..m }, None)
    } else if d1 == 0xF && d3 == 0x3 && d4 == 0x3 {
        // store the decimal digits of Vx at I, I+1, I+2
        if m.i + 2 >= RAM_SIZE {
            (m, Some(Fault::MemoryOutOfBounds))
        } else {
            (
                MachineView {
                    ram: m.ram.update(m.i as int, m.v[x] / 100).update(
                        m.i as int + 1,
                        (m.v[x] / 10) % 10,
                    ).update(m.i as int + 2, m.v[x] % 10),
                    ..m
                },
                None,
            )
        }
    } else if d1 == 0xF && d3 == 0x5 && d4 == 0x5 {
        // copy V0..=Vx into memory at I
        if m.i + x >= RAM_SIZE {
            (m, Some(Fault::MemoryOutOfBounds))
        } else {
            (
                MachineView {
                    ram: Seq::new(
                        RAM_SIZE as nat,
                        |k: int|
                            if m.i <= k <= m.i + x {
                                m.v[k - m.i]
                            } else {
                                m.ram[k]
                            },
                    ),
                    ..m
                },
                None,
            )
        }
    } else if d1 == 0xF && d3 == 0x6 && d4 == 0x5 {
        // copy memory at I into V0..=Vx
        if m.i + x >= RAM_SIZE {
            (m, Some(Fault::MemoryOutOfBounds))
        } else {
            (
                MachineView {
                    v: Seq::new(
                        16,
                        |k: int|
                            if k <= x {
                                m.ram[m.i + k]
                            } else {
                                m.v[k]
                            },
                    ),
                    ..m
                },
                None,
            )
        }
    } else {
        (m, Some(Fault::UnknownOpcode))
    }
}

/// The fault, if any, that executing `op` against post-fetch state `m`
/// raises.  Faults never depend on the random byte.
pub open spec fn op_fault(m: MachineView, op: u16) -> Option<Fault> {
    op_effect(m, op, 0).1
}

/// The successor of post-fetch state `m` under opcode `op`, meaningful
/// when `op_fault(m, op)` is `None`.
pub open spec fn op_step(m: MachineView, op: u16, rnd: u8) -> MachineView {
    op_effect(m, op, rnd).0
}

/// Whether an instruction can be fetched: both opcode bytes lie in memory.
pub open spec fn fetch_ok(m: MachineView) -> bool {
    m.pc + 1 < RAM_SIZE
}

/// The big-endian 16-bit opcode at the program counter.
pub open spec fn opcode_at(m: MachineView) -> u16 {
    (m.ram[m.pc as int] * 256 + m.ram[m.pc as int + 1]) as u16
}

/// The state right after a fetch: the program counter has moved past the
/// two opcode bytes.
pub open spec fn after_fetch(m: MachineView) -> MachineView {
    MachineView { pc: to_word(m.pc + 2), ..m }
}

} // verus!
