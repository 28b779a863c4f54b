use vstd::prelude::*;

use crate::drawing::{
    collision_before, hits_before, lemma_collision_before_none, lemma_collision_col_step,
    lemma_collision_congruence, lemma_collision_full, lemma_hits_before_col_step,
    lemma_hits_before_full, lemma_hits_before_none, lemma_hits_before_row_step,
    lemma_not_hit_before, lemma_pix_at_range,
};
use crate::fault::Fault;
use crate::semantics::{
    addr_of, after_fetch, any_pressed, byte_of, draw_collision, draw_screen, fetch_ok,
    first_pressed_from, lemma_first_pressed_skip, nib2, nib3, nib4, op_fault, op_step, opcode_at,
    pix_at, to_byte, to_word,
};
use crate::state::{
    font, MachineView, FONT_SIZE, NUM_KEYS, NUM_REGS, RAM_SIZE, SCREEN_SIZE, STACK_SIZE,
    START_ADDR,
};

verus! {

/// The CHIP-8 machine: all architectural state, mutated one instruction
/// at a time by `tick` and at the timer cadence by `tick_timers`.
pub struct Chip8 {
    pc: u16,
    ram: Vec<u8>,
    screen: Vec<bool>,
    v_reg: Vec<u8>,
    i_reg: u16,
    sp: u16,
    stack: Vec<u16>,
    keys: Vec<bool>,
    dt: u8,
    st: u8,
}

impl View for Chip8 {
    type V = MachineView;

    closed spec fn view(&self) -> MachineView {
        MachineView {
            pc: self.pc,
            ram: self.ram@,
            screen: self.screen@,
            v: self.v_reg@,
            i: self.i_reg,
            sp: self.sp,
            stack: self.stack@,
            keys: self.keys@,
            dt: self.dt,
            st: self.st,
        }
    }
}

/// A vector of `n` equal elements.
fn filled<T: Copy>(n: usize, val: T) -> (r: Vec<T>)
    ensures
        r@ =~= Seq::new(n as nat, |k: int| val),
{
    let mut r: Vec<T> = Vec::new();
    while r.len() < n
        invariant
            r@.len() <= n,
            forall|k: int| 0 <= k < r@.len() ==> r@[k] == val,
        decreases n - r@.len(),
    {
        r.push(val);
    }
    r
}

/// The font table as a vector, ready to be copied into low memory.
fn font_vec() -> (r: Vec<u8>)
    ensures
        r@ =~= font(),
{
    let mut r: Vec<u8> = Vec::new();
    r.push(0xF0); r.push(0x90); r.push(0x90); r.push(0x90); r.push(0xF0); // 0
    r.push(0x20); r.push(0x60); r.push(0x20); r.push(0x20); r.push(0x70); // 1
    r.push(0xF0); r.push(0x10); r.push(0xF0); r.push(0x80); r.push(0xF0); // 2
    r.push(0xF0); r.push(0x10); r.push(0xF0); r.push(0x10); r.push(0xF0); // 3
    r.push(0x90); r.push(0x90); r.push(0xF0); r.push(0x10); r.push(0x10); // 4
    r.push(0xF0); r.push(0x80); r.push(0xF0); r.push(0x10); r.push(0xF0); // 5
    r.push(0xF0); r.push(0x80); r.push(0xF0); r.push(0x90); r.push(0xF0); // 6
    r.push(0xF0); r.push(0x10); r.push(0x20); r.push(0x40); r.push(0x40); // 7
    r.push(0xF0); r.push(0x90); r.push(0xF0); r.push(0x90); r.push(0xF0); // 8
    r.push(0xF0); r.push(0x90); r.push(0xF0); r.push(0x10); r.push(0xF0); // 9
    r.push(0xF0); r.push(0x90); r.push(0xF0); r.push(0x90); r.push(0x90); // A
    r.push(0xE0); r.push(0x90); r.push(0xE0); r.push(0x90); r.push(0xE0); // B
    r.push(0xF0); r.push(0x80); r.push(0x80); r.push(0x80); r.push(0xF0); // C
    r.push(0xE0); r.push(0x90); r.push(0x90); r.push(0x90); r.push(0xE0); // D
    r.push(0xF0); r.push(0x80); r.push(0xF0); r.push(0x80); r.push(0xF0); // E
    r.push(0xF0); r.push(0x80); r.push(0xF0); r.push(0x80); r.push(0x80); // F
    r
}

impl Default for Chip8 {
    /// A machine in the start state.
    fn default() -> (m: Chip8)
        ensures
            m@ == MachineView::start(),
    {
        Chip8::new()
    }
}

impl Chip8 {
    /// A machine in the start state: everything zeroed except the font
    /// table in low memory and the program counter at the load address.
    pub fn new() -> (m: Chip8)
        ensures
            m@ == MachineView::start(),
    {
        let mut m = Chip8 {
            pc: START_ADDR,
            ram: filled(RAM_SIZE, 0u8),
            screen: filled(SCREEN_SIZE, false),
            v_reg: filled(NUM_REGS, 0u8),
            i_reg: 0,
            sp: 0,
            stack: filled(STACK_SIZE, 0u16),
            keys: filled(NUM_KEYS, false),
            dt: 0,
            st: 0,
        };
        m.write_font();
        proof {
            assert(m@ =~= MachineView::start());
        }
        m
    }

    /// Copy the font table into the first bytes of memory.
    fn write_font(&mut self)
        requires
            old(self)@.wf(),
        ensures
            (final(self)@ == MachineView {
                ram: Seq::new(
                    RAM_SIZE as nat,
                    |k: int| if k < FONT_SIZE { font()[k] } else { old(self)@.ram[k] },
                ),
                ..old(self)@
            }),
    {
        let f = font_vec();
        let ghost m0 = self@;
        let mut k: usize = 0;
        while k < FONT_SIZE
            invariant
                self@.ram.len() == RAM_SIZE,
                k <= FONT_SIZE,
                f@ == font(),
                (self@ == MachineView { ram: self@.ram, ..m0 }),
                forall|j: int|
                    0 <= j < RAM_SIZE ==> self@.ram[j] == (if j < k {
                        font()[j]
                    } else {
                        m0.ram[j]
                    }),
            decreases FONT_SIZE - k,
        {
            let b = f[k];
            self.ram[k] = b;
            k = k + 1;
        }
        proof {
            assert(self@.ram =~= Seq::new(
                RAM_SIZE as nat,
                |j: int| if j < FONT_SIZE { font()[j] } else { m0.ram[j] },
            ));
        }
    }

    /// Return the machine to the start state without reallocating.
    pub fn reset(&mut self)
        requires
            old(self)@.wf(),
        ensures
            final(self)@ == MachineView::start(),
    {
        self.pc = START_ADDR;
        self.i_reg = 0;
        self.sp = 0;
        self.dt = 0;
        self.st = 0;
        zero_bytes(&mut self.ram);
        zero_bytes(&mut self.v_reg);
        clear_flags(&mut self.screen);
        clear_flags(&mut self.keys);
        zero_words(&mut self.stack);
        self.write_font();
        proof {
            assert(self@ =~= MachineView::start());
        }
    }

    /// How many pixels the display has; the slice `get_display` returns
    /// has exactly this length.
    pub fn display_len(&self) -> (r: usize)
        ensures
            r == SCREEN_SIZE,
    {
        SCREEN_SIZE
    }

    /// Read-only access to the 64x32 display, row-major.
    pub fn get_display(&self) -> (r: &[bool])
        ensures
            r@ == self@.screen,
    {
        self.screen.as_slice()
    }

    /// Record a key going down or up.  Keys are mutated only here, by the
    /// host input collector.
    pub fn keypress(&mut self, idx: usize, pressed: bool)
        requires
            old(self)@.wf(),
            idx < NUM_KEYS,
        ensures
            (final(self)@ == MachineView {
                keys: old(self)@.keys.update(idx as int, pressed),
                ..old(self)@
            }),
    {
        self.keys[idx] = pressed;
    }

    /// Copy a program image into memory at the load address.  An image
    /// longer than the loadable region is refused and nothing changes.
    pub fn load(&mut self, data: &[u8]) -> (r: Result<(), Fault>)
        requires
            old(self)@.wf(),
        ensures
            data@.len() > RAM_SIZE - START_ADDR ==> r == Err::<(), Fault>(Fault::ImageTooLarge)
                && final(self)@ == old(self)@,
            data@.len() <= RAM_SIZE - START_ADDR ==> r == Ok::<(), Fault>(()) && (final(self)@
                == MachineView {
                ram: Seq::new(
                    RAM_SIZE as nat,
                    |k: int|
                        if START_ADDR <= k < START_ADDR + data@.len() {
                            data@[k - START_ADDR]
                        } else {
                            old(self)@.ram[k]
                        },
                ),
                ..old(self)@
            }),
    {
        if data.len() > RAM_SIZE - START_ADDR as usize {
            return Err(Fault::ImageTooLarge);
        }
        let ghost m0 = self@;
        let start = START_ADDR as usize;
        let mut k: usize = 0;
        while k < data.len()
            invariant
                self@.ram.len() == RAM_SIZE,
                data@.len() <= RAM_SIZE - START_ADDR,
                k <= data@.len(),
                start == START_ADDR,
                (self@ == MachineView { ram: self@.ram, ..m0 }),
                forall|j: int|
                    0 <= j < RAM_SIZE ==> self@.ram[j] == (if START_ADDR <= j < START_ADDR + k {
                        data@[j - START_ADDR]
                    } else {
                        m0.ram[j]
                    }),
            decreases data@.len() - k,
        {
            let b = data[k];
            self.ram[start + k] = b;
            k = k + 1;
        }
        proof {
            assert(self@.ram =~= Seq::new(
                RAM_SIZE as nat,
                |j: int|
                    if START_ADDR <= j < START_ADDR + data@.len() {
                        data@[j - START_ADDR]
                    } else {
                        m0.ram[j]
                    },
            ));
        }
        Ok(())
    }

    /// Count one timer period: each nonzero timer goes down by one.  The
    /// result is true exactly when this call brings the sound timer from
    /// one to zero — the single tone-off transition the host must emit.
    pub fn tick_timers(&mut self) -> (tone_off: bool)
        ensures
            (final(self)@ == MachineView {
                dt: if old(self)@.dt > 0 { (old(self)@.dt - 1) as u8 } else { 0 },
                st: if old(self)@.st > 0 { (old(self)@.st - 1) as u8 } else { 0 },
                ..old(self)@
            }),
            tone_off == (old(self)@.st == 1),
    {
        if self.dt > 0 {
            self.dt = self.dt - 1;
        }
        let tone_off = self.st == 1;
        if self.st > 0 {
            self.st = self.st - 1;
        }
        tone_off
    }

    /// The program counter.
    pub fn get_pc(&self) -> (r: u16)
        ensures
            r == self@.pc,
    {
        self.pc
    }

    /// The index register `I`.
    pub fn get_i(&self) -> (r: u16)
        ensures
            r == self@.i,
    {
        self.i_reg
    }

    /// The stack pointer: how many return addresses are live.
    pub fn get_sp(&self) -> (r: u16)
        ensures
            r == self@.sp,
    {
        self.sp
    }

    /// One general-purpose register.
    pub fn get_v(&self, idx: usize) -> (r: u8)
        requires
            self@.wf(),
            idx < NUM_REGS,
        ensures
            r == self@.v[idx as int],
    {
        self.v_reg[idx]
    }

    /// The delay timer.
    pub fn get_dt(&self) -> (r: u8)
        ensures
            r == self@.dt,
    {
        self.dt
    }

    /// The sound timer.
    pub fn get_st(&self) -> (r: u8)
        ensures
            r == self@.st,
    {
        self.st
    }

    /// One memory byte.
    pub fn get_ram(&self, addr: usize) -> (r: u8)
        requires
            self@.wf(),
            addr < RAM_SIZE,
        ensures
            r == self@.ram[addr as int],
    {
        self.ram[addr]
    }

    /// Clear the screen: every pixel goes dark.
    pub fn clr(&mut self)
        requires
            old(self)@.wf(),
        ensures
            (final(self)@ == MachineView { screen: crate::state::blank_screen(), ..old(self)@ }),
    {
        clear_flags(&mut self.screen);
    }

    /// Return: pop the call stack into the program counter.
    pub fn ret(&mut self)
        requires
            old(self)@.wf(),
            old(self)@.sp > 0,
        ensures
            (final(self)@ == MachineView {
                pc: old(self)@.stack[old(self)@.sp - 1],
                sp: (old(self)@.sp - 1) as u16,
                ..old(self)@
            }),
    {
        self.pc = self.pop();
    }

    /// Jump to the 12-bit immediate address.
    pub fn jump(&mut self, op: u16)
        requires
            old(self)@.wf(),
        ensures
            (final(self)@ == MachineView { pc: addr_of(op), ..old(self)@ }),
    {
        self.pc = op % 0x1000;
    }

    /// Call: push the program counter, then jump to the immediate address.
    pub fn call(&mut self, op: u16)
        requires
            old(self)@.wf(),
            old(self)@.sp < STACK_SIZE,
        ensures
            (final(self)@ == MachineView {
                pc: addr_of(op),
                sp: (old(self)@.sp + 1) as u16,
                stack: old(self)@.stack.update(old(self)@.sp as int, old(self)@.pc),
                ..old(self)@
            }),
    {
        let here = self.pc;
        self.push(here);
        self.pc = op % 0x1000;
    }

    /// Skip the next instruction when Vx equals the immediate byte.
    pub fn se_vx_byte(&mut self, op: u16)
        requires
            old(self)@.wf(),
            old(self)@.pc + 2 < 0x10000,
        ensures
            ({
                let m = old(self)@;
                final(self)@ == MachineView {
                    pc: if m.v[nib2(op) as int] == byte_of(op) { to_word(m.pc + 2) } else { m.pc },
                    ..m
                }
            }),
    {
        let x = ((op / 0x100) % 16) as usize;
        let kk = (op % 0x100) as u8;
        if self.v_reg[x] == kk {
            self.pc = self.pc + 2;
        }
    }

    /// Skip the next instruction when Vx differs from the immediate byte.
    pub fn sne_vx_byte(&mut self, op: u16)
        requires
            old(self)@.wf(),
            old(self)@.pc + 2 < 0x10000,
        ensures
            ({
                let m = old(self)@;
                final(self)@ == MachineView {
                    pc: if m.v[nib2(op) as int] != byte_of(op) { to_word(m.pc + 2) } else { m.pc },
                    ..m
                }
            }),
    {
        let x = ((op / 0x100) % 16) as usize;
        let kk = (op % 0x100) as u8;
        if self.v_reg[x] != kk {
            self.pc = self.pc + 2;
        }
    }

    /// Skip the next instruction when Vx equals Vy.
    pub fn se_vx_vy(&mut self, op: u16)
        requires
            old(self)@.wf(),
            old(self)@.pc + 2 < 0x10000,
        ensures
            ({
                let m = old(self)@;
                final(self)@ == MachineView {
                    pc: if m.v[nib2(op) as int] == m.v[nib3(op) as int] {
                        to_word(m.pc + 2)
                    } else {
                        m.pc
                    },
                    ..m
                }
            }),
    {
        let x = ((op / 0x100) % 16) as usize;
        let y = ((op / 16) % 16) as usize;
        if self.v_reg[x] == self.v_reg[y] {
            self.pc = self.pc + 2;
        }
    }

    /// Skip the next instruction when Vx differs from Vy.
    pub fn sne_vx_vy(&mut self, op: u16)
        requires
            old(self)@.wf(),
            old(self)@.pc + 2 < 0x10000,
        ensures
            ({
                let m = old(self)@;
                final(self)@ == MachineView {
                    pc: if m.v[nib2(op) as int] != m.v[nib3(op) as int] {
                        to_word(m.pc + 2)
                    } else {
                        m.pc
                    },
                    ..m
                }
            }),
    {
        let x = ((op / 0x100) % 16) as usize;
        let y = ((op / 16) % 16) as usize;
        if self.v_reg[x] != self.v_reg[y] {
            self.pc = self.pc + 2;
        }
    }

    /// Load the immediate byte into Vx.
    pub fn ld_vx_byte(&mut self, op: u16)
        requires
            old(self)@.wf(),
        ensures
            ({
                let m = old(self)@;
                final(self)@ == MachineView {
                    v: m.v.update(nib2(op) as int, byte_of(op)),
                    ..m
                }
            }),
    {
        let x = ((op / 0x100) % 16) as usize;
        let kk = (op % 0x100) as u8;
        self.v_reg[x] = kk;
    }

    /// Add the immediate byte to Vx with wraparound; no flag is touched.
    pub fn add_vx_byte(&mut self, op: u16)
        requires
            old(self)@.wf(),
        ensures
            ({
                let m = old(self)@;
                final(self)@ == MachineView {
                    v: m.v.update(nib2(op) as int, to_byte(m.v[nib2(op) as int] + byte_of(op))),
                    ..m
                }
            }),
    {
        let x = ((op / 0x100) % 16) as usize;
        let kk = (op % 0x100) as u8;
        self.v_reg[x] = self.v_reg[x].wrapping_add(kk);
    }

    /// Copy Vy into Vx.
    pub fn ld_vx_vy(&mut self, op: u16)
        requires
            old(self)@.wf(),
        ensures
            ({
                let m = old(self)@;
                final(self)@ == MachineView {
                    v: m.v.update(nib2(op) as int, m.v[nib3(op) as int]),
                    ..m
                }
            }),
    {
        let x = ((op / 0x100) % 16) as usize;
        let y = ((op / 16) % 16) as usize;
        self.v_reg[x] = self.v_reg[y];
    }

    /// Vx becomes Vx OR Vy; no flag is touched.
    pub fn or_vx_vy(&mut self, op: u16)
        requires
            old(self)@.wf(),
        ensures
            ({
                let m = old(self)@;
                final(self)@ == MachineView {
                    v: m.v.update(nib2(op) as int, m.v[nib2(op) as int] | m.v[nib3(op) as int]),
                    ..m
                }
            }),
    {
        let x = ((op / 0x100) % 16) as usize;
        let y = ((op / 16) % 16) as usize;
        self.v_reg[x] = self.v_reg[x] | self.v_reg[y];
    }

    /// Vx becomes Vx AND Vy; no flag is touched.
    pub fn and_vx_vy(&mut self, op: u16)
        requires
            old(self)@.wf(),
        ensures
            ({
                let m = old(self)@;
                final(self)@ == MachineView {
                    v: m.v.update(nib2(op) as int, m.v[nib2(op) as int] & m.v[nib3(op) as int]),
                    ..m
                }
            }),
    {
        let x = ((op / 0x100) % 16) as usize;
        let y = ((op / 16) % 16) as usize;
        self.v_reg[x] = self.v_reg[x] & self.v_reg[y];
    }

    /// Vx becomes Vx XOR Vy; no flag is touched.
    pub fn xor_vx_vy(&mut self, op: u16)
        requires
            old(self)@.wf(),
        ensures
            ({
                let m = old(self)@;
                final(self)@ == MachineView {
                    v: m.v.update(nib2(op) as int, m.v[nib2(op) as int] ^ m.v[nib3(op) as int]),
                    ..m
                }
            }),
    {
        let x = ((op / 0x100) % 16) as usize;
        let y = ((op / 16) % 16) as usize;
        self.v_reg[x] = self.v_reg[x] ^ self.v_reg[y];
    }

    /// Add Vy to Vx with wraparound; VF becomes 1 exactly when the true
    /// sum exceeds 255, else 0.
    pub fn add_vx_vy(&mut self, op: u16)
        requires
            old(self)@.wf(),
        ensures
            ({
                let m = old(self)@;
                let x = nib2(op) as int;
                let y = nib3(op) as int;
                final(self)@ == MachineView {
                    v: m.v.update(x, to_byte(m.v[x] + m.v[y])).update(
                        15,
                        if m.v[x] + m.v[y] > 255 { 1u8 } else { 0u8 },
                    ),
                    ..m
                }
            }),
    {
        let x = ((op / 0x100) % 16) as usize;
        let y = ((op / 16) % 16) as usize;
        let vx = self.v_reg[x];
        let vy = self.v_reg[y];
        let sum = vx.wrapping_add(vy);
        let carry: u8 = if (vx as u16) + (vy as u16) > 255 { 1 } else { 0 };
        self.v_reg[x] = sum;
        self.v_reg[15] = carry;
    }

    /// Subtract Vy from Vx with wraparound; VF becomes 1 exactly when no
    /// borrow occurs (Vx at least Vy), else 0.
    pub fn sub_vx_vy(&mut self, op: u16)
        requires
            old(self)@.wf(),
        ensures
            ({
                let m = old(self)@;
                let x = nib2(op) as int;
                let y = nib3(op) as int;
                final(self)@ == MachineView {
                    v: m.v.update(x, to_byte(m.v[x] - m.v[y])).update(
                        15,
                        if m.v[x] >= m.v[y] { 1u8 } else { 0u8 },
                    ),
                    ..m
                }
            }),
    {
        let x = ((op / 0x100) % 16) as usize;
        let y = ((op / 16) % 16) as usize;
        let vx = self.v_reg[x];
        let vy = self.v_reg[y];
        let diff = vx.wrapping_sub(vy);
        let no_borrow: u8 = if vx >= vy { 1 } else { 0 };
        self.v_reg[x] = diff;
        self.v_reg[15] = no_borrow;
    }

    /// Subtract Vx from Vy into Vx with wraparound; VF becomes 1 exactly
    /// when no borrow occurs (Vy at least Vx), else 0.
    pub fn subn_vx_vy(&mut self, op: u16)
        requires
            old(self)@.wf(),
        ensures
            ({
                let m = old(self)@;
                let x = nib2(op) as int;
                let y = nib3(op) as int;
                final(self)@ == MachineView {
                    v: m.v.update(x, to_byte(m.v[y] - m.v[x])).update(
                        15,
                        if m.v[y] >= m.v[x] { 1u8 } else { 0u8 },
                    ),
                    ..m
                }
            }),
    {
        let x = ((op / 0x100) % 16) as usize;
        let y = ((op / 16) % 16) as usize;
        let vx = self.v_reg[x];
        let vy = self.v_reg[y];
        let diff = vy.wrapping_sub(vx);
        let no_borrow: u8 = if vy >= vx { 1 } else { 0 };
        self.v_reg[x] = diff;
        self.v_reg[15] = no_borrow;
    }

    /// Halve Vx; VF keeps bit 0 of the pre-shift value.
    pub fn shr_vx_vy(&mut self, op: u16)
        requires
            old(self)@.wf(),
        ensures
            ({
                let m = old(self)@;
                let x = nib2(op) as int;
                final(self)@ == MachineView {
                    v: m.v.update(x, m.v[x] / 2).update(15, m.v[x] % 2),
                    ..m
                }
            }),
    {
        let x = ((op / 0x100) % 16) as usize;
        let vx = self.v_reg[x];
        self.v_reg[x] = vx / 2;
        self.v_reg[15] = vx % 2;
    }

    /// Double Vx with wraparound; VF keeps bit 7 of the pre-shift value.
    pub fn shl_vx_vy(&mut self, op: u16)
        requires
            old(self)@.wf(),
        ensures
            ({
                let m = old(self)@;
                let x = nib2(op) as int;
                final(self)@ == MachineView {
                    v: m.v.update(x, to_byte(2 * m.v[x])).update(15, m.v[x] / 128),
                    ..m
                }
            }),
    {
        let x = ((op / 0x100) % 16) as usize;
        let vx = self.v_reg[x];
        self.v_reg[x] = vx.wrapping_mul(2);
        self.v_reg[15] = vx / 128;
    }

    /// Load the 12-bit immediate into the index register.
    pub fn ld_i(&mut self, op: u16)
        requires
            old(self)@.wf(),
        ensures
            (final(self)@ == MachineView { i: addr_of(op), ..old(self)@ }),
    {
        self.i_reg = op % 0x1000;
    }

    /// Jump to the immediate address offset by V0.
    pub fn jump_v0(&mut self, op: u16)
        requires
            old(self)@.wf(),
        ensures
            ({
                let m = old(self)@;
                final(self)@ == MachineView { pc: to_word(m.v[0] + addr_of(op)), ..m }
            }),
    {
        let nnn = op % 0x1000;
        self.pc = (self.v_reg[0] as u16) + nnn;
    }

    /// Store a masked random byte into Vx: the byte `rb` the caller drew,
    /// AND-ed with the immediate mask.
    pub fn rnd_vx(&mut self, op: u16, rb: u8)
        requires
            old(self)@.wf(),
        ensures
            ({
                let m = old(self)@;
                final(self)@ == MachineView {
                    v: m.v.update(nib2(op) as int, rb & byte_of(op)),
                    ..m
                }
            }),
    {
        let x = ((op / 0x100) % 16) as usize;
        let kk = (op % 0x100) as u8;
        self.v_reg[x] = rb & kk;
    }

    /// Draw the sprite of `n` rows at memory index I with its top left
    /// corner at the coordinates in (Vx, Vy): every set sprite bit flips
    /// the pixel it lands on, wrapping around both screen edges.  VF
    /// reports whether any pixel went from set to unset.  The caller has
    /// checked that the sprite lies in memory.
    pub fn drw_vx_vy(&mut self, op: u16)
        requires
            old(self)@.wf(),
            old(self)@.i + nib4(op) <= RAM_SIZE,
        ensures
            ({
                let m = old(self)@;
                let x0 = m.v[nib2(op) as int] as int;
                let y0 = m.v[nib3(op) as int] as int;
                let n = nib4(op) as int;
                final(self)@ == MachineView {
                    screen: draw_screen(m.screen, m.ram, m.i as int, n, x0, y0),
                    v: m.v.update(
                        15,
                        if draw_collision(m.screen, m.ram, m.i as int, n, x0, y0) {
                            1u8
                        } else {
                            0u8
                        },
                    ),
                    ..m
                }
            }),
    {
        let x = ((op / 0x100) % 16) as usize;
        let y = ((op / 16) % 16) as usize;
        let n = (op % 16) as usize;
        let x0 = self.v_reg[x] as usize;
        let y0 = self.v_reg[y] as usize;
        let i0 = self.i_reg as usize;
        let ghost m0 = self@;
        let mut flipped = false;
        let mut row: usize = 0;
        proof {
            lemma_hits_before_none(m0.ram, i0 as int, x0 as int, y0 as int);
            lemma_collision_before_none(m0.screen, m0.ram, i0 as int, x0 as int, y0 as int);
        }
        while row < n
            invariant
                m0.wf(),
                self@.screen.len() == SCREEN_SIZE,
                x == nib2(op) as int,
                y == nib3(op) as int,
                n == nib4(op) as int,
                x0 == m0.v[x as int],
                y0 == m0.v[y as int],
                i0 == m0.i,
                i0 + n <= RAM_SIZE,
                row <= n,
                (self@ == MachineView { screen: self@.screen, ..m0 }),
                forall|p: int|
                    0 <= p < SCREEN_SIZE ==> self@.screen[p] == (m0.screen[p] != hits_before(
                        m0.ram,
                        i0 as int,
                        x0 as int,
                        y0 as int,
                        row as int,
                        0,
                        p,
                    )),
                flipped == collision_before(
                    m0.screen,
                    m0.ram,
                    i0 as int,
                    x0 as int,
                    y0 as int,
                    row as int,
                    0,
                ),
            decreases n - row,
        {
            let pixels = self.ram[i0 + row];
            let mut col: usize = 0;
            while col < 8
                invariant
                    m0.wf(),
                    self@.screen.len() == SCREEN_SIZE,
                    n == nib4(op) as int,
                    x0 == m0.v[nib2(op) as int],
                    y0 == m0.v[nib3(op) as int],
                    i0 == m0.i,
                    i0 + n <= RAM_SIZE,
                    row < n,
                    col <= 8,
                    pixels == m0.ram[i0 + row],
                    (self@ == MachineView { screen: self@.screen, ..m0 }),
                    forall|p: int|
                        0 <= p < SCREEN_SIZE ==> self@.screen[p] == (m0.screen[p] != hits_before(
                            m0.ram,
                            i0 as int,
                            x0 as int,
                            y0 as int,
                            row as int,
                            col as int,
                            p,
                        )),
                    flipped == collision_before(
                        m0.screen,
                        m0.ram,
                        i0 as int,
                        x0 as int,
                        y0 as int,
                        row as int,
                        col as int,
                    ),
                decreases 8 - col,
            {
                proof {
                    lemma_hits_before_col_step(
                        m0.ram,
                        i0 as int,
                        x0 as int,
                        y0 as int,
                        row as int,
                        col as int,
                    );
                    lemma_collision_col_step(
                        m0.screen,
                        m0.ram,
                        i0 as int,
                        x0 as int,
                        y0 as int,
                        row as int,
                        col as int,
                    );
                }
                if (pixels >> ((7 - col) as u8)) & 1 == 1 {
                    let px = (x0 + col) % 64;
                    let py = (y0 + row) % 32;
                    let idx = px + 64 * py;
                    proof {
                        lemma_pix_at_range(x0 as int, y0 as int, col as int, row as int);
                        assert(idx == pix_at(x0 as int, y0 as int, col as int, row as int));
                        lemma_not_hit_before(
                            m0.ram,
                            i0 as int,
                            x0 as int,
                            y0 as int,
                            row as int,
                            col as int,
                        );
                    }
                    let cur = self.screen[idx];
                    flipped = flipped || cur;
                    self.screen[idx] = !cur;
                }
                col = col + 1;
            }
            proof {
                lemma_hits_before_row_step(m0.ram, i0 as int, x0 as int, y0 as int, row as int);
                lemma_collision_congruence(
                    m0.screen,
                    m0.ram,
                    i0 as int,
                    x0 as int,
                    y0 as int,
                    row as int,
                    8,
                    row as int + 1,
                    0,
                );
            }
            row = row + 1;
        }
        let vf: u8 = if flipped {
            1
        } else {
            0
        };
        self.v_reg[15] = vf;
        proof {
            lemma_hits_before_full(m0.ram, i0 as int, n as int, x0 as int, y0 as int);
            lemma_collision_full(m0.screen, m0.ram, i0 as int, n as int, x0 as int, y0 as int);
            assert(self@.screen =~= draw_screen(
                m0.screen,
                m0.ram,
                m0.i as int,
                nib4(op) as int,
                m0.v[nib2(op) as int] as int,
                m0.v[nib3(op) as int] as int,
            ));
        }
    }

    /// Block until a key is pressed: scan the pad in ascending order and
    /// store the first pressed index into Vx; with no key down, step the
    /// program counter back so the next cycle re-executes this opcode.
    pub fn ld_vx_k(&mut self, op: u16)
        requires
            old(self)@.wf(),
            old(self)@.pc >= 2,
        ensures
            ({
                let m = old(self)@;
                let x = nib2(op) as int;
                final(self)@ == (if any_pressed(m.keys) {
                    MachineView { v: m.v.update(x, first_pressed_from(m.keys, 0) as u8), ..m }
                } else {
                    MachineView { pc: to_word(m.pc - 2), ..m }
                })
            }),
    {
        let x = ((op / 0x100) % 16) as usize;
        let ghost m0 = self@;
        let mut k: usize = 0;
        while k < NUM_KEYS
            invariant
                m0.wf(),
                old(self)@ == m0,
                x == nib2(op) as int,
                k <= NUM_KEYS,
                self@ == m0,
                forall|j: int| 0 <= j < k ==> !m0.keys[j],
            decreases NUM_KEYS - k,
        {
            if self.keys[k] {
                self.v_reg[x] = k as u8;
                proof {
                    lemma_first_pressed_skip(m0.keys, 0, k as int);
                    assert(any_pressed(m0.keys));
                }
                return ;
            }
            k = k + 1;
        }
        proof {
            assert(!any_pressed(m0.keys)) by {
                if any_pressed(m0.keys) {
                    let j = choose|j: int| 0 <= j < NUM_KEYS && m0.keys[j];
                    assert(!m0.keys[j]);
                }
            }
        }
        self.pc = self.pc - 2;
    }

    /// Skip the next instruction when the key named by Vx is pressed; the
    /// caller has checked that Vx is a valid key index.
    pub fn skp_vx(&mut self, op: u16)
        requires
            old(self)@.wf(),
            old(self)@.pc + 2 < 0x10000,
            old(self)@.v[nib2(op) as int] < NUM_KEYS,
        ensures
            ({
                let m = old(self)@;
                final(self)@ == MachineView {
                    pc: if m.keys[m.v[nib2(op) as int] as int] { to_word(m.pc + 2) } else { m.pc },
                    ..m
                }
            }),
    {
        let x = ((op / 0x100) % 16) as usize;
        let key = self.v_reg[x] as usize;
        if self.keys[key] {
            self.pc = self.pc + 2;
        }
    }

    /// Skip the next instruction when the key named by Vx is not pressed;
    /// the caller has checked that Vx is a valid key index.
    pub fn sknp_vx(&mut self, op: u16)
        requires
            old(self)@.wf(),
            old(self)@.pc + 2 < 0x10000,
            old(self)@.v[nib2(op) as int] < NUM_KEYS,
        ensures
            ({
                let m = old(self)@;
                final(self)@ == MachineView {
                    pc: if !m.keys[m.v[nib2(op) as int] as int] { to_word(m.pc + 2) } else { m.pc },
                    ..m
                }
            }),
    {
        let x = ((op / 0x100) % 16) as usize;
        let key = self.v_reg[x] as usize;
        if !self.keys[key] {
            self.pc = self.pc + 2;
        }
    }

    /// Load the delay timer into Vx.
    pub fn ld_vx_dt(&mut self, op: u16)
        requires
            old(self)@.wf(),
        ensures
            ({
                let m = old(self)@;
                final(self)@ == MachineView { v: m.v.update(nib2(op) as int, m.dt), ..m }
            }),
    {
        let x = ((op / 0x100) % 16) as usize;
        self.v_reg[x] = self.dt;
    }

    /// Store Vx to the delay timer.
    pub fn ld_dt_vx(&mut self, op: u16)
        requires
            old(self)@.wf(),
        ensures
            ({
                let m = old(self)@;
                final(self)@ == MachineView { dt: m.v[nib2(op) as int], ..m }
            }),
    {
        let x = ((op / 0x100) % 16) as usize;
        self.dt = self.v_reg[x];
    }

    /// Store Vx to the sound timer.
    pub fn ld_st_vx(&mut self, op: u16)
        requires
            old(self)@.wf(),
        ensures
            ({
                let m = old(self)@;
                final(self)@ == MachineView { st: m.v[nib2(op) as int], ..m }
            }),
    {
        let x = ((op / 0x100) % 16) as usize;
        self.st = self.v_reg[x];
    }

    /// Add Vx to the index register with 16-bit wraparound; no flag.
    pub fn add_i_vx(&mut self, op: u16)
        requires
            old(self)@.wf(),
        ensures
            ({
                let m = old(self)@;
                final(self)@ == MachineView { i: to_word(m.i + m.v[nib2(op) as int]), ..m }
            }),
    {
        let x = ((op / 0x100) % 16) as usize;
        self.i_reg = self.i_reg.wrapping_add(self.v_reg[x] as u16);
    }

    /// Point the index register at the five-byte font glyph for Vx.
    pub fn ld_f_vx(&mut self, op: u16)
        requires
            old(self)@.wf(),
        ensures
            ({
                let m = old(self)@;
                final(self)@ == MachineView { i: (m.v[nib2(op) as int] * 5) as u16, ..m }
            }),
    {
        let x = ((op / 0x100) % 16) as usize;
        self.i_reg = self.v_reg[x] as u16 * 5;
    }

    /// Write the hundreds, tens and ones decimal digits of Vx to memory
    /// at I, I+1 and I+2; the caller has checked the bounds.
    pub fn ld_b_vx(&mut self, op: u16)
        requires
            old(self)@.wf(),
            old(self)@.i + 2 < RAM_SIZE,
        ensures
            ({
                let m = old(self)@;
                let vx = m.v[nib2(op) as int];
                final(self)@ == MachineView {
                    ram: m.ram.update(m.i as int, vx / 100).update(
                        m.i as int + 1,
                        (vx / 10) % 10,
                    ).update(m.i as int + 2, vx % 10),
                    ..m
                }
            }),
    {
        let x = ((op / 0x100) % 16) as usize;
        let vx = self.v_reg[x];
        let i = self.i_reg as usize;
        self.ram[i] = vx / 100;
        self.ram[i + 1] = (vx / 10) % 10;
        self.ram[i + 2] = vx % 10;
    }

    /// Copy V0 through Vx inclusive into memory starting at I; the caller
    /// has checked the bounds.
    pub fn ld_i_vx(&mut self, op: u16)
        requires
            old(self)@.wf(),
            old(self)@.i + nib2(op) < RAM_SIZE,
        ensures
            ({
                let m = old(self)@;
                let x = nib2(op) as int;
                final(self)@ == MachineView {
                    ram: Seq::new(
                        RAM_SIZE as nat,
                        |k: int| if m.i <= k <= m.i + x { m.v[k - m.i] } else { m.ram[k] },
                    ),
                    ..m
                }
            }),
    {
        let x = ((op / 0x100) % 16) as usize;
        let i = self.i_reg as usize;
        let ghost m0 = self@;
        let mut idx: usize = 0;
        while idx <= x
            invariant
                self@.ram.len() == RAM_SIZE,
                x < 16,
                idx <= x + 1,
                i == m0.i,
                m0.wf(),
                i + x < RAM_SIZE,
                x == nib2(op) as int,
                (self@ == MachineView { ram: self@.ram, ..m0 }),
                forall|j: int|
                    0 <= j < RAM_SIZE ==> self@.ram[j] == (if i <= j < i + idx {
                        m0.v[j - i]
                    } else {
                        m0.ram[j]
                    }),
            decreases x + 1 - idx,
        {
            let b = self.v_reg[idx];
            self.ram[i + idx] = b;
            idx = idx + 1;
        }
        proof {
            assert(self@.ram =~= Seq::new(
                RAM_SIZE as nat,
                |k: int| if m0.i <= k <= m0.i + nib2(op) { m0.v[k - m0.i] } else { m0.ram[k] },
            ));
        }
    }

    /// Copy memory starting at I into V0 through Vx inclusive; the caller
    /// has checked the bounds.
    pub fn ld_vx_i(&mut self, op: u16)
        requires
            old(self)@.wf(),
            old(self)@.i + nib2(op) < RAM_SIZE,
        ensures
            ({
                let m = old(self)@;
                let x = nib2(op) as int;
                final(self)@ == MachineView {
                    v: Seq::new(
                        NUM_REGS as nat,
                        |k: int| if k <= x { m.ram[m.i + k] } else { m.v[k] },
                    ),
                    ..m
                }
            }),
    {
        let x = ((op / 0x100) % 16) as usize;
        let i = self.i_reg as usize;
        let ghost m0 = self@;
        let mut idx: usize = 0;
        while idx <= x
            invariant
                self@.v.len() == NUM_REGS,
                x < 16,
                idx <= x + 1,
                i == m0.i,
                m0.wf(),
                i + x < RAM_SIZE,
                x == nib2(op) as int,
                (self@ == MachineView { v: self@.v, ..m0 }),
                forall|j: int|
                    0 <= j < NUM_REGS ==> self@.v[j] == (if j < idx {
                        m0.ram[m0.i + j]
                    } else {
                        m0.v[j]
                    }),
            decreases x + 1 - idx,
        {
            let b = self.ram[i + idx];
            self.v_reg[idx] = b;
            idx = idx + 1;
        }
        proof {
            assert(self@.v =~= Seq::new(
                NUM_REGS as nat,
                |k: int| if k <= nib2(op) { m0.ram[m0.i + k] } else { m0.v[k] },
            ));
        }
    }

    /// Fetch the big-endian opcode at the program counter and advance the
    /// counter past it; a counter outside memory is a fatal bounds fault.
    pub fn fetch(&mut self) -> (r: Result<u16, Fault>)
        requires
            old(self)@.wf(),
        ensures
            !fetch_ok(old(self)@) ==> r == Err::<u16, Fault>(Fault::MemoryOutOfBounds)
                && final(self)@ == old(self)@,
            fetch_ok(old(self)@) ==> r == Ok::<u16, Fault>(opcode_at(old(self)@)) && final(self)@
                == after_fetch(old(self)@),
    {
        if self.pc as usize + 1 >= RAM_SIZE {
            return Err(Fault::MemoryOutOfBounds);
        }
        let hi = self.ram[self.pc as usize];
        let lo = self.ram[self.pc as usize + 1];
        let op = (hi as u16) * 256 + (lo as u16);
        self.pc = self.pc + 2;
        Ok(op)
    }

    /// Run one full instruction cycle: fetch the opcode at the program
    /// counter, advance the counter past it, then decode and execute.
    /// A fault leaves the machine exactly as the failed step found it
    /// (for a decode or execute fault, that is the post-fetch state) and
    /// is fatal: the caller recovers only by `reset` and a fresh `load`.
    pub fn tick(&mut self) -> (r: Result<(), Fault>)
        requires
            old(self)@.wf(),
        ensures
            final(self)@.wf(),
            !fetch_ok(old(self)@) ==> r == Err::<(), Fault>(Fault::MemoryOutOfBounds)
                && final(self)@ == old(self)@,
            fetch_ok(old(self)@) ==> ({
                let m1 = after_fetch(old(self)@);
                let op = opcode_at(old(self)@);
                match r {
                    Ok(()) => op_fault(m1, op) is None && (exists|rb: u8|
                        final(self)@ == op_step(m1, op, rb)),
                    Err(f) => op_fault(m1, op) == Some(f) && final(self)@ == m1,
                }
            }),
    {
        let op = match self.fetch() {
            Ok(op) => op,
            Err(f) => { return Err(f); },
        };
        self.execute(op)
    }

    /// Decode the fetched opcode and execute it.  The decode table is
    /// closed: an opcode matching no pattern is a fatal fault, never a
    /// silent no-op.
    pub fn execute(&mut self, op: u16) -> (r: Result<(), Fault>)
        requires
            old(self)@.wf(),
            2 <= old(self)@.pc <= RAM_SIZE,
        ensures
            final(self)@.wf(),
            (match r {
                Ok(()) => op_fault(old(self)@, op) is None && (exists|rb: u8|
                    final(self)@ == op_step(old(self)@, op, rb)),
                Err(f) => op_fault(old(self)@, op) == Some(f) && final(self)@ == old(self)@,
            }),
    {
        let d1 = op / 0x1000;
        let d2 = (op / 0x100) % 16;
        let d3 = (op / 16) % 16;
        let d4 = op % 16;
        match (d1, d2, d3, d4) {
            (0x0, 0x0, 0xE, 0x0) => {
                self.clr();
                proof { assert(self@ == op_step(old(self)@, op, 0)); }
                Ok(())
            },
            (0x0, 0x0, 0xE, 0xE) => {
                if self.sp == 0 {
                    return Err(Fault::StackUnderflow);
                }
                self.ret();
                proof { assert(self@ == op_step(old(self)@, op, 0)); }
                Ok(())
            },
            (0x1, _, _, _) => {
                self.jump(op);
                proof { assert(self@ == op_step(old(self)@, op, 0)); }
                Ok(())
            },
            (0x2, _, _, _) => {
                if self.sp >= STACK_SIZE as u16 {
                    return Err(Fault::StackOverflow);
                }
                self.call(op);
                proof { assert(self@ == op_step(old(self)@, op, 0)); }
                Ok(())
            },
            (0x3, _, _, _) => {
                self.se_vx_byte(op);
                proof { assert(self@ == op_step(old(self)@, op, 0)); }
                Ok(())
            },
            (0x4, _, _, _) => {
                self.sne_vx_byte(op);
                proof { assert(self@ == op_step(old(self)@, op, 0)); }
                Ok(())
            },
            (0x5, _, _, 0x0) => {
                self.se_vx_vy(op);
                proof { assert(self@ == op_step(old(self)@, op, 0)); }
                Ok(())
            },
            (0x6, _, _, _) => {
                self.ld_vx_byte(op);
                proof { assert(self@ == op_step(old(self)@, op, 0)); }
                Ok(())
            },
            (0x7, _, _, _) => {
                self.add_vx_byte(op);
                proof { assert(self@ == op_step(old(self)@, op, 0)); }
                Ok(())
            },
            (0x8, _, _, 0x0) => {
                self.ld_vx_vy(op);
                proof { assert(self@ == op_step(old(self)@, op, 0)); }
                Ok(())
            },
            (0x8, _, _, 0x1) => {
                self.or_vx_vy(op);
                proof { assert(self@ == op_step(old(self)@, op, 0)); }
                Ok(())
            },
            (0x8, _, _, 0x2) => {
                self.and_vx_vy(op);
                proof { assert(self@ == op_step(old(self)@, op, 0)); }
                Ok(())
            },
            (0x8, _, _, 0x3) => {
                self.xor_vx_vy(op);
                proof { assert(self@ == op_step(old(self)@, op, 0)); }
                Ok(())
            },
            (0x8, _, _, 0x4) => {
                self.add_vx_vy(op);
                proof { assert(self@ == op_step(old(self)@, op, 0)); }
                Ok(())
            },
            (0x8, _, _, 0x5) => {
                self.sub_vx_vy(op);
                proof { assert(self@ == op_step(old(self)@, op, 0)); }
                Ok(())
            },
            (0x8, _, _, 0x6) => {
                self.shr_vx_vy(op);
                proof { assert(self@ == op_step(old(self)@, op, 0)); }
                Ok(())
            },
            (0x8, _, _, 0x7) => {
                self.subn_vx_vy(op);
                proof { assert(self@ == op_step(old(self)@, op, 0)); }
                Ok(())
            },
            (0x8, _, _, 0xE) => {
                self.shl_vx_vy(op);
                proof { assert(self@ == op_step(old(self)@, op, 0)); }
                Ok(())
            },
            (0x9, _, _, 0x0) => {
                self.sne_vx_vy(op);
                proof { assert(self@ == op_step(old(self)@, op, 0)); }
                Ok(())
            },
            (0xA, _, _, _) => {
                self.ld_i(op);
                proof { assert(self@ == op_step(old(self)@, op, 0)); }
                Ok(())
            },
            (0xB, _, _, _) => {
                self.jump_v0(op);
                proof { assert(self@ == op_step(old(self)@, op, 0)); }
                Ok(())
            },
            (0xC, _, _, _) => {
                let rb = random_byte();
                self.rnd_vx(op, rb);
                proof { assert(self@ == op_step(old(self)@, op, rb)); }
                Ok(())
            },
            (0xD, _, _, _) => {
                if self.i_reg as usize + d4 as usize > RAM_SIZE {
                    return Err(Fault::MemoryOutOfBounds);
                }
                self.drw_vx_vy(op);
                proof { assert(self@ == op_step(old(self)@, op, 0)); }
                Ok(())
            },
            (0xE, _, 0x9, 0xE) => {
                if self.v_reg[d2 as usize] >= NUM_KEYS as u8 {
                    return Err(Fault::BadKeyIndex);
                }
                self.skp_vx(op);
                proof { assert(self@ == op_step(old(self)@, op, 0)); }
                Ok(())
            },
            (0xE, _, 0xA, 0x1) => {
                if self.v_reg[d2 as usize] >= NUM_KEYS as u8 {
                    return Err(Fault::BadKeyIndex);
                }
                self.sknp_vx(op);
                proof { assert(self@ == op_step(old(self)@, op, 0)); }
                Ok(())
            },
            (0xF, _, 0x0, 0x7) => {
                self.ld_vx_dt(op);
                proof { assert(self@ == op_step(old(self)@, op, 0)); }
                Ok(())
            },
            (0xF, _, 0x0, 0xA) => {
                self.ld_vx_k(op);
                proof { assert(self@ == op_step(old(self)@, op, 0)); }
                Ok(())
            },
            (0xF, _, 0x1, 0x5) => {
                self.ld_dt_vx(op);
                proof { assert(self@ == op_step(old(self)@, op, 0)); }
                Ok(())
            },
            (0xF, _, 0x1, 0x8) => {
                self.ld_st_vx(op);
                proof { assert(self@ == op_step(old(self)@, op, 0)); }
                Ok(())
            },
            (0xF, _, 0x1, 0xE) => {
                self.add_i_vx(op);
                proof { assert(self@ == op_step(old(self)@, op, 0)); }
                Ok(())
            },
            (0xF, _, 0x2, 0x9) => {
                self.ld_f_vx(op);
                proof { assert(self@ == op_step(old(self)@, op, 0)); }
                Ok(())
            },
            (0xF, _, 0x3, 0x3) => {
                if self.i_reg as usize + 2 >= RAM_SIZE {
                    return Err(Fault::MemoryOutOfBounds);
                }
                self.ld_b_vx(op);
                proof { assert(self@ == op_step(old(self)@, op, 0)); }
                Ok(())
            },
            (0xF, _, 0x5, 0x5) => {
                if self.i_reg as usize + d2 as usize >= RAM_SIZE {
                    return Err(Fault::MemoryOutOfBounds);
                }
                self.ld_i_vx(op);
                proof { assert(self@ == op_step(old(self)@, op, 0)); }
                Ok(())
            },
            (0xF, _, 0x6, 0x5) => {
                if self.i_reg as usize + d2 as usize >= RAM_SIZE {
                    return Err(Fault::MemoryOutOfBounds);
                }
                self.ld_vx_i(op);
                proof { assert(self@ == op_step(old(self)@, op, 0)); }
                Ok(())
            },
            _ => Err(Fault::UnknownOpcode),
        }
    }

    /// Push a return address; the caller has checked for room.
    fn push(&mut self, val: u16)
        requires
            old(self)@.wf(),
            old(self)@.sp < STACK_SIZE,
        ensures
            (final(self)@ == MachineView {
                sp: (old(self)@.sp + 1) as u16,
                stack: old(self)@.stack.update(old(self)@.sp as int, val),
                ..old(self)@
            }),
    {
        let sp = self.sp as usize;
        self.stack[sp] = val;
        self.sp = self.sp + 1;
    }

    /// Pop a return address; the caller has checked for one.
    fn pop(&mut self) -> (r: u16)
        requires
            old(self)@.wf(),
            old(self)@.sp > 0,
        ensures
            (final(self)@ == MachineView { sp: (old(self)@.sp - 1) as u16, ..old(self)@ }),
            r == old(self)@.stack[old(self)@.sp - 1],
    {
        self.sp = self.sp - 1;
        self.stack[self.sp as usize]
    }
}

/// Relies on rand::random: one byte from the thread-local generator,
/// uniformly distributed over 0..=255; nothing can be promised of its value.
#[verifier::external_body]
fn random_byte() -> u8 {
    rand::random()
}

/// Overwrite every byte with zero.
fn zero_bytes(v: &mut Vec<u8>)
    ensures
        final(v)@ =~= Seq::new(old(v)@.len(), |k: int| 0u8),
{
    let n = v.len();
    let mut k: usize = 0;
    while k < n
        invariant
            v@.len() == n,
            k <= n,
            forall|j: int| 0 <= j < k ==> v@[j] == 0u8,
        decreases n - k,
    {
        v[k] = 0;
        k = k + 1;
    }
}

/// Overwrite every word with zero.
fn zero_words(v: &mut Vec<u16>)
    ensures
        final(v)@ =~= Seq::new(old(v)@.len(), |k: int| 0u16),
{
    let n = v.len();
    let mut k: usize = 0;
    while k < n
        invariant
            v@.len() == n,
            k <= n,
            forall|j: int| 0 <= j < k ==> v@[j] == 0u16,
        decreases n - k,
    {
        v[k] = 0;
        k = k + 1;
    }
}

/// Overwrite every flag with false.
fn clear_flags(v: &mut Vec<bool>)
    ensures
        final(v)@ =~= Seq::new(old(v)@.len(), |k: int| false),
{
    let n = v.len();
    let mut k: usize = 0;
    while k < n
        invariant
            v@.len() == n,
            k <= n,
            forall|j: int| 0 <= j < k ==> v@[j] == false,
        decreases n - k,
    {
        v[k] = false;
        k = k + 1;
    }
}

} // verus!
