use vstd::prelude::*;

verus! {

/// Number of addressable memory bytes.
pub const RAM_SIZE: usize = 4096;
/// Lowest address at which a program image is placed; below it lies the font table.
pub const START_ADDR: u16 = 0x200;
/// Number of general-purpose registers.
pub const NUM_REGS: usize = 16;
/// Capacity of the call stack.
pub const STACK_SIZE: usize = 16;
/// Number of keys on the pad.
pub const NUM_KEYS: usize = 16;
/// Width of the display in pixels.
pub const SCREEN_WIDTH: usize = 64;
/// Height of the display in pixels.
pub const SCREEN_HEIGHT: usize = 32;
/// Number of pixels on the display.
pub const SCREEN_SIZE: usize = 2048;
/// Number of bytes in the built-in font table (16 glyphs of 5 bytes each).
pub const FONT_SIZE: usize = 80;

/// The mathematical model of the whole machine: every contract of the
/// library speaks about values of this type, obtained through `@`.
#[verifier::ext_equal]
pub ghost struct MachineView {
    /// Program counter.
    pub pc: u16,
    /// The 4096 memory bytes.
    pub ram: Seq<u8>,
    /// The 64x32 monochrome display, row-major.
    pub screen: Seq<bool>,
    /// The sixteen general-purpose registers `V0`..`VF`.
    pub v: Seq<u8>,
    /// The index register `I`.
    pub i: u16,
    /// The call-stack pointer: number of live return addresses.
    pub sp: u16,
    /// The sixteen call-stack slots; only those below `sp` are live.
    pub stack: Seq<u16>,
    /// The sixteen key states.
    pub keys: Seq<bool>,
    /// The delay timer.
    pub dt: u8,
    /// The sound timer; nonzero means the tone is on.
    pub st: u8,
}

impl MachineView {
    /// Structural well-formedness: every component has its architectural
    /// size and the stack pointer stays within the stack.
    pub open spec fn wf(self) -> bool {
        &&& self.ram.len() == RAM_SIZE
        &&& self.screen.len() == SCREEN_SIZE
        &&& self.v.len() == NUM_REGS
        &&& self.stack.len() == STACK_SIZE
        &&& self.keys.len() == NUM_KEYS
        &&& self.sp <= STACK_SIZE
    }

    /// The state a machine is in right after construction or reset:
    /// everything zeroed except the font table and the program counter.
    pub open spec fn start() -> MachineView {
        MachineView {
            pc: START_ADDR,
            ram: Seq::new(RAM_SIZE as nat, |k: int| if k < FONT_SIZE { font()[k] } else { 0u8 }),
            screen: blank_screen(),
            v: Seq::new(NUM_REGS as nat, |k: int| 0u8),
            i: 0,
            sp: 0,
            stack: Seq::new(STACK_SIZE as nat, |k: int| 0u16),
            keys: Seq::new(NUM_KEYS as nat, |k: int| false),
            dt: 0,
            st: 0,
        }
    }
}

/// The display with every pixel off.
pub open spec fn blank_screen() -> Seq<bool> {
    Seq::new(SCREEN_SIZE as nat, |p: int| false)
}

/// The built-in font table: glyphs for the hexadecimal digits 0 through F,
/// four pixels wide and five rows tall, one row per byte.
pub open spec fn font() -> Seq<u8> {
    seq![
        0xF0u8, 0x90, 0x90, 0x90, 0xF0, // 0
        0x20, 0x60, 0x20, 0x20, 0x70, // 1
        0xF0, 0x10, 0xF0, 0x80, 0xF0, // 2
        0xF0, 0x10, 0xF0, 0x10, 0xF0, // 3
        0x90, 0x90, 0xF0, 0x10, 0x10, // 4
        0xF0, 0x80, 0xF0, 0x10, 0xF0, // 5
        0xF0, 0x80, 0xF0, 0x90, 0xF0, // 6
        0xF0, 0x10, 0x20, 0x40, 0x40, // 7
        0xF0, 0x90, 0xF0, 0x90, 0xF0, // 8
        0xF0, 0x90, 0xF0, 0x10, 0xF0, // 9
        0xF0, 0x90, 0xF0, 0x90, 0x90, // A
        0xE0, 0x90, 0xE0, 0x90, 0xE0, // B
        0xF0, 0x80, 0x80, 0x80, 0xF0, // C
        0xE0, 0x90, 0x90, 0x90, 0xE0, // D
        0xF0, 0x80, 0xF0, 0x80, 0xF0, // E
        0xF0, 0x80, 0xF0, 0x80, 0x80, // F
    ]
}

} // verus!
