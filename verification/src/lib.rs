mod drawing;
mod fault;
mod laws;
mod machine;
mod memory;
mod semantics;
mod state;

pub use fault::Fault;
pub use laws::{
    lemma_add_register, lemma_call_return, lemma_clear_idempotent, lemma_clear_then_draw,
    lemma_draw_self_inverse, lemma_draw_twice, lemma_shift_right, lemma_sub_register,
};
pub use machine::Chip8;
pub use memory::Ram;
pub use semantics::{
    addr_of, after_fetch, any_pressed, byte_of, draw_collision, draw_screen, fetch_ok,
    first_pressed_from, is_call, is_cls, is_drw, is_ret, nib1, nib2, nib3, nib4, op_effect,
    op_fault, op_step, opcode_at, pix_at, spr_bit, sprite_hits, to_byte, to_word,
};
pub use state::{
    blank_screen, font, MachineView, FONT_SIZE, NUM_KEYS, NUM_REGS, RAM_SIZE, SCREEN_HEIGHT,
    SCREEN_SIZE, SCREEN_WIDTH, STACK_SIZE, START_ADDR,
};
