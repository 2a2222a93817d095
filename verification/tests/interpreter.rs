//! Behavioural tests of the CHIP-8 core: opcode semantics, error reporting,
//! the timer and beep protocol, drawing, and the key-wait protocol.

use chip8_core::{CHIP8, Chip8Error, KeyWait};

fn exec_all(m: &mut CHIP8, ops: &[u16]) {
    for &w in ops {
        m.execute_op(w).unwrap();
    }
}

#[test]
fn set_register_exact() {
    let mut m = CHIP8::new();
    exec_all(&mut m, &[0x6ABC]);
    assert_eq!(m.v[10], 0xBC);
    assert_eq!(m.pc, 0x202);
    for r in 0..16 {
        if r != 10 {
            assert_eq!(m.v[r], 0);
        }
    }
}

#[test]
fn end_to_end_two_steps() {
    let mut m = CHIP8::new();
    m.load(vec![0x60, 0x05, 0xA2, 0x0A]).unwrap();
    m.step().unwrap();
    m.step().unwrap();
    assert_eq!(m.v[0], 5);
    assert_eq!(m.i, 0x20A);
    assert_eq!(m.pc, 0x204);
}

#[test]
fn bcd_of_157() {
    let mut m = CHIP8::new();
    exec_all(&mut m, &[0x609D, 0xA300, 0xF033]);
    assert_eq!(m.memory[0x300], 1);
    assert_eq!(m.memory[0x301], 5);
    assert_eq!(m.memory[0x302], 7);
}

#[test]
fn draw_then_undraw() {
    let mut m = CHIP8::new();
    m.load(vec![0xFF]).unwrap();
    exec_all(&mut m, &[0xA200, 0x6003, 0x6105]);
    m.execute_op(0xD011).unwrap();
    for j in 0..8 {
        assert_eq!(m.gfx[5 * 64 + 3 + j], 1);
    }
    assert_eq!(m.gfx[5 * 64 + 2], 0);
    assert_eq!(m.gfx[5 * 64 + 11], 0);
    assert_eq!(m.v[15], 0);
    assert!(m.redraw_pending());
    m.execute_op(0xD011).unwrap();
    for p in 0..64 * 32 {
        assert_eq!(m.gfx[p], 0);
    }
    assert_eq!(m.v[15], 1);
}

#[test]
fn draw_wraps_at_edges() {
    let mut m = CHIP8::new();
    m.load(vec![0xFF]).unwrap();
    exec_all(&mut m, &[0xA200, 0x603E, 0x611F]);
    m.execute_op(0xD011).unwrap();
    for j in 0..8 {
        let col = (62 + j) % 64;
        assert_eq!(m.gfx[31 * 64 + col], 1);
    }
    assert_eq!(m.v[15], 0);
}

#[test]
fn subroutine_roundtrip() {
    let mut m = CHIP8::new();
    m.execute_op(0x2400).unwrap();
    assert_eq!(m.pc, 0x400);
    assert_eq!(m.sp, 1);
    assert_eq!(m.stack[0], 0x202);
    m.execute_op(0x00EE).unwrap();
    assert_eq!(m.pc, 0x202);
    assert_eq!(m.sp, 0);
}

#[test]
fn seventeenth_call_overflows() {
    let mut m = CHIP8::new();
    for _ in 0..16 {
        m.execute_op(0x2300).unwrap();
    }
    assert_eq!(m.sp, 16);
    let saved: Vec<u16> = m.stack.clone();
    let r = m.execute_op(0x2300);
    assert_eq!(
        r,
        Err(Chip8Error::StackOverflow { opcode: 0x2300, pc: 0x300 })
    );
    assert_eq!(m.stack, saved);
    assert_eq!(m.sp, 16);
    assert_eq!(m.pc, 0x300);
}

#[test]
fn return_on_empty_stack_underflows() {
    let mut m = CHIP8::new();
    let r = m.execute_op(0x00EE);
    assert_eq!(
        r,
        Err(Chip8Error::StackUnderflow { opcode: 0x00EE, pc: 0x200 })
    );
    assert_eq!(m.pc, 0x200);
}

#[test]
fn unknown_opcodes_are_reported() {
    let mut m = CHIP8::new();
    assert_eq!(
        m.execute_op(0x0000),
        Err(Chip8Error::UnknownOpcode { opcode: 0x0000, pc: 0x200 })
    );
    assert_eq!(
        m.execute_op(0xF0FF),
        Err(Chip8Error::UnknownOpcode { opcode: 0xF0FF, pc: 0x200 })
    );
    assert_eq!(
        m.execute_op(0x800F),
        Err(Chip8Error::UnknownOpcode { opcode: 0x800F, pc: 0x200 })
    );
    assert_eq!(m.pc, 0x200);
}

#[test]
fn rom_size_limit() {
    let mut m = CHIP8::new();
    let r = m.load(vec![0; 3585]);
    assert_eq!(r, Err(Chip8Error::RomTooLarge { len: 3585 }));
    assert_eq!(m.memory[0x200], 0);
    let mut m2 = CHIP8::new();
    assert_eq!(m2.load(vec![7; 3584]), Ok(()));
    assert_eq!(m2.memory[0x200], 7);
    assert_eq!(m2.memory[0xFFF], 7);
}

#[test]
fn bcd_out_of_memory_range() {
    let mut m = CHIP8::new();
    m.execute_op(0xAFFF).unwrap();
    let r = m.execute_op(0xF033);
    assert_eq!(
        r,
        Err(Chip8Error::MemoryOutOfRange { opcode: 0xF033, pc: 0x202 })
    );
}

#[test]
fn draw_out_of_memory_range() {
    let mut m = CHIP8::new();
    m.execute_op(0xAFFF).unwrap();
    let r = m.execute_op(0xD012);
    assert_eq!(
        r,
        Err(Chip8Error::MemoryOutOfRange { opcode: 0xD012, pc: 0x202 })
    );
}

#[test]
fn timers_decrement_and_beep_once() {
    let mut m = CHIP8::new();
    exec_all(&mut m, &[0x6003, 0xF015, 0x6102, 0xF118]);
    assert_eq!(m.delay_timer, 3);
    assert_eq!(m.sound_timer, 2);
    assert!(!m.tick_timers());
    assert_eq!(m.delay_timer, 2);
    assert_eq!(m.sound_timer, 1);
    assert!(m.tick_timers());
    assert_eq!(m.sound_timer, 0);
    assert!(!m.tick_timers());
    assert_eq!(m.delay_timer, 0);
    assert!(!m.tick_timers());
    assert_eq!(m.delay_timer, 0);
    assert_eq!(m.sound_timer, 0);
}

#[test]
fn key_wait_suspends_and_resumes() {
    let mut m = CHIP8::new();
    m.load(vec![0xF3, 0x0A]).unwrap();
    m.step().unwrap();
    assert_eq!(m.wait, KeyWait::Waiting { x: 3 });
    assert_eq!(m.pc, 0x200);
    m.step().unwrap();
    m.step().unwrap();
    assert_eq!(m.pc, 0x200);
    assert_eq!(m.v[3], 0);
    m.set_input(7, true);
    assert_eq!(m.wait, KeyWait::Captured { x: 3, key: 7 });
    m.step().unwrap();
    assert_eq!(m.v[3], 7);
    assert_eq!(m.pc, 0x202);
    assert_eq!(m.wait, KeyWait::Idle);
}

#[test]
fn key_skips() {
    let mut m = CHIP8::new();
    m.set_input(5, true);
    exec_all(&mut m, &[0x6005]);
    m.execute_op(0xE09E).unwrap();
    assert_eq!(m.pc, 0x206);
    m.execute_op(0xE0A1).unwrap();
    assert_eq!(m.pc, 0x208);
    m.set_input(5, false);
    m.execute_op(0xE09E).unwrap();
    assert_eq!(m.pc, 0x20A);
    m.execute_op(0xE0A1).unwrap();
    assert_eq!(m.pc, 0x20E);
}

#[test]
fn alu_add_with_carry() {
    let mut m = CHIP8::new();
    exec_all(&mut m, &[0x60C8, 0x6164, 0x8014]);
    assert_eq!(m.v[0], 44);
    assert_eq!(m.v[15], 1);
    let mut m2 = CHIP8::new();
    exec_all(&mut m2, &[0x6010, 0x6120, 0x8014]);
    assert_eq!(m2.v[0], 0x30);
    assert_eq!(m2.v[15], 0);
}

#[test]
fn alu_sub_with_borrow() {
    let mut m = CHIP8::new();
    exec_all(&mut m, &[0x6205, 0x630A, 0x8235]);
    assert_eq!(m.v[2], 251);
    assert_eq!(m.v[15], 0);
    let mut m2 = CHIP8::new();
    exec_all(&mut m2, &[0x620A, 0x6305, 0x8235]);
    assert_eq!(m2.v[2], 5);
    assert_eq!(m2.v[15], 1);
}

#[test]
fn alu_reverse_sub() {
    let mut m = CHIP8::new();
    exec_all(&mut m, &[0x6203, 0x630A, 0x8237]);
    assert_eq!(m.v[2], 7);
    assert_eq!(m.v[15], 1);
}

#[test]
fn alu_shifts() {
    let mut m = CHIP8::new();
    exec_all(&mut m, &[0x640B, 0x8406]);
    assert_eq!(m.v[4], 5);
    assert_eq!(m.v[15], 1);
    let mut m2 = CHIP8::new();
    exec_all(&mut m2, &[0x6581, 0x850E]);
    assert_eq!(m2.v[5], 2);
    assert_eq!(m2.v[15], 1);
}

#[test]
fn alu_bitwise() {
    let mut m = CHIP8::new();
    exec_all(&mut m, &[0x60F0, 0x610F, 0x8011]);
    assert_eq!(m.v[0], 0xFF);
    exec_all(&mut m, &[0x60F0, 0x61F3, 0x8012]);
    assert_eq!(m.v[0], 0xF0);
    exec_all(&mut m, &[0x60FF, 0x610F, 0x8013]);
    assert_eq!(m.v[0], 0xF0);
    exec_all(&mut m, &[0x6100, 0x8010]);
    assert_eq!(m.v[0], 0);
}

#[test]
fn add_immediate_wraps() {
    let mut m = CHIP8::new();
    exec_all(&mut m, &[0x60FF, 0x7002]);
    assert_eq!(m.v[0], 1);
    assert_eq!(m.pc, 0x204);
}

#[test]
fn clear_screen() {
    let mut m = CHIP8::new();
    m.load(vec![0xFF]).unwrap();
    exec_all(&mut m, &[0xA200, 0x6000, 0x6100, 0xD011]);
    assert!(m.gfx.iter().any(|&p| p == 1));
    m.execute_op(0x00E0).unwrap();
    assert!(m.gfx.iter().all(|&p| p == 0));
    assert!(m.redraw_pending());
}

#[test]
fn random_respects_mask() {
    let mut m = CHIP8::new();
    m.execute_op(0xC0F0).unwrap();
    assert_eq!(m.v[0] & 0x0F, 0);
    m.execute_op(0xC100).unwrap();
    assert_eq!(m.v[1], 0);
    assert_eq!(m.pc, 0x204);
}

#[test]
fn jumps() {
    let mut m = CHIP8::new();
    m.execute_op(0x1234).unwrap();
    assert_eq!(m.pc, 0x234);
    exec_all(&mut m, &[0x6010]);
    m.execute_op(0xB234).unwrap();
    assert_eq!(m.pc, 0x244);
}

#[test]
fn conditional_skips() {
    let mut m = CHIP8::new();
    exec_all(&mut m, &[0x6005, 0x6105]);
    m.execute_op(0x3005).unwrap();
    assert_eq!(m.pc, 0x208);
    m.execute_op(0x3006).unwrap();
    assert_eq!(m.pc, 0x20A);
    m.execute_op(0x4005).unwrap();
    assert_eq!(m.pc, 0x20C);
    m.execute_op(0x5010).unwrap();
    assert_eq!(m.pc, 0x210);
    m.execute_op(0x9010).unwrap();
    assert_eq!(m.pc, 0x212);
    m.execute_op(0x6106).unwrap();
    m.execute_op(0x9010).unwrap();
    assert_eq!(m.pc, 0x218);
}

#[test]
fn timer_read_index_add_font() {
    let mut m = CHIP8::new();
    exec_all(&mut m, &[0x6404, 0xF415, 0xF507]);
    assert_eq!(m.v[5], 4);
    exec_all(&mut m, &[0xA005, 0xF41E]);
    assert_eq!(m.i, 9);
    m.execute_op(0xF429).unwrap();
    assert_eq!(m.i, 0x50 + 5 * 4);
}

#[test]
fn store_and_load_registers() {
    let mut m = CHIP8::new();
    exec_all(&mut m, &[0x600A, 0x610B, 0x620C, 0xA400, 0xF255]);
    assert_eq!(m.memory[0x400], 0x0A);
    assert_eq!(m.memory[0x401], 0x0B);
    assert_eq!(m.memory[0x402], 0x0C);
    assert_eq!(m.memory[0x403], 0);
    exec_all(&mut m, &[0x6000, 0x6100, 0x6200, 0x6300, 0xF265]);
    assert_eq!(m.v[0], 0x0A);
    assert_eq!(m.v[1], 0x0B);
    assert_eq!(m.v[2], 0x0C);
    assert_eq!(m.v[3], 0);
}

#[test]
fn reset_restores_initial_state() {
    let mut m = CHIP8::new();
    m.load(vec![0x60, 0x05]).unwrap();
    m.step().unwrap();
    m.execute_op(0x2400).unwrap();
    m.execute_op(0xF318).unwrap();
    m.set_input(2, true);
    m.reset();
    assert_eq!(m.pc, 0x200);
    assert_eq!(m.sp, 0);
    assert_eq!(m.i, 0);
    assert_eq!(m.delay_timer, 0);
    assert_eq!(m.sound_timer, 0);
    assert_eq!(m.wait, KeyWait::Idle);
    assert!(!m.redraw_pending());
    assert!(m.memory.iter().all(|&b| b == 0));
    assert!(m.v.iter().all(|&b| b == 0));
    assert!(m.keys.iter().all(|&k| !k));
}

#[test]
fn update_steps_and_ticks() {
    let mut m = CHIP8::new();
    m.load(vec![0x60, 0x03, 0xF0, 0x15, 0x61, 0x07]).unwrap();
    assert_eq!(m.update(), Ok(false));
    assert_eq!(m.v[0], 3);
    assert_eq!(m.update(), Ok(false));
    assert_eq!(m.delay_timer, 2);
    assert_eq!(m.update(), Ok(false));
    assert_eq!(m.v[1], 7);
    assert_eq!(m.delay_timer, 1);
}

#[test]
fn draw_handshake_clears_flag() {
    let mut m = CHIP8::new();
    assert!(!m.redraw_pending());
    m.load(vec![0x80]).unwrap();
    exec_all(&mut m, &[0xA200, 0xD001]);
    assert!(m.redraw_pending());
    let fb = m.framebuffer().clone();
    assert_eq!(fb[0], 1);
    m.draw();
    assert!(!m.redraw_pending());
    assert_eq!(m.gfx, fb);
}

#[test]
fn metadata_is_a_noop() {
    let mut m = CHIP8::new();
    m.execute_op(0x6042).unwrap();
    m.set_metadata(vec![("speed".to_string(), "fast".to_string())]);
    assert_eq!(m.v[0], 0x42);
    assert_eq!(m.pc, 0x202);
}
