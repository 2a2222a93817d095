//! Tests of the emulator capability interface: the trait drives the CHIP-8
//! core exactly as the inherent operations do.

use chip8_core::{Emulator, CHIP8};

#[test]
fn trait_drives_the_core() {
    let mut m: CHIP8 = <CHIP8 as Emulator>::e_new();
    <CHIP8 as Emulator>::e_load(&mut m, vec![0x60, 0x2A]).unwrap();
    <CHIP8 as Emulator>::e_update(&mut m).unwrap();
    assert_eq!(m.v[0], 0x2A);
    <CHIP8 as Emulator>::e_set_input(&mut m, 4, true);
    assert!(m.keys[4]);
    <CHIP8 as Emulator>::e_execute_op(&mut m, 0x6105).unwrap();
    assert_eq!(m.v[1], 5);
    <CHIP8 as Emulator>::e_draw(&mut m);
    <CHIP8 as Emulator>::e_set_metadata(&mut m, vec![]);
    <CHIP8 as Emulator>::e_reset(&mut m);
    assert_eq!(m.pc, 0x200);
    assert_eq!(m.v[1], 0);
}

#[test]
fn execute_op_takes_the_low_word() {
    let mut m: CHIP8 = <CHIP8 as Emulator>::e_new();
    <CHIP8 as Emulator>::e_execute_op(&mut m, 0xFFFF_0000_6207).unwrap();
    assert_eq!(m.v[2], 7);
}
