//! The capability interface an emulator core offers the host adapter: one
//! operation set the host can be written against once. The contract itself
//! carries no machine semantics beyond invariant preservation; the CHIP-8
//! core's exact behaviour lives in the contracts of its inherent methods.

use vstd::prelude::*;
use crate::chip8::{CHIP8, Chip8Error};

verus! {

/// Standard calling interface across emulator implementations.
pub trait Emulator: Sized {
    /// The implementation's structural invariant, established by `e_new`
    /// and preserved by every operation.
    spec fn inv(&self) -> bool;

    /// Initialize a new emulator.
    fn e_new() -> (m: Self)
        ensures
            m.inv(),
    ;

    /// Load an arbitrary binary image.
    fn e_load(&mut self, data: Vec<u8>) -> (r: Result<(), Chip8Error>)
        requires
            old(self).inv(),
        ensures
            final(self).inv(),
    ;

    /// Execute one opcode; the largest accepted is a 64-bit command.
    fn e_execute_op(&mut self, opcode: u64) -> (r: Result<(), Chip8Error>)
        requires
            old(self).inv(),
        ensures
            final(self).inv(),
    ;

    /// One pass of the update loop.
    fn e_update(&mut self) -> (r: Result<bool, Chip8Error>)
        requires
            old(self).inv(),
        ensures
            final(self).inv(),
    ;

    /// Arbitrarily set properties/metadata for the emulator.
    fn e_set_metadata(&mut self, metadata: Vec<(String, String)>)
        requires
            old(self).inv(),
        ensures
            final(self).inv(),
    ;

    /// Draw-loop handshake with the host.
    fn e_draw(&mut self)
        requires
            old(self).inv(),
        ensures
            final(self).inv(),
    ;

    /// Record one key press or release.
    fn e_set_input(&mut self, key: u8, pressed: bool)
        requires
            old(self).inv(),
            key < 16,
        ensures
            final(self).inv(),
    ;

    /// Reset the state of the emulator.
    fn e_reset(&mut self)
        requires
            old(self).inv(),
        ensures
            final(self).inv(),
    ;
}

impl Emulator for CHIP8 {
    open spec fn inv(&self) -> bool {
        self.wf()
    }

    fn e_new() -> (m: Self) {
        CHIP8::new()
    }

    fn e_load(&mut self, data: Vec<u8>) -> (r: Result<(), Chip8Error>) {
        self.load(data)
    }

    fn e_execute_op(&mut self, opcode: u64) -> (r: Result<(), Chip8Error>) {
        proof {
            assert(opcode & 0xFFFF < 0x10000) by (bit_vector);
        }
        self.execute_op((opcode & 0xFFFF) as u16)
    }

    fn e_update(&mut self) -> (r: Result<bool, Chip8Error>) {
        self.update()
    }

    fn e_set_metadata(&mut self, metadata: Vec<(String, String)>) {
        self.set_metadata(metadata)
    }

    fn e_draw(&mut self) {
        self.draw()
    }

    fn e_set_input(&mut self, key: u8, pressed: bool) {
        self.set_input(key, pressed)
    }

    fn e_reset(&mut self) {
        self.reset()
    }
}

} // verus!
