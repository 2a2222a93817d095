//! A verified CHIP-8 interpreter core: machine state, instruction decoding,
//! and the fetch-decode-execute engine, with the semantics of every opcode
//! stated as contracts over a mathematical model of the machine.

pub mod chip8;
pub mod decode;
pub mod effect;
pub mod exec;
pub mod emulator;
pub mod laws;

pub use chip8::CHIP8;
pub use chip8::Chip8Error;
pub use chip8::KeyWait;
pub use emulator::Emulator;
