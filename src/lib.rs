//! A CHIP-8 interpreter core: instruction decoding, the sprite engine, the
//! digit font and the execution engine, with their behaviour stated in
//! contracts.

pub mod error;
pub mod cpu;
pub mod instruction;
pub mod sprites;

pub use error::{CPUError, Error};
pub use instruction::Instruction;
