//! A CHIP-8 virtual machine core: display bitmap, keypad, processor state and
//! the instruction interpreter, with machine-checked contracts.

pub mod display;
pub mod keypad;
pub mod instruction;
mod entropy;
pub mod machine;
