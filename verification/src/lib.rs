//! A CHIP-8 virtual machine: frame buffer, interpreter and execution scheduler.

pub mod display;
pub mod error;
pub mod font;
pub mod instruction;
pub mod interpreter;
pub mod keypad;
pub mod layout;
pub mod machine;
pub mod scheduler;
pub mod theorems;
pub mod trace;

pub use display::Display;
pub use error::Chip8Error;
pub use instruction::Instruction;
pub use machine::Chip8;
pub use scheduler::{Action, App, Event, Scheduler};
