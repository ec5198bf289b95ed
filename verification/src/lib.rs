//! An interpreter for an 8-bit virtual machine with sixteen registers, a 4 KiB
//! address space, a 64 by 32 monochrome display, two timers and a 16-key pad.
//!
//! [`C8R`] is the machine. [`C8R::cpu_step`] runs one instruction and answers
//! with an [`Effect`] for the caller to act on, or with the [`Fault`] that ends
//! the run; [`paint`] turns an effect into text for a terminal. The module
//! `state` says, as mathematics, what every operation does, and `laws` what
//! follows from that.

pub mod bits;
pub mod clock;
pub mod decode;
pub mod display;
pub mod effect;
pub mod fault;
pub mod font;
pub mod keys;
pub mod laws;
pub mod machine;
pub mod state;
pub mod terminal;

pub use crate::decode::{decode, n_args, Op};
pub use crate::display::Span;
pub use crate::effect::Effect;
pub use crate::fault::{Fault, RomTooLarge};
pub use crate::keys::{key_index, KEYS};
pub use crate::machine::C8R;
pub use crate::terminal::paint;
