//! A verified CHIP-8 interpreter core.
//!
//! The machine is modelled by the ghost type [`semantics::State`] together
//! with the transition function [`semantics::spec_step`]; the executable
//! interpreter [`machine::Chip8`] is proved to follow that model one
//! instruction at a time.

pub mod bits;
pub mod laws;
pub mod machine;
pub mod semantics;
