//! A simulator for the LC-3 educational computer: instruction decoding and
//! encoding, the instruction semantics, interchangeable machine backends and
//! the harnesses that drive them.

pub mod defs;
pub mod util;
pub mod instruction;
pub mod codec_laws;
pub mod machine;
pub mod execute;
pub mod core_lc3;
pub mod instruction_mem;
pub mod cached_resolve;
pub mod loader;
pub mod harness;
pub mod laws;
