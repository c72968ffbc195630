//! Lazy-binding symbol resolution for an early-boot dynamic loader, over a
//! byte-addressed model of memory, and the on-disk root descriptor of the
//! PhantomFS object filesystem.
use vstd::prelude::*;

pub mod elf;
pub mod hash;
pub mod memory;
pub mod phantomfs;
pub mod registry;
pub mod resolver;

verus! {

} // verus!
