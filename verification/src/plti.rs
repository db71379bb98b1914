//! PLT/GOT interception inside the current process.
//!
//! A call through the procedure linkage table jumps through a slot of the
//! global offset table. Hooking a function replaces the addresses in its slots
//! by that of a callback and keeps what stood there. An image is read from its
//! mapping, so a deleted or memory-backed library can be hooked as well.
//!
//! With `bias = base - p_vaddr` of the segment that holds the ELF header, a
//! virtual address `v` of the image stands at `bias + v` in the process.

pub mod discover;
pub mod hooks;
pub mod stash;
pub mod window;
