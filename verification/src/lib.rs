//! Verified core of the ReZygisk loader, PLT interceptor and zygote tracer.
use vstd::prelude::*;

pub mod cli;
pub mod csoloader;
pub mod daemon;
pub mod elf;
pub mod loader;
pub mod maps;
pub mod monitor;
pub mod plti;
pub mod procfs;
pub mod regs;
pub mod remote;
pub mod text;
pub mod trace;
pub mod wait;

verus! {

} // verus!
