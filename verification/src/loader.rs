//! The library that lives in the zygote: the state that its hooks share, and
//! what they decide.
use vstd::prelude::*;

pub mod abi;
pub mod art_method;
pub mod context;
pub mod cpp_strings;
pub mod fds;
pub mod hooks;
pub mod ifunc_shim;
pub mod jni;
pub mod misc;
pub mod modules;
pub mod plt_commit;
pub mod seccomp;
pub mod specialize;

verus! {

} // verus!
