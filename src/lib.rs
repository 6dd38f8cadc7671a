//! Boot stub library: the PE section reader, the embedded configuration, the
//! kernel image loader, the initrd load-file responder and the boot sequence.
use vstd::prelude::*;

pub mod boot;
pub mod config;
pub mod initrd;
pub mod loader;
pub mod pe;
pub mod status;

verus! {

} // verus!
