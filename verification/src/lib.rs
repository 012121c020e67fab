//! Verified core of an embedded type-1 hypervisor and of the tools that its
//! manager VM uses to configure guest VMs.
use vstd::prelude::*;

pub mod arch;
pub mod bits;
pub mod board;
pub mod cli;
pub mod config;
pub mod device;
pub mod utils;
