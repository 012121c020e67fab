//! The manager VM's command-line tool: hypercall numbering, the VM
//! configuration file format, and the requests built from it.
pub mod config;
pub mod config_arg;
pub mod daemon;
pub mod ioctl_arg;
pub mod util;
pub mod vmm;
