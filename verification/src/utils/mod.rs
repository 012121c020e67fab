//! Small data structures the hypervisor shares across its parts.
pub mod interval;
