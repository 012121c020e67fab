//! The platforms the hypervisor runs on: their CPUs, memory and devices.
pub mod pi4;
pub mod platform_common;
pub mod qemu;
pub mod rk3588;
pub mod tx2;
