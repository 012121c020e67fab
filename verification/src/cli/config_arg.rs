//! The argument records of the configuration hypercalls, field for field as
//! the kernel module reads them.
use vstd::prelude::*;

verus! {

/// Adds a VM: its name, type, command line and image load addresses.
#[derive(Clone, Copy, PartialEq, Eq, Structural, Debug)]
pub struct VmAddConfigArg {
    pub vm_name_addr: u64,
    pub vm_name_length: u64,
    pub vm_type: u64,
    pub cmd_line_addr: u64,
    pub cmd_line_length: u64,
    pub kernel_load_ipa: u64,
    pub device_tree_load_ipa: u64,
    pub ramdisk_load_ipa: u64,
    pub vm_id_addr: u64,
}

/// Sets a VM's CPUs.
#[derive(Clone, Copy, PartialEq, Eq, Structural, Debug)]
pub struct VmSetCpuConfigArg {
    pub vmid: u64,
    pub num: u32,
    pub allocate_bitmap: u32,
    pub master: i32,
}

/// Sets a VM's cache colors and memory budget.
#[derive(Clone, Copy, PartialEq, Eq, Structural, Debug)]
pub struct VmMemoryColorBudgetConfigArg {
    pub vmid: u64,
    pub color_num: u64,
    pub color_array_addr: u64,
    pub budget: u32,
}

/// Adds an emulated device to a VM.
#[derive(Clone, Copy, PartialEq, Eq, Structural, Debug)]
pub struct VmAddEmulatedDeviceConfigArg {
    pub vmid: u64,
    pub dev_name_addr: u64,
    pub dev_name_length: u64,
    pub base_ipa: u64,
    pub length: u64,
    pub irq_id: u64,
    pub cfg_list_addr: u64,
    pub cfg_list_length: u64,
    pub emu_type: u64,
}

/// Adds a memory region to a VM.
#[derive(Clone, Copy, PartialEq, Eq, Structural, Debug)]
pub struct VmAddMemoryRegionConfigArg {
    pub vmid: u64,
    pub ipa_start: u64,
    pub length: u64,
}

/// Adds a passthrough device region to a VM.
#[derive(Clone, Copy, PartialEq, Eq, Structural, Debug)]
pub struct VmAddPassthroughDeviceRegionConfigArg {
    pub vmid: u64,
    pub base_ipa: u64,
    pub base_pa: u64,
    pub length: u64,
}

/// Adds passthrough interrupts to a VM.
#[derive(Clone, Copy, PartialEq, Eq, Structural, Debug)]
pub struct VmAddPassthroughDeviceIrqsConfigArg {
    pub vmid: u64,
    pub irqs_addr: u64,
    pub irqs_length: u64,
}

/// Adds passthrough SMMU stream ids to a VM.
#[derive(Clone, Copy, PartialEq, Eq, Structural, Debug)]
pub struct VmAddPassthroughDeviceStreamsIdsConfigArg {
    pub vmid: u64,
    pub streams_ids_addr: u64,
    pub streams_ids_length: u64,
}

/// Adds a device tree device to a VM.
#[derive(Clone, Copy, PartialEq, Eq, Structural, Debug)]
pub struct VmAddDtbDeviceConfigArg {
    pub vmid: u64,
    pub dev_name_addr: u64,
    pub dev_name_length: u64,
    pub dev_type: u64,
    pub irq_list_addr: u64,
    pub irq_list_length: u64,
    pub addr_region_ipa: u64,
}

/// Uploads one piece of a file (kernel image or device tree) to a VM.
#[derive(Clone, Copy, PartialEq, Eq, Structural, Debug)]
pub struct VmLoadKernelImgFileArg {
    pub vmid: u64,
    pub img_size: u64,
    pub cache_ipa: u64,
    pub load_offset: u64,
    pub load_size: u64,
}

/// Names the kernel image file of a VM, as a NUL-terminated C string.
#[derive(Clone, Copy, Debug)]
pub struct VmKernelImageInfo {
    pub vm_id: u64,
    pub image_name: [u8; 32],
}

} // verus!
