//! The manager VM of the QEMU RISC-V virt machine.
use vstd::prelude::*;

use crate::config::{
    all_ids_used_below, emu_dev_is, pt_region_is, vm_cfg_add_vm_entry, vm_cfg_set_config_name,
    vm_id_used, EmuDeviceType, PassthroughRegion, VMDtbDevConfigList, VmConfigEntry, VmConfigTable,
    VmCpuConfig, VmEmulatedDeviceConfig, VmEmulatedDeviceConfigList, VmImageConfig, VmMemoryConfig,
    VmPassthroughDeviceConfig, VmRegion, VmType, VM_NUM_MAX,
};

verus! {

/// Whether `e` is the manager VM's configuration on QEMU RISC-V, `hvc_irq`
/// being the interrupt of the hypervisor's service device. Addresses above
/// 4 GiB are written as 64-bit values taken as `usize`.
pub open spec fn is_qemu_riscv64_mvm_entry(e: VmConfigEntry, hvc_irq: usize) -> bool {
    let emu = e.vm_emu_dev_confg.emu_dev_list@;
    let pt = e.vm_pt_dev_confg;
    &&& e.name@ == "supervisor"@
    &&& e.os_type == VmType::VmTOs
    &&& e.cmdline@ == "earlycon=sbi console=ttyS0 root=/dev/vda rw audit=0 default_hugepagesz=2M hugepagesz=2M hugepages=10\0"@
    &&& e.image == VmImageConfig {
        kernel_img_name: Some("Image"),
        kernel_load_ipa: 0x90000000,
        kernel_load_pa: 0,
        kernel_entry_point: 0x90000000,
        device_tree_load_ipa: 0x1_8000_0000u64 as usize,
        ramdisk_load_ipa: 0,
        mediated_block_index: None,
    }
    &&& e.cpu == (VmCpuConfig { num: 1, allocate_bitmap: 0b0001, master: 0 })
    &&& e.memory.region@ == seq![VmRegion { ipa_start: 0x90000000, length: 0x1_0000_0000u64 as usize }]
    &&& emu.len() == 5
    &&& emu_dev_is(emu[0], "plic"@, 0xc000000, 0x600000, 0, seq![], EmuDeviceType::EmuDeviceTPlic)
    &&& emu_dev_is(emu[1], "virtio_console@40001000"@, 0x4000_1000, 0x1000, 46, seq![1usize, 0x40001000], EmuDeviceType::EmuDeviceTVirtioConsole)
    &&& emu_dev_is(emu[2], "virtio_console@40002000"@, 0x4000_2000, 0x1000, 47, seq![2usize, 0x4000_2000], EmuDeviceType::EmuDeviceTVirtioConsole)
    &&& emu_dev_is(emu[3], "virtio_net@40003000"@, 0x40003000, 0x1000, 48, seq![0x74usize, 0x56, 0xaa, 0x0f, 0x47, 0xd0], EmuDeviceType::EmuDeviceTVirtioNet)
    &&& emu_dev_is(emu[4], "shyper"@, 0, 0, hvc_irq, seq![], EmuDeviceType::EmuDeviceTShyper)
    &&& pt.regions@.len() == 10
    &&& forall|k: int| 0 <= k < 8 ==> pt_region_is(#[trigger] pt.regions@[k], (0x10001000 + 0x1000 * k) as usize, (0x10001000 + 0x1000 * k) as usize, 0x1000, true)
    &&& pt_region_is(pt.regions@[8], 0x10000000, 0x10000000, 0x1000, true)
    &&& pt_region_is(pt.regions@[9], 0x101000, 0x101000, 0x1000, true)
    &&& pt.irqs@ == seq![1usize, 2, 3, 4, 5, 6, 7, 8, 9, 10, 11]
    &&& pt.streams_ids@.len() == 0
    &&& e.vm_dtb_devs.dtb_device_list@.len() == 0
    &&& e.fdt_overlay@.len() == 0
}

fn pt_dev(addr: usize) -> (r: PassthroughRegion)
    ensures
        pt_region_is(r, addr, addr, 0x1000, true),
{
    PassthroughRegion { ipa: addr, pa: addr, length: 0x1000, dev_property: true }
}

/// The manager VM's configuration on QEMU RISC-V.
pub fn qemu_riscv64_mvm_entry(hvc_irq: usize) -> (e: VmConfigEntry)
    ensures
        is_qemu_riscv64_mvm_entry(e, hvc_irq),
        e.id == 0,
{
    let emu_dev_list = vec![
        VmEmulatedDeviceConfig {
            name: "plic".to_owned(),
            base_ipa: 0xc000000,
            length: 0x600000,
            irq_id: 0,
            cfg_list: Vec::new(),
            emu_type: EmuDeviceType::EmuDeviceTPlic,
            mediated: false,
        },
        VmEmulatedDeviceConfig {
            name: "virtio_console@40001000".to_owned(),
            base_ipa: 0x4000_1000,
            length: 0x1000,
            irq_id: 46,
            cfg_list: vec![1, 0x40001000],
            emu_type: EmuDeviceType::EmuDeviceTVirtioConsole,
            mediated: false,
        },
        VmEmulatedDeviceConfig {
            name: "virtio_console@40002000".to_owned(),
            base_ipa: 0x4000_2000,
            length: 0x1000,
            irq_id: 47,
            cfg_list: vec![2, 0x4000_2000],
            emu_type: EmuDeviceType::EmuDeviceTVirtioConsole,
            mediated: false,
        },
        VmEmulatedDeviceConfig {
            name: "virtio_net@40003000".to_owned(),
            base_ipa: 0x40003000,
            length: 0x1000,
            irq_id: 48,
            cfg_list: vec![0x74, 0x56, 0xaa, 0x0f, 0x47, 0xd0],
            emu_type: EmuDeviceType::EmuDeviceTVirtioNet,
            mediated: false,
        },
        VmEmulatedDeviceConfig {
            name: "shyper".to_owned(),
            base_ipa: 0,
            length: 0,
            irq_id: hvc_irq,
            cfg_list: Vec::new(),
            emu_type: EmuDeviceType::EmuDeviceTShyper,
            mediated: false,
        },
    ];
    let mut regions: Vec<PassthroughRegion> = Vec::new();
    let mut k: usize = 0;
    while k < 8
        invariant
            k <= 8,
            regions@.len() == k,
            forall|j: int| 0 <= j < k ==> pt_region_is(#[trigger] regions@[j], (0x10001000 + 0x1000 * j) as usize, (0x10001000 + 0x1000 * j) as usize, 0x1000, true),
        decreases 8 - k,
    {
        regions.push(pt_dev(0x10001000 + 0x1000 * k));
        k = k + 1;
    }
    regions.push(pt_dev(0x10000000));
    regions.push(pt_dev(0x101000));
    let pt_dev_config = VmPassthroughDeviceConfig {
        regions,
        irqs: vec![1, 2, 3, 4, 5, 6, 7, 8, 9, 10, 11],
        streams_ids: vec![],
    };
    let vm_region = vec![VmRegion { ipa_start: 0x90000000, length: 0x1_0000_0000u64 as usize }];
    let e = VmConfigEntry {
        id: 0,
        name: "supervisor".to_owned(),
        os_type: VmType::VmTOs,
        cmdline: "earlycon=sbi console=ttyS0 root=/dev/vda rw audit=0 default_hugepagesz=2M hugepagesz=2M hugepages=10\0".to_owned(),
        image: VmImageConfig {
            kernel_img_name: Some("Image"),
            kernel_load_ipa: 0x90000000,
            kernel_load_pa: 0,
            kernel_entry_point: 0x90000000,
            device_tree_load_ipa: 0x1_8000_0000u64 as usize,
            ramdisk_load_ipa: 0,
            mediated_block_index: None,
        },
        memory: VmMemoryConfig { region: vm_region },
        cpu: VmCpuConfig { num: 1, allocate_bitmap: 0b0001, master: 0 },
        vm_emu_dev_confg: VmEmulatedDeviceConfigList { emu_dev_list },
        vm_pt_dev_confg: pt_dev_config,
        vm_dtb_devs: VMDtbDevConfigList::default(),
        fdt_overlay: Vec::new(),
    };
    assert(e.memory.region@ =~= seq![VmRegion { ipa_start: 0x90000000, length: 0x1_0000_0000u64 as usize }]);
    assert(e.vm_pt_dev_confg.irqs@ =~= seq![1usize, 2, 3, 4, 5, 6, 7, 8, 9, 10, 11]);
    assert(e.vm_emu_dev_confg.emu_dev_list@[1].cfg_list@ =~= seq![1usize, 0x40001000]);
    assert(e.vm_emu_dev_confg.emu_dev_list@[2].cfg_list@ =~= seq![2usize, 0x4000_2000]);
    assert(e.vm_emu_dev_confg.emu_dev_list@[3].cfg_list@ =~= seq![0x74usize, 0x56, 0xaa, 0x0f, 0x47, 0xd0]);
    assert(e.vm_emu_dev_confg.emu_dev_list@[0].cfg_list@ =~= seq![]);
    assert(e.vm_emu_dev_confg.emu_dev_list@[4].cfg_list@ =~= seq![]);
    e
}

/// Names the configuration and adds the manager VM to the table under the
/// lowest free id, unless every id is taken.
pub fn mvm_config_init(table: &mut VmConfigTable, hvc_irq: usize)
    requires
        old(table).wf(),
        vm_id_used(old(table).vm_bitmap, 0) || old(table).entries@.len() == 0,
    ensures
        final(table).wf(),
        final(table).name == Some("qemu-default"),
        all_ids_used_below(old(table).vm_bitmap, VM_NUM_MAX) ==> final(table).entries@ == old(table).entries@,
        !all_ids_used_below(old(table).vm_bitmap, VM_NUM_MAX) ==> {
            &&& final(table).entries@.len() == old(table).entries@.len() + 1
            &&& final(table).entries@.drop_last() == old(table).entries@
            &&& is_qemu_riscv64_mvm_entry(final(table).entries@.last(), hvc_irq)
            &&& !vm_id_used(old(table).vm_bitmap, final(table).entries@.last().id)
            &&& all_ids_used_below(old(table).vm_bitmap, final(table).entries@.last().id)
        },
{
    vm_cfg_set_config_name(table, "qemu-default");
    let e = qemu_riscv64_mvm_entry(hvc_irq);
    let r = vm_cfg_add_vm_entry(table, e);
    match r {
        Ok(id) => {
            assert(final(table).entries@.drop_last() =~= old(table).entries@);
        },
        Err(_) => {},
    }
}

} // verus!
