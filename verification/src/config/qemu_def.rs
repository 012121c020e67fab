//! The manager VM of the QEMU virt machine (with a GICv3).
use vstd::prelude::*;

use crate::config::{
    all_ids_used_below, emu_dev_is, pt_region_is, vm_cfg_add_vm_entry, vm_cfg_set_config_name,
    vm_id_used, EmuDeviceType, PassthroughRegion, VMDtbDevConfigList, VmConfigEntry, VmConfigTable,
    VmCpuConfig, VmEmulatedDeviceConfig, VmEmulatedDeviceConfigList, VmImageConfig, VmMemoryConfig,
    VmPassthroughDeviceConfig, VmRegion, VmType, VM_NUM_MAX,
};

verus! {

/// Whether `e` is the manager VM's configuration on QEMU, `hvc_irq` being the
/// interrupt of the hypervisor's service device.
pub open spec fn is_qemu_mvm_entry(e: VmConfigEntry, hvc_irq: usize) -> bool {
    let emu = e.vm_emu_dev_confg.emu_dev_list@;
    let pt = e.vm_pt_dev_confg;
    &&& e.name@ == "supervisor"@
    &&& e.os_type == VmType::VmTOs
    &&& e.cmdline@ == "earlycon console=ttyAMA0 root=/dev/vda rw audit=0 default_hugepagesz=32M hugepagesz=32M hugepages=4\0"@
    &&& e.image == VmImageConfig {
        kernel_img_name: Some("Image"),
        kernel_load_ipa: 0x80080000,
        kernel_load_pa: 0,
        kernel_entry_point: 0x80080000,
        device_tree_load_ipa: 0x80000000,
        ramdisk_load_ipa: 0,
        mediated_block_index: None,
    }
    &&& e.cpu == (VmCpuConfig { num: 1, allocate_bitmap: 0b0001, master: 0 })
    &&& e.memory.region@ == seq![VmRegion { ipa_start: 0x50000000, length: 0x80000000 }]
    &&& emu.len() == 5
    &&& emu_dev_is(emu[0], "vgicd"@, 0x08000000, 0x10000, 25, seq![], EmuDeviceType::EmuDeviceTGicd)
    &&& emu_dev_is(emu[1], "vgicr"@, 0x080a0000, 0xf60000, 25, seq![], EmuDeviceType::EmuDeviceTGICR)
    &&& emu_dev_is(emu[2], "virtio-nic0"@, 0xa001000, 0x1000, 0x31, seq![0x74usize, 0x56, 0xaa, 0x0f, 0x47, 0xd0], EmuDeviceType::EmuDeviceTVirtioNet)
    &&& emu_dev_is(emu[3], "virtio_console@a002000"@, 0xa002000, 0x1000, 0x32, seq![1usize, 0xa002000], EmuDeviceType::EmuDeviceTVirtioConsole)
    &&& emu_dev_is(emu[4], "shyper"@, 0, 0, hvc_irq, seq![], EmuDeviceType::EmuDeviceTShyper)
    &&& pt.regions@.len() == 3
    &&& pt_region_is(pt.regions@[0], 0x9000000, 0x9000000, 0x1000, true)
    &&& pt_region_is(pt.regions@[1], 0x8080000, 0x8080000, 0x20000, true)
    &&& pt_region_is(pt.regions@[2], 0x0a003000, 0x0a003000, 0x1000, true)
    &&& pt.irqs@ == seq![33usize, 27, 72, 73, 74, 75, 76, 77, 78, 79]
    &&& pt.streams_ids@.len() == 0
    &&& e.vm_dtb_devs.dtb_device_list@.len() == 0
    &&& e.fdt_overlay@.len() == 0
}

/// The manager VM's configuration on QEMU.
pub fn qemu_mvm_entry(hvc_irq: usize) -> (e: VmConfigEntry)
    ensures
        is_qemu_mvm_entry(e, hvc_irq),
        e.id == 0,
{
    let emu_dev_list = vec![
        VmEmulatedDeviceConfig {
            name: "vgicd".to_owned(),
            base_ipa: crate::board::qemu::GICD_BASE,
            length: 0x10000,
            irq_id: 25,
            cfg_list: Vec::new(),
            emu_type: EmuDeviceType::EmuDeviceTGicd,
            mediated: false,
        },
        VmEmulatedDeviceConfig {
            name: "vgicr".to_owned(),
            base_ipa: crate::board::qemu::GICR_BASE,
            length: 0xf60000,
            irq_id: 25,
            cfg_list: Vec::new(),
            emu_type: EmuDeviceType::EmuDeviceTGICR,
            mediated: false,
        },
        VmEmulatedDeviceConfig {
            name: "virtio-nic0".to_owned(),
            base_ipa: 0xa001000,
            length: 0x1000,
            irq_id: 32 + 0x11,
            cfg_list: vec![0x74, 0x56, 0xaa, 0x0f, 0x47, 0xd0],
            emu_type: EmuDeviceType::EmuDeviceTVirtioNet,
            mediated: false,
        },
        VmEmulatedDeviceConfig {
            name: "virtio_console@a002000".to_owned(),
            base_ipa: 0xa002000,
            length: 0x1000,
            irq_id: 32 + 0x12,
            cfg_list: vec![1, 0xa002000],
            emu_type: EmuDeviceType::EmuDeviceTVirtioConsole,
            mediated: false,
        },
        VmEmulatedDeviceConfig {
            name: "shyper".to_owned(),
            base_ipa: 0,
            length: 0,
            irq_id: hvc_irq,
            cfg_list: Vec::new(),
            emu_type: EmuDeviceType::EmuDeviceTShyper,
            mediated: false,
        },
    ];
    let pt_dev_config = VmPassthroughDeviceConfig {
        regions: vec![
            PassthroughRegion { ipa: crate::board::qemu::UART_0_ADDR, pa: crate::board::qemu::UART_0_ADDR, length: 0x1000, dev_property: true },
            PassthroughRegion { ipa: 0x8080000, pa: 0x8080000, length: 0x20000, dev_property: true },
            PassthroughRegion { ipa: 0x0a003000, pa: 0x0a003000, length: 0x1000, dev_property: true },
        ],
        irqs: vec![33, 27, 72, 73, 74, 75, 76, 77, 78, 79],
        streams_ids: vec![],
    };
    let vm_region = vec![VmRegion { ipa_start: 0x50000000, length: 0x80000000 }];
    let e = VmConfigEntry {
        id: 0,
        name: "supervisor".to_owned(),
        os_type: VmType::VmTOs,
        cmdline: "earlycon console=ttyAMA0 root=/dev/vda rw audit=0 default_hugepagesz=32M hugepagesz=32M hugepages=4\0".to_owned(),
        image: VmImageConfig {
            kernel_img_name: Some("Image"),
            kernel_load_ipa: 0x80080000,
            kernel_load_pa: 0,
            kernel_entry_point: 0x80080000,
            device_tree_load_ipa: 0x80000000,
            ramdisk_load_ipa: 0,
            mediated_block_index: None,
        },
        memory: VmMemoryConfig { region: vm_region },
        cpu: VmCpuConfig { num: 1, allocate_bitmap: 0b0001, master: 0 },
        vm_emu_dev_confg: VmEmulatedDeviceConfigList { emu_dev_list },
        vm_pt_dev_confg: pt_dev_config,
        vm_dtb_devs: VMDtbDevConfigList::default(),
        fdt_overlay: Vec::new(),
    };
    assert(e.memory.region@ =~= seq![VmRegion { ipa_start: 0x50000000, length: 0x80000000 }]);
    assert(e.vm_pt_dev_confg.irqs@ =~= seq![33usize, 27, 72, 73, 74, 75, 76, 77, 78, 79]);
    assert(e.vm_emu_dev_confg.emu_dev_list@[2].cfg_list@ =~= seq![0x74usize, 0x56, 0xaa, 0x0f, 0x47, 0xd0]);
    assert(e.vm_emu_dev_confg.emu_dev_list@[3].cfg_list@ =~= seq![1usize, 0xa002000]);
    assert(e.vm_emu_dev_confg.emu_dev_list@[0].cfg_list@ =~= seq![]);
    assert(e.vm_emu_dev_confg.emu_dev_list@[1].cfg_list@ =~= seq![]);
    assert(e.vm_emu_dev_confg.emu_dev_list@[4].cfg_list@ =~= seq![]);
    e
}

/// Names the configuration and adds the manager VM to the table under the
/// lowest free id, unless every id is taken.
pub fn mvm_config_init(table: &mut VmConfigTable, hvc_irq: usize)
    requires
        old(table).wf(),
        vm_id_used(old(table).vm_bitmap, 0) || old(table).entries@.len() == 0,
    ensures
        final(table).wf(),
        final(table).name == Some("qemu-default"),
        all_ids_used_below(old(table).vm_bitmap, VM_NUM_MAX) ==> final(table).entries@ == old(table).entries@,
        !all_ids_used_below(old(table).vm_bitmap, VM_NUM_MAX) ==> {
            &&& final(table).entries@.len() == old(table).entries@.len() + 1
            &&& final(table).entries@.drop_last() == old(table).entries@
            &&& is_qemu_mvm_entry(final(table).entries@.last(), hvc_irq)
            &&& !vm_id_used(old(table).vm_bitmap, final(table).entries@.last().id)
            &&& all_ids_used_below(old(table).vm_bitmap, final(table).entries@.last().id)
        },
{
    vm_cfg_set_config_name(table, "qemu-default");
    let e = qemu_mvm_entry(hvc_irq);
    let r = vm_cfg_add_vm_entry(table, e);
    match r {
        Ok(id) => {
            assert(final(table).entries@.drop_last() =~= old(table).entries@);
        },
        Err(_) => {},
    }
}

} // verus!
