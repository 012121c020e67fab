use shyper::config::{
    vm_cfg_add_dtb_dev, vm_cfg_add_emu_dev, vm_cfg_add_mem_region, vm_cfg_add_passthrough_device_irqs,
    vm_cfg_add_passthrough_device_region, vm_cfg_add_passthrough_device_streams_ids, vm_cfg_add_vm,
    vm_cfg_add_vm_entry, vm_cfg_del_vm, vm_cfg_entry, vm_cfg_finish_configuration, vm_cfg_remove_vm_entry,
    vm_cfg_set_config_name, vm_cfg_set_cpu, vm_id_list, vm_num, vm_type, VmConfigEntry, VmConfigTable, VmCpuConfig,
    VmType,
};

fn table_with_two() -> VmConfigTable {
    let mut t = VmConfigTable::new();
    let mvm = VmConfigEntry::new(String::from("mvm"), String::from("console=ttyS0"), 0, 0x4008_0000, 0x4000_0000, 0);
    assert_eq!(vm_cfg_add_vm_entry(&mut t, mvm), Ok(0));
    assert_eq!(
        vm_cfg_add_vm(&mut t, Some(String::from("guest")), Some(String::from("quiet")), 1, 0x8008_0000, 0x8000_0000, 0),
        Ok(1)
    );
    t
}

#[test]
fn ids_are_handed_out_lowest_first() {
    let t = table_with_two();
    assert_eq!(vm_num(&t), 2);
    assert_eq!(vm_id_list(&t), vec![0, 1]);
    assert!(vm_type(&t, 1) == VmType::VmTBma);
    assert!(vm_type(&t, 0) == VmType::VmTOs);
    // an unknown VM reads as an OS guest
    assert!(vm_type(&t, 9) == VmType::VmTOs);
    assert_eq!(vm_cfg_entry(&t, 1).unwrap().vm_name(), "guest");
    assert!(vm_cfg_entry(&t, 5).is_none());
}

#[test]
fn deleted_id_is_reused() {
    let mut t = table_with_two();
    assert_eq!(vm_cfg_add_vm(&mut t, Some(String::from("g2")), Some(String::new()), 0, 0, 0, 0), Ok(2));
    assert_eq!(vm_cfg_del_vm(&mut t, 1), (Ok(0), None));
    assert_eq!(vm_id_list(&t), vec![0, 2]);
    assert_eq!(vm_cfg_add_vm(&mut t, Some(String::from("g3")), Some(String::new()), 0, 0, 0, 0), Ok(1));
    assert_eq!(vm_id_list(&t), vec![0, 2, 1]);
    // deleting an unknown VM changes nothing
    assert_eq!(vm_cfg_del_vm(&mut t, 7), (Ok(0), None));
    assert_eq!(vm_num(&t), 3);
}

#[test]
fn table_is_full_at_sixteen() {
    let mut t = VmConfigTable::new();
    for i in 0..16 {
        assert_eq!(vm_cfg_add_vm(&mut t, Some(String::from("vm")), Some(String::new()), 0, 0, 0, 0), Ok(i));
    }
    assert_eq!(vm_cfg_add_vm(&mut t, Some(String::from("vm")), Some(String::new()), 0, 0, 0, 0), Err(()));
    assert_eq!(vm_num(&t), 16);
}

#[test]
fn remove_entry_gives_mediated_index() {
    let mut t = table_with_two();
    let k = t.find_vm_entry(1).unwrap();
    t.entries[k].set_mediated_block_index(3);
    assert_eq!(vm_cfg_remove_vm_entry(&mut t, 1), Some(3));
    assert_eq!(vm_cfg_remove_vm_entry(&mut t, 1), None);
    assert_eq!(t.find_vm_entry(1), None);
}

#[test]
fn memory_and_cpu_configuration() {
    let mut t = table_with_two();
    assert_eq!(vm_cfg_add_mem_region(&mut t, 1, 0x8000_0000, 0x1000_0000), Ok(0));
    assert_eq!(vm_cfg_add_mem_region(&mut t, 4, 0x8000_0000, 0x1000_0000), Err(()));
    let e = vm_cfg_entry(&t, 1).unwrap();
    assert_eq!(e.memory_region().len(), 1);
    assert_eq!(e.memory_region()[0].ipa_start, 0x8000_0000);
    assert_eq!(e.memory_region()[0].length, 0x1000_0000);
    // two CPUs asked for out of three offered: the two lowest bits are kept
    assert_eq!(vm_cfg_set_cpu(&mut t, 1, 2, 0b1101, 0), Ok(0));
    let e = vm_cfg_entry(&t, 1).unwrap();
    assert_eq!(e.cpu_num(), 2);
    assert_eq!(e.cpu_allocated_bitmap(), 0b0101);
    assert_eq!(e.cpu_master(), 0);
    // more CPUs asked for than offered: the count drops to what is offered
    assert_eq!(vm_cfg_set_cpu(&mut t, 1, 4, 0b0110, 1), Ok(0));
    let e = vm_cfg_entry(&t, 1).unwrap();
    assert_eq!(e.cpu_num(), 2);
    assert_eq!(e.cpu_allocated_bitmap(), 0b0110);
    assert_eq!(e.cpu_master(), 1);
}

#[test]
fn cpu_config_constructor() {
    let c = VmCpuConfig::new(1, 0b1100, 3);
    assert_eq!(c.num, 1);
    assert_eq!(c.allocate_bitmap, 0b0100);
    assert_eq!(c.master, 3);
}

#[test]
fn passthrough_configuration() {
    let mut t = table_with_two();
    assert_eq!(vm_cfg_add_passthrough_device_region(&mut t, 1, 0x900_0000, 0x900_0000, 0x1000), Ok(0));
    assert_eq!(vm_cfg_add_passthrough_device_irqs(&mut t, 1, Some(vec![33, 34])), Ok(0));
    assert_eq!(vm_cfg_add_passthrough_device_streams_ids(&mut t, 1, Some(vec![5])), Ok(0));
    assert_eq!(vm_cfg_add_passthrough_device_irqs(&mut t, 8, Some(vec![1])), Err(()));
    assert_eq!(vm_cfg_add_passthrough_device_irqs(&mut t, 1, None), Err(()));
    assert_eq!(vm_cfg_add_passthrough_device_streams_ids(&mut t, 1, None), Err(()));
    let e = vm_cfg_entry(&t, 1).unwrap();
    let regions = e.passthrough_device_regions();
    assert_eq!(regions.len(), 1);
    assert_eq!(regions[0].ipa, 0x900_0000);
    assert_eq!(regions[0].length, 0x1000);
    assert!(regions[0].dev_property);
    assert_eq!(e.passthrough_device_irqs(), vec![33, 34]);
    assert_eq!(e.passthrough_device_stread_ids(), vec![5]);
}

#[test]
fn emulated_and_dtb_devices() {
    let mut t = table_with_two();
    assert_eq!(
        vm_cfg_add_emu_dev(&mut t, 1, Some(String::from("gicd")), 0x800_0000, 0x1_0000, 0, Some(vec![]), 1, None),
        Ok(0)
    );
    assert_eq!(vm_cfg_add_dtb_dev(&mut t, 1, Some(String::from("gicd")), 1, Some(vec![]), 0x800_0000, 0x1_0000), Ok(0));
    assert_eq!(vm_cfg_add_dtb_dev(&mut t, 1, None, 1, Some(vec![]), 0x800_0000, 0x1_0000), Err(()));
    let e = vm_cfg_entry(&t, 1).unwrap();
    assert_eq!(e.emulated_device_list().len(), 1);
    assert_eq!(e.emulated_device_list()[0].base_ipa, 0x800_0000);
    assert_eq!(e.dtb_device_list().len(), 1);
    assert_eq!(e.gicd_addr(), 0x800_0000);
    assert_eq!(e.gicc_addr(), 0);
}

#[test]
fn config_name() {
    let mut t = table_with_two();
    vm_cfg_set_config_name(&mut t, "board");
    assert_eq!(t.name, Some("board"));
    assert_eq!(vm_num(&t), 2);
}

#[test]
fn kernel_load_address_from_region() {
    let mut e = VmConfigEntry::new(String::from("g"), String::new(), 0, 0x8008_0000, 0x8000_0000, 0);
    e.add_memory_cfg(0x4000_0000, 0x1000_0000);
    e.add_memory_cfg(0x8000_0000, 0x1000_0000);
    vm_cfg_finish_configuration(&mut e, &vec![0x1_0000_0000, 0x2_0000_0000], 0x10_0000);
    assert_eq!(e.kernel_load_pa(), 0x2_0008_0000);
}

#[test]
fn kernel_load_address_without_region() {
    let mut e = VmConfigEntry::new(String::from("g"), String::new(), 0, 0x8008_0000, 0x8000_0000, 0);
    e.add_memory_cfg(0x4000_0000, 0x1000_0000);
    vm_cfg_finish_configuration(&mut e, &vec![0x1_0000_0000], 0x10_0000);
    assert_eq!(e.kernel_load_pa(), 0);
}

#[test]
fn entry_accessors() {
    let mut e = VmConfigEntry::new(String::from("g"), String::from("c"), 1, 0x10, 0x20, 0x30);
    assert_eq!(e.id(), 0);
    e.set_id(4);
    assert_eq!(e.id(), 4);
    assert_eq!(e.kernel_load_ipa(), 0x10);
    assert_eq!(e.device_tree_load_ipa(), 0x20);
    assert_eq!(e.ramdisk_load_ipa(), 0x30);
    assert_eq!(e.mediated_block_index(), None);
    e.set_kernel_load_pa(0x99);
    assert_eq!(e.kernel_load_pa(), 0x99);
}

#[test]
fn guest_copies_that_do_not_translate_fail() {
    let mut t = table_with_two();
    let before = vm_id_list(&t);
    assert_eq!(vm_cfg_add_vm(&mut t, None, Some(String::new()), 0, 0, 0, 0), Err(()));
    assert_eq!(vm_cfg_add_vm(&mut t, Some(String::from("g")), None, 0, 0, 0, 0), Err(()));
    assert_eq!(vm_id_list(&t), before);
    assert_eq!(vm_cfg_add_emu_dev(&mut t, 1, None, 0x800_0000, 0x1_0000, 0, Some(vec![]), 1, None), Err(()));
    assert_eq!(vm_cfg_add_emu_dev(&mut t, 1, Some(String::from("d")), 0x800_0000, 0x1_0000, 0, None, 1, None), Err(()));
    assert_eq!(vm_cfg_entry(&t, 1).unwrap().emulated_device_list().len(), 0);
}

#[test]
fn rk3588_peripheral_window_pieces() {
    let e = shyper::config::rk3588_def::rk3588_mvm_entry(32);
    let rs = &e.vm_pt_dev_confg.regions;
    assert_eq!(rs.len(), 11);
    let pieces: Vec<(usize, usize)> = rs[..4].iter().map(|r| (r.ipa, r.length)).collect();
    assert_eq!(pieces, vec![(0xfb000000, 0x3600000), (0xfe610000, 0x70000), (0xfe780000, 0x3c0000), (0xfebc0000, 0x1440000)]);
    assert!(rs[..4].iter().all(|r| r.ipa == r.pa && r.dev_property));
}

#[test]
fn vm_num_follows_adds_and_removes() {
    let mut t = VmConfigTable::new();
    let mvm = VmConfigEntry::new(String::from("mvm"), String::new(), 0, 0, 0, 0);
    assert_eq!(vm_cfg_add_vm_entry(&mut t, mvm), Ok(0));
    assert_eq!(vm_cfg_add_vm(&mut t, Some(String::from("a")), Some(String::new()), 0, 0, 0, 0), Ok(1));
    assert_eq!(vm_num(&t), 2);
    vm_cfg_remove_vm_entry(&mut t, 1);
    assert_eq!(vm_num(&t), 1);
    vm_cfg_remove_vm_entry(&mut t, 7);
    assert_eq!(vm_num(&t), 1);
}
