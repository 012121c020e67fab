//! The manager VM of the RK3588 board, and the device tree nodes removed
//! from the board's device tree for it.
use vstd::prelude::*;

use crate::config::{
    all_ids_used_below, emu_dev_is, vm_cfg_add_vm_entry, vm_cfg_set_config_name, vm_id_used,
    EmuDeviceType, PassthroughRegion, VMDtbDevConfigList, VmConfigEntry, VmConfigTable, VmCpuConfig,
    VmEmulatedDeviceConfig, VmEmulatedDeviceConfigList, VmImageConfig, VmMemoryConfig,
    VmPassthroughDeviceConfig, VmRegion, VmType, VM_NUM_MAX,
};
use crate::utils::interval::{
    covers, exclude_each, inside, inside_some, intervals_wf, lemma_within_trans, within, Interval, IntervalExcluder,
};

verus! {

/// The interrupt of the guest's virtual timer.
pub const IRQ_GUEST_TIMER: usize = 27;

/// The device tree nodes removed from the board's device tree, in order: the
/// cores other than the first, the other clusters, the idle states and the
/// memory node.
pub open spec fn removed_fdt_nodes() -> Seq<Seq<char>> {
    seq!["/cpus/cpu-map/cluster0/core1"@, "/cpus/cpu-map/cluster0/core2"@, "/cpus/cpu-map/cluster0/core3"@, "/cpus/cpu@100"@, "/cpus/cpu@200"@, "/cpus/cpu@300"@, "/cpus/cpu-map/cluster1"@, "/cpus/cpu-map/cluster2"@, "/cpus/cpu@400"@, "/cpus/cpu@500"@, "/cpus/cpu@600"@, "/cpus/cpu@700"@, "/cpus/idle-states"@, "/memory"@]
}

/// The device tree nodes to remove from the board's device tree, in order.
pub fn patch_fdt_nodes() -> (r: Vec<&'static str>)
    ensures
        r@.len() == 14,
        forall|i: int| 0 <= i < r@.len() ==> #[trigger] r@[i]@ == removed_fdt_nodes()[i],
{
    let r = vec!["/cpus/cpu-map/cluster0/core1", "/cpus/cpu-map/cluster0/core2", "/cpus/cpu-map/cluster0/core3", "/cpus/cpu@100", "/cpus/cpu@200", "/cpus/cpu@300", "/cpus/cpu-map/cluster1", "/cpus/cpu-map/cluster2", "/cpus/cpu@400", "/cpus/cpu@500", "/cpus/cpu@600", "/cpus/cpu@700", "/cpus/idle-states", "/memory"];
    assert forall|i: int| 0 <= i < r@.len() implies #[trigger] r@[i]@ == removed_fdt_nodes()[i] by {}
    r
}

/// Whether address `x` is handed through to the manager VM from the
/// peripheral window: the window from 0xfb000000 up to 4 GiB, without the GIC
/// distributor, the GIC redistributors, and serial ports 1 to 9.
pub open spec fn rk3588_peripheral(x: int) -> bool {
    &&& 0xfb000000 <= x < 0x1_0000_0000
    &&& !(0xfe600000 <= x < 0xfe610000)
    &&& !(0xfe680000 <= x < 0xfe780000)
    &&& !(0xfeb40000 <= x < 0xfebc0000)
}

/// The peripheral window as the manager VM gets it: the window with the
/// three ranges taken out, one identity-mapped device region per piece left.
pub open spec fn rk3588_window_regions() -> Seq<PassthroughRegion> {
    seq![
        PassthroughRegion { ipa: 0xfb000000, pa: 0xfb000000, length: 0x3600000, dev_property: true },
        PassthroughRegion { ipa: 0xfe610000, pa: 0xfe610000, length: 0x70000, dev_property: true },
        PassthroughRegion { ipa: 0xfe780000, pa: 0xfe780000, length: 0x3c0000, dev_property: true },
        PassthroughRegion { ipa: 0xfebc0000, pa: 0xfebc0000, length: 0x1440000, dev_property: true },
    ]
}

/// Whether one of the regions `rs` holds address `x`.
pub open spec fn regions_cover(rs: Seq<PassthroughRegion>, x: int) -> bool {
    exists|k: int| 0 <= k < rs.len() && #[trigger] rs[k].ipa <= x < rs[k].ipa + rs[k].length
}

/// The regions handed through besides the peripheral window.
pub open spec fn rk3588_fixed_regions() -> Seq<PassthroughRegion> {
    seq![
        PassthroughRegion { ipa: 0xfeb50000, pa: 0xfeb50000, length: 0x100, dev_property: true },
        PassthroughRegion { ipa: 0xfeba0000, pa: 0xfeba0000, length: 0x100, dev_property: true },
        PassthroughRegion { ipa: 0x0, pa: 0x0, length: 0x9400000, dev_property: false },
        PassthroughRegion { ipa: 0xa41000000u64 as usize, pa: 0xa41000000u64 as usize, length: 0x400000, dev_property: true },
        PassthroughRegion { ipa: 0xa40c00000u64 as usize, pa: 0xa40c00000u64 as usize, length: 0x400000, dev_property: true },
        PassthroughRegion { ipa: 0xf4000000, pa: 0xf4000000, length: 0x1000000, dev_property: true },
        PassthroughRegion { ipa: 0xf3000000, pa: 0xf3000000, length: 0x1000000, dev_property: true },
    ]
}

/// Whether `e` is the manager VM's configuration on the RK3588, `hvc_irq`
/// being the interrupt of the hypervisor's service device: its passthrough
/// regions are first the peripheral window (identity-mapped device regions,
/// in increasing order), then the fixed regions.
pub open spec fn is_rk3588_mvm_entry(e: VmConfigEntry, hvc_irq: usize) -> bool {
    let emu = e.vm_emu_dev_confg.emu_dev_list@;
    let rs = e.vm_pt_dev_confg.regions@;
    let n = rs.len() - 7;
    &&& e.name@ == "RK3588"@
    &&& e.os_type == VmType::VmTOs
    &&& e.cmdline@ == "earlycon=uart8250,mmio32,0xfeb50000 console=ttyFIQ,9600n8 irqchip.gicv3_pseudo_nmi=0 root=/dev/mmcblk0p6 rootfstype=ext4 rootwait rw default_hugepagesz=32M hugepagesz=32M hugepages=4"@
    &&& e.image == VmImageConfig {
        kernel_img_name: Some("Linux-5.10"),
        kernel_load_ipa: 0x10080000,
        kernel_load_pa: 0,
        kernel_entry_point: 0x10080000,
        device_tree_load_ipa: 0x10000000,
        ramdisk_load_ipa: 0,
        mediated_block_index: None,
    }
    &&& e.cpu == (VmCpuConfig { num: 1, allocate_bitmap: 0b1, master: 0 })
    &&& e.memory.region@ == seq![VmRegion { ipa_start: 0x09400000, length: 0x76c00000 }]
    &&& emu.len() == 6
    &&& emu_dev_is(emu[0], "interrupt-controller@fe600000"@, 0xfe600000, 0x10000, 25, seq![], EmuDeviceType::EmuDeviceTGicd)
    &&& emu_dev_is(emu[1], "GICR@0xfe680000"@, 0xfe680000, 0x100000, 25, seq![], EmuDeviceType::EmuDeviceTGICR)
    &&& emu_dev_is(emu[2], "virtio_net@f0000000"@, 0xf000_0000, 0x1000, 45, seq![0x74usize, 0x56, 0xaa, 0x0f, 0x47, 0xd0], EmuDeviceType::EmuDeviceTVirtioNet)
    &&& emu_dev_is(emu[3], "virtio_console@f0001000"@, 0xf000_1000, 0x1000, 46, seq![1usize, 0xf0140000], EmuDeviceType::EmuDeviceTVirtioConsole)
    &&& emu_dev_is(emu[4], "virtio_console@f0002000"@, 0xf000_2000, 0x1000, 47, seq![2usize, 0xf001_1000], EmuDeviceType::EmuDeviceTVirtioConsole)
    &&& emu_dev_is(emu[5], "vm_service"@, 0, 0, hvc_irq, seq![], EmuDeviceType::EmuDeviceTShyper)
    &&& rs.len() >= 7
    &&& rs.skip(n) == rk3588_fixed_regions()
    &&& forall|k: int| 0 <= k < n ==> (#[trigger] rs[k]).ipa == rs[k].pa && rs[k].dev_property && rs[k].length > 0
    &&& forall|k1: int, k2: int| 0 <= k1 < k2 < n ==> #[trigger] rs[k1].ipa + rs[k1].length <= #[trigger] rs[k2].ipa
    &&& forall|x: int| regions_cover(rs.take(n), x) == rk3588_peripheral(x)
    &&& rs.take(n) == rk3588_window_regions()
    &&& e.vm_pt_dev_confg.irqs@ == seq![20usize, 23, 26, 27, 30, 105, 118, 119, 120, 121, 122, 123, 124, 125, 126, 127, 128, 129, 130, 131, 132, 133, 134, 135, 136, 140, 141, 142, 143, 144, 146, 145, 147, 148, 149, 150, 151, 153, 154, 155, 156, 157, 158, 159, 160, 161, 162, 179, 180, 187, 188, 192, 193, 199, 201, 203, 204, 212, 217, 235, 237, 247, 248, 250, 251, 252, 254, 265, 266, 275, 276, 277, 278, 279, 280, 281, 282, 283, 284, 285, 321, 347, 349, 351, 352, 353, 355, 356, 359, 360, 365, 370, 384, 423, 424, 425, 429, 430, 455]
    &&& e.vm_pt_dev_confg.streams_ids@.len() == 0
    &&& e.vm_dtb_devs.dtb_device_list@.len() == 0
    &&& e.fdt_overlay@.len() == 0
}

/// The identity-mapped device regions of the peripheral window, in order.
fn peripheral_regions() -> (r: Vec<PassthroughRegion>)
    ensures
        forall|k: int| 0 <= k < r@.len() ==> (#[trigger] r@[k]).ipa == r@[k].pa && r@[k].dev_property && r@[k].length > 0,
        forall|k1: int, k2: int| 0 <= k1 < k2 < r@.len() ==> #[trigger] r@[k1].ipa + r@[k1].length <= #[trigger] r@[k2].ipa,
        forall|x: int| regions_cover(r@, x) == rk3588_peripheral(x),
        r@ == rk3588_window_regions(),
{
    let mut pt = IntervalExcluder::new();
    pt.add_range(0xfb000000, 0x1_0000_0000);
    let ghost start = pt.intervals@;
    pt.exclude_len(0xfe600000, 0x10000);
    let ghost s1 = pt.intervals@;
    pt.exclude_len(0xfe680000, 0x100000);
    let ghost s2 = pt.intervals@;
    pt.exclude_range(0xfeb40000, 0xfebc0000);
    let ghost ivs = pt.intervals@;
    proof {
        reveal_with_fuel(exclude_each, 5);
        let i0 = Interval { left: 0xfb000000, right: 0x1_0000_0000 };
        let a = Interval { left: 0xfb000000, right: 0xfe600000 };
        let b = Interval { left: 0xfe610000, right: 0x1_0000_0000 };
        let b2 = Interval { left: 0xfe610000, right: 0xfe680000 };
        let c = Interval { left: 0xfe780000, right: 0x1_0000_0000 };
        let c2 = Interval { left: 0xfe780000, right: 0xfeb40000 };
        let d = Interval { left: 0xfebc0000, right: 0x1_0000_0000 };
        assert(start =~= seq![i0]);
        assert(seq![i0].drop_last() =~= Seq::<Interval>::empty());
        assert(s1 =~= seq![a, b]);
        assert(seq![a, b].drop_last() =~= seq![a]);
        assert(seq![a].drop_last() =~= Seq::<Interval>::empty());
        assert(s2 =~= seq![a, b2, c]);
        assert(seq![a, b2, c].drop_last() =~= seq![a, b2]);
        assert(seq![a, b2].drop_last() =~= seq![a]);
        assert(ivs =~= seq![a, b2, c2, d]);
        lemma_within_trans(s2, s1, start);
        lemma_within_trans(ivs, s2, start);
        assert forall|x: int| covers(ivs, x) == rk3588_peripheral(x) by {
            if 0xfb000000 <= x < 0x1_0000_0000 {
                assert(start[0].left <= x < start[0].right);
            }
            if covers(start, x) {
                let k = choose|k: int| 0 <= k < start.len() && #[trigger] start[k].left <= x < start[k].right;
                assert(k == 0);
            }
        }
    }
    let mut out: Vec<PassthroughRegion> = Vec::new();
    let mut i: usize = 0;
    while i < pt.intervals.len()
        invariant
            ivs == pt.intervals@,
            intervals_wf(ivs),
            within(ivs, start),
            start == seq![Interval { left: 0xfb000000, right: 0x1_0000_0000 }],
            i <= ivs.len(),
            out@.len() == i,
            forall|k: int| 0 <= k < i ==> (#[trigger] out@[k]).ipa == ivs[k].left && out@[k].pa == ivs[k].left
                && out@[k].length == ivs[k].right - ivs[k].left && out@[k].dev_property,
        decreases ivs.len() - i,
    {
        let iv = pt.intervals[i];
        proof {
            assert(inside_some(ivs[i as int], start));
            let j = choose|j: int| 0 <= j < start.len() && #[trigger] inside(ivs[i as int], start[j]);
            assert(j == 0);
        }
        out.push(PassthroughRegion { ipa: iv.left as usize, pa: iv.left as usize, length: iv.len() as usize, dev_property: true });
        i = i + 1;
    }
    proof {
        assert(out@ =~= rk3588_window_regions());
        assert forall|x: int| regions_cover(out@, x) == covers(ivs, x) by {
            if regions_cover(out@, x) {
                let k = choose|k: int| 0 <= k < out@.len() && #[trigger] out@[k].ipa <= x < out@[k].ipa + out@[k].length;
                assert(ivs[k].left <= x < ivs[k].right);
            }
            if covers(ivs, x) {
                let k = choose|k: int| 0 <= k < ivs.len() && #[trigger] ivs[k].left <= x < ivs[k].right;
                assert(out@[k].ipa <= x < out@[k].ipa + out@[k].length);
            }
        }
        assert forall|k1: int, k2: int| 0 <= k1 < k2 < out@.len() implies #[trigger] out@[k1].ipa + out@[k1].length <= #[trigger] out@[k2].ipa by {
            assert(ivs[k1].right <= ivs[k2].left);
        }
        assert forall|k: int| 0 <= k < out@.len() implies (#[trigger] out@[k]).ipa == out@[k].pa && out@[k].dev_property && out@[k].length > 0 by {
            assert(ivs[k].left < ivs[k].right);
        }
    }
    out
}

/// The manager VM's configuration on the RK3588.
pub fn rk3588_mvm_entry(hvc_irq: usize) -> (e: VmConfigEntry)
    ensures
        is_rk3588_mvm_entry(e, hvc_irq),
        e.id == 0,
{
    let emu_dev_list = vec![
        VmEmulatedDeviceConfig { name: "interrupt-controller@fe600000".to_owned(), base_ipa: crate::board::rk3588::GICD_BASE, length: 0x10000, irq_id: 25, cfg_list: Vec::new(), emu_type: EmuDeviceType::EmuDeviceTGicd, mediated: false },
        VmEmulatedDeviceConfig { name: "GICR@0xfe680000".to_owned(), base_ipa: crate::board::rk3588::GICR_BASE, length: 0x100000, irq_id: 25, cfg_list: Vec::new(), emu_type: EmuDeviceType::EmuDeviceTGICR, mediated: false },
        VmEmulatedDeviceConfig { name: "virtio_net@f0000000".to_owned(), base_ipa: 0xf000_0000, length: 0x1000, irq_id: 45, cfg_list: vec![0x74, 0x56, 0xaa, 0x0f, 0x47, 0xd0], emu_type: EmuDeviceType::EmuDeviceTVirtioNet, mediated: false },
        VmEmulatedDeviceConfig { name: "virtio_console@f0001000".to_owned(), base_ipa: 0xf000_1000, length: 0x1000, irq_id: 46, cfg_list: vec![1, 0xf0140000], emu_type: EmuDeviceType::EmuDeviceTVirtioConsole, mediated: false },
        VmEmulatedDeviceConfig { name: "virtio_console@f0002000".to_owned(), base_ipa: 0xf000_2000, length: 0x1000, irq_id: 47, cfg_list: vec![2, 0xf001_1000], emu_type: EmuDeviceType::EmuDeviceTVirtioConsole, mediated: false },
        VmEmulatedDeviceConfig { name: "vm_service".to_owned(), base_ipa: 0, length: 0, irq_id: hvc_irq, cfg_list: Vec::new(), emu_type: EmuDeviceType::EmuDeviceTShyper, mediated: false },
    ];
    let mut regions = peripheral_regions();
    let ghost window = regions@;
    let mut fixed = vec![
        PassthroughRegion { ipa: 0xfeb50000, pa: 0xfeb50000, length: 0x100, dev_property: true },
        PassthroughRegion { ipa: 0xfeba0000, pa: 0xfeba0000, length: 0x100, dev_property: true },
        PassthroughRegion { ipa: 0x0, pa: 0x0, length: 0x9400000, dev_property: false },
        PassthroughRegion { ipa: 0xa41000000u64 as usize, pa: 0xa41000000u64 as usize, length: 0x400000, dev_property: true },
        PassthroughRegion { ipa: 0xa40c00000u64 as usize, pa: 0xa40c00000u64 as usize, length: 0x400000, dev_property: true },
        PassthroughRegion { ipa: 0xf4000000, pa: 0xf4000000, length: 0x1000000, dev_property: true },
        PassthroughRegion { ipa: 0xf3000000, pa: 0xf3000000, length: 0x1000000, dev_property: true },
    ];
    assert(fixed@ =~= rk3588_fixed_regions());
    regions.append(&mut fixed);
    let irqs: Vec<usize> = vec![20, 23, 26, 27, 30, 105, 118, 119, 120, 121, 122, 123, 124, 125, 126, 127, 128, 129, 130, 131, 132, 133, 134, 135, 136, 140, 141, 142, 143, 144, 146, 145, 147, 148, 149, 150, 151, 153, 154, 155, 156, 157, 158, 159, 160, 161, 162, 179, 180, 187, 188, 192, 193, 199, 201, 203, 204, 212, 217, 235, 237, 247, 248, 250, 251, 252, 254, 265, 266, 275, 276, 277, 278, 279, 280, 281, 282, 283, 284, 285, 321, 347, 349, 351, 352, 353, 355, 356, 359, 360, 365, 370, 384, 423, 424, 425, 429, 430, 455];
    let pt_dev_config = VmPassthroughDeviceConfig { regions, irqs, streams_ids: vec![] };
    let vm_region = vec![VmRegion { ipa_start: 0x09400000, length: 0x76c00000 }];
    let e = VmConfigEntry {
        id: 0,
        name: "RK3588".to_owned(),
        os_type: VmType::VmTOs,
        cmdline: "earlycon=uart8250,mmio32,0xfeb50000 console=ttyFIQ,9600n8 irqchip.gicv3_pseudo_nmi=0 root=/dev/mmcblk0p6 rootfstype=ext4 rootwait rw default_hugepagesz=32M hugepagesz=32M hugepages=4".to_owned(),
        image: VmImageConfig {
            kernel_img_name: Some("Linux-5.10"),
            kernel_load_ipa: 0x10080000,
            kernel_load_pa: 0,
            kernel_entry_point: 0x10080000,
            device_tree_load_ipa: 0x10000000,
            ramdisk_load_ipa: 0,
            mediated_block_index: None,
        },
        memory: VmMemoryConfig { region: vm_region },
        cpu: VmCpuConfig { num: 1, allocate_bitmap: 0b1, master: 0 },
        vm_emu_dev_confg: VmEmulatedDeviceConfigList { emu_dev_list },
        vm_pt_dev_confg: pt_dev_config,
        vm_dtb_devs: VMDtbDevConfigList::default(),
        fdt_overlay: Vec::new(),
    };
    proof {
        let rs = e.vm_pt_dev_confg.regions@;
        let n = rs.len() - 7;
        assert(rs.take(n) =~= window);
        assert(rs.skip(n) =~= rk3588_fixed_regions());
        assert(forall|k: int| 0 <= k < n ==> rs[k] == window[k]);
    }
    assert(e.memory.region@ =~= seq![VmRegion { ipa_start: 0x09400000, length: 0x76c00000 }]);
    assert(e.vm_pt_dev_confg.irqs@ =~= seq![20usize, 23, 26, 27, 30, 105, 118, 119, 120, 121, 122, 123, 124, 125, 126, 127, 128, 129, 130, 131, 132, 133, 134, 135, 136, 140, 141, 142, 143, 144, 146, 145, 147, 148, 149, 150, 151, 153, 154, 155, 156, 157, 158, 159, 160, 161, 162, 179, 180, 187, 188, 192, 193, 199, 201, 203, 204, 212, 217, 235, 237, 247, 248, 250, 251, 252, 254, 265, 266, 275, 276, 277, 278, 279, 280, 281, 282, 283, 284, 285, 321, 347, 349, 351, 352, 353, 355, 356, 359, 360, 365, 370, 384, 423, 424, 425, 429, 430, 455]);
    assert(e.vm_emu_dev_confg.emu_dev_list@[2].cfg_list@ =~= seq![0x74usize, 0x56, 0xaa, 0x0f, 0x47, 0xd0]);
    assert(e.vm_emu_dev_confg.emu_dev_list@[3].cfg_list@ =~= seq![1usize, 0xf0140000]);
    assert(e.vm_emu_dev_confg.emu_dev_list@[4].cfg_list@ =~= seq![2usize, 0xf001_1000]);
    assert(e.vm_emu_dev_confg.emu_dev_list@[0].cfg_list@ =~= seq![]);
    assert(e.vm_emu_dev_confg.emu_dev_list@[1].cfg_list@ =~= seq![]);
    assert(e.vm_emu_dev_confg.emu_dev_list@[5].cfg_list@ =~= seq![]);
    e
}

/// Names the configuration and adds the manager VM to the table under the
/// lowest free id, unless every id is taken.
pub fn mvm_config_init(table: &mut VmConfigTable, hvc_irq: usize)
    requires
        old(table).wf(),
        vm_id_used(old(table).vm_bitmap, 0) || old(table).entries@.len() == 0,
    ensures
        final(table).wf(),
        final(table).name == Some("rk3588-default"),
        all_ids_used_below(old(table).vm_bitmap, VM_NUM_MAX) ==> final(table).entries@ == old(table).entries@,
        !all_ids_used_below(old(table).vm_bitmap, VM_NUM_MAX) ==> {
            &&& final(table).entries@.len() == old(table).entries@.len() + 1
            &&& final(table).entries@.drop_last() == old(table).entries@
            &&& is_rk3588_mvm_entry(final(table).entries@.last(), hvc_irq)
            &&& !vm_id_used(old(table).vm_bitmap, final(table).entries@.last().id)
            &&& all_ids_used_below(old(table).vm_bitmap, final(table).entries@.last().id)
        },
{
    vm_cfg_set_config_name(table, "rk3588-default");
    let e = rk3588_mvm_entry(hvc_irq);
    let r = vm_cfg_add_vm_entry(table, e);
    match r {
        Ok(id) => {
            assert(final(table).entries@.drop_last() =~= old(table).entries@);
        },
        Err(_) => {},
    }
}

} // verus!
