//! Configuration of the virtual machines that the hypervisor runs.
//!
//! The table of VM configurations hands out VM ids from a 16-bit bitmap,
//! keeps one entry per configured VM, and lets the manager VM fill in the
//! memory regions, CPUs and devices of a VM before it is booted.
use vstd::prelude::*;

use crate::bits::{bit16_is_set, lemma_bit16_clear, lemma_bit16_set, lemma_bit16_test};

pub mod qemu_def;
pub mod qemu_riscv64_def;
pub mod rk3588_def;

verus! {

/// The maximum length of a VM name.
pub const NAME_MAX_LEN: usize = 32;

/// The number of VM ids the configuration table can hand out.
pub const VM_NUM_MAX: usize = 16;

/// The kind of guest a VM runs.
#[derive(Clone, Copy, PartialEq, Eq, Structural)]
pub enum VmType {
    VmTOs,
    VmTBma,
}

impl VmType {
    /// Convert a `usize` value to a `VmType`; only 0 and 1 name a type.
    pub fn from_usize(value: usize) -> (t: VmType)
        requires
            value < 2,
        ensures
            value == 0 ==> t == VmType::VmTOs,
            value == 1 ==> t == VmType::VmTBma,
    {
        if value == 0 {
            VmType::VmTOs
        } else {
            VmType::VmTBma
        }
    }
}

/// The kinds of device that the hypervisor emulates for a VM.
#[derive(Clone, Copy, PartialEq, Eq, Structural)]
pub enum EmuDeviceType {
    EmuDeviceTConsole,
    EmuDeviceTGicd,
    EmuDeviceTGPPT,
    EmuDeviceTVirtioBlk,
    EmuDeviceTVirtioNet,
    EmuDeviceTVirtioConsole,
    EmuDeviceTShyper,
    EmuDeviceTVirtioBlkMediated,
    EmuDeviceTIOMMU,
    EmuDeviceTICCSRE,
    EmuDeviceTSGIR,
    EmuDeviceTGICR,
    EmuDeviceTMeta,
    EmuDeviceTPlic,
}

/// The device type that a number names, in the order the manager's tools number them.
pub open spec fn emu_device_type_of(value: nat) -> EmuDeviceType {
    if value == 0 {
        EmuDeviceType::EmuDeviceTConsole
    } else if value == 1 {
        EmuDeviceType::EmuDeviceTGicd
    } else if value == 2 {
        EmuDeviceType::EmuDeviceTGPPT
    } else if value == 3 {
        EmuDeviceType::EmuDeviceTVirtioBlk
    } else if value == 4 {
        EmuDeviceType::EmuDeviceTVirtioNet
    } else if value == 5 {
        EmuDeviceType::EmuDeviceTVirtioConsole
    } else if value == 6 {
        EmuDeviceType::EmuDeviceTShyper
    } else if value == 7 {
        EmuDeviceType::EmuDeviceTVirtioBlkMediated
    } else if value == 8 {
        EmuDeviceType::EmuDeviceTIOMMU
    } else if value == 9 {
        EmuDeviceType::EmuDeviceTICCSRE
    } else if value == 10 {
        EmuDeviceType::EmuDeviceTSGIR
    } else if value == 11 {
        EmuDeviceType::EmuDeviceTGICR
    } else if value == 12 {
        EmuDeviceType::EmuDeviceTMeta
    } else {
        EmuDeviceType::EmuDeviceTPlic
    }
}

/// Whether the manager's device type `m` and the hypervisor's `h` are the
/// same kind of device.
pub open spec fn same_device_kind(m: crate::cli::config::EmuDeviceType, h: EmuDeviceType) -> bool {
    match m {
        crate::cli::config::EmuDeviceType::EMU_DEVICE_T_CONSOLE => h is EmuDeviceTConsole,
        crate::cli::config::EmuDeviceType::EMU_DEVICE_T_GICD => h is EmuDeviceTGicd,
        crate::cli::config::EmuDeviceType::EMU_DEVICE_T_GPPT => h is EmuDeviceTGPPT,
        crate::cli::config::EmuDeviceType::EMU_DEVICE_T_VIRTIO_BLK => h is EmuDeviceTVirtioBlk,
        crate::cli::config::EmuDeviceType::EMU_DEVICE_T_VIRTIO_NET => h is EmuDeviceTVirtioNet,
        crate::cli::config::EmuDeviceType::EMU_DEVICE_T_VIRTIO_CONSOLE => h is EmuDeviceTVirtioConsole,
        crate::cli::config::EmuDeviceType::EMU_DEVICE_T_SHYPER => h is EmuDeviceTShyper,
        crate::cli::config::EmuDeviceType::EMU_DEVICE_T_VIRTIO_BLK_MEDIATED => h is EmuDeviceTVirtioBlkMediated,
        crate::cli::config::EmuDeviceType::EMU_DEVICE_T_IOMMU => h is EmuDeviceTIOMMU,
        crate::cli::config::EmuDeviceType::EMU_DEVICE_T_SRE => h is EmuDeviceTICCSRE,
        crate::cli::config::EmuDeviceType::EMU_DEVICE_T_SGIR => h is EmuDeviceTSGIR,
        crate::cli::config::EmuDeviceType::EMU_DEVICE_T_GICR => h is EmuDeviceTGICR,
        crate::cli::config::EmuDeviceType::EMU_DEVICE_T_META => h is EmuDeviceTMeta,
        crate::cli::config::EmuDeviceType::EMU_DEVICE_T_PLIC => h is EmuDeviceTPlic,
    }
}

/// The hypervisor reads a device type number as the manager wrote it: the
/// number the manager sends for any of its device types decodes to the
/// hypervisor's type of the same kind, and distinct numbers name distinct
/// types.
pub proof fn law_emu_device_type_decodes_manager_code(m: crate::cli::config::EmuDeviceType, a: nat, b: nat)
    ensures
        crate::cli::config::emu_device_type_code(m) < 14,
        same_device_kind(m, emu_device_type_of(crate::cli::config::emu_device_type_code(m) as nat)),
        a < 14 && b < 14 && a != b ==> emu_device_type_of(a) != emu_device_type_of(b),
{
}

impl EmuDeviceType {
    /// Convert a `usize` value to an `EmuDeviceType`; values from 0 to 13 name a type.
    pub fn from_usize(value: usize) -> (t: EmuDeviceType)
        requires
            value < 14,
        ensures
            t == emu_device_type_of(value as nat),
    {
        match value {
            0 => EmuDeviceType::EmuDeviceTConsole,
            1 => EmuDeviceType::EmuDeviceTGicd,
            2 => EmuDeviceType::EmuDeviceTGPPT,
            3 => EmuDeviceType::EmuDeviceTVirtioBlk,
            4 => EmuDeviceType::EmuDeviceTVirtioNet,
            5 => EmuDeviceType::EmuDeviceTVirtioConsole,
            6 => EmuDeviceType::EmuDeviceTShyper,
            7 => EmuDeviceType::EmuDeviceTVirtioBlkMediated,
            8 => EmuDeviceType::EmuDeviceTIOMMU,
            9 => EmuDeviceType::EmuDeviceTICCSRE,
            10 => EmuDeviceType::EmuDeviceTSGIR,
            11 => EmuDeviceType::EmuDeviceTGICR,
            12 => EmuDeviceType::EmuDeviceTMeta,
            _ => EmuDeviceType::EmuDeviceTPlic,
        }
    }
}

/// Represents the type of a device in the device tree.
#[derive(Clone, Copy, PartialEq, Eq, Structural)]
pub enum DtbDevType {
    DevSerial,
    DevGicd,
    DevGicc,
    DevGicr,
}

impl DtbDevType {
    /// Convert a `usize` value to a `DtbDevType`; values from 0 to 3 name a type.
    pub fn from_usize(value: usize) -> (t: DtbDevType)
        requires
            value < 4,
        ensures
            value == 0 ==> t == DtbDevType::DevSerial,
            value == 1 ==> t == DtbDevType::DevGicd,
            value == 2 ==> t == DtbDevType::DevGicc,
            value == 3 ==> t == DtbDevType::DevGicr,
    {
        match value {
            0 => DtbDevType::DevSerial,
            1 => DtbDevType::DevGicd,
            2 => DtbDevType::DevGicc,
            _ => DtbDevType::DevGicr,
        }
    }
}

/// Represents the configuration of an emulated device for a virtual machine.
pub struct VmEmulatedDeviceConfig {
    /// The name of the emulated device.
    pub name: String,
    /// The base IPA (Intermediate Physical Address) of the device.
    pub base_ipa: usize,
    /// The length of the device.
    pub length: usize,
    /// The IRQ (Interrupt Request) ID of the device.
    pub irq_id: usize,
    /// List of configuration values for the device.
    pub cfg_list: Vec<usize>,
    /// The type of emulated device.
    pub emu_type: EmuDeviceType,
    /// Indicates whether the device is mediated.
    pub mediated: bool,
}

/// Represents a list of emulated device configurations for a virtual machine.
pub struct VmEmulatedDeviceConfigList {
    /// List of emulated device configurations.
    pub emu_dev_list: Vec<VmEmulatedDeviceConfig>,
}

impl VmEmulatedDeviceConfigList {
    /// Creates a new, empty list of emulated device configurations.
    pub fn default() -> (l: VmEmulatedDeviceConfigList)
        ensures
            l.emu_dev_list@.len() == 0,
    {
        VmEmulatedDeviceConfigList { emu_dev_list: Vec::new() }
    }
}

/// Whether `d` is the emulated device with these fields, not mediated.
pub open spec fn emu_dev_is(
    d: VmEmulatedDeviceConfig,
    name: Seq<char>,
    base_ipa: usize,
    length: usize,
    irq_id: usize,
    cfg_list: Seq<usize>,
    emu_type: EmuDeviceType,
) -> bool {
    &&& d.name@ == name
    &&& d.base_ipa == base_ipa
    &&& d.length == length
    &&& d.irq_id == irq_id
    &&& d.cfg_list@ == cfg_list
    &&& d.emu_type == emu_type
    &&& !d.mediated
}

/// Whether `r` is the passthrough region with these fields.
pub open spec fn pt_region_is(r: PassthroughRegion, ipa: usize, pa: usize, length: usize, dev_property: bool) -> bool {
    r.ipa == ipa && r.pa == pa && r.length == length && r.dev_property == dev_property
}

/// Represents the configuration of a passthrough region.
#[derive(Clone, Copy)]
pub struct PassthroughRegion {
    /// The IPA (Intermediate Physical Address) of the passthrough region.
    pub ipa: usize,
    /// The PA (Physical Address) of the passthrough region.
    pub pa: usize,
    /// The length of the passthrough region.
    pub length: usize,
    /// Indicates whether the region has device properties.
    pub dev_property: bool,
}

impl PassthroughRegion {
    /// Two regions are the same region when their addresses and lengths agree;
    /// the device property is not compared.
    pub fn same_region(&self, other: &PassthroughRegion) -> (r: bool)
        ensures
            r == (self.ipa == other.ipa && self.pa == other.pa && self.length == other.length),
    {
        self.ipa == other.ipa && self.pa == other.pa && self.length == other.length
    }
}

/// Represents the configuration of a passthrough device for a virtual machine.
pub struct VmPassthroughDeviceConfig {
    /// List of passthrough regions.
    pub regions: Vec<PassthroughRegion>,
    /// List of IRQs (Interrupt Requests) for the passthrough device.
    pub irqs: Vec<usize>,
    /// List of stream IDs for the passthrough device.
    pub streams_ids: Vec<usize>,
}

impl VmPassthroughDeviceConfig {
    /// Creates a new, empty configuration for passthrough devices.
    pub fn default() -> (c: VmPassthroughDeviceConfig)
        ensures
            c.regions@.len() == 0,
            c.irqs@.len() == 0,
            c.streams_ids@.len() == 0,
    {
        VmPassthroughDeviceConfig { regions: Vec::new(), irqs: Vec::new(), streams_ids: Vec::new() }
    }
}

/// Represents a memory region configuration for a virtual machine.
#[derive(Clone, Copy, PartialEq, Eq, Structural)]
pub struct VmRegion {
    /// The starting IPA (Intermediate Physical Address) of the memory region.
    pub ipa_start: usize,
    /// The length of the memory region.
    pub length: usize,
}

impl VmRegion {
    /// Creates an empty memory region at address zero.
    pub fn default() -> (r: VmRegion)
        ensures
            r.ipa_start == 0,
            r.length == 0,
    {
        VmRegion { ipa_start: 0, length: 0 }
    }
}

/// The memory regions of a virtual machine.
pub struct VmMemoryConfig {
    pub region: Vec<VmRegion>,
}

impl VmMemoryConfig {
    /// A memory configuration without regions.
    pub fn default() -> (c: VmMemoryConfig)
        ensures
            c.region@.len() == 0,
    {
        VmMemoryConfig { region: Vec::new() }
    }
}

/// Where the kernel image, device tree and ramdisk of a VM are loaded.
#[derive(Clone, Copy)]
pub struct VmImageConfig {
    pub kernel_img_name: Option<&'static str>,
    pub kernel_load_ipa: usize,
    pub kernel_load_pa: usize,
    pub kernel_entry_point: usize,
    pub device_tree_load_ipa: usize,
    pub ramdisk_load_ipa: usize,
    pub mediated_block_index: Option<usize>,
}

impl VmImageConfig {
    /// An image configuration whose kernel is entered where it is loaded.
    pub fn new(kernel_load_ipa: usize, device_tree_load_ipa: usize, ramdisk_load_ipa: usize) -> (c:
        VmImageConfig)
        ensures
            c.kernel_img_name is None,
            c.kernel_load_ipa == kernel_load_ipa,
            c.kernel_load_pa == 0,
            c.kernel_entry_point == kernel_load_ipa,
            c.device_tree_load_ipa == device_tree_load_ipa,
            c.ramdisk_load_ipa == ramdisk_load_ipa,
            c.mediated_block_index is None,
    {
        VmImageConfig {
            kernel_img_name: None,
            kernel_load_ipa,
            kernel_load_pa: 0,
            kernel_entry_point: kernel_load_ipa,
            device_tree_load_ipa,
            ramdisk_load_ipa,
            mediated_block_index: None,
        }
    }

    /// The all-zero image configuration.
    pub fn default() -> (c: VmImageConfig)
        ensures
            c.kernel_img_name is None,
            c.kernel_load_ipa == 0,
            c.kernel_load_pa == 0,
            c.kernel_entry_point == 0,
            c.device_tree_load_ipa == 0,
            c.ramdisk_load_ipa == 0,
            c.mediated_block_index is None,
    {
        VmImageConfig::new(0, 0, 0)
    }
}

/// The number of set bits of `b`.
pub open spec fn popcount(b: nat) -> nat
    decreases b,
{
    if b == 0 {
        0
    } else {
        (b % 2) + popcount(b / 2)
    }
}

/// The `n` lowest set bits of `b`: `b` with every set bit above the `n`-th cleared.
pub open spec fn lowest_set_bits(b: nat, n: nat) -> nat
    decreases b,
{
    if b == 0 || n == 0 {
        0
    } else if b % 2 == 1 {
        1 + 2 * lowest_set_bits(b / 2, (n - 1) as nat)
    } else {
        2 * lowest_set_bits(b / 2, n)
    }
}

/// The smaller of two numbers.
pub open spec fn min_nat(a: nat, b: nat) -> nat {
    if a <= b {
        a
    } else {
        b
    }
}

/// Keeping the lowest `n` set bits keeps `min(n, popcount(b))` bits.
pub proof fn lemma_popcount_lowest_set_bits(b: nat, n: nat)
    ensures
        popcount(lowest_set_bits(b, n)) == min_nat(n, popcount(b)),
        lowest_set_bits(b, n) <= b,
    decreases b,
{
    if b == 0 || n == 0 {
    } else if b % 2 == 1 {
        lemma_popcount_lowest_set_bits(b / 2, (n - 1) as nat);
        let l = lowest_set_bits(b / 2, (n - 1) as nat);
        assert((1 + 2 * l) % 2 == 1);
        assert((1 + 2 * l) / 2 == l);
    } else {
        lemma_popcount_lowest_set_bits(b / 2, n);
        let l = lowest_set_bits(b / 2, n);
        if l == 0 {
        } else {
            assert((2 * l) % 2 == 0);
            assert((2 * l) / 2 == l);
        }
    }
}

/// A number has no more set bits than its value.
pub proof fn lemma_popcount_le(b: nat)
    ensures
        popcount(b) <= b,
    decreases b,
{
    if b > 0 {
        lemma_popcount_le(b / 2);
    }
}

/// Keeping at least as many bits as are set keeps them all.
pub proof fn lemma_lowest_set_bits_all(b: nat, n: nat)
    requires
        n >= popcount(b),
    ensures
        lowest_set_bits(b, n) == b,
    decreases b,
{
    if b == 0 {
    } else if b % 2 == 1 {
        lemma_lowest_set_bits_all(b / 2, (n - 1) as nat);
    } else {
        lemma_lowest_set_bits_all(b / 2, n);
    }
}

/// Configuration for the virtual CPUs of a VM.
#[derive(Clone, Copy)]
pub struct VmCpuConfig {
    pub num: usize,
    pub allocate_bitmap: u32,
    pub master: i32,
}

impl VmCpuConfig {
    /// A CPU configuration without CPUs.
    pub fn default() -> (c: VmCpuConfig)
        ensures
            c.num == 0,
            c.allocate_bitmap == 0,
            c.master == 0,
    {
        VmCpuConfig { num: 0, allocate_bitmap: 0, master: 0 }
    }

    /// A CPU configuration whose CPU count and bitmap agree: at most `num` CPUs,
    /// no more than the bitmap offers, taken from the low end of the bitmap.
    #[verifier::rlimit(30)]
    pub fn new(num: usize, allocate_bitmap: usize, master: usize) -> (c: Self)
        ensures
            c.num == min_nat(num as nat, popcount(allocate_bitmap as nat)),
            c.allocate_bitmap as nat == lowest_set_bits(allocate_bitmap as nat, num as nat) % 0x1_0000_0000,
            c.master == #[verifier::truncate] (master as i32),
    {
        // count the set bits and keep the lowest `num` of them
        let mut rest: usize = allocate_bitmap;
        let mut bit: u128 = 1;
        let mut seen: u128 = 0;
        let mut kept: u128 = 0;
        let mut ones: usize = 0;
        let mut remain: usize = num;
        while rest > 0
            invariant
                allocate_bitmap as nat == rest as nat * bit as nat + seen as nat,
                seen < bit,
                bit >= 1,
                ones as nat + popcount(rest as nat) == popcount(allocate_bitmap as nat),
                remain <= num,
                kept as nat + bit as nat * lowest_set_bits(rest as nat, remain as nat)
                    == lowest_set_bits(allocate_bitmap as nat, num as nat),
                kept <= seen,
                remain as nat == num as nat - min_nat(num as nat, ones as nat),
            decreases rest,
        {
            let ghost r = rest as nat;
            let ghost b = bit as nat;
            proof {
                assert(b <= r * b) by (nonlinear_arith)
                    requires
                        r >= 1,
                ;
                lemma_popcount_le(allocate_bitmap as nat);
            }
            let ghost low = lowest_set_bits(r / 2, (remain as nat - 1) as nat);
            let ghost l2 = lowest_set_bits(r / 2, remain as nat);
            if rest % 2 == 1 {
                ones = ones + 1;
                if remain > 0 {
                    kept = kept + bit;
                    remain = remain - 1;
                    assert(b * (1 + 2 * low) == b + (2 * b) * low) by (nonlinear_arith);
                } else {
                    assert(b * (2 * l2) == (2 * b) * l2) by (nonlinear_arith);
                }
                seen = seen + bit;
                assert(r % 2 == 1);
                assert((r % 2) * b == b) by (nonlinear_arith)
                    requires
                        r % 2 == 1,
                ;
            } else {
                assert(b * (2 * l2) == (2 * b) * l2) by (nonlinear_arith);
                assert(r % 2 == 0);
                assert((r % 2) * b == 0);
            }
            assert(r * b == (r / 2) * (2 * b) + (r % 2) * b) by (nonlinear_arith);
            rest = rest / 2;
            bit = bit * 2;
            assert(rest as nat * bit as nat == (r / 2) * (2 * b));
        }
        proof {
            assert(lowest_set_bits(rest as nat, remain as nat) == 0);
            assert(bit as nat * 0 == 0);
            assert(kept as nat == lowest_set_bits(allocate_bitmap as nat, num as nat));
            assert(popcount(rest as nat) == 0);
        }
        let cnt = if num <= ones {
            num
        } else {
            ones
        };
        let low32 = kept % 0x1_0000_0000;
        let bitmap = low32 as u32;
        assert(bitmap as nat == kept as nat % 0x1_0000_0000);
        VmCpuConfig { num: cnt, allocate_bitmap: bitmap, master: #[verifier::truncate] (master as i32) }
    }
}

/// Structure representing address regions.
#[derive(Clone, Copy)]
pub struct AddrRegions {
    pub ipa: usize,
    pub length: usize,
}

/// Configuration for a device that the VM's device tree describes.
pub struct VmDtbDevConfig {
    pub name: String,
    pub dev_type: DtbDevType,
    pub irqs: Vec<usize>,
    pub addr_region: AddrRegions,
}

/// The devices that the VM's device tree describes.
pub struct VMDtbDevConfigList {
    pub dtb_device_list: Vec<VmDtbDevConfig>,
}

impl VMDtbDevConfigList {
    /// An empty device list.
    pub fn default() -> (l: VMDtbDevConfigList)
        ensures
            l.dtb_device_list@.len() == 0,
    {
        VMDtbDevConfigList { dtb_device_list: Vec::new() }
    }
}

/// The configuration of one virtual machine.
pub struct VmConfigEntry {
    /// VM id, handed out by the configuration table.
    pub id: usize,
    pub name: String,
    pub os_type: VmType,
    pub cmdline: String,
    pub image: VmImageConfig,
    pub memory: VmMemoryConfig,
    pub cpu: VmCpuConfig,
    pub vm_emu_dev_confg: VmEmulatedDeviceConfigList,
    pub vm_pt_dev_confg: VmPassthroughDeviceConfig,
    pub vm_dtb_devs: VMDtbDevConfigList,
    pub fdt_overlay: Vec<u8>,
}

/// The IPA of the first device-tree device of type `t`, or 0 when there is none.
pub open spec fn first_dtb_dev_ipa(devs: Seq<VmDtbDevConfig>, t: DtbDevType) -> usize
    decreases devs.len(),
{
    if devs.len() == 0 {
        0
    } else if devs[0].dev_type == t {
        devs[0].addr_region.ipa
    } else {
        first_dtb_dev_ipa(devs.drop_first(), t)
    }
}

/// Whether a region holds the `size` bytes from `load_ipa` on.
pub open spec fn region_holds(r: VmRegion, load_ipa: nat, size: nat) -> bool {
    r.ipa_start <= load_ipa && load_ipa + size <= r.ipa_start + r.length
}

/// The index of the last region that holds the `size` bytes from `load_ipa` on, or -1.
pub open spec fn last_region_holding(regions: Seq<VmRegion>, load_ipa: nat, size: nat) -> int
    decreases regions.len(),
{
    if regions.len() == 0 {
        -1
    } else if region_holds(regions.last(), load_ipa, size) {
        regions.len() - 1
    } else {
        last_region_holding(regions.drop_last(), load_ipa, size)
    }
}

impl VmConfigEntry {
    /// The configuration that a new VM starts from.
    pub fn default() -> (e: VmConfigEntry)
        ensures
            e.id == 0,
            e.name@ == "unknown"@,
            e.os_type == VmType::VmTBma,
            e.cmdline@ == "root=/dev/vda rw audit=0"@,
            e.image == VmImageConfig::default_spec(),
            e.memory.region@.len() == 0,
            e.cpu == (VmCpuConfig { num: 0, allocate_bitmap: 0, master: 0 }),
            e.vm_emu_dev_confg.emu_dev_list@.len() == 0,
            e.vm_pt_dev_confg.regions@.len() == 0,
            e.vm_pt_dev_confg.irqs@.len() == 0,
            e.vm_pt_dev_confg.streams_ids@.len() == 0,
            e.vm_dtb_devs.dtb_device_list@.len() == 0,
            e.fdt_overlay@.len() == 0,
    {
        VmConfigEntry {
            id: 0,
            name: "unknown".to_owned(),
            os_type: VmType::VmTBma,
            cmdline: "root=/dev/vda rw audit=0".to_owned(),
            image: VmImageConfig::default(),
            memory: VmMemoryConfig::default(),
            cpu: VmCpuConfig::default(),
            vm_emu_dev_confg: VmEmulatedDeviceConfigList::default(),
            vm_pt_dev_confg: VmPassthroughDeviceConfig::default(),
            vm_dtb_devs: VMDtbDevConfigList::default(),
            fdt_overlay: Vec::new(),
        }
    }

    /// A new configuration with the given name, command line, type and load addresses.
    pub fn new(
        name: String,
        cmdline: String,
        vm_type: usize,
        kernel_load_ipa: usize,
        device_tree_load_ipa: usize,
        ramdisk_load_ipa: usize,
    ) -> (e: VmConfigEntry)
        requires
            vm_type < 2,
        ensures
            e.id == 0,
            e.name@ == name@,
            e.cmdline@ == cmdline@,
            vm_type == 0 ==> e.os_type == VmType::VmTOs,
            vm_type == 1 ==> e.os_type == VmType::VmTBma,
            e.image == VmImageConfig::new_spec(kernel_load_ipa, device_tree_load_ipa, ramdisk_load_ipa),
            e.memory.region@.len() == 0,
            e.cpu == (VmCpuConfig { num: 0, allocate_bitmap: 0, master: 0 }),
            e.vm_emu_dev_confg.emu_dev_list@.len() == 0,
            e.vm_pt_dev_confg.regions@.len() == 0,
            e.vm_pt_dev_confg.irqs@.len() == 0,
            e.vm_pt_dev_confg.streams_ids@.len() == 0,
            e.vm_dtb_devs.dtb_device_list@.len() == 0,
            e.fdt_overlay@.len() == 0,
    {
        let d = VmConfigEntry::default();
        VmConfigEntry {
            name,
            os_type: VmType::from_usize(vm_type),
            cmdline,
            image: VmImageConfig::new(kernel_load_ipa, device_tree_load_ipa, ramdisk_load_ipa),
            ..d
        }
    }

    /// Returns the ID of the configuration.
    pub fn id(&self) -> (r: usize)
        ensures
            r == self.id,
    {
        self.id
    }

    /// Sets the ID of the configuration.
    pub fn set_id(&mut self, id: usize)
        ensures
            *final(self) == (VmConfigEntry { id, ..*old(self) }),
    {
        self.id = id;
    }

    /// Returns the name of the virtual machine.
    pub fn vm_name(&self) -> (r: String)
        ensures
            r@ == self.name@,
    {
        self.name.clone()
    }

    /// Returns the index of the mediated block, if any.
    pub fn mediated_block_index(&self) -> (r: Option<usize>)
        ensures
            r == self.image.mediated_block_index,
    {
        self.image.mediated_block_index
    }

    /// Sets the mediated block index.
    pub fn set_mediated_block_index(&mut self, med_blk_id: usize)
        ensures
            *final(self) == (VmConfigEntry {
                image: VmImageConfig { mediated_block_index: Some(med_blk_id), ..old(self).image },
                ..*old(self)
            }),
    {
        self.image.mediated_block_index = Some(med_blk_id);
    }

    /// Returns the name of the kernel image, if any.
    pub fn kernel_img_name(&self) -> (r: Option<&'static str>)
        ensures
            r == self.image.kernel_img_name,
    {
        self.image.kernel_img_name
    }

    /// Returns the IPA at which the kernel is loaded.
    pub fn kernel_load_ipa(&self) -> (r: usize)
        ensures
            r == self.image.kernel_load_ipa,
    {
        self.image.kernel_load_ipa
    }

    /// Sets the physical address at which the kernel is loaded.
    pub fn set_kernel_load_pa(&mut self, kernel_load_pa: usize)
        ensures
            *final(self) == (VmConfigEntry {
                image: VmImageConfig { kernel_load_pa, ..old(self).image },
                ..*old(self)
            }),
    {
        self.image.kernel_load_pa = kernel_load_pa;
    }

    /// Returns the physical address at which the kernel is loaded.
    pub fn kernel_load_pa(&self) -> (r: usize)
        ensures
            r == self.image.kernel_load_pa,
    {
        self.image.kernel_load_pa
    }

    /// Returns the entry point of the kernel.
    pub fn kernel_entry_point(&self) -> (r: usize)
        ensures
            r == self.image.kernel_entry_point,
    {
        self.image.kernel_entry_point
    }

    /// Returns the IPA at which the device tree is loaded.
    pub fn device_tree_load_ipa(&self) -> (r: usize)
        ensures
            r == self.image.device_tree_load_ipa,
    {
        self.image.device_tree_load_ipa
    }

    /// Returns the IPA at which the ramdisk is loaded.
    pub fn ramdisk_load_ipa(&self) -> (r: usize)
        ensures
            r == self.image.ramdisk_load_ipa,
    {
        self.image.ramdisk_load_ipa
    }

    /// Returns the memory regions configured for the virtual machine.
    pub fn memory_region(&self) -> (r: Vec<VmRegion>)
        ensures
            r@ == self.memory.region@,
    {
        let mut out: Vec<VmRegion> = Vec::new();
        let mut i: usize = 0;
        while i < self.memory.region.len()
            invariant
                i <= self.memory.region@.len(),
                out@ == self.memory.region@.take(i as int),
            decreases self.memory.region@.len() - i,
        {
            out.push(self.memory.region[i]);
            i = i + 1;
            assert(out@ =~= self.memory.region@.take(i as int));
        }
        assert(out@ =~= self.memory.region@);
        out
    }

    /// Adds a memory region with the given start and length.
    pub fn add_memory_cfg(&mut self, ipa_start: usize, length: usize)
        ensures
            final(self).memory.region@ == old(self).memory.region@.push(
                VmRegion { ipa_start, length },
            ),
            *final(self) == (VmConfigEntry { memory: final(self).memory, ..*old(self) }),
    {
        self.memory.region.push(VmRegion { ipa_start, length });
    }

    /// Returns the number of CPUs configured for the virtual machine.
    pub fn cpu_num(&self) -> (r: usize)
        ensures
            r == self.cpu.num,
    {
        self.cpu.num
    }

    /// Returns the CPU allocate bitmap for the virtual machine.
    pub fn cpu_allocated_bitmap(&self) -> (r: u32)
        ensures
            r == self.cpu.allocate_bitmap,
    {
        self.cpu.allocate_bitmap
    }

    /// Returns the master CPU ID for the virtual machine.
    pub fn cpu_master(&self) -> (r: usize)
        ensures
            r == #[verifier::truncate] (self.cpu.master as usize),
    {
        #[verifier::truncate] (self.cpu.master as usize)
    }

    /// Sets the CPU configuration from a CPU count, an allocation bitmap and a master CPU.
    pub fn set_cpu_cfg(&mut self, num: usize, allocate_bitmap: usize, master: usize)
        ensures
            final(self).cpu.num == min_nat(num as nat, popcount(allocate_bitmap as nat)),
            final(self).cpu.allocate_bitmap as nat == lowest_set_bits(allocate_bitmap as nat, num as nat)
                % 0x1_0000_0000,
            final(self).cpu.master == #[verifier::truncate] (master as i32),
            *final(self) == (VmConfigEntry { cpu: final(self).cpu, ..*old(self) }),
    {
        self.cpu = VmCpuConfig::new(num, allocate_bitmap, master);
    }

    /// Returns the emulated devices configured for the virtual machine.
    pub fn emulated_device_list(&self) -> (r: &Vec<VmEmulatedDeviceConfig>)
        ensures
            r@ == self.vm_emu_dev_confg.emu_dev_list@,
    {
        &self.vm_emu_dev_confg.emu_dev_list
    }

    /// Adds an emulated device configuration.
    pub fn add_emulated_device_cfg(&mut self, cfg: VmEmulatedDeviceConfig)
        ensures
            final(self).vm_emu_dev_confg.emu_dev_list@ == old(self).vm_emu_dev_confg.emu_dev_list@.push(
                cfg,
            ),
            *final(self) == (VmConfigEntry { vm_emu_dev_confg: final(self).vm_emu_dev_confg, ..*old(self) }),
    {
        self.vm_emu_dev_confg.emu_dev_list.push(cfg);
    }

    /// Returns the passthrough device regions configured for the virtual machine.
    pub fn passthrough_device_regions(&self) -> (r: Vec<PassthroughRegion>)
        ensures
            r@ == self.vm_pt_dev_confg.regions@,
    {
        let mut out: Vec<PassthroughRegion> = Vec::new();
        let mut i: usize = 0;
        while i < self.vm_pt_dev_confg.regions.len()
            invariant
                i <= self.vm_pt_dev_confg.regions@.len(),
                out@ == self.vm_pt_dev_confg.regions@.take(i as int),
            decreases self.vm_pt_dev_confg.regions@.len() - i,
        {
            out.push(self.vm_pt_dev_confg.regions[i]);
            i = i + 1;
            assert(out@ =~= self.vm_pt_dev_confg.regions@.take(i as int));
        }
        assert(out@ =~= self.vm_pt_dev_confg.regions@);
        out
    }

    /// Returns the passthrough device IRQs configured for the virtual machine.
    pub fn passthrough_device_irqs(&self) -> (r: Vec<usize>)
        ensures
            r@ == self.vm_pt_dev_confg.irqs@,
    {
        copy_usizes(&self.vm_pt_dev_confg.irqs)
    }

    /// Returns the passthrough device stream IDs configured for the virtual machine.
    pub fn passthrough_device_stread_ids(&self) -> (r: Vec<usize>)
        ensures
            r@ == self.vm_pt_dev_confg.streams_ids@,
    {
        copy_usizes(&self.vm_pt_dev_confg.streams_ids)
    }

    /// Adds a passthrough region with device properties.
    pub fn add_passthrough_device_region(&mut self, base_ipa: usize, base_pa: usize, length: usize)
        ensures
            final(self).vm_pt_dev_confg.regions@ == old(self).vm_pt_dev_confg.regions@.push(
                PassthroughRegion { ipa: base_ipa, pa: base_pa, length, dev_property: true },
            ),
            final(self).vm_pt_dev_confg.irqs@ == old(self).vm_pt_dev_confg.irqs@,
            final(self).vm_pt_dev_confg.streams_ids@ == old(self).vm_pt_dev_confg.streams_ids@,
            *final(self) == (VmConfigEntry { vm_pt_dev_confg: final(self).vm_pt_dev_confg, ..*old(self) }),
    {
        let pt_region_cfg = PassthroughRegion { ipa: base_ipa, pa: base_pa, length, dev_property: true };
        self.vm_pt_dev_confg.regions.push(pt_region_cfg);
    }

    /// Moves the given IRQs to the end of the passthrough IRQ list.
    pub fn add_passthrough_device_irqs(&mut self, irqs: &mut Vec<usize>)
        ensures
            final(self).vm_pt_dev_confg.irqs@ == old(self).vm_pt_dev_confg.irqs@ + old(irqs)@,
            final(irqs)@.len() == 0,
            final(self).vm_pt_dev_confg.regions@ == old(self).vm_pt_dev_confg.regions@,
            final(self).vm_pt_dev_confg.streams_ids@ == old(self).vm_pt_dev_confg.streams_ids@,
            *final(self) == (VmConfigEntry { vm_pt_dev_confg: final(self).vm_pt_dev_confg, ..*old(self) }),
    {
        self.vm_pt_dev_confg.irqs.append(irqs);
    }

    /// Moves the given stream IDs to the end of the passthrough stream ID list.
    pub fn add_passthrough_device_streams_ids(&mut self, streams_ids: &mut Vec<usize>)
        ensures
            final(self).vm_pt_dev_confg.streams_ids@ == old(self).vm_pt_dev_confg.streams_ids@ + old(
                streams_ids,
            )@,
            final(streams_ids)@.len() == 0,
            final(self).vm_pt_dev_confg.regions@ == old(self).vm_pt_dev_confg.regions@,
            final(self).vm_pt_dev_confg.irqs@ == old(self).vm_pt_dev_confg.irqs@,
            *final(self) == (VmConfigEntry { vm_pt_dev_confg: final(self).vm_pt_dev_confg, ..*old(self) }),
    {
        self.vm_pt_dev_confg.streams_ids.append(streams_ids);
    }

    /// Returns the device-tree devices configured for the virtual machine.
    pub fn dtb_device_list(&self) -> (r: &Vec<VmDtbDevConfig>)
        ensures
            r@ == self.vm_dtb_devs.dtb_device_list@,
    {
        &self.vm_dtb_devs.dtb_device_list
    }

    /// Adds a device-tree device configuration.
    pub fn add_dtb_device(&mut self, cfg: VmDtbDevConfig)
        ensures
            final(self).vm_dtb_devs.dtb_device_list@ == old(self).vm_dtb_devs.dtb_device_list@.push(cfg),
            *final(self) == (VmConfigEntry { vm_dtb_devs: final(self).vm_dtb_devs, ..*old(self) }),
    {
        self.vm_dtb_devs.dtb_device_list.push(cfg);
    }

    /// The IPA of the first device-tree device of the given type, or 0.
    fn dtb_dev_ipa(&self, t: DtbDevType) -> (r: usize)
        ensures
            r == first_dtb_dev_ipa(self.vm_dtb_devs.dtb_device_list@, t),
    {
        let devs = &self.vm_dtb_devs.dtb_device_list;
        let mut i: usize = 0;
        assert(devs@.skip(0) =~= devs@);
        while i < devs.len()
            invariant
                i <= devs@.len(),
                devs@ == self.vm_dtb_devs.dtb_device_list@,
                first_dtb_dev_ipa(devs@.skip(i as int), t) == first_dtb_dev_ipa(devs@, t),
            decreases devs@.len() - i,
        {
            assert(devs@.skip(i as int).drop_first() =~= devs@.skip(i + 1));
            assert(devs@.skip(i as int)[0] == devs@[i as int]);
            if devs[i].dev_type == t {
                assert(devs@[i as int].dev_type == t);
                assert(devs@.skip(i as int).len() > 0);
                assert(first_dtb_dev_ipa(devs@.skip(i as int), t) == devs@[i as int].addr_region.ipa);
                return devs[i].addr_region.ipa;
            }
            i = i + 1;
        }
        assert(devs@.skip(i as int).len() == 0);
        0
    }

    /// Returns the IPA of the GIC CPU interface, or 0 when none is configured.
    pub fn gicc_addr(&self) -> (r: usize)
        ensures
            r == first_dtb_dev_ipa(self.vm_dtb_devs.dtb_device_list@, DtbDevType::DevGicc),
    {
        self.dtb_dev_ipa(DtbDevType::DevGicc)
    }

    /// Returns the IPA of the GIC distributor, or 0 when none is configured.
    pub fn gicd_addr(&self) -> (r: usize)
        ensures
            r == first_dtb_dev_ipa(self.vm_dtb_devs.dtb_device_list@, DtbDevType::DevGicd),
    {
        self.dtb_dev_ipa(DtbDevType::DevGicd)
    }

    /// Returns the IPA of the GIC redistributor, or 0 when none is configured.
    pub fn gicr_addr(&self) -> (r: usize)
        ensures
            r == first_dtb_dev_ipa(self.vm_dtb_devs.dtb_device_list@, DtbDevType::DevGicr),
    {
        self.dtb_dev_ipa(DtbDevType::DevGicr)
    }
}

/// A copy of a list of numbers.
fn copy_usizes(v: &Vec<usize>) -> (r: Vec<usize>)
    ensures
        r@ == v@,
{
    let mut out: Vec<usize> = Vec::new();
    let mut i: usize = 0;
    while i < v.len()
        invariant
            i <= v@.len(),
            out@ == v@.take(i as int),
        decreases v@.len() - i,
    {
        out.push(v[i]);
        i = i + 1;
        assert(out@ =~= v@.take(i as int));
    }
    assert(out@ =~= v@);
    out
}

impl VmImageConfig {
    /// The image configuration that `new` builds.
    pub open spec fn new_spec(kernel_load_ipa: usize, device_tree_load_ipa: usize, ramdisk_load_ipa: usize) -> VmImageConfig {
        VmImageConfig {
            kernel_img_name: None,
            kernel_load_ipa,
            kernel_load_pa: 0,
            kernel_entry_point: kernel_load_ipa,
            device_tree_load_ipa,
            ramdisk_load_ipa,
            mediated_block_index: None,
        }
    }

    /// The image configuration that `default` builds.
    pub open spec fn default_spec() -> VmImageConfig {
        Self::new_spec(0, 0, 0)
    }
}

/// Whether some entry of `entries` has the id `id`.
pub open spec fn has_vm_id(entries: Seq<VmConfigEntry>, id: usize) -> bool {
    exists|k: int| 0 <= k < entries.len() && entries[k].id == id
}

/// The position of the entry with id `id` (meaningful when `has_vm_id` holds).
pub open spec fn vm_id_index(entries: Seq<VmConfigEntry>, id: usize) -> int {
    choose|k: int| 0 <= k < entries.len() && entries[k].id == id
}

/// No two entries share an id.
pub open spec fn vm_ids_distinct(entries: Seq<VmConfigEntry>) -> bool {
    forall|k1: int, k2: int|
        0 <= k1 < entries.len() && 0 <= k2 < entries.len() && k1 != k2 ==> entries[k1].id
            != entries[k2].id
}

/// Whether id `i` is marked as used in the bitmap.
pub open spec fn vm_id_used(bm: u16, i: usize) -> bool {
    bit16_is_set(bm, i as u16)
}

/// Whether every id below `n` is used.
pub open spec fn all_ids_used_below(bm: u16, n: usize) -> bool {
    forall|j: usize| j < n ==> vm_id_used(bm, j)
}

/// The entry `e` with its id replaced by `id`.
pub open spec fn entry_with_id(e: VmConfigEntry, id: usize) -> VmConfigEntry {
    VmConfigEntry { id, ..e }
}

/// Entries with distinct ids drawn from a finite set are no more than the set's elements.
pub proof fn lemma_distinct_ids_bounded(entries: Seq<VmConfigEntry>, ids: Set<usize>)
    requires
        ids.finite(),
        vm_ids_distinct(entries),
        forall|k: int| 0 <= k < entries.len() ==> ids.contains(#[trigger] entries[k].id),
    ensures
        entries.len() <= ids.len(),
    decreases entries.len(),
{
    if entries.len() > 0 {
        let last = entries.last();
        let rest = entries.drop_last();
        assert forall|k: int| 0 <= k < rest.len() implies ids.remove(last.id).contains(
            #[trigger] rest[k].id,
        ) by {
            assert(rest[k] == entries[k]);
            assert(entries[k].id != entries[entries.len() - 1].id);
        }
        assert forall|k1: int, k2: int|
            0 <= k1 < rest.len() && 0 <= k2 < rest.len() && k1 != k2 implies rest[k1].id
            != rest[k2].id by {
            assert(rest[k1] == entries[k1]);
            assert(rest[k2] == entries[k2]);
        }
        lemma_distinct_ids_bounded(rest, ids.remove(last.id));
        assert(ids.contains(entries[entries.len() - 1].id));
    }
}

/// The ids below `VM_NUM_MAX` other than `skip`.
pub open spec fn vm_id_range_without(skip: usize) -> Set<usize> {
    Set::new(|i: usize| i < VM_NUM_MAX && i != skip)
}

/// Ids below `VM_NUM_MAX` other than one form a finite set of `VM_NUM_MAX - 1` elements.
proof fn lemma_vm_id_range_without(skip: usize)
    requires
        skip < VM_NUM_MAX,
    ensures
        vm_id_range_without(skip).finite(),
        vm_id_range_without(skip).len() == VM_NUM_MAX - 1,
{
    let full = Set::new(|i: usize| i < VM_NUM_MAX);
    assert(full =~= set![0usize, 1, 2, 3, 4, 5, 6, 7, 8, 9, 10, 11, 12, 13, 14, 15]);
    assert(vm_id_range_without(skip) =~= full.remove(skip));
}

/// The bitmap `bm` with id `i` marked free.
fn cleared_vm_id(bm: u16, i: usize) -> (r: u16)
    requires
        i < VM_NUM_MAX,
    ensures
        forall|j: usize| j < VM_NUM_MAX ==> vm_id_used(r, j) == (j != i && vm_id_used(bm, j)),
{
    let r = bm & !(1u16 << (i as u16));
    assert forall|j: usize| j < VM_NUM_MAX implies vm_id_used(r, j) == (j != i && vm_id_used(bm, j)) by {
        lemma_bit16_clear(bm, i as u16, j as u16);
    }
    r
}

/// The configuration table for virtual machines.
pub struct VmConfigTable {
    pub name: Option<&'static str>,
    /// Bit `i` is set when VM id `i` is in use.
    pub vm_bitmap: u16,
    pub vm_num: usize,
    pub entries: Vec<VmConfigEntry>,
}

impl VmConfigTable {
    /// The table's invariant: it counts its entries, their ids are distinct and
    /// each is marked used in the bitmap.
    pub open spec fn wf(&self) -> bool {
        &&& self.vm_num == self.entries@.len()
        &&& forall|k: int|
            0 <= k < self.entries@.len() ==> self.entries@[k].id < VM_NUM_MAX && vm_id_used(
                self.vm_bitmap,
                #[trigger] self.entries@[k].id,
            )
        &&& vm_ids_distinct(self.entries@)
    }

    /// An empty table.
    pub fn new() -> (t: VmConfigTable)
        ensures
            t.wf(),
            t.name is None,
            t.vm_bitmap == 0,
            t.entries@.len() == 0,
    {
        VmConfigTable { name: None, vm_bitmap: 0, vm_num: 0, entries: Vec::new() }
    }

    /// Whether VM id `i` is in use.
    fn id_used(&self, i: usize) -> (r: bool)
        requires
            i < VM_NUM_MAX,
        ensures
            r == vm_id_used(self.vm_bitmap, i),
    {
        proof {
            lemma_bit16_test(self.vm_bitmap, i as u16);
        }
        self.vm_bitmap & (1u16 << (i as u16)) != 0
    }

    /// Hands out the lowest VM id that is not in use and marks it used.
    pub fn generate_vm_id(&mut self) -> (r: Result<usize, ()>)
        ensures
            final(self).name == old(self).name,
            final(self).vm_num == old(self).vm_num,
            final(self).entries@ == old(self).entries@,
            match r {
                Ok(i) => {
                    &&& i < VM_NUM_MAX
                    &&& !vm_id_used(old(self).vm_bitmap, i)
                    &&& all_ids_used_below(old(self).vm_bitmap, i)
                    &&& forall|j: usize|
                        j < VM_NUM_MAX ==> vm_id_used(final(self).vm_bitmap, j) == (j == i
                            || vm_id_used(old(self).vm_bitmap, j))
                },
                Err(_) => {
                    &&& all_ids_used_below(old(self).vm_bitmap, VM_NUM_MAX)
                    &&& final(self).vm_bitmap == old(self).vm_bitmap
                },
            },
            old(self).wf() ==> final(self).wf(),
    {
        let mut i: usize = 0;
        while i < VM_NUM_MAX
            invariant
                i <= VM_NUM_MAX,
                all_ids_used_below(self.vm_bitmap, i),
                *self == *old(self),
            decreases VM_NUM_MAX - i,
        {
            if !self.id_used(i) {
                let ghost old_bm = self.vm_bitmap;
                self.vm_bitmap = self.vm_bitmap | (1u16 << (i as u16));
                proof {
                    assert forall|j: usize| j < VM_NUM_MAX implies vm_id_used(self.vm_bitmap, j) == (j
                        == i || vm_id_used(old_bm, j)) by {
                        lemma_bit16_set(old_bm, i as u16, j as u16);
                    }
                }
                return Ok(i);
            }
            i = i + 1;
        }
        Err(())
    }

    /// Marks a VM id as no longer in use.
    pub fn remove_vm_id(&mut self, vm_id: usize)
        requires
            vm_id < VM_NUM_MAX,
        ensures
            final(self).name == old(self).name,
            final(self).vm_num == old(self).vm_num,
            final(self).entries@ == old(self).entries@,
            forall|j: usize|
                j < VM_NUM_MAX ==> vm_id_used(final(self).vm_bitmap, j) == (j != vm_id
                    && vm_id_used(old(self).vm_bitmap, j)),
            old(self).wf() && !has_vm_id(old(self).entries@, vm_id) ==> final(self).wf(),
    {
        self.vm_bitmap = cleared_vm_id(self.vm_bitmap, vm_id);
        proof {
            if old(self).wf() && !has_vm_id(old(self).entries@, vm_id) {
                assert forall|k: int| 0 <= k < self.entries@.len() implies self.entries@[k].id
                    < VM_NUM_MAX && vm_id_used(self.vm_bitmap, #[trigger] self.entries@[k].id) by {
                    assert(self.entries@[k].id != vm_id);
                }
            }
        }
    }

    /// The position of the entry with id `vmid`, if there is one.
    pub fn find_vm_entry(&self, vmid: usize) -> (r: Option<usize>)
        ensures
            match r {
                Some(k) => k < self.entries@.len() && self.entries@[k as int].id == vmid && forall|
                    j: int,
                | 0 <= j < k ==> self.entries@[j].id != vmid,
                None => !has_vm_id(self.entries@, vmid),
            },
            self.wf() && r is Some ==> r->0 == vm_id_index(self.entries@, vmid),
    {
        let mut i: usize = 0;
        while i < self.entries.len()
            invariant
                i <= self.entries@.len(),
                forall|j: int| 0 <= j < i ==> self.entries@[j].id != vmid,
            decreases self.entries@.len() - i,
        {
            if self.entries[i].id == vmid {
                proof {
                    if self.wf() {
                        let k = vm_id_index(self.entries@, vmid);
                        assert(0 <= k < self.entries@.len() && self.entries@[k].id == vmid);
                    }
                }
                return Some(i);
            }
            i = i + 1;
        }
        None
    }
}

/// Sets the name of the configuration.
pub fn vm_cfg_set_config_name(table: &mut VmConfigTable, name: &'static str)
    ensures
        final(table).name == Some(name),
        final(table).vm_bitmap == old(table).vm_bitmap,
        final(table).vm_num == old(table).vm_num,
        final(table).entries@ == old(table).entries@,
{
    table.name = Some(name);
}

/// Returns the number of configured virtual machines.
pub fn vm_num(table: &VmConfigTable) -> (r: usize)
    ensures
        r == table.entries@.len(),
        table.wf() ==> r == table.vm_num,
{
    table.entries.len()
}

/// The VM count: in a well-formed table, the `vm_num` field is the number of
/// entries. Adding and removing VMs keeps the table well formed, and each
/// successful addition raises the count by one and each removal of a present
/// VM lowers it by one, so after any run of them from the empty table the
/// count is the number of VMs added less the number removed.
pub proof fn law_vm_num_counts_entries(t: VmConfigTable)
    requires
        t.wf(),
    ensures
        t.vm_num == t.entries@.len(),
{
}

/// The sum of the count changes `d`.
pub open spec fn count_changes(d: Seq<int>) -> int
    decreases d.len(),
{
    if d.len() == 0 {
        0
    } else {
        count_changes(d.drop_last()) + d.last()
    }
}

/// Over a run of well-formed tables from the empty one, where step `i`
/// changes the count by `d[i]` (one for a successful addition, minus one for
/// the removal of a present VM, zero otherwise, as the two functions ensure),
/// every table's `vm_num`, and so what `vm_num` reports, is the number of its
/// entries and the sum of the changes so far.
pub proof fn law_vm_num_over_run(tables: Seq<VmConfigTable>, d: Seq<int>)
    requires
        tables.len() == d.len() + 1,
        tables[0].entries@.len() == 0,
        forall|i: int| 0 <= i < tables.len() ==> #[trigger] tables[i].wf(),
        forall|i: int| 0 <= i < d.len() ==> #[trigger] tables[i + 1].vm_num == tables[i].vm_num + d[i],
    ensures
        forall|i: int|
            0 <= i < tables.len() ==> #[trigger] tables[i].vm_num == tables[i].entries@.len() && tables[i].vm_num
                == count_changes(d.take(i)),
    decreases d.len(),
{
    if d.len() > 0 {
        let t2 = tables.drop_last();
        let d2 = d.drop_last();
        assert forall|i: int| 0 <= i < t2.len() implies #[trigger] t2[i].wf() by {
            assert(tables[i].wf());
        }
        assert forall|i: int| 0 <= i < d2.len() implies #[trigger] t2[i + 1].vm_num == t2[i].vm_num + d2[i] by {
            assert(tables[i + 1].vm_num == tables[i].vm_num + d[i]);
        }
        law_vm_num_over_run(t2, d2);
        assert forall|i: int| 0 <= i < tables.len() implies #[trigger] tables[i].vm_num == tables[i].entries@.len()
            && tables[i].vm_num == count_changes(d.take(i)) by {
            assert(tables[i].wf());
            if i < t2.len() {
                assert(d2.take(i) =~= d.take(i));
                assert(t2[i] == tables[i]);
            } else {
                let j = i - 1;
                assert(d2.take(j) =~= d.take(j));
                assert(t2[j] == tables[j]);
                assert(tables[j + 1].vm_num == tables[j].vm_num + d[j]);
                assert(d.take(i).drop_last() =~= d.take(j));
                assert(d.take(i).last() == d[j]);
            }
        }
    } else {
        assert(tables[0].wf());
        assert(d.take(0) =~= Seq::<int>::empty());
    }
}

/// Returns the type of the virtual machine with the given id, or `VmTOs` when there is none.
pub fn vm_type(table: &VmConfigTable, vmid: usize) -> (r: VmType)
    requires
        table.wf(),
    ensures
        has_vm_id(table.entries@, vmid) ==> r == table.entries@[vm_id_index(table.entries@, vmid)].os_type,
        !has_vm_id(table.entries@, vmid) ==> r == VmType::VmTOs,
{
    match table.find_vm_entry(vmid) {
        Some(k) => table.entries[k].os_type,
        None => VmType::VmTOs,
    }
}

/// Returns the ids of all configured virtual machines, in table order.
pub fn vm_id_list(table: &VmConfigTable) -> (r: Vec<usize>)
    ensures
        r@.len() == table.entries@.len(),
        forall|k: int| 0 <= k < r@.len() ==> r@[k] == table.entries@[k].id,
{
    let mut id_list: Vec<usize> = Vec::new();
    let mut i: usize = 0;
    while i < table.entries.len()
        invariant
            i <= table.entries@.len(),
            id_list@.len() == i,
            forall|k: int| 0 <= k < i ==> id_list@[k] == table.entries@[k].id,
        decreases table.entries@.len() - i,
    {
        id_list.push(table.entries[i].id);
        i = i + 1;
    }
    id_list
}

/// Returns the configuration of the virtual machine with the given id.
pub fn vm_cfg_entry(table: &VmConfigTable, vmid: usize) -> (r: Option<&VmConfigEntry>)
    requires
        table.wf(),
    ensures
        has_vm_id(table.entries@, vmid) ==> r == Some(&table.entries@[vm_id_index(table.entries@, vmid)]),
        !has_vm_id(table.entries@, vmid) ==> r is None,
{
    match table.find_vm_entry(vmid) {
        Some(k) => Some(&table.entries[k]),
        None => None,
    }
}

/// Adds a configuration entry under the lowest free VM id.
///
/// The manager VM's configuration must be the first one added: when id 0 is
/// free, the table must be empty.
pub fn vm_cfg_add_vm_entry(table: &mut VmConfigTable, vm_cfg_entry: VmConfigEntry) -> (r: Result<
    usize,
    (),
>)
    requires
        old(table).wf(),
        vm_id_used(old(table).vm_bitmap, 0) || old(table).entries@.len() == 0,
    ensures
        final(table).wf(),
        final(table).name == old(table).name,
        match r {
            Ok(id) => {
                &&& id < VM_NUM_MAX
                &&& !vm_id_used(old(table).vm_bitmap, id)
                &&& all_ids_used_below(old(table).vm_bitmap, id)
                &&& final(table).entries@ == old(table).entries@.push(entry_with_id(vm_cfg_entry, id))
                &&& forall|j: usize|
                    j < VM_NUM_MAX ==> vm_id_used(final(table).vm_bitmap, j) == (j == id
                        || vm_id_used(old(table).vm_bitmap, j))
            },
            Err(_) => {
                &&& all_ids_used_below(old(table).vm_bitmap, VM_NUM_MAX)
                &&& final(table).entries@ == old(table).entries@
                &&& final(table).vm_bitmap == old(table).vm_bitmap
            },
        },
        final(table).vm_num == old(table).vm_num + if r is Ok { 1int } else { 0int },
{
    let mut vm_cfg_entry = vm_cfg_entry;
    match table.generate_vm_id() {
        Ok(vm_id) => {
            proof {
                if vm_id == 0 {
                    assert(!vm_id_used(old(table).vm_bitmap, 0));
                }
            }
            vm_cfg_entry.set_id(vm_id);
            proof {
                assert forall|k: int| 0 <= k < table.entries@.len() implies vm_id_range_without(
                    vm_id,
                ).contains(#[trigger] table.entries@[k].id) by {
                    assert(vm_id_used(old(table).vm_bitmap, table.entries@[k].id));
                }
                lemma_vm_id_range_without(vm_id);
                lemma_distinct_ids_bounded(table.entries@, vm_id_range_without(vm_id));
            }
            table.vm_num = table.vm_num + 1;
            let ghost before = table.entries@;
            table.entries.push(vm_cfg_entry);
            proof {
                assert forall|k: int| 0 <= k < table.entries@.len() implies table.entries@[k].id
                    < VM_NUM_MAX && vm_id_used(table.vm_bitmap, #[trigger] table.entries@[k].id) by {
                    if k < before.len() {
                        assert(before[k].id < VM_NUM_MAX);
                    }
                }
                assert forall|k1: int, k2: int|
                    0 <= k1 < table.entries@.len() && 0 <= k2 < table.entries@.len() && k1
                        != k2 implies table.entries@[k1].id != table.entries@[k2].id by {
                    if k1 < before.len() && k2 < before.len() {
                    } else if k1 < before.len() {
                        assert(vm_id_used(old(table).vm_bitmap, before[k1].id));
                    } else {
                        assert(vm_id_used(old(table).vm_bitmap, before[k2].id));
                    }
                }
            }
            Ok(vm_id)
        },
        Err(_) => Err(()),
    }
}

/// Generates a new configuration entry from a name, a command line, a VM type
/// and load addresses, and adds it to the table.
///
/// The name and the command line are what was read at their guest addresses;
/// `None` where such an address does not translate, and then the call fails
/// and leaves the table as it was.
pub fn vm_cfg_add_vm(
    table: &mut VmConfigTable,
    vm_name: Option<String>,
    cmdline: Option<String>,
    vm_type: usize,
    kernel_load_ipa: usize,
    device_tree_load_ipa: usize,
    ramdisk_load_ipa: usize,
) -> (r: Result<usize, ()>)
    requires
        old(table).wf(),
        vm_id_used(old(table).vm_bitmap, 0) || old(table).entries@.len() == 0,
        vm_type < 2,
    ensures
        final(table).wf(),
        match r {
            Ok(id) => {
                &&& !vm_id_used(old(table).vm_bitmap, id)
                &&& all_ids_used_below(old(table).vm_bitmap, id)
                &&& final(table).entries@.len() == old(table).entries@.len() + 1
                &&& final(table).entries@.take(old(table).entries@.len() as int) == old(table).entries@
                &&& final(table).entries@.last().id == id
                &&& vm_name is Some && cmdline is Some
                &&& final(table).entries@.last().name@ == vm_name->0@
                &&& final(table).entries@.last().cmdline@ == cmdline->0@
                &&& final(table).entries@.last().image == VmImageConfig::new_spec(
                    kernel_load_ipa,
                    device_tree_load_ipa,
                    ramdisk_load_ipa,
                )
            },
            Err(_) => {
                &&& (vm_name is Some && cmdline is Some) ==> all_ids_used_below(old(table).vm_bitmap, VM_NUM_MAX)
                &&& final(table).entries@ == old(table).entries@
                &&& (vm_name is None || cmdline is None) ==> *final(table) == *old(table)
            },
        },
        (vm_name is None || cmdline is None) ==> r is Err,
{
    let vm_name = match vm_name {
        Some(n) => n,
        None => return Err(()),
    };
    let cmdline = match cmdline {
        Some(c) => c,
        None => return Err(()),
    };
    let new_vm_cfg = VmConfigEntry::new(
        vm_name,
        cmdline,
        vm_type,
        kernel_load_ipa,
        device_tree_load_ipa,
        ramdisk_load_ipa,
    );
    let r = vm_cfg_add_vm_entry(table, new_vm_cfg);
    proof {
        if r is Ok {
            assert(final(table).entries@.take(old(table).entries@.len() as int) =~= old(table).entries@);
        }
    }
    r
}

/// Removes the configuration entry of a VM and frees its id.
///
/// Returns the mediated block that the removed VM held, which the caller
/// hands back to the block service.
pub fn vm_cfg_remove_vm_entry(table: &mut VmConfigTable, vm_id: usize) -> (r: Option<usize>)
    requires
        old(table).wf(),
    ensures
        final(table).wf(),
        final(table).name == old(table).name,
        has_vm_id(old(table).entries@, vm_id) ==> {
            let k = vm_id_index(old(table).entries@, vm_id);
            &&& final(table).entries@ == old(table).entries@.remove(k)
            &&& r == old(table).entries@[k].image.mediated_block_index
            &&& forall|j: usize|
                j < VM_NUM_MAX ==> vm_id_used(final(table).vm_bitmap, j) == (j != vm_id
                    && vm_id_used(old(table).vm_bitmap, j))
        },
        !has_vm_id(old(table).entries@, vm_id) ==> {
            &&& final(table).entries@ == old(table).entries@
            &&& final(table).vm_bitmap == old(table).vm_bitmap
            &&& r is None
        },
        !has_vm_id(final(table).entries@, vm_id),
        final(table).vm_num == old(table).vm_num - if has_vm_id(old(table).entries@, vm_id) { 1int } else { 0int },
{
    match table.find_vm_entry(vm_id) {
        Some(idx) => {
            assert(table.entries@[idx as int].id < VM_NUM_MAX);
            let ghost before = table.entries@;
            table.vm_num = table.vm_num - 1;
            let block = table.entries[idx].mediated_block_index();
            let removed = table.entries.remove(idx);
            table.remove_vm_id(vm_id);
            proof {
                assert forall|k: int| 0 <= k < table.entries@.len() implies table.entries@[k].id
                    < VM_NUM_MAX && vm_id_used(table.vm_bitmap, #[trigger] table.entries@[k].id) by {
                    let src = if k < idx {
                        k
                    } else {
                        k + 1
                    };
                    assert(table.entries@[k] == before[src]);
                    assert(before[src].id != vm_id);
                    assert(vm_id_used(old(table).vm_bitmap, before[src].id));
                }
                assert forall|k1: int, k2: int|
                    0 <= k1 < table.entries@.len() && 0 <= k2 < table.entries@.len() && k1
                        != k2 implies table.entries@[k1].id != table.entries@[k2].id by {
                    let s1 = if k1 < idx {
                        k1
                    } else {
                        k1 + 1
                    };
                    let s2 = if k2 < idx {
                        k2
                    } else {
                        k2 + 1
                    };
                    assert(table.entries@[k1] == before[s1]);
                    assert(table.entries@[k2] == before[s2]);
                }
                if has_vm_id(table.entries@, vm_id) {
                    let k = choose|k: int| 0 <= k < table.entries@.len() && table.entries@[k].id == vm_id;
                    let src = if k < idx {
                        k
                    } else {
                        k + 1
                    };
                    assert(table.entries@[k] == before[src]);
                }
            }
            block
        },
        None => None,
    }
}

/// Deletes the configuration entry of a VM.
///
/// Always succeeds with 0; the second part is the mediated block that the
/// deleted VM held, which the caller hands back to the block service.
pub fn vm_cfg_del_vm(table: &mut VmConfigTable, vmid: usize) -> (r: (Result<usize, ()>, Option<usize>))
    requires
        old(table).wf(),
    ensures
        final(table).wf(),
        r.0 == Ok::<usize, ()>(0),
        has_vm_id(old(table).entries@, vmid) ==> {
            let k = vm_id_index(old(table).entries@, vmid);
            &&& final(table).entries@ == old(table).entries@.remove(k)
            &&& r.1 == old(table).entries@[k].image.mediated_block_index
        },
        !has_vm_id(old(table).entries@, vmid) ==> final(table).entries@ == old(table).entries@
            && r.1 is None,
        !has_vm_id(final(table).entries@, vmid),
{
    let block = vm_cfg_remove_vm_entry(table, vmid);
    (Ok(0), block)
}

/// The table `new` is `old` with entry `k` replaced by `e`, nothing else changed.
pub open spec fn table_entry_updated(old: VmConfigTable, new: VmConfigTable, k: int, e: VmConfigEntry) -> bool {
    &&& new.name == old.name
    &&& new.vm_bitmap == old.vm_bitmap
    &&& new.vm_num == old.vm_num
    &&& new.entries@ == old.entries@.update(k, e)
}

/// Replacing an entry by one with the same id keeps the table well formed.
proof fn lemma_update_keeps_wf(old: VmConfigTable, new: VmConfigTable, k: int, e: VmConfigEntry)
    requires
        old.wf(),
        0 <= k < old.entries@.len(),
        e.id == old.entries@[k].id,
        table_entry_updated(old, new, k, e),
    ensures
        new.wf(),
{
    assert forall|j: int| 0 <= j < new.entries@.len() implies new.entries@[j].id < VM_NUM_MAX
        && vm_id_used(new.vm_bitmap, #[trigger] new.entries@[j].id) by {
        assert(old.entries@[j].id < VM_NUM_MAX);
    }
    assert forall|k1: int, k2: int|
        0 <= k1 < new.entries@.len() && 0 <= k2 < new.entries@.len() && k1 != k2 implies new.entries@[k1].id
        != new.entries@[k2].id by {
        assert(old.entries@[k1].id != old.entries@[k2].id);
    }
}

/// Adds a memory region to the configuration of VM `vmid`; fails when there is no such VM.
pub fn vm_cfg_add_mem_region(table: &mut VmConfigTable, vmid: usize, ipa_start: usize, length: usize) -> (r:
    Result<usize, ()>)
    requires
        old(table).wf(),
    ensures
        final(table).wf(),
        has_vm_id(old(table).entries@, vmid) ==> {
            let k = vm_id_index(old(table).entries@, vmid);
            let e = final(table).entries@[k];
            &&& r == Ok::<usize, ()>(0)
            &&& table_entry_updated(*old(table), *final(table), k, e)
            &&& e == (VmConfigEntry { memory: e.memory, ..old(table).entries@[k] })
            &&& e.memory.region@ == old(table).entries@[k].memory.region@.push(
                VmRegion { ipa_start, length },
            )
        },
        !has_vm_id(old(table).entries@, vmid) ==> r == Err::<usize, ()>(()) && *final(table) == *old(
            table,
        ),
{
    match table.find_vm_entry(vmid) {
        Some(k) => {
            table.entries[k].add_memory_cfg(ipa_start, length);
            proof {
                lemma_update_keeps_wf(*old(table), *table, k as int, table.entries@[k as int]);
            }
            Ok(0)
        },
        None => Err(()),
    }
}

/// Sets the CPU configuration of VM `vmid`; fails when there is no such VM.
pub fn vm_cfg_set_cpu(
    table: &mut VmConfigTable,
    vmid: usize,
    num: usize,
    allocate_bitmap: usize,
    master: usize,
) -> (r: Result<usize, ()>)
    requires
        old(table).wf(),
    ensures
        final(table).wf(),
        has_vm_id(old(table).entries@, vmid) ==> {
            let k = vm_id_index(old(table).entries@, vmid);
            let e = final(table).entries@[k];
            &&& r == Ok::<usize, ()>(0)
            &&& table_entry_updated(*old(table), *final(table), k, e)
            &&& e == (VmConfigEntry { cpu: e.cpu, ..old(table).entries@[k] })
            &&& e.cpu.num == min_nat(num as nat, popcount(allocate_bitmap as nat))
            &&& e.cpu.allocate_bitmap as nat == lowest_set_bits(allocate_bitmap as nat, num as nat)
                % 0x1_0000_0000
            &&& e.cpu.master == #[verifier::truncate] (master as i32)
        },
        !has_vm_id(old(table).entries@, vmid) ==> r == Err::<usize, ()>(()) && *final(table) == *old(
            table,
        ),
{
    match table.find_vm_entry(vmid) {
        Some(k) => {
            table.entries[k].set_cpu_cfg(num, allocate_bitmap, master);
            proof {
                lemma_update_keeps_wf(*old(table), *table, k as int, table.entries@[k as int]);
            }
            Ok(0)
        },
        None => Err(()),
    }
}

/// Adds an emulated device to the configuration of VM `vmid`.
///
/// A mediated virtio block device is recorded as a virtio block device marked
/// mediated, and the VM takes the mediated block `med_blk` that the block
/// service offers; without one the call fails after recording the device.
///
/// The name and the configuration list are what was read at their guest
/// addresses; `None` where such an address does not translate, and then the
/// call fails and leaves the table as it was.
pub fn vm_cfg_add_emu_dev(
    table: &mut VmConfigTable,
    vmid: usize,
    name: Option<String>,
    base_ipa: usize,
    length: usize,
    irq_id: usize,
    cfg_list: Option<Vec<usize>>,
    emu_type: usize,
    med_blk: Option<usize>,
) -> (r: Result<usize, ()>)
    requires
        old(table).wf(),
        has_vm_id(old(table).entries@, vmid) ==> emu_type < 14,
    ensures
        final(table).wf(),
        has_vm_id(old(table).entries@, vmid) && name is Some && cfg_list is Some ==> {
            let k = vm_id_index(old(table).entries@, vmid);
            let e = final(table).entries@[k];
            let t = emu_device_type_of(emu_type as nat);
            let mediated = t == EmuDeviceType::EmuDeviceTVirtioBlkMediated;
            let d = e.vm_emu_dev_confg.emu_dev_list@.last();
            &&& table_entry_updated(*old(table), *final(table), k, e)
            &&& e.vm_emu_dev_confg.emu_dev_list@.len() == old(table).entries@[k].vm_emu_dev_confg.emu_dev_list@.len() + 1
            &&& e.vm_emu_dev_confg.emu_dev_list@.drop_last() == old(table).entries@[k].vm_emu_dev_confg.emu_dev_list@
            &&& d.name@ == name->0@
            &&& d.base_ipa == base_ipa
            &&& d.length == length
            &&& d.irq_id == irq_id
            &&& d.cfg_list@ == cfg_list->0@
            &&& d.emu_type == (if mediated { EmuDeviceType::EmuDeviceTVirtioBlk } else { t })
            &&& d.mediated == mediated
            &&& (mediated && med_blk is Some) ==> e == (VmConfigEntry {
                vm_emu_dev_confg: e.vm_emu_dev_confg,
                image: VmImageConfig { mediated_block_index: med_blk, ..old(table).entries@[k].image },
                ..old(table).entries@[k]
            })
            &&& !(mediated && med_blk is Some) ==> e == (VmConfigEntry {
                vm_emu_dev_confg: e.vm_emu_dev_confg,
                ..old(table).entries@[k]
            })
            &&& r == (if mediated && med_blk is None { Err::<usize, ()>(()) } else { Ok::<usize, ()>(0) })
        },
        !has_vm_id(old(table).entries@, vmid) || name is None || cfg_list is None ==> r == Err::<usize, ()>(())
            && *final(table) == *old(table),
{
    match table.find_vm_entry(vmid) {
        Some(k) => {
            let name = match name {
                Some(n) => n,
                None => return Err(()),
            };
            let cfg_list = match cfg_list {
                Some(c) => c,
                None => return Err(()),
            };
            let emu_dev_type = EmuDeviceType::from_usize(emu_type);
            let mediated = emu_dev_type == EmuDeviceType::EmuDeviceTVirtioBlkMediated;
            let emu_dev_cfg = VmEmulatedDeviceConfig {
                name,
                base_ipa,
                length,
                irq_id,
                cfg_list,
                emu_type: if mediated {
                    EmuDeviceType::EmuDeviceTVirtioBlk
                } else {
                    emu_dev_type
                },
                mediated,
            };
            let ghost before = table.entries@[k as int];
            table.entries[k].add_emulated_device_cfg(emu_dev_cfg);
            assert(table.entries@[k as int].vm_emu_dev_confg.emu_dev_list@.drop_last()
                =~= before.vm_emu_dev_confg.emu_dev_list@);
            let mut result: Result<usize, ()> = Ok(0);
            if mediated {
                match med_blk {
                    Some(idx) => {
                        table.entries[k].set_mediated_block_index(idx);
                    },
                    None => {
                        result = Err(());
                    },
                }
            }
            assert(table.entries@ =~= old(table).entries@.update(k as int, table.entries@[k as int]));
            proof {
                lemma_update_keeps_wf(*old(table), *table, k as int, table.entries@[k as int]);
            }
            result
        },
        None => Err(()),
    }
}

/// Adds a passthrough region to the configuration of VM `vmid`; fails when there is no such VM.
pub fn vm_cfg_add_passthrough_device_region(
    table: &mut VmConfigTable,
    vmid: usize,
    base_ipa: usize,
    base_pa: usize,
    length: usize,
) -> (r: Result<usize, ()>)
    requires
        old(table).wf(),
    ensures
        final(table).wf(),
        has_vm_id(old(table).entries@, vmid) ==> {
            let k = vm_id_index(old(table).entries@, vmid);
            let e = final(table).entries@[k];
            let o = old(table).entries@[k];
            &&& r == Ok::<usize, ()>(0)
            &&& table_entry_updated(*old(table), *final(table), k, e)
            &&& e == (VmConfigEntry { vm_pt_dev_confg: e.vm_pt_dev_confg, ..o })
            &&& e.vm_pt_dev_confg.regions@ == o.vm_pt_dev_confg.regions@.push(
                PassthroughRegion { ipa: base_ipa, pa: base_pa, length, dev_property: true },
            )
            &&& e.vm_pt_dev_confg.irqs@ == o.vm_pt_dev_confg.irqs@
            &&& e.vm_pt_dev_confg.streams_ids@ == o.vm_pt_dev_confg.streams_ids@
        },
        !has_vm_id(old(table).entries@, vmid) ==> r == Err::<usize, ()>(()) && *final(table) == *old(
            table,
        ),
{
    match table.find_vm_entry(vmid) {
        Some(k) => {
            table.entries[k].add_passthrough_device_region(base_ipa, base_pa, length);
            proof {
                lemma_update_keeps_wf(*old(table), *table, k as int, table.entries@[k as int]);
            }
            Ok(0)
        },
        None => Err(()),
    }
}

/// Adds passthrough IRQs to the configuration of VM `vmid`: the words read at
/// their guest address, `None` where that address does not translate. Fails,
/// leaving the table as it was, when it does not or there is no such VM.
pub fn vm_cfg_add_passthrough_device_irqs(table: &mut VmConfigTable, vmid: usize, irqs: Option<Vec<usize>>) -> (r:
    Result<usize, ()>)
    requires
        old(table).wf(),
    ensures
        final(table).wf(),
        has_vm_id(old(table).entries@, vmid) && irqs is Some ==> {
            let k = vm_id_index(old(table).entries@, vmid);
            let e = final(table).entries@[k];
            let o = old(table).entries@[k];
            &&& r == Ok::<usize, ()>(0)
            &&& table_entry_updated(*old(table), *final(table), k, e)
            &&& e == (VmConfigEntry { vm_pt_dev_confg: e.vm_pt_dev_confg, ..o })
            &&& e.vm_pt_dev_confg.irqs@ == o.vm_pt_dev_confg.irqs@ + irqs->0@
            &&& e.vm_pt_dev_confg.regions@ == o.vm_pt_dev_confg.regions@
            &&& e.vm_pt_dev_confg.streams_ids@ == o.vm_pt_dev_confg.streams_ids@
        },
        !has_vm_id(old(table).entries@, vmid) || irqs is None ==> r == Err::<usize, ()>(())
            && *final(table) == *old(table),
{
    let mut irqs = match irqs {
        Some(w) => w,
        None => return Err(()),
    };
    match table.find_vm_entry(vmid) {
        Some(k) => {
            table.entries[k].add_passthrough_device_irqs(&mut irqs);
            proof {
                lemma_update_keeps_wf(*old(table), *table, k as int, table.entries@[k as int]);
            }
            Ok(0)
        },
        None => Err(()),
    }
}

/// Adds passthrough stream IDs to the configuration of VM `vmid`: the words read at
/// their guest address, `None` where that address does not translate. Fails,
/// leaving the table as it was, when it does not or there is no such VM.
pub fn vm_cfg_add_passthrough_device_streams_ids(
    table: &mut VmConfigTable,
    vmid: usize,
    streams_ids: Option<Vec<usize>>,
) -> (r: Result<usize, ()>)
    requires
        old(table).wf(),
    ensures
        final(table).wf(),
        has_vm_id(old(table).entries@, vmid) && streams_ids is Some ==> {
            let k = vm_id_index(old(table).entries@, vmid);
            let e = final(table).entries@[k];
            let o = old(table).entries@[k];
            &&& r == Ok::<usize, ()>(0)
            &&& table_entry_updated(*old(table), *final(table), k, e)
            &&& e == (VmConfigEntry { vm_pt_dev_confg: e.vm_pt_dev_confg, ..o })
            &&& e.vm_pt_dev_confg.streams_ids@ == o.vm_pt_dev_confg.streams_ids@ + streams_ids->0@
            &&& e.vm_pt_dev_confg.regions@ == o.vm_pt_dev_confg.regions@
            &&& e.vm_pt_dev_confg.irqs@ == o.vm_pt_dev_confg.irqs@
        },
        !has_vm_id(old(table).entries@, vmid) || streams_ids is None ==> r == Err::<usize, ()>(())
            && *final(table) == *old(table),
{
    let mut streams_ids = match streams_ids {
        Some(w) => w,
        None => return Err(()),
    };
    match table.find_vm_entry(vmid) {
        Some(k) => {
            table.entries[k].add_passthrough_device_streams_ids(&mut streams_ids);
            proof {
                lemma_update_keeps_wf(*old(table), *table, k as int, table.entries@[k as int]);
            }
            Ok(0)
        },
        None => Err(()),
    }
}

/// Adds a device-tree device to the configuration of VM `vmid`; fails when there is no such VM.
///
/// The name and the interrupt list are what was read at their guest
/// addresses; `None` where such an address does not translate, and then the
/// call fails and leaves the table as it was.
pub fn vm_cfg_add_dtb_dev(
    table: &mut VmConfigTable,
    vmid: usize,
    name: Option<String>,
    dev_type: usize,
    irqs: Option<Vec<usize>>,
    addr_region_ipa: usize,
    addr_region_length: usize,
) -> (r: Result<usize, ()>)
    requires
        old(table).wf(),
        has_vm_id(old(table).entries@, vmid) ==> dev_type < 4,
    ensures
        final(table).wf(),
        has_vm_id(old(table).entries@, vmid) && name is Some && irqs is Some ==> {
            let k = vm_id_index(old(table).entries@, vmid);
            let e = final(table).entries@[k];
            let o = old(table).entries@[k];
            let d = e.vm_dtb_devs.dtb_device_list@.last();
            &&& r == Ok::<usize, ()>(0)
            &&& table_entry_updated(*old(table), *final(table), k, e)
            &&& e == (VmConfigEntry { vm_dtb_devs: e.vm_dtb_devs, ..o })
            &&& e.vm_dtb_devs.dtb_device_list@.drop_last() == o.vm_dtb_devs.dtb_device_list@
            &&& e.vm_dtb_devs.dtb_device_list@.len() == o.vm_dtb_devs.dtb_device_list@.len() + 1
            &&& d.name@ == name->0@
            &&& d.irqs@ == irqs->0@
            &&& d.addr_region == (AddrRegions { ipa: addr_region_ipa, length: addr_region_length })
            &&& (dev_type == 0 ==> d.dev_type == DtbDevType::DevSerial)
            &&& (dev_type == 1 ==> d.dev_type == DtbDevType::DevGicd)
            &&& (dev_type == 2 ==> d.dev_type == DtbDevType::DevGicc)
            &&& (dev_type == 3 ==> d.dev_type == DtbDevType::DevGicr)
        },
        !has_vm_id(old(table).entries@, vmid) || name is None || irqs is None ==> r == Err::<usize, ()>(())
            && *final(table) == *old(table),
{
    let name = match name {
        Some(n) => n,
        None => return Err(()),
    };
    let irqs = match irqs {
        Some(w) => w,
        None => return Err(()),
    };
    match table.find_vm_entry(vmid) {
        Some(k) => {
            let vm_dtb_dev = VmDtbDevConfig {
                name,
                dev_type: DtbDevType::from_usize(dev_type),
                irqs,
                addr_region: AddrRegions { ipa: addr_region_ipa, length: addr_region_length },
            };
            let ghost before = table.entries@[k as int];
            table.entries[k].add_dtb_device(vm_dtb_dev);
            assert(table.entries@[k as int].vm_dtb_devs.dtb_device_list@.drop_last()
                =~= before.vm_dtb_devs.dtb_device_list@);
            proof {
                lemma_update_keeps_wf(*old(table), *table, k as int, table.entries@[k as int]);
            }
            Ok(0)
        },
        None => Err(()),
    }
}

/// Sets where in physical memory the kernel image of a VM is loaded.
///
/// `pa_starts[i]` is the physical start of the VM's memory region `i`. The last
/// region that holds the whole image decides the physical load address; when
/// none does, the configuration is left as it was.
pub fn vm_cfg_finish_configuration(entry: &mut VmConfigEntry, pa_starts: &Vec<usize>, img_size: usize)
    requires
        pa_starts@.len() == old(entry).memory.region@.len(),
        old(entry).image.kernel_load_ipa + img_size <= usize::MAX,
        forall|i: int|
            0 <= i < old(entry).memory.region@.len() ==> old(entry).memory.region@[i].ipa_start
                + old(entry).memory.region@[i].length <= usize::MAX,
        forall|i: int|
            0 <= i < pa_starts@.len() ==> pa_starts@[i] + old(entry).image.kernel_load_ipa
                <= usize::MAX,
    ensures
        ({
            let regions = old(entry).memory.region@;
            let load_ipa = old(entry).image.kernel_load_ipa;
            let idx = last_region_holding(regions, load_ipa as nat, img_size as nat);
            &&& idx >= 0 ==> *final(entry) == (VmConfigEntry {
                image: VmImageConfig {
                    kernel_load_pa: (pa_starts@[idx] + (load_ipa - regions[idx].ipa_start)) as usize,
                    ..old(entry).image
                },
                ..*old(entry)
            })
            &&& idx < 0 ==> *final(entry) == *old(entry)
        }),
{
    let load_ipa = entry.kernel_load_ipa();
    let mut found: Option<usize> = None;
    let mut i: usize = 0;
    let ghost regions = entry.memory.region@;
    while i < entry.memory.region.len()
        invariant
            i <= regions.len(),
            regions == entry.memory.region@,
            *entry == *old(entry),
            load_ipa == entry.image.kernel_load_ipa,
            load_ipa + img_size <= usize::MAX,
            forall|j: int|
                0 <= j < regions.len() ==> regions[j].ipa_start + regions[j].length <= usize::MAX,
            match found {
                Some(f) => f < i && f == last_region_holding(regions.take(i as int), load_ipa as nat, img_size as nat)
                    && region_holds(regions[f as int], load_ipa as nat, img_size as nat),
                None => last_region_holding(regions.take(i as int), load_ipa as nat, img_size as nat) < 0,
            },
        decreases regions.len() - i,
    {
        let region = entry.memory.region[i];
        assert(regions.take(i + 1).drop_last() =~= regions.take(i as int));
        if !(load_ipa < region.ipa_start || load_ipa + img_size > region.ipa_start + region.length) {
            found = Some(i);
        }
        i = i + 1;
    }
    assert(regions.take(i as int) =~= regions);
    match found {
        Some(idx) => {
            let region = entry.memory.region[idx];
            let offset = load_ipa - region.ipa_start;
            entry.set_kernel_load_pa(pa_starts[idx] + offset);
        },
        None => {},
    }
}

/// Once a VM's configuration is added under an id, looking that id up finds it.
pub proof fn law_added_vm_is_found(old_t: VmConfigTable, new_t: VmConfigTable, e: VmConfigEntry, id: usize)
    requires
        new_t.wf(),
        new_t.entries@ == old_t.entries@.push(entry_with_id(e, id)),
    ensures
        has_vm_id(new_t.entries@, id),
        new_t.entries@[vm_id_index(new_t.entries@, id)] == entry_with_id(e, id),
{
    let last = new_t.entries@.len() - 1;
    assert(new_t.entries@[last].id == id);
    let k = vm_id_index(new_t.entries@, id);
    assert(new_t.entries@[k].id == id);
    assert(k == last);
}

/// A VM whose configuration was removed is no longer found, and every other
/// VM is still found with the same configuration.
pub proof fn law_removed_vm_is_gone(old_t: VmConfigTable, new_t: VmConfigTable, id: usize, other: usize)
    requires
        old_t.wf(),
        new_t.wf(),
        has_vm_id(old_t.entries@, id),
        new_t.entries@ == old_t.entries@.remove(vm_id_index(old_t.entries@, id)),
        other != id,
        has_vm_id(old_t.entries@, other),
    ensures
        !has_vm_id(new_t.entries@, id),
        has_vm_id(new_t.entries@, other),
        new_t.entries@[vm_id_index(new_t.entries@, other)] == old_t.entries@[vm_id_index(
            old_t.entries@,
            other,
        )],
{
    let k = vm_id_index(old_t.entries@, id);
    let ko = vm_id_index(old_t.entries@, other);
    assert(old_t.entries@[k].id == id);
    assert(old_t.entries@[ko].id == other);
    if has_vm_id(new_t.entries@, id) {
        let j = choose|j: int| 0 <= j < new_t.entries@.len() && new_t.entries@[j].id == id;
        let src = if j < k {
            j
        } else {
            j + 1
        };
        assert(new_t.entries@[j] == old_t.entries@[src]);
    }
    let nko = if ko < k {
        ko
    } else {
        ko - 1
    };
    assert(new_t.entries@[nko] == old_t.entries@[ko]);
    let n = vm_id_index(new_t.entries@, other);
    assert(new_t.entries@[n].id == other);
    assert(n == nko);
}

/// The CPU count of a CPU configuration is the number of CPUs in its bitmap,
/// whenever the requested bitmap fits the 32 bits the configuration keeps.
pub proof fn law_cpu_count_matches_bitmap(num: usize, allocate_bitmap: usize, c: VmCpuConfig)
    requires
        allocate_bitmap < 0x1_0000_0000,
        c.num == min_nat(num as nat, popcount(allocate_bitmap as nat)),
        c.allocate_bitmap as nat == lowest_set_bits(allocate_bitmap as nat, num as nat) % 0x1_0000_0000,
    ensures
        popcount(c.allocate_bitmap as nat) == c.num,
        c.allocate_bitmap as nat <= allocate_bitmap as nat,
{
    lemma_popcount_lowest_set_bits(allocate_bitmap as nat, num as nat);
}

} // verus!
