//! The VM configuration file that the manager's tool reads, the values in it
//! that need parsing, and the hypercall requests built from it.
use vstd::prelude::*;
use vstd::string::*;
use vstd::utf8::*;

use crate::cli::config_arg::{VmKernelImageInfo, VmLoadKernelImgFileArg};
use crate::cli::daemon::{
    generate_hvc_mode, generate_hvc_mode_spec, lemma_hvc_mode_bits, HVC_CONFIG, HVC_CONFIG_CPU, HVC_CONFIG_DTB_DEVICE,
    HVC_CONFIG_EMULATED_DEVICE, HVC_CONFIG_MEMORY_COLOR_BUDGET, HVC_CONFIG_MEMORY_REGION,
    HVC_CONFIG_PASSTHROUGH_DEVICE_IRQS, HVC_CONFIG_PASSTHROUGH_DEVICE_REGION,
    HVC_CONFIG_PASSTHROUGH_DEVICE_STREAMS_IDS, HVC_CONFIG_UPLOAD_DEVICE_TREE,
    HVC_CONFIG_UPLOAD_KERNEL_IMAGE,
};
use crate::cli::ioctl_arg::{IOCTL_SYS, IOCTL_SYS_SET_KERNEL_IMG_NAME};
use crate::cli::util::{
    all_digits, digits_value, parse_result_matches, string_to_u64, trim, trim_str,
    u32_from_str_radix, u64_from_str_radix, unsigned_digits, NumParseError, parses_as,
    number_digits, number_radix,
};

verus! {

/// The size of the buffer through which a file is uploaded to the hypervisor.
pub const CACHE_MAX: usize = 0x200000;

/// The kind of guest a VM runs.
#[allow(non_camel_case_types)]
#[derive(Clone, Copy, PartialEq, Eq, Structural, Debug)]
pub enum VmType {
    VM_T_LINUX,
    VM_T_BARE_MATEL_APP,
    VM_T_FREERTOS,
}

/// The number of a VM type, as the hypervisor numbers them.
pub open spec fn vm_type_code(t: VmType) -> u64 {
    match t {
        VmType::VM_T_LINUX => 0,
        VmType::VM_T_BARE_MATEL_APP => 1,
        VmType::VM_T_FREERTOS => 2,
    }
}

impl VmType {
    /// The number the hypervisor knows this type by.
    pub fn code(&self) -> (r: u64)
        ensures
            r == vm_type_code(*self),
    {
        match self {
            VmType::VM_T_LINUX => 0,
            VmType::VM_T_BARE_MATEL_APP => 1,
            VmType::VM_T_FREERTOS => 2,
        }
    }
}

/// The kinds of device the hypervisor emulates.
#[allow(non_camel_case_types)]
#[derive(Clone, Copy, PartialEq, Eq, Structural, Debug)]
pub enum EmuDeviceType {
    EMU_DEVICE_T_CONSOLE,
    EMU_DEVICE_T_GICD,
    EMU_DEVICE_T_GPPT,
    EMU_DEVICE_T_VIRTIO_BLK,
    EMU_DEVICE_T_VIRTIO_NET,
    EMU_DEVICE_T_VIRTIO_CONSOLE,
    EMU_DEVICE_T_SHYPER,
    EMU_DEVICE_T_VIRTIO_BLK_MEDIATED,
    EMU_DEVICE_T_IOMMU,
    EMU_DEVICE_T_SRE,
    EMU_DEVICE_T_SGIR,
    EMU_DEVICE_T_GICR,
    EMU_DEVICE_T_META,
    EMU_DEVICE_T_PLIC,
}

/// The number of an emulated device type, in declaration order.
pub open spec fn emu_device_type_code(t: EmuDeviceType) -> u64 {
    match t {
        EmuDeviceType::EMU_DEVICE_T_CONSOLE => 0,
        EmuDeviceType::EMU_DEVICE_T_GICD => 1,
        EmuDeviceType::EMU_DEVICE_T_GPPT => 2,
        EmuDeviceType::EMU_DEVICE_T_VIRTIO_BLK => 3,
        EmuDeviceType::EMU_DEVICE_T_VIRTIO_NET => 4,
        EmuDeviceType::EMU_DEVICE_T_VIRTIO_CONSOLE => 5,
        EmuDeviceType::EMU_DEVICE_T_SHYPER => 6,
        EmuDeviceType::EMU_DEVICE_T_VIRTIO_BLK_MEDIATED => 7,
        EmuDeviceType::EMU_DEVICE_T_IOMMU => 8,
        EmuDeviceType::EMU_DEVICE_T_SRE => 9,
        EmuDeviceType::EMU_DEVICE_T_SGIR => 10,
        EmuDeviceType::EMU_DEVICE_T_GICR => 11,
        EmuDeviceType::EMU_DEVICE_T_META => 12,
        EmuDeviceType::EMU_DEVICE_T_PLIC => 13,
    }
}

impl EmuDeviceType {
    /// The number the hypervisor knows this device type by.
    pub fn code(&self) -> (r: u64)
        ensures
            r == emu_device_type_code(*self),
    {
        match self {
            EmuDeviceType::EMU_DEVICE_T_CONSOLE => 0,
            EmuDeviceType::EMU_DEVICE_T_GICD => 1,
            EmuDeviceType::EMU_DEVICE_T_GPPT => 2,
            EmuDeviceType::EMU_DEVICE_T_VIRTIO_BLK => 3,
            EmuDeviceType::EMU_DEVICE_T_VIRTIO_NET => 4,
            EmuDeviceType::EMU_DEVICE_T_VIRTIO_CONSOLE => 5,
            EmuDeviceType::EMU_DEVICE_T_SHYPER => 6,
            EmuDeviceType::EMU_DEVICE_T_VIRTIO_BLK_MEDIATED => 7,
            EmuDeviceType::EMU_DEVICE_T_IOMMU => 8,
            EmuDeviceType::EMU_DEVICE_T_SRE => 9,
            EmuDeviceType::EMU_DEVICE_T_SGIR => 10,
            EmuDeviceType::EMU_DEVICE_T_GICR => 11,
            EmuDeviceType::EMU_DEVICE_T_META => 12,
            EmuDeviceType::EMU_DEVICE_T_PLIC => 13,
        }
    }
}

/// The kinds of device that a VM's device tree describes.
#[allow(non_camel_case_types)]
#[derive(Clone, Copy, PartialEq, Eq, Structural, Debug)]
pub enum DtbDeviceType {
    DTB_DEVICE_T_CONSOLE,
    DTB_DEVICE_T_GICD,
    DTB_DEVICE_T_GICC,
    DTB_DEVICE_T_GICR,
    DTB_DEVICE_T_PLIC,
}

/// The number of a device tree device type, in declaration order.
pub open spec fn dtb_device_type_code(t: DtbDeviceType) -> u64 {
    match t {
        DtbDeviceType::DTB_DEVICE_T_CONSOLE => 0,
        DtbDeviceType::DTB_DEVICE_T_GICD => 1,
        DtbDeviceType::DTB_DEVICE_T_GICC => 2,
        DtbDeviceType::DTB_DEVICE_T_GICR => 3,
        DtbDeviceType::DTB_DEVICE_T_PLIC => 4,
    }
}

impl DtbDeviceType {
    /// The number the hypervisor knows this device type by.
    pub fn code(&self) -> (r: u64)
        ensures
            r == dtb_device_type_code(*self),
    {
        match self {
            DtbDeviceType::DTB_DEVICE_T_CONSOLE => 0,
            DtbDeviceType::DTB_DEVICE_T_GICD => 1,
            DtbDeviceType::DTB_DEVICE_T_GICC => 2,
            DtbDeviceType::DTB_DEVICE_T_GICR => 3,
            DtbDeviceType::DTB_DEVICE_T_PLIC => 4,
        }
    }
}

/// Where the VM's kernel, device tree and ramdisk come from and go.
pub struct VmImageConfig {
    pub kernel_filename: String,
    pub kernel_load_ipa: u64,
    pub kernel_entry_point: u64,
    pub device_tree_filename: String,
    pub device_tree_load_ipa: u64,
    pub ramdisk_filename: String,
    pub ramdisk_load_ipa: u64,
}

/// A region of guest-physical memory.
pub struct MemoryRegion {
    pub ipa_start: u64,
    pub length: u64,
}

/// The VM's memory: its regions, and optionally its cache colors and budget.
pub struct VmMemoryConfig {
    pub region: Vec<MemoryRegion>,
    pub colors: Option<Vec<u64>>,
    pub budget: Option<u32>,
}

/// The VM's CPUs: how many, which physical ones, and the main one.
pub struct VmCpuConfig {
    pub num: u32,
    pub allocate_bitmap: u32,
    pub master: i32,
}

/// The devices the hypervisor emulates for the VM.
pub struct VmEmulatedDeviceConfig {
    pub emulated_device_list: Vec<EmulatedDevice>,
}

/// One emulated device.
pub struct EmulatedDevice {
    pub name: String,
    pub base_ipa: u64,
    pub length: u64,
    pub irq_id: usize,
    pub cfg_num: usize,
    pub cfg_list: Vec<u64>,
    pub emu_type: EmuDeviceType,
}

/// The physical devices handed through to the VM.
pub struct VmPassthroughDeviceConfig {
    pub passthrough_device_list: Vec<PassthroughDevice>,
}

/// One device handed through.
pub struct PassthroughDevice {
    pub name: String,
    pub base_pa: u64,
    pub base_ipa: u64,
    pub length: u64,
    pub smmu_id: Option<usize>,
    pub irq_num: usize,
    pub irq_list: Vec<usize>,
}

/// The devices written into the VM's device tree.
pub struct VmDtbDeviceConfig {
    pub dtb_device_list: Vec<DtbDevice>,
}

/// One device of the VM's device tree.
pub struct DtbDevice {
    pub name: String,
    pub dtb_type: DtbDeviceType,
    pub irq_num: usize,
    pub irq_list: Vec<usize>,
    pub addr_region_ipa: u64,
    pub addr_region_length: u64,
}

/// A whole VM configuration file.
pub struct VmConfigEntry {
    pub name: String,
    pub vm_type: VmType,
    pub cmdline: String,
    pub image: VmImageConfig,
    pub memory: VmMemoryConfig,
    pub cpu: VmCpuConfig,
    pub emulated_device: VmEmulatedDeviceConfig,
    pub passthrough_device: VmPassthroughDeviceConfig,
    pub dtb_device: VmDtbDeviceConfig,
}


/// Why a `0x`- or `0b`-prefixed field of the configuration file is not a number.
#[derive(Clone, Copy, PartialEq, Eq, Structural, Debug)]
pub enum PrefixedNumberError {
    /// The text, once trimmed, is neither "0" nor longer than two characters.
    TooShort,
    /// The text does not begin with its prefix (`0x` or `0b`).
    NoPrefix,
    /// The text after the prefix is not a number of the field's radix and size.
    Number(NumParseError),
}

/// Whether `t` begins with `0` followed by `letter`.
pub open spec fn has_prefix(t: Seq<char>, letter: char) -> bool {
    t.len() >= 2 && t[0] == '0' && t[1] == letter
}

/// What a prefixed parse says of the digits after the prefix: its result, or
/// its number error; `None` for an error about the prefix.
pub open spec fn number_part<T>(r: Result<T, PrefixedNumberError>) -> Option<Result<T, NumParseError>> {
    match r {
        Ok(v) => Some(Ok(v)),
        Err(PrefixedNumberError::Number(e)) => Some(Err(e)),
        Err(_) => None,
    }
}

/// Splits off the first two characters of `t`.
fn after_prefix(t: &str) -> (rest: &str)
    requires
        t@.len() >= 2,
    ensures
        rest@ == t@.skip(2),
{
    let n = t.unicode_len();
    let rest = t.substring_char(2, n);
    assert(rest@ =~= t@.skip(2));
    rest
}

/// Whether `t` begins with `0` followed by `letter`.
fn starts_with_prefix(t: &str, letter: char) -> (b: bool)
    ensures
        b == has_prefix(t@, letter),
{
    t.unicode_len() >= 2 && t.get_char(0) == '0' && t.get_char(1) == letter
}

/// Reads a hexadecimal field of the configuration file: the trimmed text is
/// "0", or `0x` followed by hexadecimal digits of a `u64`.
pub fn parse_hex_string(value: &str) -> (r: Result<u64, PrefixedNumberError>)
    ensures
        trim(value@) == seq!['0'] ==> r == Ok::<u64, PrefixedNumberError>(0),
        trim(value@) != seq!['0'] && trim(value@).len() <= 2 ==> r == Err::<u64, PrefixedNumberError>(
            PrefixedNumberError::TooShort,
        ),
        trim(value@).len() > 2 && !has_prefix(trim(value@), 'x') ==> r == Err::<u64, PrefixedNumberError>(
            PrefixedNumberError::NoPrefix,
        ),
        trim(value@).len() > 2 && has_prefix(trim(value@), 'x') ==> number_part(r) is Some && parse_result_matches(
            number_part(r)->0,
            |v: u64| v as nat,
            trim(value@).skip(2),
            16,
            u64::MAX as nat,
        ),
{
    let t = trim_str(value);
    let n = t.unicode_len();
    if n == 1 && t.get_char(0) == '0' {
        assert(t@ =~= seq!['0']);
        return Ok(0);
    }
    assert(t@ != seq!['0']) by {
        if t@ == seq!['0'] {
            assert(t@.len() == 1 && t@[0] == '0');
        }
    }
    if n <= 2 {
        return Err(PrefixedNumberError::TooShort);
    }
    if !starts_with_prefix(t, 'x') {
        return Err(PrefixedNumberError::NoPrefix);
    }
    let rest = after_prefix(t);
    match u64_from_str_radix(rest, 16) {
        Ok(v) => Ok(v),
        Err(e) => Err(PrefixedNumberError::Number(e)),
    }
}

/// Reads a binary field of the configuration file: `0b` followed by binary
/// digits that fit in 32 bits.
pub fn parse_binary_string(value: &str) -> (r: Result<u32, PrefixedNumberError>)
    ensures
        !has_prefix(value@, 'b') ==> r == Err::<u32, PrefixedNumberError>(PrefixedNumberError::NoPrefix),
        has_prefix(value@, 'b') ==> number_part(r) is Some && parse_result_matches(
            number_part(r)->0,
            |v: u32| v as nat,
            value@.skip(2),
            2,
            u32::MAX as nat,
        ),
{
    if !starts_with_prefix(value, 'b') {
        return Err(PrefixedNumberError::NoPrefix);
    }
    let rest = after_prefix(value);
    match u32_from_str_radix(rest, 2) {
        Ok(v) => Ok(v),
        Err(e) => Err(PrefixedNumberError::Number(e)),
    }
}

/// One element of the `cfg_list` array of an emulated device, as the JSON
/// reader found it.
pub enum CfgListItem {
    /// A number that fits in a `u64`.
    Unsigned(u64),
    /// Any other number.
    OtherNumber,
    /// A string.
    Text(String),
    /// Anything else.
    Other,
}

/// Why a `cfg_list` cannot be read.
#[derive(PartialEq, Eq, Debug)]
pub enum CfgListError {
    /// The element at this index is a number that is not a `u64`.
    NotU64(usize),
    /// A string element is not a number; the message of `string_to_u64`.
    BadString(String),
    /// The element at this index is neither a number nor a string.
    NotNumOrString(usize),
    /// The value is not an array.
    NotArray,
}

/// Whether `string_to_u64` accepts `s`.
pub open spec fn string_number_ok(s: Seq<char>) -> bool {
    parses_as(number_digits(trim(s)), number_radix(trim(s)), u64::MAX as nat)
}

/// The number `string_to_u64` reads in `s`.
pub open spec fn string_number_value(s: Seq<char>) -> nat {
    digits_value(unsigned_digits(number_digits(trim(s))), number_radix(trim(s)))
}

/// Whether the element is a `u64` or a string that reads as one.
pub open spec fn cfg_item_ok(item: CfgListItem) -> bool {
    match item {
        CfgListItem::Unsigned(_) => true,
        CfgListItem::Text(s) => string_number_ok(s@),
        _ => false,
    }
}

/// The value of an element that `cfg_item_ok` accepts.
pub open spec fn cfg_item_value(item: CfgListItem) -> nat {
    match item {
        CfgListItem::Unsigned(n) => n as nat,
        CfgListItem::Text(s) => string_number_value(s@),
        _ => 0,
    }
}

/// Whether `e` is the error for the element `item` at index `j`, which
/// `cfg_item_ok` refuses.
pub open spec fn cfg_item_error(item: CfgListItem, j: int, e: CfgListError) -> bool {
    match item {
        CfgListItem::OtherNumber => e == CfgListError::NotU64(j as usize),
        CfgListItem::Text(s) => e is BadString && e->BadString_0@ == crate::cli::util::number_error_message(trim(s@)),
        CfgListItem::Other => e == CfgListError::NotNumOrString(j as usize),
        CfgListItem::Unsigned(_) => false,
    }
}

/// Reads the `cfg_list` of an emulated device: an array whose elements are
/// `u64` numbers or strings that `string_to_u64` reads. `None` stands for a
/// value that is not an array. The first element that fails decides the error.
pub fn parse_cfg_list(value: Option<Vec<CfgListItem>>) -> (r: Result<Vec<u64>, CfgListError>)
    ensures
        value is None ==> r == Err::<Vec<u64>, CfgListError>(CfgListError::NotArray),
        value is Some ==> (r is Ok <==> forall|i: int|
            0 <= i < value->0@.len() ==> #[trigger] cfg_item_ok(value->0@[i])),
        r is Ok ==> value is Some && r->Ok_0@.len() == value->0@.len() && forall|i: int|
            0 <= i < r->Ok_0@.len() ==> r->Ok_0@[i] == cfg_item_value(value->0@[i]),
        r is Err && value is Some ==> exists|j: int|
            0 <= j < value->0@.len() && (forall|k: int| 0 <= k < j ==> cfg_item_ok(value->0@[k]))
                && !#[trigger] cfg_item_ok(value->0@[j]) && cfg_item_error(value->0@[j], j, r->Err_0),
{
    match value {
        None => Err(CfgListError::NotArray),
        Some(items) => {
            let mut out: Vec<u64> = Vec::new();
            let mut i: usize = 0;
            while i < items.len()
                invariant
                    value == Some(items),
                    i <= items@.len(),
                    out@.len() == i,
                    forall|k: int| 0 <= k < i ==> cfg_item_ok(#[trigger] items@[k]),
                    forall|k: int| 0 <= k < i ==> out@[k] == cfg_item_value(#[trigger] items@[k]),
                decreases items@.len() - i,
            {
                let ghost item = items@[i as int];
                assert(value->0@[i as int] == item);
                match &items[i] {
                    CfgListItem::Unsigned(n) => {
                        out.push(*n);
                    },
                    CfgListItem::OtherNumber => {
                        assert(!cfg_item_ok(item));
                        assert(cfg_item_error(item, i as int, CfgListError::NotU64(i)));
                        return Err(CfgListError::NotU64(i));
                    },
                    CfgListItem::Text(s) => {
                        match string_to_u64(s.clone()) {
                            Ok(n) => {
                                out.push(n);
                            },
                            Err(msg) => {
                                assert(!cfg_item_ok(item));
                                return Err(CfgListError::BadString(msg));
                            },
                        }
                    },
                    CfgListItem::Other => {
                        assert(!cfg_item_ok(item));
                        assert(cfg_item_error(item, i as int, CfgListError::NotNumOrString(i)));
                        return Err(CfgListError::NotNumOrString(i));
                    },
                }
                i = i + 1;
            }
            Ok(out)
        },
    }
}


/// The size of the upload request at `offset` of a file of `file_size` bytes:
/// a whole buffer, or what is left of the file if that is less.
pub open spec fn chunk_size(file_size: nat, offset: nat) -> nat {
    if file_size - offset > CACHE_MAX {
        CACHE_MAX as nat
    } else {
        (file_size - offset) as nat
    }
}

/// The number of upload requests for a file of `file_size` bytes: one per
/// buffer, the last one possibly partial.
pub open spec fn chunk_count(file_size: nat) -> nat {
    if file_size == 0 {
        0
    } else {
        ((file_size - 1) as nat) / (CACHE_MAX as nat) + 1
    }
}

/// What the upload requests of a file say: each one names the VM, the whole
/// file size and the buffer, and the `i`-th one covers the bytes from
/// `i * CACHE_MAX` up to the next buffer or the end of the file.
pub open spec fn upload_requests_of(
    r: Seq<VmLoadKernelImgFileArg>,
    vmid: u64,
    file_size: u64,
    cache_ipa: u64,
) -> bool {
    &&& r.len() == chunk_count(file_size as nat)
    &&& forall|i: int|
        0 <= i < r.len() ==> {
            &&& #[trigger] r[i].vmid == vmid
            &&& r[i].img_size == file_size
            &&& r[i].cache_ipa == cache_ipa
            &&& r[i].load_offset == i * CACHE_MAX
            &&& r[i].load_size == chunk_size(file_size as nat, (i * CACHE_MAX) as nat)
        }
}

proof fn lemma_chunk_count(file_size: nat, k: nat)
    ensures
        k * CACHE_MAX < file_size ==> k < chunk_count(file_size),
        k * CACHE_MAX >= file_size ==> k >= chunk_count(file_size),
{
    let c = CACHE_MAX as nat;
    if file_size > 0 {
        let q = ((file_size - 1) as nat) / c;
        assert(q * c <= file_size - 1 < q * c + c) by (nonlinear_arith)
            requires
                q == ((file_size - 1) as nat) / c,
                c > 0,
                file_size >= 1,
        ;
        if k * c < file_size && k > q {
            assert(k * c >= (q + 1) * c) by (nonlinear_arith)
                requires
                    k >= q + 1,
                    c > 0,
            ;
            assert((q + 1) * c == q * c + c) by (nonlinear_arith);
        }
        if k * c >= file_size && k < q + 1 {
            assert(k * c <= q * c) by (nonlinear_arith)
                requires
                    k <= q,
                    c > 0,
            ;
        }
    }
}

/// The upload requests for a file of `file_size` bytes through a buffer at
/// `cache_ipa`: the file is copied in buffer-sized batches, at offsets 0,
/// `CACHE_MAX`, ..., each batch a whole buffer or what is left of the file.
pub fn upload_file_requests(vmid: u64, file_size: u64, cache_ipa: u64) -> (r: Vec<
    VmLoadKernelImgFileArg,
>)
    ensures
        upload_requests_of(r@, vmid, file_size, cache_ipa),
{
    let mut out: Vec<VmLoadKernelImgFileArg> = Vec::new();
    let mut copied: u64 = 0;
    while copied < file_size
        invariant
            copied <= file_size,
            out@.len() * CACHE_MAX >= copied,
            copied < file_size ==> copied == out@.len() * CACHE_MAX,
            out@.len() > 0 ==> (out@.len() - 1) * CACHE_MAX < file_size,
            forall|i: int|
                0 <= i < out@.len() ==> {
                    &&& #[trigger] out@[i].vmid == vmid
                    &&& out@[i].img_size == file_size
                    &&& out@[i].cache_ipa == cache_ipa
                    &&& out@[i].load_offset == i * CACHE_MAX
                    &&& out@[i].load_size == chunk_size(file_size as nat, (i * CACHE_MAX) as nat)
                },
        decreases file_size - copied,
    {
        let ghost k = out@.len();
        let ghost before = out@;
        let coping_size: u64 = if file_size - copied > CACHE_MAX as u64 {
            CACHE_MAX as u64
        } else {
            file_size - copied
        };
        out.push(
            VmLoadKernelImgFileArg {
                vmid,
                img_size: file_size,
                cache_ipa,
                load_offset: copied,
                load_size: coping_size,
            },
        );
        proof {
            assert((k + 1) * CACHE_MAX == k * CACHE_MAX + CACHE_MAX) by (nonlinear_arith);
            assert(copied == k * CACHE_MAX);
            assert(coping_size == chunk_size(file_size as nat, (k * CACHE_MAX) as nat));
            assert forall|i: int| 0 <= i < out@.len() implies {
                &&& #[trigger] out@[i].vmid == vmid
                &&& out@[i].img_size == file_size
                &&& out@[i].cache_ipa == cache_ipa
                &&& out@[i].load_offset == i * CACHE_MAX
                &&& out@[i].load_size == chunk_size(file_size as nat, (i * CACHE_MAX) as nat)
            } by {
                if i < k {
                    assert(out@[i] == before[i]);
                } else {
                    assert(i == k);
                    assert(out@[i].load_offset == copied);
                    assert(out@[i].load_size == coping_size);
                }
            }
        }
        copied = copied + coping_size;
    }
    proof {
        let n = out@.len();
        if n == 0 {
            lemma_chunk_count(file_size as nat, 0);
        } else {
            lemma_chunk_count(file_size as nat, (n - 1) as nat);
            assert(n * CACHE_MAX == (n - 1) * CACHE_MAX + CACHE_MAX) by (nonlinear_arith);
            assert(n * CACHE_MAX >= file_size);
            lemma_chunk_count(file_size as nat, n as nat);
        }
    }
    out
}

/// Uploads a VM's kernel image: the hypercall mode and the requests for an
/// image of `file_size` bytes through the buffer at `cache_ipa`.
pub fn copy_img_file_to_memory(vmid: u64, file_size: u64, cache_ipa: u64) -> (r: (
    usize,
    Vec<VmLoadKernelImgFileArg>,
))
    ensures
        r.0 == generate_hvc_mode_spec(HVC_CONFIG, HVC_CONFIG_UPLOAD_KERNEL_IMAGE),
        upload_requests_of(r.1@, vmid, file_size, cache_ipa),
{
    (generate_hvc_mode(HVC_CONFIG, HVC_CONFIG_UPLOAD_KERNEL_IMAGE), upload_file_requests(vmid, file_size, cache_ipa))
}

/// Uploads a VM's device tree: the hypercall mode and the requests for a
/// device tree of `file_size` bytes through the buffer at `cache_ipa`.
pub fn copy_device_tree_to_memory(vmid: u64, file_size: u64, cache_ipa: u64) -> (r: (
    usize,
    Vec<VmLoadKernelImgFileArg>,
))
    ensures
        r.0 == generate_hvc_mode_spec(HVC_CONFIG, HVC_CONFIG_UPLOAD_DEVICE_TREE),
        upload_requests_of(r.1@, vmid, file_size, cache_ipa),
{
    (generate_hvc_mode(HVC_CONFIG, HVC_CONFIG_UPLOAD_DEVICE_TREE), upload_file_requests(vmid, file_size, cache_ipa))
}


/// One hypercall of the configuration of a new VM, in the order they are sent.
#[derive(Clone, Copy, PartialEq, Eq, Structural, Debug)]
pub enum ConfigStep {
    /// Add the memory region at this index of `memory.region`.
    MemoryRegion(usize),
    /// Set the cache colors and memory budget.
    MemoryColorBudget,
    /// Set the CPUs.
    Cpu,
    /// Add the emulated device at this index.
    EmulatedDevice(usize),
    /// Add the region of the passthrough device at this index.
    PassthroughRegion(usize),
    /// Add all passthrough interrupts.
    PassthroughIrqs,
    /// Add all passthrough stream ids.
    PassthroughStreamIds,
    /// Add the device tree device at this index.
    DtbDevice(usize),
    /// Upload the device tree file.
    UploadDeviceTree,
    /// Upload the kernel image file.
    UploadKernelImage,
    /// Record the kernel image file name in the kernel module.
    KernelImageName,
}

/// The hypercall mode word of a configuration step (the upload steps use it
/// for each of their requests).
pub open spec fn config_step_event(step: ConfigStep) -> usize {
    match step {
        ConfigStep::MemoryRegion(_) => generate_hvc_mode_spec(HVC_CONFIG, HVC_CONFIG_MEMORY_REGION),
        ConfigStep::MemoryColorBudget => generate_hvc_mode_spec(HVC_CONFIG, HVC_CONFIG_MEMORY_COLOR_BUDGET),
        ConfigStep::Cpu => generate_hvc_mode_spec(HVC_CONFIG, HVC_CONFIG_CPU),
        ConfigStep::EmulatedDevice(_) => generate_hvc_mode_spec(HVC_CONFIG, HVC_CONFIG_EMULATED_DEVICE),
        ConfigStep::PassthroughRegion(_) => generate_hvc_mode_spec(HVC_CONFIG, HVC_CONFIG_PASSTHROUGH_DEVICE_REGION),
        ConfigStep::PassthroughIrqs => generate_hvc_mode_spec(HVC_CONFIG, HVC_CONFIG_PASSTHROUGH_DEVICE_IRQS),
        ConfigStep::PassthroughStreamIds => generate_hvc_mode_spec(HVC_CONFIG, HVC_CONFIG_PASSTHROUGH_DEVICE_STREAMS_IDS),
        ConfigStep::DtbDevice(_) => generate_hvc_mode_spec(HVC_CONFIG, HVC_CONFIG_DTB_DEVICE),
        ConfigStep::UploadDeviceTree => generate_hvc_mode_spec(HVC_CONFIG, HVC_CONFIG_UPLOAD_DEVICE_TREE),
        ConfigStep::UploadKernelImage => generate_hvc_mode_spec(HVC_CONFIG, HVC_CONFIG_UPLOAD_KERNEL_IMAGE),
        ConfigStep::KernelImageName => generate_hvc_mode_spec(IOCTL_SYS, IOCTL_SYS_SET_KERNEL_IMG_NAME),
    }
}

/// Whether two configuration steps are of the same kind (index aside).
pub open spec fn same_step_kind(a: ConfigStep, b: ConfigStep) -> bool {
    ||| a is MemoryRegion && b is MemoryRegion
    ||| a is MemoryColorBudget && b is MemoryColorBudget
    ||| a is Cpu && b is Cpu
    ||| a is EmulatedDevice && b is EmulatedDevice
    ||| a is PassthroughRegion && b is PassthroughRegion
    ||| a is PassthroughIrqs && b is PassthroughIrqs
    ||| a is PassthroughStreamIds && b is PassthroughStreamIds
    ||| a is DtbDevice && b is DtbDevice
    ||| a is UploadDeviceTree && b is UploadDeviceTree
    ||| a is UploadKernelImage && b is UploadKernelImage
    ||| a is KernelImageName && b is KernelImageName
}

/// Each configuration step goes out as the hypercall named for it: function
/// `HVC_CONFIG` in the high byte and the step's configuration event in the
/// low byte (the kernel image name is the manager's own `IOCTL_SYS` request),
/// so steps of different kinds never share a mode word.
pub proof fn law_config_step_events(a: ConfigStep, b: ConfigStep)
    ensures
        a is MemoryRegion ==> config_step_event(a) == HVC_CONFIG * 256 + HVC_CONFIG_MEMORY_REGION,
        a is MemoryColorBudget ==> config_step_event(a) == HVC_CONFIG * 256 + HVC_CONFIG_MEMORY_COLOR_BUDGET,
        a is Cpu ==> config_step_event(a) == HVC_CONFIG * 256 + HVC_CONFIG_CPU,
        a is EmulatedDevice ==> config_step_event(a) == HVC_CONFIG * 256 + HVC_CONFIG_EMULATED_DEVICE,
        a is PassthroughRegion ==> config_step_event(a) == HVC_CONFIG * 256 + HVC_CONFIG_PASSTHROUGH_DEVICE_REGION,
        a is PassthroughIrqs ==> config_step_event(a) == HVC_CONFIG * 256 + HVC_CONFIG_PASSTHROUGH_DEVICE_IRQS,
        a is PassthroughStreamIds ==> config_step_event(a) == HVC_CONFIG * 256
            + HVC_CONFIG_PASSTHROUGH_DEVICE_STREAMS_IDS,
        a is DtbDevice ==> config_step_event(a) == HVC_CONFIG * 256 + HVC_CONFIG_DTB_DEVICE,
        a is UploadDeviceTree ==> config_step_event(a) == HVC_CONFIG * 256 + HVC_CONFIG_UPLOAD_DEVICE_TREE,
        a is UploadKernelImage ==> config_step_event(a) == HVC_CONFIG * 256 + HVC_CONFIG_UPLOAD_KERNEL_IMAGE,
        a is KernelImageName ==> config_step_event(a) == IOCTL_SYS * 256 + IOCTL_SYS_SET_KERNEL_IMG_NAME,
        config_step_event(a) == config_step_event(b) ==> same_step_kind(a, b),
{
    lemma_hvc_mode_bits();
}

impl ConfigStep {
    /// The hypercall mode word this step is sent with.
    pub fn event(&self) -> (r: usize)
        ensures
            r == config_step_event(*self),
    {
        match self {
            ConfigStep::MemoryRegion(_) => generate_hvc_mode(HVC_CONFIG, HVC_CONFIG_MEMORY_REGION),
            ConfigStep::MemoryColorBudget => generate_hvc_mode(HVC_CONFIG, HVC_CONFIG_MEMORY_COLOR_BUDGET),
            ConfigStep::Cpu => generate_hvc_mode(HVC_CONFIG, HVC_CONFIG_CPU),
            ConfigStep::EmulatedDevice(_) => generate_hvc_mode(HVC_CONFIG, HVC_CONFIG_EMULATED_DEVICE),
            ConfigStep::PassthroughRegion(_) => generate_hvc_mode(HVC_CONFIG, HVC_CONFIG_PASSTHROUGH_DEVICE_REGION),
            ConfigStep::PassthroughIrqs => generate_hvc_mode(HVC_CONFIG, HVC_CONFIG_PASSTHROUGH_DEVICE_IRQS),
            ConfigStep::PassthroughStreamIds => generate_hvc_mode(HVC_CONFIG, HVC_CONFIG_PASSTHROUGH_DEVICE_STREAMS_IDS),
            ConfigStep::DtbDevice(_) => generate_hvc_mode(HVC_CONFIG, HVC_CONFIG_DTB_DEVICE),
            ConfigStep::UploadDeviceTree => generate_hvc_mode(HVC_CONFIG, HVC_CONFIG_UPLOAD_DEVICE_TREE),
            ConfigStep::UploadKernelImage => generate_hvc_mode(HVC_CONFIG, HVC_CONFIG_UPLOAD_KERNEL_IMAGE),
            ConfigStep::KernelImageName => generate_hvc_mode(IOCTL_SYS, IOCTL_SYS_SET_KERNEL_IMG_NAME),
        }
    }
}

/// The passthrough interrupts of the devices `ds`, one list after another.
pub open spec fn passthrough_irqs_of(ds: Seq<PassthroughDevice>) -> Seq<u64>
    decreases ds.len(),
{
    if ds.len() == 0 {
        Seq::empty()
    } else {
        passthrough_irqs_of(ds.drop_last()) + ds.last().irq_list@.map_values(|x: usize| x as u64)
    }
}

/// The SMMU stream ids of the devices `ds` that have one, in order.
pub open spec fn passthrough_stream_ids_of(ds: Seq<PassthroughDevice>) -> Seq<u64>
    decreases ds.len(),
{
    if ds.len() == 0 {
        Seq::empty()
    } else {
        passthrough_stream_ids_of(ds.drop_last()) + match ds.last().smmu_id {
            Some(id) => seq![id as u64],
            None => Seq::empty(),
        }
    }
}

/// Gathers the interrupts of all passthrough devices of a configuration.
pub fn passthrough_irqs(cfg: &VmPassthroughDeviceConfig) -> (r: Vec<u64>)
    ensures
        r@ == passthrough_irqs_of(cfg.passthrough_device_list@),
{
    let ds = &cfg.passthrough_device_list;
    let mut out: Vec<u64> = Vec::new();
    let mut i: usize = 0;
    while i < ds.len()
        invariant
            i <= ds@.len(),
            out@ == passthrough_irqs_of(ds@.take(i as int)),
        decreases ds@.len() - i,
    {
        let irqs = &ds[i].irq_list;
        let ghost before = out@;
        let mut j: usize = 0;
        while j < irqs.len()
            invariant
                j <= irqs@.len(),
                out@ == before + irqs@.take(j as int).map_values(|x: usize| x as u64),
            decreases irqs@.len() - j,
        {
            out.push(irqs[j] as u64);
            assert(irqs@.take(j + 1).map_values(|x: usize| x as u64) =~= irqs@.take(j as int).map_values(
                |x: usize| x as u64,
            ).push(irqs@[j as int] as u64));
            j = j + 1;
        }
        assert(ds@.take(i + 1).drop_last() =~= ds@.take(i as int));
        assert(irqs@.take(j as int) =~= irqs@);
        i = i + 1;
    }
    assert(ds@.take(i as int) =~= ds@);
    out
}

/// Gathers the SMMU stream ids of the passthrough devices that have one.
pub fn passthrough_stream_ids(cfg: &VmPassthroughDeviceConfig) -> (r: Vec<u64>)
    ensures
        r@ == passthrough_stream_ids_of(cfg.passthrough_device_list@),
{
    let ds = &cfg.passthrough_device_list;
    let mut out: Vec<u64> = Vec::new();
    let mut i: usize = 0;
    while i < ds.len()
        invariant
            i <= ds@.len(),
            out@ == passthrough_stream_ids_of(ds@.take(i as int)),
        decreases ds@.len() - i,
    {
        assert(ds@.take(i + 1).drop_last() =~= ds@.take(i as int));
        match ds[i].smmu_id {
            Some(id) => {
                out.push(id as u64);
            },
            None => {
                assert(out@ =~= out@ + Seq::<u64>::empty());
            },
        }
        i = i + 1;
    }
    assert(ds@.take(i as int) =~= ds@);
    out
}

/// The steps `0..n` of one kind: `f(0), f(1), ..., f(n - 1)`.
pub open spec fn indexed_steps(n: nat, f: spec_fn(usize) -> ConfigStep) -> Seq<ConfigStep> {
    Seq::new(n, |i: int| f(i as usize))
}

/// Whether a VM's `device_tree_filename` names a file: it is neither empty nor
/// `-`, which the configuration file writes for a VM without a device tree.
pub open spec fn names_device_tree(name: Seq<char>) -> bool {
    name.len() > 0 && name != seq!['-']
}

/// Whether a VM's `device_tree_filename` names a file.
pub fn has_device_tree(name: &str) -> (b: bool)
    ensures
        b == names_device_tree(name@),
{
    let n = name.unicode_len();
    if n == 0 {
        return false;
    }
    if n == 1 && name.get_char(0) == '-' {
        assert(name@ =~= seq!['-']);
        return false;
    }
    assert(name@ != seq!['-']) by {
        if name@ == seq!['-'] {
            assert(name@.len() == 1 && name@[0] == '-');
        }
    }
    true
}

/// The hypercalls that configure a new VM from its configuration file, in order:
/// its memory regions; its colors and budget, if either is given; its CPUs;
/// its emulated devices; its passthrough regions, then all their interrupts
/// and all their stream ids, where there are any; its device tree devices;
/// the device tree upload, if it names a file; the kernel upload; and the
/// kernel file name.
pub open spec fn config_steps(cfg: VmConfigEntry) -> Seq<ConfigStep> {
    let pt = cfg.passthrough_device.passthrough_device_list@;
    indexed_steps(cfg.memory.region@.len(), |i: usize| ConfigStep::MemoryRegion(i)) + (if cfg.memory.colors is Some
        || cfg.memory.budget is Some {
        seq![ConfigStep::MemoryColorBudget]
    } else {
        Seq::empty()
    }) + seq![ConfigStep::Cpu] + indexed_steps(
        cfg.emulated_device.emulated_device_list@.len(),
        |i: usize| ConfigStep::EmulatedDevice(i),
    ) + indexed_steps(pt.len(), |i: usize| ConfigStep::PassthroughRegion(i)) + (if passthrough_irqs_of(pt).len()
        > 0 {
        seq![ConfigStep::PassthroughIrqs]
    } else {
        Seq::empty()
    }) + (if passthrough_stream_ids_of(pt).len() > 0 {
        seq![ConfigStep::PassthroughStreamIds]
    } else {
        Seq::empty()
    }) + indexed_steps(cfg.dtb_device.dtb_device_list@.len(), |i: usize| ConfigStep::DtbDevice(i)) + (
    if names_device_tree(cfg.image.device_tree_filename@) {
        seq![ConfigStep::UploadDeviceTree]
    } else {
        Seq::empty()
    }) + seq![ConfigStep::UploadKernelImage, ConfigStep::KernelImageName]
}

fn push_indexed(out: &mut Vec<ConfigStep>, n: usize, kind: u8)
    requires
        kind < 4,
    ensures
        final(out)@ == old(out)@ + indexed_steps(
            n as nat,
            if kind == 0 {
                |i: usize| ConfigStep::MemoryRegion(i)
            } else if kind == 1 {
                |i: usize| ConfigStep::EmulatedDevice(i)
            } else if kind == 2 {
                |i: usize| ConfigStep::PassthroughRegion(i)
            } else {
                |i: usize| ConfigStep::DtbDevice(i)
            },
        ),
{
    let ghost f = if kind == 0 {
        |i: usize| ConfigStep::MemoryRegion(i)
    } else if kind == 1 {
        |i: usize| ConfigStep::EmulatedDevice(i)
    } else if kind == 2 {
        |i: usize| ConfigStep::PassthroughRegion(i)
    } else {
        |i: usize| ConfigStep::DtbDevice(i)
    };
    let ghost start = out@;
    let mut i: usize = 0;
    while i < n
        invariant
            i <= n,
            kind < 4,
            f == (if kind == 0 {
                |i: usize| ConfigStep::MemoryRegion(i)
            } else if kind == 1 {
                |i: usize| ConfigStep::EmulatedDevice(i)
            } else if kind == 2 {
                |i: usize| ConfigStep::PassthroughRegion(i)
            } else {
                |i: usize| ConfigStep::DtbDevice(i)
            }),
            out@ == start + indexed_steps(i as nat, f),
        decreases n - i,
    {
        let step = if kind == 0 {
            ConfigStep::MemoryRegion(i)
        } else if kind == 1 {
            ConfigStep::EmulatedDevice(i)
        } else if kind == 2 {
            ConfigStep::PassthroughRegion(i)
        } else {
            ConfigStep::DtbDevice(i)
        };
        assert(step == f(i));
        out.push(step);
        assert(indexed_steps((i + 1) as nat, f) =~= indexed_steps(i as nat, f).push(f(i)));
        i = i + 1;
    }
}

/// The hypercalls that configure a new VM from its configuration file, in the
/// order `config_steps` gives; the caller sends them and stops at the first
/// that fails.
pub fn config_vm_info(vm_cfg: &VmConfigEntry) -> (r: Vec<ConfigStep>)
    ensures
        r@ == config_steps(*vm_cfg),
{
    let mut out: Vec<ConfigStep> = Vec::new();
    push_indexed(&mut out, vm_cfg.memory.region.len(), 0);
    if vm_cfg.memory.colors.is_some() || vm_cfg.memory.budget.is_some() {
        out.push(ConfigStep::MemoryColorBudget);
    }
    out.push(ConfigStep::Cpu);
    push_indexed(&mut out, vm_cfg.emulated_device.emulated_device_list.len(), 1);
    push_indexed(&mut out, vm_cfg.passthrough_device.passthrough_device_list.len(), 2);
    let irqs = passthrough_irqs(&vm_cfg.passthrough_device);
    if irqs.len() > 0 {
        out.push(ConfigStep::PassthroughIrqs);
    }
    let ids = passthrough_stream_ids(&vm_cfg.passthrough_device);
    if ids.len() > 0 {
        out.push(ConfigStep::PassthroughStreamIds);
    }
    push_indexed(&mut out, vm_cfg.dtb_device.dtb_device_list.len(), 3);
    if has_device_tree(vm_cfg.image.device_tree_filename.as_str()) {
        out.push(ConfigStep::UploadDeviceTree);
    }
    out.push(ConfigStep::UploadKernelImage);
    out.push(ConfigStep::KernelImageName);
    let ghost cfg = *vm_cfg;
    assert(out@ =~= config_steps(cfg));
    out
}

/// The record naming a VM's kernel image file: the name's bytes, then NUL
/// bytes up to 32.
pub fn kernel_image_info(vm_id: u64, kernel_filename: &String) -> (r: VmKernelImageInfo)
    requires
        encode_utf8(kernel_filename@).len() < 32,
    ensures
        r.vm_id == vm_id,
        forall|i: int| 0 <= i < encode_utf8(kernel_filename@).len() ==> r.image_name@[i] == encode_utf8(kernel_filename@)[i],
        forall|i: int| encode_utf8(kernel_filename@).len() <= i < 32 ==> r.image_name@[i] == 0,
{
    let mut buf: [u8; 32] = [0u8; 32];
    let bytes = kernel_filename.as_str().as_bytes();
    let mut i: usize = 0;
    while i < bytes.len()
        invariant
            bytes@ == encode_utf8(kernel_filename@),
            bytes@.len() < 32,
            i <= bytes@.len(),
            forall|j: int| 0 <= j < i ==> buf@[j] == bytes@[j],
            forall|j: int| bytes@.len() <= j < 32 ==> buf@[j] == 0,
        decreases bytes@.len() - i,
    {
        buf[i] = bytes[i];
        i = i + 1;
    }
    VmKernelImageInfo { vm_id, image_name: buf }
}


/// The index of the first `c` in `s` at or after `i` (the length of `s` if none).
pub open spec fn find_char(s: Seq<char>, c: char, i: nat) -> nat
    decreases s.len() - i,
{
    if i >= s.len() {
        s.len()
    } else if s[i as int] == c {
        i
    } else {
        find_char(s, c, i + 1)
    }
}

proof fn lemma_find_char(t: Seq<char>, c: char, i: nat, m: nat)
    requires
        i <= m <= t.len(),
        forall|j: int| i <= j < m ==> t[j] != c,
        m == t.len() || t[m as int] == c,
    ensures
        find_char(t, c, i) == m,
    decreases m - i,
{
    if i < m {
        lemma_find_char(t, c, i + 1, m);
    }
}

/// The numbers `a, a + 1, ..., b` (none when `a > b`).
pub open spec fn color_range(a: nat, b: nat) -> Seq<u64> {
    Seq::new(if a <= b { (b - a + 1) as nat } else { 0 }, |i: int| (a + i) as u64)
}

/// The value of a decimal number that `parses_as` accepts.
pub open spec fn decimal_value(t: Seq<char>) -> nat {
    digits_value(unsigned_digits(t), 10)
}

/// What one comma-separated piece of a color list stands for: a decimal
/// color, or a range `a-b` of them split at its first `-`. `Err(Some(t))` names
/// the first number `t` that does not read; `Err(None)` is a range whose end
/// is `u64::MAX`, on which the range would overflow.
pub open spec fn color_segment(seg: Seq<char>) -> Result<Seq<u64>, Option<Seq<char>>> {
    let p = find_char(seg, '-', 0);
    if p >= seg.len() {
        if parses_as(seg, 10, u64::MAX as nat) {
            Ok(seq![decimal_value(seg) as u64])
        } else {
            Err(Some(seg))
        }
    } else {
        let a = seg.take(p as int);
        let b = seg.skip(p + 1int);
        if !parses_as(a, 10, u64::MAX as nat) {
            Err(Some(a))
        } else if !parses_as(b, 10, u64::MAX as nat) {
            Err(Some(b))
        } else if decimal_value(b) == u64::MAX {
            Err(None)
        } else {
            Ok(color_range(decimal_value(a), decimal_value(b)))
        }
    }
}

/// What a whole color list such as "0-13,14,15,32-63" stands for: its pieces,
/// split at each comma, one after another; the first piece that fails decides.
pub open spec fn memory_colors(s: Seq<char>) -> Result<Seq<u64>, Option<Seq<char>>>
    decreases s.len(),
{
    let k = find_char(s, ',', 0);
    match color_segment(s.take(k as int)) {
        Err(e) => Err(e),
        Ok(v) => if k >= s.len() {
            Ok(v)
        } else {
            match memory_colors(s.skip(k + 1int)) {
                Ok(w) => Ok(v + w),
                Err(e) => Err(e),
            }
        },
    }
}

/// `res` with `prefix` put before its colors.
pub open spec fn after_colors(prefix: Seq<u64>, res: Result<Seq<u64>, Option<Seq<char>>>) -> Result<
    Seq<u64>,
    Option<Seq<char>>,
> {
    match res {
        Ok(w) => Ok(prefix + w),
        Err(e) => Err(e),
    }
}

fn find_char_from(s: &str, c: char, from: usize) -> (k: usize)
    requires
        from <= s@.len(),
    ensures
        from <= k <= s@.len(),
        forall|j: int| from <= j < k ==> s@[j] != c,
        k == s@.len() || s@[k as int] == c,
{
    let n = s.unicode_len();
    let mut k = from;
    while k < n && s.get_char(k) != c
        invariant
            from <= k <= n,
            n == s@.len(),
            forall|j: int| from <= j < k ==> s@[j] != c,
        decreases n - k,
    {
        k = k + 1;
    }
    k
}

fn push_color_range(out: &mut Vec<u64>, a: u64, b: u64)
    requires
        b < u64::MAX,
    ensures
        final(out)@ == old(out)@ + color_range(a as nat, b as nat),
{
    let ghost start = out@;
    if a > b {
        assert(start + color_range(a as nat, b as nat) =~= start);
        return;
    }
    let mut c = a;
    while c <= b
        invariant
            b < u64::MAX,
            a <= c <= b + 1,
            out@ == start + Seq::new((c - a) as nat, |i: int| (a + i) as u64),
        decreases b + 1 - c,
    {
        out.push(c);
        assert(Seq::new((c + 1 - a) as nat, |i: int| (a + i) as u64) =~= Seq::new(
            (c - a) as nat,
            |i: int| (a + i) as u64,
        ).push(c));
        c = c + 1;
    }
    assert(Seq::new((c - a) as nat, |i: int| (a + i) as u64) =~= color_range(a as nat, b as nat));
}

fn parse_color_segment(seg: &str, out: &mut Vec<u64>) -> (r: Result<(), NumParseError>)
    requires
        color_segment(seg@) != Err::<Seq<u64>, Option<Seq<char>>>(None),
    ensures
        color_segment(seg@) is Ok <==> r is Ok,
        r is Ok ==> final(out)@ == old(out)@ + color_segment(seg@)->Ok_0,
        r is Err ==> (color_segment(seg@) matches Err(Some(bad)) && parse_result_matches(
            Err::<u64, NumParseError>(r->Err_0),
            |v: u64| v as nat,
            bad,
            10,
            u64::MAX as nat,
        )),
{
    let n = seg.unicode_len();
    let p = find_char_from(seg, '-', 0);
    proof {
        lemma_find_char(seg@, '-', 0, p as nat);
    }
    if p == n {
        match u64_from_str_radix(seg, 10) {
            Ok(v) => {
                out.push(v);
                Ok(())
            },
            Err(e) => Err(e),
        }
    } else {
        let a = seg.substring_char(0, p);
        let b = seg.substring_char(p + 1, n);
        assert(a@ =~= seg@.take(p as int));
        assert(b@ =~= seg@.skip(p + 1));
        let start = match u64_from_str_radix(a, 10) {
            Ok(v) => v,
            Err(e) => {
                return Err(e);
            },
        };
        let end = match u64_from_str_radix(b, 10) {
            Ok(v) => v,
            Err(e) => {
                return Err(e);
            },
        };
        push_color_range(out, start, end);
        Ok(())
    }
}

/// Reads a list of cache colors such as "0-13,14,15,32-63": comma-separated
/// decimal colors and inclusive ranges, in the order written. The error is
/// the one std's parsing gives for the first number that does not read.
#[verifier::rlimit(40)]
pub fn parse_memory_colors(value: &str) -> (r: Result<Vec<u64>, NumParseError>)
    requires
        memory_colors(value@) != Err::<Seq<u64>, Option<Seq<char>>>(None),
    ensures
        memory_colors(value@) is Ok <==> r is Ok,
        r is Ok ==> r->Ok_0@ == memory_colors(value@)->Ok_0,
        r is Err ==> (memory_colors(value@) matches Err(Some(bad)) && parse_result_matches(
            Err::<u64, NumParseError>(r->Err_0),
            |v: u64| v as nat,
            bad,
            10,
            u64::MAX as nat,
        )),
{
    let n = value.unicode_len();
    let mut out: Vec<u64> = Vec::new();
    let mut st: usize = 0;
    proof {
        assert(value@.skip(0) =~= value@);
        match memory_colors(value@) {
            Ok(w) => {
                assert(Seq::<u64>::empty() + w =~= w);
            },
            Err(_) => {},
        }
    }
    loop
        invariant
            st <= n,
            n == value@.len(),
            memory_colors(value@) == after_colors(out@, memory_colors(value@.skip(st as int))),
            memory_colors(value@) != Err::<Seq<u64>, Option<Seq<char>>>(None),
        decreases n - st,
    {
        let k = find_char_from(value, ',', st);
        let ghost t = value@.skip(st as int);
        proof {
            lemma_find_char(t, ',', 0, (k - st) as nat);
        }
        let seg = value.substring_char(st, k);
        assert(seg@ =~= t.take((k - st) as int));
        let ghost before = out@;
        match parse_color_segment(seg, &mut out) {
            Ok(()) => {},
            Err(e) => {
                return Err(e);
            },
        }
        if k == n {
            assert(memory_colors(t) == Ok::<Seq<u64>, Option<Seq<char>>>(color_segment(seg@)->Ok_0));
            return Ok(out);
        }
        assert(t.skip((k - st) + 1) =~= value@.skip(k + 1));
        assert(before + (color_segment(seg@)->Ok_0 + memory_colors(value@.skip(k + 1))->Ok_0) =~= (before
            + color_segment(seg@)->Ok_0) + memory_colors(value@.skip(k + 1))->Ok_0);
        st = k + 1;
    }
}


/// What a color piece gives: 0 for colors, 1 for a number that does not
/// read, 2 for a range ending at `u64::MAX`.
pub open spec fn color_segment_kind(seg: Seq<char>) -> u8 {
    match color_segment(seg) {
        Ok(_) => 0,
        Err(Some(_)) => 1,
        Err(None) => 2,
    }
}

fn color_segment_kind_of(seg: &str) -> (r: u8)
    ensures
        r == color_segment_kind(seg@),
{
    let n = seg.unicode_len();
    let p = find_char_from(seg, '-', 0);
    proof {
        lemma_find_char(seg@, '-', 0, p as nat);
    }
    if p == n {
        match u64_from_str_radix(seg, 10) {
            Ok(_) => 0,
            Err(_) => 1,
        }
    } else {
        let a = seg.substring_char(0, p);
        let b = seg.substring_char(p + 1, n);
        assert(a@ =~= seg@.take(p as int));
        assert(b@ =~= seg@.skip(p + 1));
        match u64_from_str_radix(a, 10) {
            Ok(_) => {},
            Err(_) => {
                return 1;
            },
        };
        match u64_from_str_radix(b, 10) {
            Ok(end) => if end == u64::MAX {
                2
            } else {
                0
            },
            Err(_) => 1,
        }
    }
}

/// Whether reading the color list `value` runs into a range ending at
/// `u64::MAX` before any number that does not read: the one input on which
/// expanding the list overflows, which `parse_memory_colors` leaves out.
pub fn memory_colors_overflow(value: &str) -> (r: bool)
    ensures
        r == (memory_colors(value@) == Err::<Seq<u64>, Option<Seq<char>>>(None)),
{
    let n = value.unicode_len();
    let mut st: usize = 0;
    assert(value@.skip(0) =~= value@);
    loop
        invariant
            st <= n,
            n == value@.len(),
            (memory_colors(value@) == Err::<Seq<u64>, Option<Seq<char>>>(None)) == (memory_colors(
                value@.skip(st as int),
            ) == Err::<Seq<u64>, Option<Seq<char>>>(None)),
        decreases n - st,
    {
        let k = find_char_from(value, ',', st);
        let ghost t = value@.skip(st as int);
        proof {
            lemma_find_char(t, ',', 0, (k - st) as nat);
        }
        let seg = value.substring_char(st, k);
        assert(seg@ =~= t.take((k - st) as int));
        let kind = color_segment_kind_of(seg);
        if kind == 1 {
            return false;
        }
        if kind == 2 {
            return true;
        }
        if k == n {
            return false;
        }
        assert(t.skip((k - st) + 1) =~= value@.skip(k + 1));
        st = k + 1;
    }
}

} // verus!
