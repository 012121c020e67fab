//! Hypercall numbering shared by the manager VM's tools and the hypervisor.
use vstd::prelude::*;

verus! {

// hvc_fid
pub const HVC_SYS: usize = 0;
pub const HVC_VMM: usize = 1;
pub const HVC_IVC: usize = 2;
pub const HVC_MEDIATED: usize = 3;
pub const HVC_CONFIG: usize = 0x11;

// hvc_mediated_event
pub const HVC_MEDIATED_USER_NOTIFY: usize = 0x20;

// hvc_config_event
pub const HVC_CONFIG_ADD_VM: usize = 0;
pub const HVC_CONFIG_DELETE_VM: usize = 1;
pub const HVC_CONFIG_CPU: usize = 2;
pub const HVC_CONFIG_MEMORY_REGION: usize = 3;
pub const HVC_CONFIG_EMULATED_DEVICE: usize = 4;
pub const HVC_CONFIG_PASSTHROUGH_DEVICE_REGION: usize = 5;
pub const HVC_CONFIG_PASSTHROUGH_DEVICE_IRQS: usize = 6;
pub const HVC_CONFIG_PASSTHROUGH_DEVICE_STREAMS_IDS: usize = 7;
pub const HVC_CONFIG_DTB_DEVICE: usize = 8;
pub const HVC_CONFIG_UPLOAD_KERNEL_IMAGE: usize = 9;
pub const HVC_CONFIG_MEMORY_COLOR_BUDGET: usize = 10;
pub const HVC_CONFIG_UPLOAD_DEVICE_TREE: usize = 11;

/// The 16-bit hypercall mode word of function `fid` and event `event`.
pub open spec fn generate_hvc_mode_spec(fid: usize, event: usize) -> usize {
    ((fid << 8usize) | event) & 0xffff
}

/// The mode word is below 2^16, and with an event below 256 it is the
/// function id's low byte times 256 plus the event.
pub proof fn lemma_hvc_mode_bits()
    by (bit_vector)
    ensures
        forall|f: usize, e: usize| #[trigger] (((f << 8usize) | e) & 0xffff) < 0x10000,
        forall|f: usize, e: usize| e < 256 ==> #[trigger] (((f << 8usize) | e) & 0xffff) == (f % 256) * 256 + e,
{
}

/// Builds the 16-bit hypercall mode word: the function id in the high byte,
/// the event in the low byte.
pub fn generate_hvc_mode(fid: usize, event: usize) -> (mode: usize)
    ensures
        mode == generate_hvc_mode_spec(fid, event),
        mode < 0x10000,
        event < 256 ==> mode == (fid % 256) * 256 + event,
{
    let mode = ((fid << 8) | event) & 0xffff;
    proof {
        lemma_hvc_mode_bits();
    }
    mode
}


/// The block request the kernel module hands the daemon.
#[derive(Clone, Copy, PartialEq, Eq, Structural, Debug)]
pub struct BlkArg {
    pub hvc_fid: u64,
    pub hvc_event: u64,
    pub blk_id: u16,
    pub req_type: u32,
    pub sector: u64,
    pub count: u64,
}

/// What the daemon does for a notification of the kernel module.
#[derive(Clone, Copy, PartialEq, Eq, Structural, Debug)]
pub enum DaemonAction {
    /// Read `count` sectors from `sector` of mediated disk `blk_id`.
    MediatedRead { blk_id: u16, sector: u64, count: u64 },
    /// Write `count` sectors at `sector` of mediated disk `blk_id`.
    MediatedWrite { blk_id: u16, sector: u64, count: u64 },
    /// A block request of an unknown type: warn.
    UnknownBlkRequest(u32),
    /// Upload the kernel image of VM `vm_id`, then boot it.
    UploadKernelImage { vm_id: u64 },
    /// Nothing to do.
    Ignore,
}

/// Decides what the daemon does for a notification whose header and block
/// fields are read as `blk`, and whose configuration field (the VM id) is
/// `vm_id`: block reads and writes for the mediated user event, a kernel
/// upload for the configuration upload event, nothing otherwise.
pub fn sig_handle_event(blk: &BlkArg, vm_id: u64) -> (r: DaemonAction)
    ensures
        blk.hvc_fid == HVC_MEDIATED as u64 && blk.hvc_event == HVC_MEDIATED_USER_NOTIFY as u64 ==> r == (
        if blk.req_type == 0 {
            DaemonAction::MediatedRead { blk_id: blk.blk_id, sector: blk.sector, count: blk.count }
        } else if blk.req_type == 1 {
            DaemonAction::MediatedWrite { blk_id: blk.blk_id, sector: blk.sector, count: blk.count }
        } else {
            DaemonAction::UnknownBlkRequest(blk.req_type)
        }),
        blk.hvc_fid == HVC_CONFIG as u64 && blk.hvc_event == HVC_CONFIG_UPLOAD_KERNEL_IMAGE as u64 ==> r
            == (DaemonAction::UploadKernelImage { vm_id }),
        !(blk.hvc_fid == HVC_MEDIATED as u64 && blk.hvc_event == HVC_MEDIATED_USER_NOTIFY as u64) && !(
        blk.hvc_fid == HVC_CONFIG as u64 && blk.hvc_event == HVC_CONFIG_UPLOAD_KERNEL_IMAGE as u64) ==> r
            == DaemonAction::Ignore,
{
    if blk.hvc_fid == HVC_MEDIATED as u64 {
        if blk.hvc_event == HVC_MEDIATED_USER_NOTIFY as u64 {
            if blk.req_type == 0 {
                DaemonAction::MediatedRead { blk_id: blk.blk_id, sector: blk.sector, count: blk.count }
            } else if blk.req_type == 1 {
                DaemonAction::MediatedWrite { blk_id: blk.blk_id, sector: blk.sector, count: blk.count }
            } else {
                DaemonAction::UnknownBlkRequest(blk.req_type)
            }
        } else {
            DaemonAction::Ignore
        }
    } else if blk.hvc_fid == HVC_CONFIG as u64 {
        if blk.hvc_event == HVC_CONFIG_UPLOAD_KERNEL_IMAGE as u64 {
            DaemonAction::UploadKernelImage { vm_id }
        } else {
            DaemonAction::Ignore
        }
    } else {
        DaemonAction::Ignore
    }
}

} // verus!
