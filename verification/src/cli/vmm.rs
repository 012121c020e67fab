//! Requests that manage the VMs the hypervisor runs, and how their state is shown.
use vstd::prelude::*;

verus! {

pub const NAME_MAX_LEN: usize = 32;
pub const VM_NUM_MAX: usize = 16;

pub const VM_T_LINUX: u32 = 0;
pub const VM_T_BARE_MATEL_APP: u32 = 1;
pub const VM_T_FREERTOS: u32 = 2;

pub const VM_S_INV: u32 = 0;
pub const VM_S_PENDING: u32 = 1;
pub const VM_S_ACTIVE: u32 = 2;

/// Request numbers of the VM management calls.
pub const VMM_LIST_VM: u64 = 0x0100;
pub const VMM_BOOT_VM: u64 = 0x0102;
pub const VMM_SHUTDOWN_VM: u64 = 0x0103;
pub const VMM_REBOOT_VM: u64 = 0x0104;
pub const VMM_GET_VM_ID: u64 = 0x0108;
pub const VMM_REMOVE_VM: u64 = 0x0110;

/// The argument of a shutdown or reboot of VM `vm_id`: bit 16 set when forced.
pub fn vm_control_arg(force: bool, vm_id: u32) -> (r: u64)
    ensures
        r == (if force {
            ((1u32 << 16u32) | vm_id) as u64
        } else {
            vm_id as u64
        }),
        r == (if force { (vm_id | 0x10000u32) as u64 } else { vm_id as u64 }),
{
    let r = if force {
        ((1u32 << 16u32) | vm_id) as u64
    } else {
        vm_id as u64
    };
    assert((1u32 << 16u32) | vm_id == vm_id | 0x10000u32) by (bit_vector);
    r
}

/// The line that describes VM type `vm_type`.
pub open spec fn vm_type_line(vm_type: u32) -> Seq<char> {
    if vm_type == VM_T_LINUX {
        "vm type: Linux"@
    } else if vm_type == VM_T_BARE_MATEL_APP {
        "vm type: Bare Metal App"@
    } else if vm_type == VM_T_FREERTOS {
        "vm type: FreeRTOS"@
    } else {
        "vm type: illegal type"@
    }
}

/// The line that describes VM state `vm_state`.
pub open spec fn vm_state_line(vm_state: u32) -> Seq<char> {
    if vm_state == VM_S_INV {
        "vm state: Inactive"@
    } else if vm_state == VM_S_PENDING {
        "vm state: Pending"@
    } else if vm_state == VM_S_ACTIVE {
        "vm state: Active"@
    } else {
        "vm state: illegal state"@
    }
}

/// `vm list` names each type and state it knows by a line of its own: every
/// type line begins "vm type: " and every state line "vm state: "; Linux,
/// bare-metal, FreeRTOS guests and unknown numbers get four different lines,
/// as do inactive, pending, active VMs and unknown states; a FreeRTOS guest is
/// named as such.
pub proof fn law_vm_lines_name_each_kind(t1: u32, t2: u32, s1: u32, s2: u32)
    ensures
        vm_type_line(t1).take(9) == "vm type: "@,
        vm_state_line(s1).take(10) == "vm state: "@,
        vm_type_line(VM_T_FREERTOS) == "vm type: FreeRTOS"@,
        vm_type_line(VM_T_LINUX) == "vm type: Linux"@,
        vm_type_line(VM_T_BARE_MATEL_APP) == "vm type: Bare Metal App"@,
        t1 != t2 && (t1 < 3 || t2 < 3) ==> vm_type_line(t1) != vm_type_line(t2),
        s1 != s2 && (s1 < 3 || s2 < 3) ==> vm_state_line(s1) != vm_state_line(s2),
{
    reveal_strlit("vm type: Linux");
    reveal_strlit("vm type: Bare Metal App");
    reveal_strlit("vm type: FreeRTOS");
    reveal_strlit("vm type: illegal type");
    reveal_strlit("vm type: ");
    reveal_strlit("vm state: Inactive");
    reveal_strlit("vm state: Pending");
    reveal_strlit("vm state: Active");
    reveal_strlit("vm state: illegal state");
    reveal_strlit("vm state: ");
    assert("vm type: Linux"@.take(9) =~= "vm type: "@);
    assert("vm type: Bare Metal App"@.take(9) =~= "vm type: "@);
    assert("vm type: FreeRTOS"@.take(9) =~= "vm type: "@);
    assert("vm type: illegal type"@.take(9) =~= "vm type: "@);
    assert("vm state: Inactive"@.take(10) =~= "vm state: "@);
    assert("vm state: Pending"@.take(10) =~= "vm state: "@);
    assert("vm state: Active"@.take(10) =~= "vm state: "@);
    assert("vm state: illegal state"@.take(10) =~= "vm state: "@);
}

/// The line shown for a VM's type.
pub fn vm_type_description(vm_type: u32) -> (r: &'static str)
    ensures
        r@ == vm_type_line(vm_type),
{
    if vm_type == VM_T_LINUX {
        "vm type: Linux"
    } else if vm_type == VM_T_BARE_MATEL_APP {
        "vm type: Bare Metal App"
    } else if vm_type == VM_T_FREERTOS {
        "vm type: FreeRTOS"
    } else {
        "vm type: illegal type"
    }
}

/// The line shown for a VM's state.
pub fn vm_state_description(vm_state: u32) -> (r: &'static str)
    ensures
        r@ == vm_state_line(vm_state),
{
    if vm_state == VM_S_INV {
        "vm state: Inactive"
    } else if vm_state == VM_S_PENDING {
        "vm state: Pending"
    } else if vm_state == VM_S_ACTIVE {
        "vm state: Active"
    } else {
        "vm state: illegal state"
    }
}

} // verus!
