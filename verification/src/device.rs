//! What a trapped guest access to an emulated device register carries.
use vstd::prelude::*;

verus! {

/// A trapped guest access to an emulated device register: the address, the
/// access width in bytes, whether it writes, whether a read is sign-extended,
/// and the guest register (and its width) that the value comes from or goes to.
#[derive(Clone, Copy, PartialEq, Eq, Structural, Debug)]
pub struct EmuContext {
    pub address: usize,
    pub width: usize,
    pub write: bool,
    pub sign_ext: bool,
    pub reg: usize,
    pub reg_width: usize,
}

} // verus!
