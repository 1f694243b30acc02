//! The supervisor status image and the privilege level it records.

use riscv::register::sstatus::{Sstatus, SPP};
use vstd::prelude::*;

verus! {

/// The privilege levels a hart runs at while this layer is in control or
/// returns from it.
#[derive(Clone, Copy, Debug, PartialEq, Eq, Structural)]
pub enum Privilege {
    /// User mode: where the threads of user programs run.
    User,
    /// Supervisor mode: where the kernel and its threads run.
    Supervisor,
}

/// The bit of a status image that holds the privilege level a return from a
/// trap goes back to: set for supervisor, clear for user.
pub const SPP_BIT: usize = 0x100;

/// The bits of a status image that the status register defines; it keeps no
/// others. The fields above bit 31 exist only where a word has 64 bits, and
/// a machine with words of 32 bits is taken to be a RISC-V hart of that
/// width.
pub open spec fn status_mask() -> usize {
    if usize::BITS == 32 {
        0x800d_e762usize
    } else {
        0x8000_0003_000d_e762u64 as usize
    }
}

/// The privilege level recorded in a status image.
pub open spec fn previous_privilege(bits: usize) -> Privilege {
    if bits & SPP_BIT != 0 {
        Privilege::Supervisor
    } else {
        Privilege::User
    }
}

/// A status image reduced to its defined bits, with the recorded privilege
/// level replaced by `mode`.
pub open spec fn with_previous_privilege(bits: usize, mode: Privilege) -> usize {
    let defined = bits & status_mask();
    match mode {
        Privilege::Supervisor => defined | SPP_BIT,
        Privilege::User => defined & !SPP_BIT,
    }
}

/// Replaces the privilege level that a status image records.
///
/// Trusted: the body calls `Sstatus::from_bits`, `Sstatus::set_spp` and
/// `Sstatus::bits` of the `riscv` crate, in that order, and Verus does not
/// read it. `from_bits` and `bits` each keep the bits of the register's mask
/// and drop the others; `set_spp` writes the one-bit field at position 8 of
/// the value in memory, 1 for supervisor and 0 for user, and touches no
/// hardware register. The mask contains bit 8, and it is the shorter one
/// exactly where the crate is built for 32-bit RISC-V.
#[verifier::external_body]
pub(crate) fn set_previous_privilege(bits: usize, mode: Privilege) -> (image: usize)
    ensures
        image == with_previous_privilege(bits, mode),
{
    let mut status = Sstatus::from_bits(bits);
    status.set_spp(match mode {
        Privilege::User => SPP::User,
        Privilege::Supervisor => SPP::Supervisor,
    });
    status.bits()
}

/// The privilege level recorded in a status image.
pub fn recorded_privilege(bits: usize) -> (mode: Privilege)
    ensures
        mode == previous_privilege(bits),
{
    if bits & SPP_BIT != 0 {
        Privilege::Supervisor
    } else {
        Privilege::User
    }
}

/// Whatever a status image held before, after the recorded privilege level is
/// replaced the image records exactly the level that was asked for, and
/// every other defined bit is as it was.
pub proof fn lemma_previous_privilege_is_set(bits: usize, mode: Privilege)
    ensures
        previous_privilege(with_previous_privilege(bits, mode)) == mode,
        with_previous_privilege(bits, mode) & !SPP_BIT == bits & status_mask() & !SPP_BIT,
{
    let defined = bits & status_mask();
    assert((defined | 0x100usize) & 0x100usize != 0) by (bit_vector);
    assert((defined & !0x100usize) & 0x100usize == 0) by (bit_vector);
    assert((defined | 0x100usize) & !0x100usize == defined & !0x100usize) by (bit_vector);
    assert((defined & !0x100usize) & !0x100usize == defined & !0x100usize) by (bit_vector);
}

} // verus!
