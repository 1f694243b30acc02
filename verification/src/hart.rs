//! The registers of a hart that a context switch saves, restores or sets.

use crate::layout::SWITCH_WORDS;
use crate::status::{previous_privilege, recorded_privilege, Privilege};
use vstd::prelude::*;

verus! {

/// The mathematical model of a hart, as far as this layer is concerned.
pub struct HartState {
    /// Address of the instruction that runs next.
    pub pc: usize,
    /// Return address register.
    pub ra: usize,
    /// Address-space root: it selects the active page table.
    pub satp: usize,
    /// Callee-saved registers s0 to s11.
    pub s: Seq<usize>,
    /// Privilege level the hart runs at.
    pub privilege: Privilege,
}

impl HartState {
    /// Whether the state is that of a hart: there are twelve callee-saved
    /// registers.
    pub open spec fn well_formed(self) -> bool {
        self.s.len() == 12
    }

    /// The words that a switch writes into the saved context of the thread it
    /// leaves: return address, address-space root, callee-saved registers.
    pub open spec fn saved(self) -> Seq<usize> {
        seq![self.ra, self.satp] + self.s
    }

    /// The hart after it took over what `block` holds in that same order:
    /// the registers are loaded, the address-space root is installed, and
    /// control is at the loaded return address.
    pub open spec fn resumed(self, block: Seq<usize>) -> HartState {
        HartState {
            pc: block[0],
            ra: block[0],
            satp: block[1],
            s: block.subrange(2, 14),
            privilege: self.privilege,
        }
    }

    /// The argument that a thread finds when it is entered: a new context
    /// carries it in the first callee-saved register.
    pub open spec fn argument(self) -> usize {
        self.s[0]
    }

    /// The hart after the return entry of a new user thread has run. That
    /// entry receives the status image in s1 and the thread's entry address
    /// in s2, hands both to the hart and returns from supervisor mode: the
    /// hart goes on at the entry address, at the privilege level that the
    /// image records. The argument stays where the thread expects it.
    pub open spec fn returned(self) -> HartState {
        HartState { pc: self.s[2], privilege: previous_privilege(self.s[1]), ..self }
    }
}

/// The registers of one hart.
#[derive(Clone, Copy, Debug, PartialEq, Eq)]
pub struct Hart {
    /// Address of the instruction that runs next.
    pub pc: usize,
    /// Return address register.
    pub ra: usize,
    /// Address-space root: it selects the active page table.
    pub satp: usize,
    /// Callee-saved registers s0 to s11.
    pub s: [usize; 12],
    /// Privilege level the hart runs at.
    pub privilege: Privilege,
}

impl View for Hart {
    type V = HartState;

    open spec fn view(&self) -> HartState {
        HartState {
            pc: self.pc,
            ra: self.ra,
            satp: self.satp,
            s: self.s@,
            privilege: self.privilege,
        }
    }
}

impl Hart {
    /// The words that a switch saves of this hart, in the order in which a
    /// saved context holds them.
    pub fn save(&self) -> (block: [usize; 14])
        ensures
            block@ == self@.saved(),
            block@.len() == SWITCH_WORDS,
    {
        let mut block = [0usize; 14];
        block[0] = self.ra;
        block[1] = self.satp;
        let mut i: usize = 0;
        while i < 12
            invariant
                i <= 12,
                block@[0] == self.ra,
                block@[1] == self.satp,
                forall|j: int| 0 <= j < i ==> block@[2 + j] == self.s@[j],
            decreases 12 - i,
        {
            block[2 + i] = self.s[i];
            i += 1;
        }
        assert(block@ =~= self@.saved());
        block
    }

    /// Loads the registers from a block that `save` or a constructor of
    /// contexts made, installs the address-space root and passes control to
    /// the loaded return address.
    pub fn resume(&mut self, block: &[usize; 14])
        ensures
            final(self)@ == old(self)@.resumed(block@),
    {
        self.ra = block[0];
        self.satp = block[1];
        let mut i: usize = 0;
        while i < 12
            invariant
                i <= 12,
                self.ra == block@[0],
                self.satp == block@[1],
                self.privilege == old(self).privilege,
                forall|j: int| 0 <= j < i ==> self.s@[j] == block@[2 + j],
            decreases 12 - i,
        {
            self.s[i] = block[2 + i];
            i += 1;
        }
        self.pc = self.ra;
        assert(self.s@ =~= block@.subrange(2, 14));
    }

    /// Runs the return entry of a new user thread: control goes to the
    /// address in s2, at the privilege level that the status image in s1
    /// records.
    pub fn sret(&mut self)
        ensures
            final(self)@ == old(self)@.returned(),
    {
        self.pc = self.s[2];
        self.privilege = recorded_privilege(self.s[1]);
    }
}

} // verus!
