//! The machine state captured at a trap boundary.

use crate::layout::FRAME_WORDS;
use vstd::prelude::*;

verus! {

/// Full state of an interrupted execution: the general registers and the
/// supervisor registers that describe the trap. The status and cause
/// registers are held as their raw images.
#[derive(Clone, Copy, Debug, PartialEq, Eq)]
pub struct TrapFrame {
    /// General registers x0 to x31.
    pub x: [usize; 32],
    /// Supervisor status register.
    pub sstatus: usize,
    /// Supervisor exception program counter.
    pub sepc: usize,
    /// Supervisor trap value.
    pub stval: usize,
    /// Cause of the exception, interrupt or trap.
    pub scause: usize,
}

impl TrapFrame {
    /// The frame as the trap entry and exit code lays it out in memory, one
    /// word per register in the order of the fields.
    pub open spec fn image(self) -> Seq<usize> {
        self.x@ + seq![self.sstatus, self.sepc, self.stval, self.scause]
    }

    /// The frame with its saved program counter moved past one instruction.
    pub open spec fn advanced(self) -> TrapFrame {
        TrapFrame { sepc: (self.sepc + 4) as usize, ..self }
    }

    /// The frame in which every register is zero.
    pub fn zeroed() -> (frame: TrapFrame)
        ensures
            frame.x@ == Seq::new(32, |i: int| 0usize),
            frame.sstatus == 0,
            frame.sepc == 0,
            frame.stval == 0,
            frame.scause == 0,
    {
        let frame = TrapFrame { x: [0usize; 32], sstatus: 0, sepc: 0, stval: 0, scause: 0 };
        assert(frame.x@ =~= Seq::new(32, |i: int| 0usize));
        frame
    }

    /// Advances the saved program counter past one instruction of four bytes,
    /// so that a return from the trap does not run the trapping instruction
    /// again.
    pub fn increase_sepc(&mut self)
        requires
            old(self).sepc + 4 <= usize::MAX,
        ensures
            final(self).sepc == old(self).sepc + 4,
            *final(self) == old(self).advanced(),
    {
        self.sepc = self.sepc + 4;
    }

    /// The words of the frame in memory order.
    pub fn to_words(&self) -> (words: [usize; 36])
        ensures
            words@ == self.image(),
            words@.len() == FRAME_WORDS,
    {
        let mut words = [0usize; 36];
        let mut i: usize = 0;
        while i < 32
            invariant
                i <= 32,
                forall|j: int| 0 <= j < i ==> words@[j] == self.x@[j],
            decreases 32 - i,
        {
            words[i] = self.x[i];
            i += 1;
        }
        words[32] = self.sstatus;
        words[33] = self.sepc;
        words[34] = self.stval;
        words[35] = self.scause;
        assert(words@ =~= self.image());
        words
    }

    /// The frame that a block of words in memory order holds.
    pub fn from_words(words: &[usize; 36]) -> (frame: TrapFrame)
        ensures
            frame.image() == words@,
    {
        let mut x = [0usize; 32];
        let mut i: usize = 0;
        while i < 32
            invariant
                i <= 32,
                forall|j: int| 0 <= j < i ==> x@[j] == words@[j],
            decreases 32 - i,
        {
            x[i] = words[i];
            i += 1;
        }
        let frame = TrapFrame {
            x,
            sstatus: words[32],
            sepc: words[33],
            stval: words[34],
            scause: words[35],
        };
        assert(frame.image() =~= words@);
        frame
    }
}

/// Two frames with the same image are the same frame: the image leaves out
/// no register.
pub proof fn lemma_frame_image_is_faithful(a: TrapFrame, b: TrapFrame)
    requires
        a.image() == b.image(),
    ensures
        a == b,
{
    assert(a.x@ =~= a.image().subrange(0, 32));
    assert(b.x@ =~= b.image().subrange(0, 32));
    assert(a.x =~= b.x);
    assert(a.sstatus == a.image()[32] && b.sstatus == b.image()[32]);
    assert(a.sepc == a.image()[33] && b.sepc == b.image()[33]);
    assert(a.stval == a.image()[34] && b.stval == b.image()[34]);
    assert(a.scause == a.image()[35] && b.scause == b.image()[35]);
}

} // verus!
