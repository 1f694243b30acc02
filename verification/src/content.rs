//! The saved state of a suspended thread, and its construction for threads
//! that have never run.
//!
//! A new user thread starts through the kernel's return entry: its context
//! resumes at that entry and hands it, in the callee-saved registers, the
//! argument, the status image and the thread's entry address. The embedded
//! trap frame takes no part in this and stays zero.

use crate::arena::{lemma_block_bounds, lemma_holds_shorter, Arena};
use crate::context::Context;
use crate::layout::{content_bytes, content_size, zeros, CONTENT_WORDS};
use crate::status::{set_previous_privilege, with_previous_privilege, Privilege};
use crate::trap::{lemma_frame_image_is_faithful, TrapFrame};
use vstd::prelude::*;

verus! {

/// What a suspended thread needs to go on: where it resumes, its address
/// space, the registers that a call must preserve, and a trap frame.
#[derive(Clone, Copy, Debug, PartialEq, Eq)]
pub struct ContextContent {
    /// Return address: where execution resumes.
    pub ra: usize,
    /// Address-space root of the thread.
    pub satp: usize,
    /// Callee-saved registers s0 to s11.
    pub s: [usize; 12],
    /// Trap frame embedded in the record.
    pub tf: TrapFrame,
}

/// The image of a context that has never run: it resumes at `ra` in the
/// address space `satp` with the first three callee-saved registers as
/// given, and every other word is zero.
pub open spec fn fresh_image(ra: usize, satp: usize, s0: usize, s1: usize, s2: usize) -> Seq<
    usize,
> {
    seq![ra, satp, s0, s1, s2] + zeros(45)
}

/// The image of the context of a new kernel thread: it resumes at `entry`
/// itself, with the argument in s0 and, in s1, the current status with
/// supervisor recorded as the privilege level to return to.
pub open spec fn kernel_thread_image(entry: usize, arg: usize, satp: usize, sstatus: usize) -> Seq<
    usize,
> {
    fresh_image(entry, satp, arg, with_previous_privilege(sstatus, Privilege::Supervisor), 0)
}

/// The image of the context of a new user thread: it resumes at the return
/// entry, with the argument in s0, in s1 the current status with user
/// recorded as the privilege level to return to, and the thread's entry
/// address in s2.
pub open spec fn user_thread_image(
    entry: usize,
    arg: usize,
    satp: usize,
    sstatus: usize,
    sret_entry: usize,
) -> Seq<usize> {
    fresh_image(sret_entry, satp, arg, with_previous_privilege(sstatus, Privilege::User), entry)
}

impl ContextContent {
    /// The record as the switch code lays it out in memory: return address,
    /// address-space root, callee-saved registers, trap frame.
    pub open spec fn image(self) -> Seq<usize> {
        seq![self.ra, self.satp] + self.s@ + self.tf.image()
    }

    /// The record in which every word is zero.
    pub fn zeroed() -> (content: ContextContent)
        ensures
            content.image() == zeros(50),
    {
        let content = ContextContent { ra: 0, satp: 0, s: [0usize; 12], tf: TrapFrame::zeroed() };
        assert(content.image() =~= zeros(50));
        content
    }

    /// The context of a new kernel thread that runs `entry` with `arg` in the
    /// address space `satp`. `sstatus` is the current image of the status
    /// register. The stack top does not enter the record.
    pub fn new_kernel_thread(
        entry: usize,
        arg: usize,
        kstack_top: usize,
        satp: usize,
        sstatus: usize,
    ) -> (content: ContextContent)
        ensures
            content.ra == entry,
            content.satp == satp,
            content.s@ == seq![arg, with_previous_privilege(sstatus, Privilege::Supervisor)]
                + zeros(10),
            content.tf.image() == zeros(36),
            content.image() == kernel_thread_image(entry, arg, satp, sstatus),
    {
        let mut content = ContextContent::zeroed();
        assert(content.s@ =~= content.image().subrange(2, 14));
        assert(content.tf.image() =~= content.image().subrange(14, 50));
        content.ra = entry;
        content.satp = satp;
        content.s[0] = arg;
        content.s[1] = set_previous_privilege(sstatus, Privilege::Supervisor);
        assert(content.s@ =~= seq![arg, with_previous_privilege(sstatus, Privilege::Supervisor)]
            + zeros(10));
        assert(content.tf.image() =~= zeros(36));
        assert(content.image() =~= kernel_thread_image(entry, arg, satp, sstatus));
        content
    }

    /// The context of a new user thread that runs the code at `entry` with
    /// `arg` in the address space `satp`. `sstatus` is the current image of
    /// the status register and `sret_entry` the address of the kernel's
    /// return entry. The stack top does not enter the record.
    pub fn new_user_thread(
        entry: usize,
        arg: usize,
        ustack_top: usize,
        satp: usize,
        sstatus: usize,
        sret_entry: usize,
    ) -> (content: ContextContent)
        ensures
            content.ra == sret_entry,
            content.satp == satp,
            content.s@ == seq![arg, with_previous_privilege(sstatus, Privilege::User), entry]
                + zeros(9),
            content.tf.image() == zeros(36),
            content.image() == user_thread_image(entry, arg, satp, sstatus, sret_entry),
    {
        let mut content = ContextContent::zeroed();
        assert(content.s@ =~= content.image().subrange(2, 14));
        assert(content.tf.image() =~= content.image().subrange(14, 50));
        content.ra = sret_entry;
        content.satp = satp;
        content.s[0] = arg;
        content.s[1] = set_previous_privilege(sstatus, Privilege::User);
        content.s[2] = entry;
        assert(content.s@ =~= seq![arg, with_previous_privilege(sstatus, Privilege::User), entry]
            + zeros(9));
        assert(content.tf.image() =~= zeros(36));
        assert(content.image() =~= user_thread_image(entry, arg, satp, sstatus, sret_entry));
        content
    }

    /// The words of the record in memory order.
    pub fn to_words(&self) -> (words: [usize; 50])
        ensures
            words@ == self.image(),
            words@.len() == CONTENT_WORDS,
    {
        let frame = self.tf.to_words();
        let mut words = [0usize; 50];
        words[0] = self.ra;
        words[1] = self.satp;
        let mut i: usize = 0;
        while i < 12
            invariant
                i <= 12,
                words@[0] == self.ra,
                words@[1] == self.satp,
                forall|j: int| 0 <= j < i ==> words@[2 + j] == self.s@[j],
            decreases 12 - i,
        {
            words[2 + i] = self.s[i];
            i += 1;
        }
        let mut k: usize = 0;
        while k < 36
            invariant
                k <= 36,
                words@[0] == self.ra,
                words@[1] == self.satp,
                forall|j: int| 0 <= j < 12 ==> words@[2 + j] == self.s@[j],
                forall|j: int| 0 <= j < k ==> words@[14 + j] == frame@[j],
            decreases 36 - k,
        {
            words[14 + k] = frame[k];
            k += 1;
        }
        assert(words@ =~= self.image());
        words
    }

    /// The record that a block of words in memory order holds.
    pub fn from_words(words: &[usize; 50]) -> (content: ContextContent)
        ensures
            content.image() == words@,
    {
        let mut s = [0usize; 12];
        let mut i: usize = 0;
        while i < 12
            invariant
                i <= 12,
                forall|j: int| 0 <= j < i ==> s@[j] == words@[2 + j],
            decreases 12 - i,
        {
            s[i] = words[2 + i];
            i += 1;
        }
        let mut frame = [0usize; 36];
        let mut k: usize = 0;
        while k < 36
            invariant
                k <= 36,
                forall|j: int| 0 <= j < k ==> frame@[j] == words@[14 + j],
            decreases 36 - k,
        {
            frame[k] = words[14 + k];
            k += 1;
        }
        let content = ContextContent {
            ra: words[0],
            satp: words[1],
            s,
            tf: TrapFrame::from_words(&frame),
        };
        assert(content.image() =~= words@);
        content
    }

    /// The record that the arena holds at `addr`.
    pub fn read_from(arena: &Arena, addr: usize) -> (content: ContextContent)
        requires
            arena@.holds(addr, 50),
        ensures
            content.image() == arena@.block_at(addr, 50),
    {
        let mut words = [0usize; 50];
        let mut i: usize = 0;
        while i < 50
            invariant
                i <= 50,
                arena@.holds(addr, 50),
                forall|j: int| 0 <= j < i ==> words@[j] == arena@.words[arena@.index_of(addr) + j],
            decreases 50 - i,
        {
            proof {
                lemma_holds_shorter(arena@, addr, 50, i as nat + 1);
            }
            words[i] = arena.read_at(addr, i);
            i += 1;
        }
        proof {
            lemma_block_bounds(arena@, addr, 50);
            assert(words@ =~= arena@.block_at(addr, 50));
        }
        ContextContent::from_words(&words)
    }

    /// Writes the record into the stack, immediately below `stack_top`, and
    /// hands out the context that addresses it there.
    pub fn push_at(self, stack_top: usize, arena: &mut Arena) -> (context: Context)
        requires
            stack_top >= content_bytes(),
            old(arena)@.holds_content((stack_top - content_bytes()) as usize),
        ensures
            context.content_addr == stack_top - content_bytes(),
            context.valid_in(final(arena)@),
            final(arena)@ == old(arena)@.stored(context.content_addr, self.image()),
    {
        let addr = stack_top - content_size();
        let words = self.to_words();
        arena.store(addr, &words);
        Context { content_addr: addr }
    }
}

/// Two records with the same image are the same record: the image leaves out
/// no field.
pub proof fn lemma_content_image_is_faithful(a: ContextContent, b: ContextContent)
    requires
        a.image() == b.image(),
    ensures
        a == b,
{
    assert(a.ra == a.image()[0] && b.ra == b.image()[0]);
    assert(a.satp == a.image()[1] && b.satp == b.image()[1]);
    assert(a.s@ =~= a.image().subrange(2, 14));
    assert(b.s@ =~= b.image().subrange(2, 14));
    assert(a.s =~= b.s);
    assert(a.tf.image() =~= a.image().subrange(14, 50));
    assert(b.tf.image() =~= b.image().subrange(14, 50));
    lemma_frame_image_is_faithful(a.tf, b.tf);
}

} // verus!
