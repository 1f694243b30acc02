//! The handle by which a scheduler holds a suspended thread, and the switch
//! from one thread to another.

use crate::arena::{lemma_block_bounds, lemma_holds_shorter, Arena, Region};
use crate::content::{kernel_thread_image, user_thread_image, ContextContent};
use crate::hart::{Hart, HartState};
use crate::layout::{content_bytes, SWITCH_WORDS};
use vstd::prelude::*;

verus! {

/// The address of the saved context of one thread, or the null address for
/// "no saved state".
#[derive(Debug, PartialEq, Eq)]
pub struct Context {
    /// Where the saved context is stored.
    pub content_addr: usize,
}

/// Why a checked switch did not take place.
#[derive(Clone, Copy, Debug, PartialEq, Eq, Structural)]
pub enum SwitchError {
    /// The target is the null context.
    NullTarget,
    /// The target is not null, but the current context is.
    NullCurrent,
    /// Neither is null, but one of them does not address a saved context
    /// inside the arena.
    OutsideArena,
}

/// The hart and the memory after a switch from the context at `current` to
/// the context at `target`: the hart's state is saved at `current` first, and
/// what the memory then holds at `target` is resumed.
pub open spec fn switched(hart: HartState, memory: Region, current: usize, target: usize) -> (
    HartState,
    Region,
) {
    let saved = memory.stored(current, hart.saved());
    (hart.resumed(saved.block_at(target, SWITCH_WORDS as nat)), saved)
}

/// The error with which a checked switch between `current` and `target`
/// ends, if it ends with one.
pub open spec fn switch_error(memory: Region, current: usize, target: usize) -> Option<
    SwitchError,
> {
    if target == 0 {
        Some(SwitchError::NullTarget)
    } else if current == 0 {
        Some(SwitchError::NullCurrent)
    } else if !memory.holds_content(current) || !memory.holds_content(target) {
        Some(SwitchError::OutsideArena)
    } else {
        None
    }
}

impl Context {
    /// Whether this is the context that stands for "no saved state".
    pub open spec fn null_spec(&self) -> bool {
        self.content_addr == 0
    }

    /// Whether the context addresses a saved context inside `memory`. A null
    /// context never does.
    pub open spec fn valid_in(self, memory: Region) -> bool {
        memory.holds_content(self.content_addr)
    }

    /// The context that stands for "no saved state".
    pub fn null() -> (context: Context)
        ensures
            context.content_addr == 0,
    {
        Context { content_addr: 0 }
    }

    /// Whether this is the context that stands for "no saved state".
    #[verifier::when_used_as_spec(null_spec)]
    pub fn is_null(&self) -> (null: bool)
        ensures
            null == self.null_spec(),
    {
        self.content_addr == 0
    }

    /// Builds the context of a new kernel thread that runs `entry` with `arg`
    /// and places it at the top of the thread's kernel stack.
    pub fn new_kernel_thread(
        entry: usize,
        arg: usize,
        kstack_top: usize,
        satp: usize,
        sstatus: usize,
        arena: &mut Arena,
    ) -> (context: Context)
        requires
            kstack_top >= content_bytes(),
            old(arena)@.holds_content((kstack_top - content_bytes()) as usize),
        ensures
            context.content_addr == kstack_top - content_bytes(),
            context.valid_in(final(arena)@),
            final(arena)@ == old(arena)@.stored(
                context.content_addr,
                kernel_thread_image(entry, arg, satp, sstatus),
            ),
    {
        ContextContent::new_kernel_thread(entry, arg, kstack_top, satp, sstatus).push_at(
            kstack_top,
            arena,
        )
    }

    /// Builds the context of a new user thread that runs the code at `entry`
    /// with `arg` and places it at the top of the thread's kernel stack.
    pub fn new_user_thread(
        entry: usize,
        arg: usize,
        kstack_top: usize,
        satp: usize,
        sstatus: usize,
        sret_entry: usize,
        arena: &mut Arena,
    ) -> (context: Context)
        requires
            kstack_top >= content_bytes(),
            old(arena)@.holds_content((kstack_top - content_bytes()) as usize),
        ensures
            context.content_addr == kstack_top - content_bytes(),
            context.valid_in(final(arena)@),
            final(arena)@ == old(arena)@.stored(
                context.content_addr,
                user_thread_image(entry, arg, satp, sstatus, sret_entry),
            ),
    {
        ContextContent::new_user_thread(entry, arg, kstack_top, satp, sstatus, sret_entry).push_at(
            kstack_top,
            arena,
        )
    }

    /// Leaves the thread of this context and goes on with the thread of
    /// `target`: the hart's return address, address-space root and
    /// callee-saved registers are saved in this context, then loaded from the
    /// target, and control passes to the loaded return address. Neither
    /// context may be null, and both must address saved contexts inside the
    /// arena.
    pub fn switch(&mut self, target: &mut Context, hart: &mut Hart, arena: &mut Arena)
        requires
            old(self).valid_in(old(arena)@),
            old(target).valid_in(old(arena)@),
        ensures
            *final(self) == *old(self),
            *final(target) == *old(target),
            final(self).valid_in(final(arena)@),
            final(target).valid_in(final(arena)@),
            (final(hart)@, final(arena)@) == switched(
                old(hart)@,
                old(arena)@,
                old(self).content_addr,
                old(target).content_addr,
            ),
    {
        let saved = hart.save();
        arena.store(self.content_addr, &saved);
        let mut block = [0usize; 14];
        let mut i: usize = 0;
        while i < 14
            invariant
                i <= 14,
                arena@.holds(target.content_addr, 50),
                forall|j: int|
                    0 <= j < i ==> block@[j] == arena@.words[arena@.index_of(target.content_addr)
                        + j],
            decreases 14 - i,
        {
            proof {
                lemma_holds_shorter(arena@, target.content_addr, 50, i as nat + 1);
            }
            block[i] = arena.read_at(target.content_addr, i);
            i += 1;
        }
        proof {
            lemma_block_bounds(arena@, target.content_addr, 50);
            assert(block@ =~= arena@.block_at(target.content_addr, 14));
        }
        hart.resume(&block);
    }

    /// A switch that tests what `switch` demands: it takes place if both
    /// contexts address saved contexts inside the arena, and otherwise
    /// changes nothing and says what is wrong.
    pub fn switch_checked(
        &mut self,
        target: &mut Context,
        hart: &mut Hart,
        arena: &mut Arena,
    ) -> (outcome: Result<(), SwitchError>)
        ensures
            *final(self) == *old(self),
            *final(target) == *old(target),
            match switch_error(old(arena)@, old(self).content_addr, old(target).content_addr) {
                Some(error) => outcome == Err::<(), SwitchError>(error) && final(hart)@ == old(
                    hart,
                )@ && final(arena)@ == old(arena)@,
                None => outcome is Ok && (final(hart)@, final(arena)@) == switched(
                    old(hart)@,
                    old(arena)@,
                    old(self).content_addr,
                    old(target).content_addr,
                ),
            },
    {
        if target.is_null() {
            return Err(SwitchError::NullTarget);
        }
        if self.is_null() {
            return Err(SwitchError::NullCurrent);
        }
        if !arena.contains_content(self.content_addr) || !arena.contains_content(
            target.content_addr,
        ) {
            return Err(SwitchError::OutsideArena);
        }
        self.switch(target, hart, arena);
        Ok(())
    }
}

} // verus!
