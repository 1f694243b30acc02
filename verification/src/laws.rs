//! What holds of every construction and every switch.

use crate::arena::{
    apart, lemma_block_bounds, lemma_block_prefix, lemma_stored_block, lemma_stored_elsewhere,
    Region,
};
use crate::content::{kernel_thread_image, user_thread_image};
use crate::context::switched;
use crate::hart::HartState;
use crate::layout::content_bytes;
use crate::status::{
    lemma_previous_privilege_is_set, previous_privilege, with_previous_privilege, Privilege,
};
use crate::trap::TrapFrame;
use vstd::prelude::*;

verus! {

/// A switch between two contexts that share no word resumes exactly what the
/// target held, keeps the target's record as it was, and leaves the state of
/// the thread that was left in its own record.
pub proof fn lemma_switch_between_threads(
    hart: HartState,
    memory: Region,
    current: usize,
    target: usize,
)
    requires
        hart.well_formed(),
        memory.holds_content(current),
        memory.holds_content(target),
        apart(current, target),
    ensures
        ({
            let (after, saved) = switched(hart, memory, current, target);
            &&& after == hart.resumed(memory.block_at(target, 14))
            &&& after.well_formed()
            &&& saved.block_at(current, 14) == hart.saved()
            &&& saved.block_at(target, 50) == memory.block_at(target, 50)
            &&& saved.holds_content(current)
            &&& saved.holds_content(target)
        }),
{
    lemma_stored_block(memory, current, hart.saved());
    lemma_stored_elsewhere(memory, current, hart.saved(), target, 14);
    lemma_stored_elsewhere(memory, current, hart.saved(), target, 50);
    lemma_block_bounds(memory, target, 14);
}

/// A thread that a switch has left resumes with the return address, the
/// address-space root and the callee-saved registers it was left with,
/// whatever the hart did in the meantime, provided its record still holds
/// what that switch saved there.
pub proof fn lemma_suspended_thread_resumes(
    left: HartState,
    hart: HartState,
    memory: Region,
    current: usize,
    target: usize,
)
    requires
        left.well_formed(),
        hart.well_formed(),
        memory.holds_content(current),
        memory.holds_content(target),
        apart(current, target),
        memory.block_at(target, 14) == left.saved(),
    ensures
        ({
            let (after, saved) = switched(hart, memory, current, target);
            &&& after.pc == left.ra
            &&& after.ra == left.ra
            &&& after.satp == left.satp
            &&& after.s == left.s
        }),
{
    lemma_switch_between_threads(hart, memory, current, target);
    let (after, saved) = switched(hart, memory, current, target);
    assert(after.s =~= left.s);
}

/// A switch writes into the record of the thread it leaves and nowhere else:
/// every saved context that shares no word with that record is as it was,
/// and so is the trap frame inside the record itself.
pub proof fn lemma_switch_writes_one_record(
    hart: HartState,
    memory: Region,
    current: usize,
    target: usize,
    other: usize,
)
    requires
        hart.well_formed(),
        memory.holds_content(current),
        memory.holds_content(target),
        memory.holds_content(other),
        apart(current, other),
    ensures
        ({
            let (after, saved) = switched(hart, memory, current, target);
            &&& saved.base == memory.base
            &&& saved.words.len() == memory.words.len()
            &&& saved.block_at(other, 50) == memory.block_at(other, 50)
            &&& saved.block_at(current, 50).subrange(14, 50) == memory.block_at(
                current,
                50,
            ).subrange(14, 50)
        }),
{
    lemma_stored_elsewhere(memory, current, hart.saved(), other, 50);
    lemma_block_bounds(memory, current, 50);
    let saved = memory.stored(current, hart.saved());
    assert(saved.block_at(current, 50).subrange(14, 50) =~= memory.block_at(current, 50).subrange(
        14,
        50,
    ));
}

/// A new kernel thread, placed below the top of its stack and switched into
/// from any other context, begins at `entry` with `arg` as its argument, in
/// the address space `satp`; the status it carries records supervisor as
/// the privilege level to return to.
pub proof fn lemma_kernel_thread_begins_at_entry(
    hart: HartState,
    memory: Region,
    current: usize,
    entry: usize,
    arg: usize,
    kstack_top: usize,
    satp: usize,
    sstatus: usize,
)
    requires
        hart.well_formed(),
        kstack_top >= content_bytes(),
        memory.holds_content((kstack_top - content_bytes()) as usize),
        memory.holds_content(current),
        apart(current, (kstack_top - content_bytes()) as usize),
    ensures
        ({
            let target = (kstack_top - content_bytes()) as usize;
            let placed = memory.stored(target, kernel_thread_image(entry, arg, satp, sstatus));
            let (after, saved) = switched(hart, placed, current, target);
            &&& after.pc == entry
            &&& after.argument() == arg
            &&& after.satp == satp
            &&& after.s[1] == with_previous_privilege(sstatus, Privilege::Supervisor)
            &&& previous_privilege(after.s[1]) == Privilege::Supervisor
            &&& after.privilege == hart.privilege
        }),
{
    let target = (kstack_top - content_bytes()) as usize;
    let image = kernel_thread_image(entry, arg, satp, sstatus);
    let placed = memory.stored(target, image);
    lemma_stored_block(memory, target, image);
    lemma_switch_between_threads(hart, placed, current, target);
    lemma_block_prefix(placed, target, 50, 14);
    lemma_previous_privilege_is_set(sstatus, Privilege::Supervisor);
}

/// A new user thread, placed below the top of its kernel stack and switched
/// into from any other context, resumes at the return entry in the address
/// space `satp`; once that entry has run, the hart is in user mode at
/// `entry`, with `arg` as the thread's argument.
pub proof fn lemma_user_thread_begins_in_user_mode(
    hart: HartState,
    memory: Region,
    current: usize,
    entry: usize,
    arg: usize,
    kstack_top: usize,
    satp: usize,
    sstatus: usize,
    sret_entry: usize,
)
    requires
        hart.well_formed(),
        kstack_top >= content_bytes(),
        memory.holds_content((kstack_top - content_bytes()) as usize),
        memory.holds_content(current),
        apart(current, (kstack_top - content_bytes()) as usize),
    ensures
        ({
            let target = (kstack_top - content_bytes()) as usize;
            let placed = memory.stored(
                target,
                user_thread_image(entry, arg, satp, sstatus, sret_entry),
            );
            let (after, saved) = switched(hart, placed, current, target);
            &&& after.pc == sret_entry
            &&& after.satp == satp
            &&& after.privilege == hart.privilege
            &&& after.returned().privilege == Privilege::User
            &&& after.returned().pc == entry
            &&& after.returned().argument() == arg
            &&& after.returned().satp == satp
        }),
{
    let target = (kstack_top - content_bytes()) as usize;
    let image = user_thread_image(entry, arg, satp, sstatus, sret_entry);
    let placed = memory.stored(target, image);
    lemma_stored_block(memory, target, image);
    lemma_switch_between_threads(hart, placed, current, target);
    lemma_block_prefix(placed, target, 50, 14);
    lemma_previous_privilege_is_set(sstatus, Privilege::User);
}

/// The hart and the memory after `count` round trips between the contexts at
/// `a` and `b`: each is a switch from `a` to `b` followed by one from `b` back
/// to `a`.
pub open spec fn round_trips(hart: HartState, memory: Region, a: usize, b: usize, count: nat) -> (
    HartState,
    Region,
)
    decreases count,
{
    if count == 0 {
        (hart, memory)
    } else {
        let (before, earlier) = round_trips(hart, memory, a, b, (count - 1) as nat);
        let (there, between) = switched(before, earlier, a, b);
        switched(there, between, b, a)
    }
}

/// A switch from one thread to another and back brings back the return
/// address, the address-space root and every callee-saved register that the
/// first thread had, goes on where that thread's call of the switch
/// returns, and leaves the record of the other thread as it was.
pub proof fn lemma_round_trip_restores(hart: HartState, memory: Region, a: usize, b: usize)
    requires
        hart.well_formed(),
        memory.holds_content(a),
        memory.holds_content(b),
        apart(a, b),
    ensures
        ({
            let (back, after) = round_trips(hart, memory, a, b, 1);
            &&& back.ra == hart.ra
            &&& back.satp == hart.satp
            &&& back.s == hart.s
            &&& back.privilege == hart.privilege
            &&& back.pc == hart.ra
            &&& after == memory.stored(a, hart.saved())
            &&& after.block_at(b, 50) == memory.block_at(b, 50)
        }),
{
    reveal_with_fuel(round_trips, 2);
    let (there, between) = switched(hart, memory, a, b);
    lemma_switch_between_threads(hart, memory, a, b);
    let (back, after) = switched(there, between, b, a);
    lemma_switch_between_threads(there, between, b, a);
    let held = memory.block_at(b, 14);
    lemma_block_prefix(between, b, 50, 14);
    lemma_block_prefix(memory, b, 50, 14);
    lemma_block_bounds(memory, b, 14);
    assert(there.saved() =~= held);
    lemma_block_bounds(between, b, 14);
    assert(after.words =~= between.words);
    assert(back.s =~= hart.s);
}

/// However often two threads switch to each other and back, the first
/// thread's registers and both records are what they were after the first
/// round trip: nothing drifts.
pub proof fn lemma_round_trips_do_not_drift(
    hart: HartState,
    memory: Region,
    a: usize,
    b: usize,
    count: nat,
)
    requires
        hart.well_formed(),
        memory.holds_content(a),
        memory.holds_content(b),
        apart(a, b),
        count >= 1,
    ensures
        round_trips(hart, memory, a, b, count) == round_trips(hart, memory, a, b, 1),
        round_trips(hart, memory, a, b, count).0.ra == hart.ra,
        round_trips(hart, memory, a, b, count).0.satp == hart.satp,
        round_trips(hart, memory, a, b, count).0.s == hart.s,
    decreases count,
{
    lemma_round_trip_restores(hart, memory, a, b);
    if count > 1 {
        lemma_round_trips_do_not_drift(hart, memory, a, b, (count - 1) as nat);
        let (before, earlier) = round_trips(hart, memory, a, b, 1);
        reveal_with_fuel(round_trips, 2);
        assert(round_trips(hart, memory, a, b, count) == round_trips(before, earlier, a, b, 1));
        lemma_round_trip_restores(before, earlier, a, b);
        lemma_stored_block(memory, a, hart.saved());
        assert(before.saved() =~= hart.saved());
        let again = round_trips(before, earlier, a, b, 1);
        assert(again.1.words =~= earlier.words);
        assert(again.0 == before);
    }
}

/// A switch from a context to itself saves before it loads: the hart keeps
/// its registers and goes on at its return address.
pub proof fn lemma_switch_to_self(hart: HartState, memory: Region, current: usize)
    requires
        hart.well_formed(),
        memory.holds_content(current),
    ensures
        ({
            let (after, saved) = switched(hart, memory, current, current);
            &&& after.ra == hart.ra
            &&& after.satp == hart.satp
            &&& after.s == hart.s
            &&& after.pc == hart.ra
        }),
{
    lemma_stored_block(memory, current, hart.saved());
    let (after, saved) = switched(hart, memory, current, current);
    assert(after.s =~= hart.s);
}

/// Each call moves the saved program counter by four bytes: two calls move
/// it by eight, and no call leaves the frame as it found it.
pub proof fn lemma_sepc_advances_each_time(frame: TrapFrame)
    requires
        frame.sepc + 8 <= usize::MAX,
    ensures
        frame.advanced().sepc == frame.sepc + 4,
        frame.advanced().advanced().sepc == frame.sepc + 8,
        frame.advanced() != frame,
        frame.advanced().advanced() != frame.advanced(),
{
}

} // verus!
