use xy_os::arena::Arena;
use xy_os::content::ContextContent;
use xy_os::context::{Context, SwitchError};
use xy_os::hart::Hart;
use xy_os::status::{recorded_privilege, Privilege};

const WORD: usize = std::mem::size_of::<usize>();
const BASE: usize = 0x8100_0000;
const STACK_WORDS: usize = 256;

// The top of the n-th stack of an arena that holds a row of stacks.
fn stack_top(n: usize) -> usize {
    BASE + (n + 1) * STACK_WORDS * WORD
}

fn stacks(count: usize) -> Arena {
    Arena::new(BASE, vec![0usize; count * STACK_WORDS]).unwrap()
}

fn boot_hart() -> Hart {
    Hart {
        pc: 0x8020_0100,
        ra: 0x8020_0104,
        satp: 0x8_0000,
        s: [1000, 1001, 1002, 1003, 1004, 1005, 1006, 1007, 1008, 1009, 1010, 1011],
        privilege: Privilege::Supervisor,
    }
}

// A context with room for its record on stack n, holding whatever is there.
fn idle_context(n: usize) -> Context {
    Context { content_addr: stack_top(n) - 50 * WORD }
}

#[test]
fn recorded_privilege_reads_bit_eight() {
    assert_eq!(recorded_privilege(0), Privilege::User);
    assert_eq!(recorded_privilege(0x100), Privilege::Supervisor);
    assert_eq!(recorded_privilege(!0x100), Privilege::User);
    assert_eq!(recorded_privilege(usize::MAX), Privilege::Supervisor);
    assert_eq!(recorded_privilege(0x22), Privilege::User);
    assert_eq!(recorded_privilege(0x122), Privilege::Supervisor);
}

#[test]
fn hart_save_orders_the_registers() {
    let hart = boot_hart();
    let block = hart.save();
    assert_eq!(block[0], 0x8020_0104);
    assert_eq!(block[1], 0x8_0000);
    for i in 0..12 {
        assert_eq!(block[2 + i], 1000 + i);
    }
}

#[test]
fn hart_resume_loads_and_jumps() {
    let mut hart = boot_hart();
    hart.privilege = Privilege::User;
    let mut block = [0usize; 14];
    for i in 0..14 {
        block[i] = 50 + i;
    }
    hart.resume(&block);
    assert_eq!(hart.ra, 50);
    assert_eq!(hart.pc, 50);
    assert_eq!(hart.satp, 51);
    for i in 0..12 {
        assert_eq!(hart.s[i], 52 + i);
    }
    assert_eq!(hart.privilege, Privilege::User);
    assert_eq!(hart.save(), block);
}

#[test]
fn hart_sret_goes_where_the_registers_say() {
    let mut hart = boot_hart();
    hart.s[0] = 9;
    hart.s[1] = 0x22;
    hart.s[2] = 0x40_0000;
    let before = hart;
    hart.sret();
    assert_eq!(hart.pc, 0x40_0000);
    assert_eq!(hart.privilege, Privilege::User);
    assert_eq!(hart.ra, before.ra);
    assert_eq!(hart.satp, before.satp);
    assert_eq!(hart.s, before.s);
}

#[test]
fn hart_sret_stays_in_supervisor_mode_when_recorded() {
    let mut hart = boot_hart();
    hart.s[1] = 0x122;
    hart.s[2] = 0x8020_4000;
    hart.sret();
    assert_eq!(hart.pc, 0x8020_4000);
    assert_eq!(hart.privilege, Privilege::Supervisor);
}

#[test]
fn kernel_thread_begins_at_its_entry() {
    let mut arena = stacks(2);
    let mut hart = boot_hart();
    let mut idle = idle_context(0);
    let mut thread =
        Context::new_kernel_thread(0x8020_3000, 42, stack_top(1), 0x8_2000, 0x22, &mut arena);
    idle.switch(&mut thread, &mut hart, &mut arena);
    assert_eq!(hart.pc, 0x8020_3000);
    assert_eq!(hart.ra, 0x8020_3000);
    assert_eq!(hart.s[0], 42);
    assert_eq!(hart.satp, 0x8_2000);
    assert_eq!(hart.s[1], 0x122);
    assert_eq!(recorded_privilege(hart.s[1]), Privilege::Supervisor);
    assert_eq!(&hart.s[2..], &[0usize; 10]);
    assert_eq!(hart.privilege, Privilege::Supervisor);
}

#[test]
fn user_thread_begins_in_user_mode() {
    let mut arena = stacks(2);
    let mut hart = boot_hart();
    let mut idle = idle_context(0);
    let mut thread = Context::new_user_thread(
        0x40_0000,
        5,
        stack_top(1),
        0x8_3000,
        0x122,
        0x8020_1000,
        &mut arena,
    );
    idle.switch(&mut thread, &mut hart, &mut arena);
    // the switch lands on the return entry, still in supervisor mode
    assert_eq!(hart.pc, 0x8020_1000);
    assert_eq!(hart.satp, 0x8_3000);
    assert_eq!(hart.privilege, Privilege::Supervisor);
    assert_eq!(hart.s[0], 5);
    assert_eq!(hart.s[1], 0x22);
    assert_eq!(hart.s[2], 0x40_0000);
    hart.sret();
    assert_eq!(hart.privilege, Privilege::User);
    assert_eq!(hart.pc, 0x40_0000);
    assert_eq!(hart.s[0], 5);
    assert_eq!(hart.satp, 0x8_3000);
}

#[test]
fn switch_saves_the_thread_it_leaves() {
    let mut arena = stacks(2);
    let mut hart = boot_hart();
    let mut idle = idle_context(0);
    let mut thread =
        Context::new_kernel_thread(0x8020_3000, 42, stack_top(1), 0x8_2000, 0, &mut arena);
    let fresh = ContextContent::read_from(&arena, thread.content_addr);
    idle.switch(&mut thread, &mut hart, &mut arena);
    let saved = ContextContent::read_from(&arena, idle.content_addr);
    assert_eq!(saved.ra, 0x8020_0104);
    assert_eq!(saved.satp, 0x8_0000);
    assert_eq!(saved.s, boot_hart().s);
    // the program counter is not saved: a thread resumes at its return address
    assert_ne!(saved.ra, boot_hart().pc);
    // the record that was resumed is still in its place
    assert_eq!(ContextContent::read_from(&arena, thread.content_addr), fresh);
    // and the handles still point where they did
    assert_eq!(idle, idle_context(0));
    assert_eq!(thread.content_addr, stack_top(1) - 50 * WORD);
}

#[test]
fn switch_leaves_the_trap_frame_of_the_record_alone() {
    let mut arena = stacks(2);
    let mut hart = boot_hart();
    let mut content = ContextContent::zeroed();
    content.tf.x[2] = 0x7fff_f000;
    content.tf.sepc = 0x40_0000;
    content.tf.sstatus = 0x20;
    let mut idle = content.push_at(stack_top(0), &mut arena);
    let mut thread =
        Context::new_kernel_thread(0x8020_3000, 42, stack_top(1), 0x8_2000, 0, &mut arena);
    idle.switch(&mut thread, &mut hart, &mut arena);
    let saved = ContextContent::read_from(&arena, idle.content_addr);
    assert_eq!(saved.ra, 0x8020_0104);
    assert_eq!(saved.tf, content.tf);
}

#[test]
fn round_trip_restores_the_first_thread() {
    let mut arena = stacks(2);
    let mut hart = boot_hart();
    let mut a = idle_context(0);
    let mut b = Context::new_kernel_thread(0x8020_3000, 42, stack_top(1), 0x8_2000, 0, &mut arena);
    a.switch(&mut b, &mut hart, &mut arena);
    assert_eq!(hart.pc, 0x8020_3000);
    // the second thread runs for a while
    hart.s[4] = 0x4444;
    hart.ra = 0x8020_3abc;
    b.switch(&mut a, &mut hart, &mut arena);
    assert_eq!(hart.ra, boot_hart().ra);
    assert_eq!(hart.pc, boot_hart().ra);
    assert_eq!(hart.satp, boot_hart().satp);
    assert_eq!(hart.s, boot_hart().s);
    let suspended = ContextContent::read_from(&arena, b.content_addr);
    assert_eq!(suspended.ra, 0x8020_3abc);
    assert_eq!(suspended.s[4], 0x4444);
    assert_eq!(suspended.s[0], 42);
    assert_eq!(suspended.satp, 0x8_2000);
}

#[test]
fn a_thousand_round_trips_do_not_drift() {
    let mut arena = stacks(2);
    let mut hart = boot_hart();
    let mut a = idle_context(0);
    let mut b = Context::new_kernel_thread(0x8020_3000, 42, stack_top(1), 0x8_2000, 0x2, &mut arena);
    a.switch(&mut b, &mut hart, &mut arena);
    b.switch(&mut a, &mut hart, &mut arena);
    let first_hart = hart;
    let first_a = ContextContent::read_from(&arena, a.content_addr);
    let first_b = ContextContent::read_from(&arena, b.content_addr);
    for _ in 0..1000 {
        a.switch(&mut b, &mut hart, &mut arena);
        assert_eq!(hart.pc, 0x8020_3000);
        assert_eq!(hart.s[0], 42);
        assert_eq!(hart.satp, 0x8_2000);
        b.switch(&mut a, &mut hart, &mut arena);
        assert_eq!(hart.ra, boot_hart().ra);
        assert_eq!(hart.satp, boot_hart().satp);
        assert_eq!(hart.s, boot_hart().s);
        assert_eq!(hart, first_hart);
    }
    assert_eq!(ContextContent::read_from(&arena, a.content_addr), first_a);
    assert_eq!(ContextContent::read_from(&arena, b.content_addr), first_b);
}

#[test]
fn three_threads_take_turns() {
    let mut arena = stacks(3);
    let mut hart = boot_hart();
    let mut boot = idle_context(0);
    let mut first = Context::new_kernel_thread(0x8020_3000, 1, stack_top(1), 0x8_2000, 0, &mut arena);
    let mut second = Context::new_kernel_thread(0x8020_5000, 2, stack_top(2), 0x8_4000, 0, &mut arena);
    boot.switch(&mut first, &mut hart, &mut arena);
    assert_eq!((hart.pc, hart.s[0], hart.satp), (0x8020_3000, 1, 0x8_2000));
    hart.ra = 0x8020_3010;
    hart.s[5] = 55;
    first.switch(&mut second, &mut hart, &mut arena);
    assert_eq!((hart.pc, hart.s[0], hart.satp), (0x8020_5000, 2, 0x8_4000));
    assert_eq!(hart.s[5], 0);
    hart.ra = 0x8020_5020;
    second.switch(&mut first, &mut hart, &mut arena);
    assert_eq!((hart.pc, hart.s[0], hart.satp), (0x8020_3010, 1, 0x8_2000));
    assert_eq!(hart.s[5], 55);
    first.switch(&mut boot, &mut hart, &mut arena);
    assert_eq!(hart.pc, boot_hart().ra);
    assert_eq!(hart.s, boot_hart().s);
    assert_eq!(hart.satp, boot_hart().satp);
}

#[test]
fn switch_to_itself_returns_at_once() {
    let mut arena = stacks(1);
    let mut hart = boot_hart();
    let mut a = idle_context(0);
    let mut same = idle_context(0);
    a.switch(&mut same, &mut hart, &mut arena);
    assert_eq!(hart.pc, boot_hart().ra);
    assert_eq!(hart.ra, boot_hart().ra);
    assert_eq!(hart.satp, boot_hart().satp);
    assert_eq!(hart.s, boot_hart().s);
}

#[test]
fn checked_switch_rejects_a_null_target() {
    let mut arena = stacks(2);
    let mut hart = boot_hart();
    let mut a = idle_context(0);
    let mut null = Context::null();
    let words_before = ContextContent::read_from(&arena, a.content_addr);
    let outcome = a.switch_checked(&mut null, &mut hart, &mut arena);
    assert_eq!(outcome, Err(SwitchError::NullTarget));
    assert_eq!(hart, boot_hart());
    assert_eq!(ContextContent::read_from(&arena, a.content_addr), words_before);
    assert_eq!(null.content_addr, 0);
}

#[test]
fn checked_switch_rejects_null_on_both_sides_as_null_target() {
    let mut arena = stacks(1);
    let mut hart = boot_hart();
    let mut current = Context::null();
    let mut target = Context::null();
    assert_eq!(
        current.switch_checked(&mut target, &mut hart, &mut arena),
        Err(SwitchError::NullTarget)
    );
    assert_eq!(hart, boot_hart());
}

#[test]
fn checked_switch_rejects_a_null_current() {
    let mut arena = stacks(2);
    let mut hart = boot_hart();
    let mut null = Context::null();
    let mut thread =
        Context::new_kernel_thread(0x8020_3000, 42, stack_top(1), 0x8_2000, 0, &mut arena);
    let outcome = null.switch_checked(&mut thread, &mut hart, &mut arena);
    assert_eq!(outcome, Err(SwitchError::NullCurrent));
    assert_eq!(hart, boot_hart());
}

#[test]
fn checked_switch_rejects_addresses_outside_the_arena() {
    let mut arena = stacks(2);
    let mut hart = boot_hart();
    let mut inside = idle_context(0);
    // too close to the top for a whole record
    let mut high = Context { content_addr: stack_top(1) - 49 * WORD };
    assert_eq!(
        inside.switch_checked(&mut high, &mut hart, &mut arena),
        Err(SwitchError::OutsideArena)
    );
    assert_eq!(
        high.switch_checked(&mut inside, &mut hart, &mut arena),
        Err(SwitchError::OutsideArena)
    );
    // below the arena
    let mut low = Context { content_addr: BASE - WORD };
    assert_eq!(
        inside.switch_checked(&mut low, &mut hart, &mut arena),
        Err(SwitchError::OutsideArena)
    );
    // not on a word boundary
    let mut odd = Context { content_addr: BASE + 1 };
    assert_eq!(
        inside.switch_checked(&mut odd, &mut hart, &mut arena),
        Err(SwitchError::OutsideArena)
    );
    assert_eq!(hart, boot_hart());
}

#[test]
fn checked_switch_switches_when_both_are_valid() {
    let mut arena = stacks(2);
    let mut hart = boot_hart();
    let mut idle = idle_context(0);
    let mut thread =
        Context::new_kernel_thread(0x8020_3000, 42, stack_top(1), 0x8_2000, 0, &mut arena);
    assert_eq!(idle.switch_checked(&mut thread, &mut hart, &mut arena), Ok(()));
    assert_eq!(hart.pc, 0x8020_3000);
    assert_eq!(hart.s[0], 42);
    assert_eq!(hart.satp, 0x8_2000);
    assert_eq!(ContextContent::read_from(&arena, idle.content_addr).ra, boot_hart().ra);
}
