use zebra::allocator::Allocator;
use zebra::elf::loader::load_elf;
use zebra::ipc::{Message, MessageData, ServerList, NO_VALUE};
use zebra::memory::{align_page_down, align_page_up, pages_needed, Page, PAGE_SIZE, TOTAL_PAGES};
use zebra::process::{Process, ProcessState, TRAPFRAME_ADDR};
use zebra::pte::EntryAttributes;
use zebra::scheduler::{ProcessList, ScheduleDecision};
use zebra::syscall::{Kernel, SyscallOutcome, SystemCall};
use zebra::table::Table;
use zebra::time::{duration_from_ticks, TimeSpan};
use zebra::trap::{trap_action, Exception, TrapAction};
use zebra::trapframe::{Registers, TrapFrame, REGISTER_COUNT};

const HEAP_BASE: u64 = 0x8000_0000;
const TRAMPOLINE: u64 = 0x1000_0000;
const USER_ENTER: u64 = 0x2000_0000;

fn fresh_allocator() -> Allocator {
    let mut a = Allocator::new(HEAP_BASE);
    a.enable();
    a
}

fn fresh_process(pid: usize) -> Process {
    Process {
        state: ProcessState::Ready,
        pid,
        page_table: Table::new(),
        trap_frame: TrapFrame::new(0, 0x9000_0000, 0xa000_0000),
    }
}

fn fresh_kernel() -> Kernel {
    Kernel {
        processes: ProcessList::new(),
        servers: ServerList::new(),
        allocator: fresh_allocator(),
        handlers: zebra::plic::InterruptTable::new(),
        root_table: Table::new(),
        next_pid: 1,
        trampoline_addr: TRAMPOLINE,
        user_enter_addr: USER_ENTER,
    }
}

/// A minimal 64-bit little-endian ELF image with one loadable segment.
fn tiny_elf(entry: u64, vaddr: u64, payload: &[u8]) -> Vec<u8> {
    let mut image = vec![0u8; 64 + 56];
    image[0] = 0x7f;
    image[1] = b'E';
    image[2] = b'L';
    image[3] = b'F';
    image[4] = 2; // 64-bit
    image[5] = 1; // little-endian
    image[6] = 1; // current version
    image[7] = 0; // System V
    image[16..18].copy_from_slice(&2u16.to_le_bytes()); // executable
    image[18..20].copy_from_slice(&0xf3u16.to_le_bytes()); // RISC-V
    image[20..24].copy_from_slice(&1u32.to_le_bytes());
    image[24..32].copy_from_slice(&entry.to_le_bytes());
    image[32..40].copy_from_slice(&64u64.to_le_bytes()); // program headers at 64
    image[54..56].copy_from_slice(&56u16.to_le_bytes());
    image[56..58].copy_from_slice(&1u16.to_le_bytes()); // one program header
    let offset = 120u64;
    image[64..68].copy_from_slice(&1u32.to_le_bytes()); // LOAD
    image[68..72].copy_from_slice(&5u32.to_le_bytes()); // R|X
    image[72..80].copy_from_slice(&offset.to_le_bytes());
    image[80..88].copy_from_slice(&vaddr.to_le_bytes());
    image[88..96].copy_from_slice(&vaddr.to_le_bytes());
    image[96..104].copy_from_slice(&(payload.len() as u64).to_le_bytes());
    image[104..112].copy_from_slice(&(payload.len() as u64).to_le_bytes());
    image[112..120].copy_from_slice(&4096u64.to_le_bytes());
    image.extend_from_slice(payload);
    image
}

#[test]
fn page_align_up() {
    assert_eq!(align_page_up(0), 0);
    assert_eq!(align_page_up(1), PAGE_SIZE);
    assert_eq!(align_page_up(PAGE_SIZE), PAGE_SIZE);
    assert_eq!(align_page_up(PAGE_SIZE + 1), PAGE_SIZE * 2);
    assert_eq!(align_page_up(PAGE_SIZE * 2), PAGE_SIZE * 2);
    assert_eq!(align_page_up((PAGE_SIZE * 2) - 1), PAGE_SIZE * 2);
}

#[test]
fn page_align_down() {
    assert_eq!(align_page_down(0), 0);
    assert_eq!(align_page_down(1), 0);
    assert_eq!(align_page_down(PAGE_SIZE - 1), 0);
    assert_eq!(align_page_down(PAGE_SIZE), PAGE_SIZE);
    assert_eq!(align_page_down(PAGE_SIZE + 512), PAGE_SIZE);
    assert_eq!(align_page_down((PAGE_SIZE * 2) - 1), PAGE_SIZE);
}

#[test]
fn pages_needed_rounds_up() {
    assert_eq!(pages_needed(0), 0);
    assert_eq!(pages_needed(1), 1);
    assert_eq!(pages_needed(4096), 1);
    assert_eq!(pages_needed(4097), 2);
}

#[test]
fn virt_to_phys() {
    let mut table = Table::new();
    table.map_page(0x1000, 0x2000, EntryAttributes::UserReadWrite);
    assert_eq!(table.physical_addr(0x1000), Some(0x2000));
    assert_eq!(table.physical_addr(0x1234), Some(0x2234));
}

#[test]
fn unmap_removes_translation() {
    let mut table = Table::new();
    table.map_page(0x1000, 0x2000, EntryAttributes::UserReadWrite);
    table.unmap(0x1000);
    assert_eq!(table.physical_addr(0x1000), None);
}

#[test]
fn id_map() {
    let mut table = Table::new();
    table.identity_map(0x1000, 0x1fff, EntryAttributes::UserReadWrite);
    assert_eq!(table.physical_addr(0x1000), Some(0x1000));
    assert_eq!(table.physical_addr(0x1999), Some(0x1999));
    assert_eq!(table.physical_addr(0x2000), None);
}

#[test]
fn satp_encodes_mode_and_page_number() {
    assert_eq!(Table::build_satp(0x8000_0000), (8u64 << 60) | 0x8_0000);
}

#[test]
fn alloc_addresses_disjoint() {
    let mut a = fresh_allocator();
    let p = a.allocate(20 * PAGE_SIZE).unwrap();
    let q = a.allocate(20 * PAGE_SIZE).unwrap();
    assert_ne!(p, q);
    assert!(p + 20 * PAGE_SIZE as u64 <= q || q + 20 * PAGE_SIZE as u64 <= p);
}

#[test]
fn dealloc_first_fit_reuses() {
    let mut a = fresh_allocator();
    let p = a.allocate(20 * PAGE_SIZE).unwrap();
    a.allocate(10 * PAGE_SIZE).unwrap();
    a.deallocate(p);
    let q = a.allocate(20 * PAGE_SIZE).unwrap();
    assert_eq!(p, q);
}

#[test]
fn alloc_dealloc_pair() {
    let mut a = fresh_allocator();
    let p = a.allocate(20 * PAGE_SIZE).unwrap();
    let q = a.allocate(20 * PAGE_SIZE).unwrap();
    a.deallocate(p);
    a.deallocate(q);
    let r = a.allocate(20 * PAGE_SIZE).unwrap();
    let s = a.allocate(20 * PAGE_SIZE).unwrap();
    assert_eq!(p, r);
    assert_eq!(q, s);
}

#[test]
fn out_of_memory() {
    let mut a = fresh_allocator();
    assert_eq!(a.allocate((TOTAL_PAGES + 1) * PAGE_SIZE), None);
}

#[test]
fn one_page_starts_at_base() {
    let mut a = fresh_allocator();
    assert_eq!(a.allocate(1), Some(HEAP_BASE));
}

#[test]
fn page_from_slice_zero_pads() {
    let page = Page::from_slice(&[1, 2, 3]);
    assert_eq!(page.bytes[0], 1);
    assert_eq!(page.bytes[2], 3);
    assert_eq!(page.bytes[3], 0);
    assert_eq!(page.bytes.len(), PAGE_SIZE);
}

#[test]
fn ticks_to_duration() {
    let t = duration_from_ticks(10_000_000);
    assert_eq!(t.as_secs(), 1);
    assert_eq!(t.subsec_nanos(), 0);
    let t = duration_from_ticks(15_000_000);
    assert_eq!(t.as_secs(), 1);
    assert_eq!(t.subsec_nanos(), 500_000_000);
}

#[test]
fn timespan_ordering() {
    let a = TimeSpan { secs: 1, nanos: 0 };
    let b = TimeSpan { secs: 0, nanos: 999_999_999 };
    assert!(a.is_at_least(&b));
    assert!(!b.is_at_least(&a));
    assert!(a.is_at_least(&a));
}

#[test]
fn trapframe_round_trip() {
    let mut tf = TrapFrame::new(7, 0x9000, 0xa000);
    let file: Vec<u64> = (0..REGISTER_COUNT as u64).collect();
    tf.save_user_registers(&file);
    let restored = tf.restore_user_registers();
    assert_eq!(restored, file);
    assert_eq!(tf.get(Registers::ProgramCounter), 1);
}

#[test]
fn registry_register_and_lookup() {
    let mut list = ServerList::new();
    let sid = list.register(1, Some(42)).unwrap();
    assert_eq!(sid, 42);
    let server = list.get_by_pid(1).unwrap();
    assert_eq!(server.server_id, 42);
    // A second server for the same process is refused.
    assert_eq!(list.register(1, None), None);
    // A taken identity is refused.
    assert_eq!(list.register(2, Some(42)), None);
    // Automatic identities start at 1.
    assert_eq!(list.register(2, None), Some(1));
}

#[test]
fn registry_remove_drains_sender() {
    let mut list = ServerList::new();
    list.register(1, Some(10)).unwrap();
    list.register(2, Some(20)).unwrap();
    let receiver = list.get_by_sid(20).unwrap();
    receiver.send_message(Message::new(1, 10, 5, MessageData::empty()));
    receiver.send_message(Message::new(2, 20, 6, MessageData::empty()));
    let removed = list.remove_by_pid(1).unwrap();
    assert_eq!(removed.server_id, 10);
    let receiver = list.get_by_sid(20).unwrap();
    assert_eq!(receiver.messages.len(), 1);
    assert_eq!(receiver.messages[0].identifier, 6);
    assert!(list.get_by_pid(1).is_none());
}

#[test]
fn mailbox_fifo_order() {
    let mut list = ServerList::new();
    list.register(2, Some(20)).unwrap();
    let receiver = list.get_by_sid(20).unwrap();
    receiver.send_message(Message::new(1, 10, 1, MessageData::from_u64(11)));
    receiver.send_message(Message::new(1, 10, 2, MessageData::from_u64(22)));
    let m1 = receiver.receive_message().unwrap();
    let m2 = receiver.receive_message().unwrap();
    assert_eq!(m1.identifier, 1);
    assert_eq!(m2.identifier, 2);
    assert_eq!(receiver.receive_message(), None);
}

#[test]
fn exit_wakes_parent() {
    let mut list = ProcessList::new();
    let mut child = fresh_process(2);
    child.state = ProcessState::Running;
    list.push(fresh_process(1));
    list.push(child);
    // Bring the child to the front, as if it were current.
    list.next();
    if let Some(parent) = list.find_by_pid(1) {
        parent.state = ProcessState::ChildExited { child_pid: 2 };
    }
    let removed = list.remove_current().unwrap();
    assert_eq!(removed.pid, 2);
    let parent = list.find_by_pid(1).unwrap();
    assert!(matches!(parent.state, ProcessState::Ready));
}

#[test]
fn schedule_runs_ready_process() {
    let mut list = ProcessList::new();
    list.push(fresh_process(1));
    let servers = ServerList::new();
    let now = TimeSpan { secs: 0, nanos: 0 };
    match list.schedule_step(&servers, &now) {
        ScheduleDecision::Run { pid } => assert_eq!(pid, 1),
        ScheduleDecision::Idle => panic!("a ready process must be scheduled"),
    }
    assert!(matches!(list.processes[0].state, ProcessState::Running));
}

#[test]
fn schedule_idles_when_blocked() {
    let mut list = ProcessList::new();
    let mut p = fresh_process(1);
    p.state = ProcessState::WaitUntilMessageReceived;
    list.push(p);
    let servers = ServerList::new();
    let now = TimeSpan { secs: 0, nanos: 0 };
    assert_eq!(list.schedule_step(&servers, &now), ScheduleDecision::Idle);
}

#[test]
fn schedule_wakes_due_sleeper() {
    let mut list = ProcessList::new();
    let mut p = fresh_process(1);
    p.state = ProcessState::Sleeping { until: TimeSpan { secs: 1, nanos: 0 } };
    list.push(p);
    let servers = ServerList::new();
    let early = TimeSpan { secs: 0, nanos: 500 };
    assert_eq!(list.schedule_step(&servers, &early), ScheduleDecision::Idle);
    let late = TimeSpan { secs: 1, nanos: 0 };
    match list.schedule_step(&servers, &late) {
        ScheduleDecision::Run { pid } => assert_eq!(pid, 1),
        ScheduleDecision::Idle => panic!("a due sleeper must be woken"),
    }
}

#[test]
fn loader_maps_segment() {
    let payload = [0x13u8, 0x05, 0x10, 0x02]; // one instruction and change
    let image = tiny_elf(0x4000_0000, 0x4000_0000, &payload);
    let mut table = Table::new();
    let mut allocator = fresh_allocator();
    let (entry, frames) = load_elf(&image, &mut table, &mut allocator).unwrap();
    assert_eq!(entry, 0x4000_0000);
    assert_eq!(frames.len(), 1);
    assert_eq!(frames[0].vaddr, 0x4000_0000);
    assert_eq!(&frames[0].page.bytes[..4], &payload);
    assert_eq!(frames[0].page.bytes[4], 0);
    assert_eq!(table.physical_addr(0x4000_0000), Some(frames[0].paddr));
}

#[test]
fn loader_rejects_bad_magic() {
    let mut image = tiny_elf(0, 0x4000_0000, &[]);
    image[0] = 0;
    let mut table = Table::new();
    let mut allocator = fresh_allocator();
    assert!(load_elf(&image, &mut table, &mut allocator).is_err());
}

#[test]
fn process_from_elf() {
    let image = tiny_elf(0x4000_0000, 0x4000_0000, &[1, 2, 3, 4]);
    let mut allocator = fresh_allocator();
    let p = Process::new(&image, 7, &mut allocator, TRAMPOLINE, USER_ENTER).unwrap();
    assert_eq!(p.pid, 7);
    assert!(matches!(p.state, ProcessState::Ready));
    assert_eq!(p.trap_frame.get(Registers::ProgramCounter), 0x4000_0000);
    assert!(p.page_table.physical_addr(TRAPFRAME_ADDR).is_some());
    assert_eq!(p.page_table.physical_addr(TRAMPOLINE), Some(TRAMPOLINE));
}

#[test]
fn syscall_numbers_round_trip() {
    assert_eq!(SystemCall::Exit.raw_value(), 0);
    assert_eq!(SystemCall::Sleep.raw_value(), 1);
    assert_eq!(SystemCall::SleepUntilMessageReceived.raw_value(), 2);
    assert_eq!(SystemCall::try_from(0), Ok(SystemCall::Exit));
    assert_eq!(SystemCall::try_from(2), Ok(SystemCall::SleepUntilMessageReceived));
    assert_eq!(SystemCall::try_from(13), Ok(SystemCall::TransferMemory));
    assert!(SystemCall::try_from(u64::MAX).is_err());
}

#[test]
fn blocking_spawn_then_exit_wakes_parent() {
    let mut k = fresh_kernel();
    let mut parent = fresh_process(1);
    parent.state = ProcessState::Running;
    k.processes.push(parent);
    k.next_pid = 2;
    // The parent asks for a blocking spawn.
    {
        let front = &mut k.processes.processes[0];
        front.trap_frame.set(Registers::A2, 1);
    }
    let image = tiny_elf(0x4000_0000, 0x4000_0000, &[9, 9]);
    assert_eq!(k.sys_spawn(&image), SyscallOutcome::Completed);
    assert_eq!(k.processes.processes.len(), 2);
    assert_eq!(k.processes.processes[0].trap_frame.get(Registers::A0), 2);
    assert!(matches!(
        k.processes.processes[0].state,
        ProcessState::ChildExited { child_pid: 2 }
    ));
    assert_eq!(k.processes.processes[1].pid, 2);
    // The child runs and exits; the parent is runnable again.
    let servers = ServerList::new();
    let now = TimeSpan { secs: 0, nanos: 0 };
    match k.processes.schedule_step(&servers, &now) {
        ScheduleDecision::Run { pid } => assert_eq!(pid, 2),
        ScheduleDecision::Idle => panic!("the child must be scheduled"),
    }
    assert_eq!(k.sys_exit(), SyscallOutcome::Exited);
    assert!(matches!(
        k.processes.processes[0].state,
        ProcessState::Ready
    ));
}

#[test]
fn ipc_round_trip() {
    let mut k = fresh_kernel();
    k.processes.push(fresh_process(1));
    k.processes.push(fresh_process(2));
    k.next_pid = 3;
    assert!(k.servers.register(1, Some(100)).is_some()); // client, server id A
    assert!(k.servers.register(2, Some(200)).is_some()); // server B
    // The client sends {ident=42, data=[1,0,0,0,0]} to B.
    {
        let front = &mut k.processes.processes[0];
        front.trap_frame.set(Registers::A0, 200);
        front.trap_frame.set(Registers::A1, 42);
        front.trap_frame.set(Registers::A2, 1);
    }
    assert_eq!(k.sys_send_message(), SyscallOutcome::Completed);
    assert!(matches!(
        k.processes.processes[0].state,
        ProcessState::MessageSent { receiver_sid: 200 }
    ));
    // B receives it.
    k.processes.next();
    assert_eq!(k.sys_receive_message(), SyscallOutcome::Completed);
    {
        let front = &k.processes.processes[0];
        assert_eq!(front.pid, 2);
        assert_eq!(front.trap_frame.get(Registers::A0), 42);
        assert_eq!(front.trap_frame.get(Registers::A1), 100);
        assert_eq!(front.trap_frame.get(Registers::A2), 1);
    }
    // The sender was unblocked by the consumption.
    assert!(matches!(k.processes.processes[1].state, ProcessState::Ready));
    // B replies {ident=43, data=[2,0,0,0,0]} to A.
    {
        let front = &mut k.processes.processes[0];
        front.trap_frame.set(Registers::A0, 100);
        front.trap_frame.set(Registers::A1, 43);
        front.trap_frame.set(Registers::A2, 2);
    }
    assert_eq!(k.sys_send_message(), SyscallOutcome::Completed);
    // A receives the reply.
    k.processes.next();
    assert_eq!(k.sys_receive_message(), SyscallOutcome::Completed);
    let front = &k.processes.processes[0];
    assert_eq!(front.pid, 1);
    assert_eq!(front.trap_frame.get(Registers::A0), 43);
    assert_eq!(front.trap_frame.get(Registers::A1), 200);
    assert_eq!(front.trap_frame.get(Registers::A2), 2);
}

#[test]
fn send_without_server_kills() {
    let mut k = fresh_kernel();
    k.processes.push(fresh_process(1));
    k.next_pid = 2;
    assert_eq!(k.sys_send_message(), SyscallOutcome::Killed);
    assert_eq!(k.processes.processes.len(), 0);
}

#[test]
fn receive_from_empty_mailbox() {
    let mut k = fresh_kernel();
    k.processes.push(fresh_process(1));
    k.next_pid = 2;
    k.servers.register(1, Some(100)).unwrap();
    assert_eq!(k.sys_receive_message(), SyscallOutcome::Completed);
    assert_eq!(k.processes.processes[0].trap_frame.get(Registers::A0), NO_VALUE);
}

#[test]
fn allocate_and_transfer_memory() {
    let mut k = fresh_kernel();
    k.processes.push(fresh_process(1)); // sender
    k.processes.push(fresh_process(2)); // receiver
    k.next_pid = 3;
    k.servers.register(2, Some(200)).unwrap();
    // The sender allocates 8 KiB, identity-mapped into its space.
    {
        let front = &mut k.processes.processes[0];
        front.trap_frame.set(Registers::A0, 8192);
    }
    assert_eq!(k.sys_allocate(), SyscallOutcome::Completed);
    let base = k.processes.processes[0].trap_frame.get(Registers::A0);
    assert_ne!(base, 0);
    assert_eq!(k.processes.processes[0].page_table.physical_addr(base), Some(base));
    // Transfer the range to the receiver.
    {
        let front = &mut k.processes.processes[0];
        front.trap_frame.set(Registers::A0, 200);
        front.trap_frame.set(Registers::A1, base);
        front.trap_frame.set(Registers::A2, base + 8192);
    }
    assert_eq!(k.sys_transfer_memory(), SyscallOutcome::Completed);
    assert_eq!(k.processes.processes[0].page_table.physical_addr(base), None);
    assert_eq!(
        k.processes.processes[0].page_table.physical_addr(base + 8191),
        None
    );
    assert_eq!(k.processes.processes[1].page_table.physical_addr(base), Some(base));
    assert_eq!(
        k.processes.processes[1].page_table.physical_addr(base + 8191),
        Some(base + 8191)
    );
}

#[test]
fn user_interrupt_round_trip() {
    let mut k = fresh_kernel();
    let mut driver = fresh_process(1);
    driver.state = ProcessState::Running;
    driver.trap_frame.set(Registers::ProgramCounter, 0x4000_1234);
    driver.trap_frame.set(Registers::A3, 77);
    k.processes.push(driver);
    k.next_pid = 2;
    // The driver registers a handler for source 5.
    {
        let front = &mut k.processes.processes[0];
        front.trap_frame.set(Registers::A0, 5);
        front.trap_frame.set(Registers::A1, 0x4000_2000);
    }
    assert_eq!(k.sys_register_interrupt_handler(), SyscallOutcome::Completed);
    let before = k.processes.processes[0].trap_frame.registers.clone();
    // The peripheral raises source 5.
    assert!(k.deliver_user_interrupt(5, 0x4000_2000, 1));
    {
        let front = &k.processes.processes[0];
        assert_eq!(front.trap_frame.get(Registers::ProgramCounter), 0x4000_2000);
        assert!(matches!(
            front.state,
            ProcessState::HandlingInterrupt { interrupt_id: 5, .. }
        ));
    }
    // The handler finishes; the prior register file comes back exactly.
    let outcome = k.sys_complete_interrupt();
    assert_eq!(outcome, SyscallOutcome::CompletedInterrupt { interrupt_id: 5 });
    let front = &k.processes.processes[0];
    assert_eq!(front.trap_frame.registers, before);
    assert_eq!(front.trap_frame.get(Registers::A3), 77);
    // The interrupted process had been re-queued as Ready when the
    // interrupt arrived; that is the state that comes back.
    assert!(matches!(front.state, ProcessState::Ready));
}

#[test]
fn complete_interrupt_outside_handler_kills() {
    let mut k = fresh_kernel();
    k.processes.push(fresh_process(1));
    k.next_pid = 2;
    assert_eq!(k.sys_complete_interrupt(), SyscallOutcome::Killed);
}

#[test]
fn faulting_process_is_killed_others_continue() {
    // A load page fault (cause 13) kills the faulting process.
    assert_eq!(
        trap_action(13),
        TrapAction::KillProcess(Exception::LoadPageFault)
    );
    let mut k = fresh_kernel();
    let mut faulty = fresh_process(2);
    faulty.state = ProcessState::Running;
    k.processes.push(faulty);
    k.processes.push(fresh_process(3));
    k.next_pid = 4;
    let pid = k.terminate_current();
    assert_eq!(pid, 2);
    assert_eq!(k.processes.processes.len(), 1);
    assert_eq!(k.processes.processes[0].pid, 3);
}

#[test]
fn trap_classification() {
    let intr = 1u64 << 63;
    assert_eq!(trap_action(intr | 1), TrapAction::Reschedule);
    assert_eq!(trap_action(intr | 9), TrapAction::ClaimExternal);
    assert_eq!(trap_action(8), TrapAction::HandleSyscall);
    assert_eq!(trap_action(9), TrapAction::Fatal);
    assert_eq!(trap_action(11), TrapAction::Fatal);
}

#[test]
fn sleep_sets_wake_time() {
    let mut k = fresh_kernel();
    let mut p = fresh_process(1);
    p.state = ProcessState::Running;
    p.trap_frame.set(Registers::A0, 2);
    p.trap_frame.set(Registers::A1, 500);
    k.processes.push(p);
    k.next_pid = 2;
    let now = TimeSpan { secs: 10, nanos: 100 };
    assert_eq!(k.sys_sleep(&now), SyscallOutcome::Completed);
    match &k.processes.processes[0].state {
        ProcessState::Sleeping { until } => {
            assert_eq!(until.secs, 12);
            assert_eq!(until.nanos, 600);
        }
        _ => panic!("expected a sleeping process"),
    }
}

#[test]
fn schedule_round_robin_picks_first_runnable() {
    let mut list = ProcessList::new();
    let mut a = fresh_process(1);
    a.state = ProcessState::Running;
    let mut b = fresh_process(2);
    b.state = ProcessState::WaitUntilMessageReceived;
    let c = fresh_process(3); // Ready
    let d = fresh_process(4); // Ready
    list.push(a);
    list.push(b);
    list.push(c);
    list.push(d);
    let servers = ServerList::new();
    let now = TimeSpan { secs: 0, nanos: 0 };
    // The first runnable process after the old front is chosen, not any
    // later Ready one.
    match list.schedule_step(&servers, &now) {
        ScheduleDecision::Run { pid } => assert_eq!(pid, 3),
        ScheduleDecision::Idle => panic!("a ready process must be scheduled"),
    }
    // Next round: the old front (3) goes behind; the next Ready is 4.
    match list.schedule_step(&servers, &now) {
        ScheduleDecision::Run { pid } => assert_eq!(pid, 4),
        ScheduleDecision::Idle => panic!("a ready process must be scheduled"),
    }
}

#[test]
fn registry_remove_keeps_other_mailboxes() {
    let mut list = ServerList::new();
    list.register(1, Some(10)).unwrap();
    list.register(2, Some(20)).unwrap();
    list.register(3, Some(30)).unwrap();
    // Mail from different senders in server 30's box.
    let receiver = list.get_by_sid(30).unwrap();
    receiver.send_message(Message::new(1, 10, 7, MessageData::empty()));
    receiver.send_message(Message::new(2, 20, 8, MessageData::empty()));
    receiver.send_message(Message::new(1, 10, 9, MessageData::empty()));
    // Removing process 1 purges only its messages; the survivor's box keeps
    // the rest in order, and server 20 survives untouched.
    list.remove_by_pid(1).unwrap();
    let receiver = list.get_by_sid(30).unwrap();
    assert_eq!(receiver.messages.len(), 1);
    assert_eq!(receiver.messages[0].identifier, 8);
    assert!(list.get_by_sid(20).is_some());
    assert!(list.get_by_sid(10).is_none());
}
