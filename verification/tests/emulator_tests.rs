use tcpu::emulator::Emulator;
use tcpu::event::{Event, EventQueue};
use tcpu::isa::DiskId;
use tcpu::sem::CpuState;

fn load(em: &mut Emulator, code: &[u8]) {
    let memory = em.memory_mut();
    for (ptr, &byte) in code.iter().enumerate() {
        memory[ptr] = byte;
    }
}

#[test]
fn smoke() {
    let mut emulator = Emulator::new();
    let memory = emulator.memory_mut();
    for i in 0..65536 {
        memory[i] = i as u8;
    }
    emulator.run(100_000);
}

#[test]
fn cmp() {
    let mut emulator = Emulator::new();
    let code = [
        0x80, 0x0a, // mov a, 2
        0x88, 0x09, // cmp a, 1
        0xa5, 0x0f, // jge a, 0xffff
    ];
    load(&mut emulator, &code);
    emulator.run(1);
    assert_eq!(emulator.registers().a, 0x0002);
    emulator.run(1);
    assert_eq!(emulator.registers().a, 0x0001);
    emulator.run(1);
    assert_eq!(emulator.instruction_pointer(), 0xffff);
}

#[test]
fn cmp2() {
    let mut emulator = Emulator::new();
    let code = [
        0x80, 0x0c, // mov a, 4
        0x88, 0x0c, // cmp a, 4
        0xa4, 0x0f, // jle a, 0xffff
    ];
    load(&mut emulator, &code);
    emulator.run(1);
    assert_eq!(emulator.registers().a, 0x0004);
    emulator.run(1);
    assert_eq!(emulator.registers().a, 0x0000);
    emulator.run(1);
    assert_eq!(emulator.instruction_pointer(), 0xffff);
}

#[test]
fn event() {
    let mut emulator = Emulator::new();
    let code = [
        0b0000_0010, // wait
        0b0000_0000, // nop
        0b1000_0011, 0b0000_0000, // xor a, a
    ];
    load(&mut emulator, &code);
    emulator.run(10);
    assert_eq!(emulator.registers().a, 0);
    emulator.queue_event(Event { id: 3, arg: 1 });
    emulator.cycle(); // executed nop, registers contain event info
    assert_eq!(emulator.registers().a, 3);
    assert_eq!(emulator.registers().b, 1);
    emulator.cycle(); // executed xor, a is zeroed
    assert_eq!(emulator.registers().a, 0);
}

#[test]
fn event_queue() {
    let mut queue = EventQueue::new();
    assert_eq!(queue.pop(), None);
    queue.push(Event { id: 1, arg: 3 });
    assert_eq!(queue.pop(), Some(Event { id: 1, arg: 3 }));
    assert_eq!(queue.pop(), None);
    queue.push(Event { id: 2, arg: 3 });
    queue.push(Event { id: 1, arg: 5 });
    assert_eq!(queue.pop(), Some(Event { id: 2, arg: 3 }));
    assert_eq!(queue.pop(), Some(Event { id: 1, arg: 5 }));
    assert_eq!(queue.pop(), None);
}

#[test]
fn event_queue_overflow_keeps_most_recent() {
    let mut queue = EventQueue::new();
    for i in 0..70u16 {
        queue.push(Event { id: i, arg: 0 });
    }
    // the oldest six events were dropped; the most recent 64 remain in order
    for i in 6..70u16 {
        assert_eq!(queue.pop(), Some(Event { id: i, arg: 0 }));
    }
    assert_eq!(queue.pop(), None);
}

#[test]
fn mov_immediate() {
    let mut emulator = Emulator::new();
    load(&mut emulator, &[0x80, 0x0d, 0x3a]); // mov a, 58
    emulator.run(1);
    assert_eq!(emulator.registers().a, 58);
}

#[test]
fn push_pop_balance() {
    let mut emulator = Emulator::new();
    load(&mut emulator, &[0x4d, 0x35, 0x32]); // push 53; pop c
    let initial_s = emulator.registers().s;
    emulator.run(2);
    assert_eq!(emulator.registers().c, 53);
    assert_eq!(emulator.registers().s, initial_s);
}

#[test]
fn call_and_ret() {
    let mut emulator = Emulator::new();
    // sub s, 2; call 0x05; nop; ret
    load(&mut emulator, &[0x82, 0x7a, 0x6d, 0x05, 0x00, 0x01]);
    emulator.run(3);
    assert_eq!(emulator.registers().s, 0xfffe);
    assert_eq!(emulator.instruction_pointer(), 0x04);
    assert_eq!(emulator.memory()[0xfffe], 0x04);
    assert_eq!(emulator.memory()[0xffff], 0x00);
}

#[test]
fn wait_wakes_on_event() {
    let mut emulator = Emulator::new();
    // wait; nop; xor a, a
    load(&mut emulator, &[0x02, 0x00, 0x83, 0x00]);
    emulator.run(10);
    assert_eq!(emulator.registers().a, 0);
    assert_eq!(emulator.state(), CpuState::Waiting);
    emulator.queue_event(Event { id: 3, arg: 1 });
    emulator.cycle();
    assert_eq!(emulator.registers().a, 3);
    assert_eq!(emulator.registers().b, 1);
    assert_eq!(emulator.instruction_pointer(), 2);
    emulator.cycle();
    assert_eq!(emulator.registers().a, 0);
}

#[test]
fn arithmetic_wraps() {
    let mut emulator = Emulator::new();
    let code = [
        0x80, 0x0e, 0xff, 0xff, // mov a, 0xffff
        0x81, 0x0a, // add a, 2
        0x80, 0x19, // mov b, 1
        0x82, 0x1b, // sub b, 3
        0x80, 0x2e, 0x34, 0x12, // mov c, 0x1234
        0x86, 0x2d, 0x10, // shl c, 16
        0x80, 0x3e, 0x34, 0x12, // mov d, 0x1234
        0x87, 0x3d, 0x11, // shr d, 17
    ];
    load(&mut emulator, &code);
    emulator.run(8);
    assert_eq!(emulator.registers().a, 1); // (0xffff + 2) mod 2^16
    assert_eq!(emulator.registers().b, 0xfffe); // (1 - 3) mod 2^16
    assert_eq!(emulator.registers().c, 0); // shift >= 16 yields 0
    assert_eq!(emulator.registers().d, 0); // shift >= 16 yields 0
}

#[test]
fn not_and_neg() {
    let mut emulator = Emulator::new();
    let code = [
        0x10, // not a
        0x80, 0x2e, 0x32, 0xd4, // mov c, 0xd432
        0x22, // neg c
    ];
    load(&mut emulator, &code);
    emulator.run(3);
    assert_eq!(emulator.registers().a, 0xffff);
    assert_eq!(emulator.registers().c, 0xffff - 0xd432 + 1);
}

#[test]
fn stack_layout() {
    let mut emulator = Emulator::new();
    let code = [
        0b1000_0010, 0b0111_1010, // sub s, 2
        0b0100_1001, // push 1
        0b0100_1101, 22, // push 22
        0b0100_1101, 53, // push 53
        0b0011_0010, // pop c
        0b0011_0101, // pop j
    ];
    load(&mut emulator, &code);
    emulator.run(7);
    assert_eq!(emulator.registers().c, 53);
    assert_eq!(emulator.registers().j, 22);
    assert_eq!(emulator.registers().s, 0xfffc);
    assert_eq!(emulator.memory()[0xfffe], 1);
    assert_eq!(emulator.memory()[0xfffc], 22);
    assert_eq!(emulator.memory()[0xfffa], 53);
}

#[test]
fn halt_stops_the_cpu() {
    let mut emulator = Emulator::new();
    load(&mut emulator, &[0x80, 0x0d, 0x07, 0x04]); // mov a, 7; halt
    assert!(emulator.is_running());
    emulator.run(100);
    assert!(!emulator.is_running());
    assert_eq!(emulator.state(), CpuState::Halted);
    assert_eq!(emulator.registers().a, 7);
    assert_eq!(emulator.cycles(), 100);
}

#[test]
fn disk_idle_counter() {
    let mut emulator = Emulator::new();
    assert!(emulator.disk(DiskId::D0).is_none());
    emulator.insert_disk(DiskId::D0);
    // a fresh disk reports a fully idle counter, which saturates
    let disk = emulator.disk(DiskId::D0).unwrap();
    assert_eq!(disk.idle_time, u64::MAX);
    assert!(!disk.modified);
    emulator.run(5);
    assert_eq!(emulator.disk(DiskId::D0).unwrap().idle_time, u64::MAX);
    // after a reset with a disk present, the counter restarts and ticks
    emulator.reset();
    assert_eq!(emulator.disk(DiskId::D0).unwrap().idle_time, 0);
    emulator.run(3);
    assert_eq!(emulator.disk(DiskId::D0).unwrap().idle_time, 3);
    emulator.remove_disk(DiskId::D0);
    assert!(emulator.disk(DiskId::D0).is_none());
}

#[test]
fn disk_read_transfers_bytes() {
    let mut emulator = Emulator::new();
    emulator.insert_disk(DiskId::D0);
    {
        let data = emulator.disk_slot(DiskId::D0);
        for i in 0..4096 {
            data[i] = (i % 251) as u8;
        }
    }
    // read disk 0, memory address 0x4000 (selector E tail 00 40), disk block 0
    load(&mut emulator, &[0xf0, 0xe8, 0x00, 0x40, 0x04]);
    // one byte is transferred every 32 cycles; 4096 bytes plus decode margin
    emulator.run(32 * 4096 + 10);
    for i in 0..4096usize {
        assert_eq!(emulator.memory()[0x4000 + i], (i % 251) as u8, "byte {}", i);
    }
    // the operation has retired: the idle counter is ticking again
    assert!(emulator.disk(DiskId::D0).unwrap().idle_time > 0);
}

#[test]
fn reset_boots_from_disk0() {
    let mut emulator = Emulator::new();
    emulator.insert_disk(DiskId::D0);
    {
        let data = emulator.disk_slot(DiskId::D0);
        data[0] = 0x80;
        data[1] = 0x0d;
        data[2] = 0x2a; // mov a, 42
    }
    load(&mut emulator, &[0x04]); // halt at 0 before the reset
    emulator.run(1);
    assert!(!emulator.is_running());
    emulator.reset();
    assert!(emulator.is_running());
    assert_eq!(emulator.cycles(), 0);
    assert_eq!(emulator.memory()[0], 0x80);
    emulator.run(1);
    assert_eq!(emulator.registers().a, 42);
}

#[test]
fn determinism_same_inputs_same_state() {
    let mut a = Emulator::new();
    let mut b = Emulator::new();
    let code = [0x02, 0x00, 0x83, 0x00, 0x5d, 0x00]; // wait; nop; xor a,a; jmp 0
    load(&mut a, &code);
    load(&mut b, &code);
    for step in 0..50u16 {
        if step % 7 == 0 {
            a.key_down(step);
            b.key_down(step);
        }
        if step % 11 == 0 {
            a.key_up(step);
            b.key_up(step);
        }
        a.cycle();
        b.cycle();
    }
    assert_eq!(a.registers(), b.registers());
    assert_eq!(a.instruction_pointer(), b.instruction_pointer());
    assert_eq!(a.state(), b.state());
    assert_eq!(a.cycles(), b.cycles());
    assert_eq!(a.memory(), b.memory());
    assert_eq!(a.screen(), b.screen());
}

#[test]
fn screen_refresh_snapshots_memory() {
    let mut emulator = Emulator::new();
    {
        let memory = emulator.memory_mut();
        memory[0xc000] = 17;
        memory[0xc000 + 3071] = 99;
    }
    assert_eq!(emulator.screen()[0], 0);
    // the refresh countdown starts at SCREEN_REFRESH_TIME, so run past it
    emulator.run(tcpu::SCREEN_REFRESH_TIME + 1);
    assert_eq!(emulator.screen()[0], 17);
    assert_eq!(emulator.screen()[3071], 99);
}

#[test]
fn poll_is_nonblocking() {
    let mut emulator = Emulator::new();
    // poll; poll
    load(&mut emulator, &[0x03, 0x03]);
    emulator.queue_event(Event { id: 2, arg: 0x41 });
    emulator.cycle();
    assert_eq!(emulator.registers().a, 2);
    assert_eq!(emulator.registers().b, 0x41);
    // the queue is now empty: poll reports (0, 0) without waiting
    emulator.cycle();
    assert_eq!(emulator.registers().a, 0);
    assert_eq!(emulator.registers().b, 0);
    assert_eq!(emulator.state(), CpuState::Running);
}

#[test]
fn disk_instructions_report_missing_and_busy() {
    let mut emulator = Emulator::new();
    // read 0, 0, 0 ; poll -> no disk inserted: event (4, 1)
    load(&mut emulator, &[0xf0, 0x88, 0x03]);
    emulator.run(2);
    assert_eq!(emulator.registers().a, 4);
    assert_eq!(emulator.registers().b, 1);

    let mut emulator = Emulator::new();
    emulator.insert_disk(DiskId::D1);
    // read 1, 0, 0 ; read 1, 0, 0 ; poll -> second read: disk 1 busy (5, 2)
    load(&mut emulator, &[0xf1, 0x88, 0xf1, 0x88, 0x03]);
    emulator.run(3);
    assert_eq!(emulator.registers().a, 5);
    assert_eq!(emulator.registers().b, 2);
}
