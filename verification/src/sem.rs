//! The machine's semantics, stated once as spec-level step functions.
//!
//! [`EmulatorView`] is the mathematical state of the whole computer;
//! [`spec_cycle`] is the per-cycle schedule of the machine: screen refresh,
//! disk progress, cycle count, wake-up from `wait`, and one instruction.
//! The executable emulator is proved equal to these functions.

use vstd::prelude::*;
use crate::isa::{Register, Registers, Operand, Address, Instruction, DiskId, spec_eval,
    spec_eval_address};
use crate::event::{Event, DiskResult, spec_queue_push};
use crate::{MEMORY_SIZE, DISK_SIZE, SCREEN_SIZE, SCREEN_POSITION, SCREEN_REFRESH_TIME,
    DISK_OP_SIZE, CYCLES_PER_BYTE, EVENT_QUEUE_CAPACITY};

verus! {

/// Whether the CPU executes instructions, waits for an event, or is halted
/// for good.
#[derive(PartialEq, Eq, Structural, Debug, Copy, Clone)]
pub enum CpuState {
    Running,
    Waiting,
    Halted,
}

/// A running disk operation: a background transfer of one byte every
/// [`CYCLES_PER_BYTE`] cycles between memory and a disk.
#[derive(Debug, Copy, Clone, PartialEq, Eq, Structural)]
pub enum DiskOp {
    Reading { disk_ptr: usize, memory_ptr: usize, remaining: usize, delay: u64 },
    Writing { disk_ptr: usize, memory_ptr: usize, remaining: usize, delay: u64 },
}

/// What a slot knows about its disk: nothing, or the inserted disk's
/// bookkeeping.
#[derive(Debug, Copy, Clone)]
pub enum SlotDisk {
    Missing,
    Present { modified: bool, idle_time: u64, running_op: Option<DiskOp> },
}

/// The mathematical state of one disk slot: the backing bytes and the
/// slot's bookkeeping.
pub ghost struct SlotView {
    pub data: Seq<u8>,
    pub disk: SlotDisk,
}

/// The mathematical state of the whole computer.
pub ghost struct EmulatorView {
    pub memory: Seq<u8>,
    pub screen: Seq<u8>,
    pub registers: Registers,
    pub instruction_pointer: u16,
    pub events: Seq<Event>,
    pub slot0: SlotView,
    pub slot1: SlotView,
    pub cycles: u64,
    pub time_to_refresh: u64,
    pub state: CpuState,
}

/// A running operation always has a transfer pending and a delay in range.
pub open spec fn wf_op(op: DiskOp) -> bool {
    match op {
        DiskOp::Reading { remaining, delay, .. } => 1 <= delay <= CYCLES_PER_BYTE && 1
            <= remaining <= DISK_OP_SIZE,
        DiskOp::Writing { remaining, delay, .. } => 1 <= delay <= CYCLES_PER_BYTE && 1
            <= remaining <= DISK_OP_SIZE,
    }
}

pub open spec fn wf_slot(slot: SlotView) -> bool {
    &&& slot.data.len() == DISK_SIZE
    &&& match slot.disk {
        SlotDisk::Missing => true,
        SlotDisk::Present { running_op, .. } => match running_op {
            Some(op) => wf_op(op),
            None => true,
        },
    }
}

/// Well-formedness of the machine state: every buffer has its fixed size and
/// all counters are in range.
pub open spec fn wf_view(s: EmulatorView) -> bool {
    &&& s.memory.len() == MEMORY_SIZE
    &&& s.screen.len() == SCREEN_SIZE
    &&& s.events.len() <= EVENT_QUEUE_CAPACITY
    &&& wf_slot(s.slot0)
    &&& wf_slot(s.slot1)
    &&& s.time_to_refresh <= SCREEN_REFRESH_TIME
}

/// The byte of memory at a 16-bit address.
pub open spec fn byte_at(mem: Seq<u8>, addr: u16) -> u8 {
    mem[addr as int]
}

/// The little-endian word at a 16-bit address; the high byte wraps around.
pub open spec fn word_at(mem: Seq<u8>, addr: u16) -> u16 {
    (byte_at(mem, addr) + 256 * byte_at(mem, addr.wrapping_add(1))) as u16
}

pub open spec fn store_byte(mem: Seq<u8>, addr: u16, value: u8) -> Seq<u8> {
    mem.update(addr as int, value)
}

/// Store a word little-endian; the high byte wraps around.
pub open spec fn store_word(mem: Seq<u8>, addr: u16, value: u16) -> Seq<u8> {
    store_byte(
        store_byte(mem, addr, (value & 0xff) as u8),
        addr.wrapping_add(1),
        ((value >> 8) & 0xff) as u8,
    )
}

/// The register the low three bits of a nibble name.
pub open spec fn spec_register_of(bits: u8) -> Register {
    let b = bits & 7;
    if b == 0 {
        Register::A
    } else if b == 1 {
        Register::B
    } else if b == 2 {
        Register::C
    } else if b == 3 {
        Register::D
    } else if b == 4 {
        Register::I
    } else if b == 5 {
        Register::J
    } else if b == 6 {
        Register::P
    } else {
        Register::S
    }
}

/// How many trailing bytes an operand nibble consumes: one for an 8-bit
/// immediate, two for a 16-bit immediate, none otherwise.
pub open spec fn operand_tail_len(nibble: u8) -> u16 {
    if nibble == 0xd {
        1
    } else if nibble == 0xe {
        2
    } else {
        0
    }
}

/// The operand an already-masked nibble selects, with its tail bytes (if
/// any) at `pos`: 0-7 registers, 8-0xC the literals 0-4, 0xD an 8-bit
/// immediate, 0xE a 16-bit immediate, 0xF the literal 0xFFFF.
pub open spec fn spec_operand_at(mem: Seq<u8>, nibble: u8, pos: u16) -> Operand {
    if nibble < 8 {
        Operand::Register(spec_register_of(nibble))
    } else if nibble <= 0xc {
        Operand::Word((nibble - 8) as u16)
    } else if nibble == 0xd {
        Operand::Word(byte_at(mem, pos) as u16)
    } else if nibble == 0xe {
        Operand::Word(word_at(mem, pos))
    } else {
        Operand::Word(0xffff)
    }
}

/// Decode a single-operand family: the nibble is the opcode's low four bits,
/// tail bytes start at `pos`.
pub open spec fn spec_decode_one(mem: Seq<u8>, pos: u16, x: u8) -> (Operand, u16) {
    let n = x & 0xf;
    (spec_operand_at(mem, n, pos), pos.wrapping_add(operand_tail_len(n)))
}

/// Decode a register-plus-operand pair from the byte at `pos`: the upper
/// nibble names the register, the lower selects the operand.
pub open spec fn spec_decode_regval(mem: Seq<u8>, pos: u16) -> (Register, Operand, u16) {
    let b = byte_at(mem, pos);
    let p = pos.wrapping_add(1);
    let n = b & 0xf;
    (
        spec_register_of((b >> 4) & 7),
        spec_operand_at(mem, n, p),
        p.wrapping_add(operand_tail_len(n)),
    )
}

/// Decode two operands from the byte at `pos`: upper nibble first, its tail
/// bytes before the second operand's.
pub open spec fn spec_decode_two(mem: Seq<u8>, pos: u16) -> (Operand, Operand, u16) {
    let b = byte_at(mem, pos);
    let p = pos.wrapping_add(1);
    let n1 = (b >> 4) & 0xf;
    let n2 = b & 0xf;
    let o1 = spec_operand_at(mem, n1, p);
    let p2 = p.wrapping_add(operand_tail_len(n1));
    (o1, spec_operand_at(mem, n2, p2), p2.wrapping_add(operand_tail_len(n2)))
}

/// The width in bytes of a load/store offset, selected by the opcode's low
/// two bits; the families only use widths 0, 1 and 2.
pub open spec fn spec_offset_width(x: u8) -> u16 {
    if x & 3 == 1 {
        1
    } else if x & 3 == 2 {
        2
    } else {
        0
    }
}

/// The offset of a load/store: absent, one unsigned byte, or a little-endian
/// word, starting at `pos`.
pub open spec fn spec_offset_at(mem: Seq<u8>, pos: u16, x: u8) -> u16 {
    if x & 3 == 1 {
        byte_at(mem, pos) as u16
    } else if x & 3 == 2 {
        word_at(mem, pos)
    } else {
        0
    }
}

/// Decode a load: reg|value byte, then offset bytes, then the value's tail.
pub open spec fn spec_decode_load(mem: Seq<u8>, pos: u16, x: u8) -> (Register, Address, u16) {
    let b = byte_at(mem, pos);
    let p = pos.wrapping_add(1);
    let offset = spec_offset_at(mem, p, x);
    let q = p.wrapping_add(spec_offset_width(x));
    let n = b & 0xf;
    (
        spec_register_of((b >> 4) & 7),
        Address { operand: spec_operand_at(mem, n, q), offset },
        q.wrapping_add(operand_tail_len(n)),
    )
}

/// Decode a store: value|value byte, then offset bytes, then the source
/// value's tail, then the address value's tail.
pub open spec fn spec_decode_store(mem: Seq<u8>, pos: u16, x: u8) -> (Operand, Address, u16) {
    let b = byte_at(mem, pos);
    let p = pos.wrapping_add(1);
    let offset = spec_offset_at(mem, p, x);
    let q = p.wrapping_add(spec_offset_width(x));
    let n1 = (b >> 4) & 0xf;
    let src = spec_operand_at(mem, n1, q);
    let q2 = q.wrapping_add(operand_tail_len(n1));
    let n2 = b & 0xf;
    (
        src,
        Address { operand: spec_operand_at(mem, n2, q2), offset },
        q2.wrapping_add(operand_tail_len(n2)),
    )
}

/// Decode the instruction at `ip` and return it together with the address of
/// the first byte after it (every consumed byte advances the pointer, with
/// 16-bit wrap-around).
pub open spec fn spec_decode(mem: Seq<u8>, ip: u16) -> (Instruction, u16) {
    let x = byte_at(mem, ip);
    let p1 = ip.wrapping_add(1);
    if x == 0x00 {
        (Instruction::Nop, p1)
    } else if x == 0x01 {
        (Instruction::Ret, p1)
    } else if x == 0x02 {
        (Instruction::Wait, p1)
    } else if x == 0x03 {
        (Instruction::Poll, p1)
    } else if x == 0x04 {
        (Instruction::Halt, p1)
    } else if 0x10 <= x && x <= 0x17 {
        (Instruction::Not(spec_register_of(x)), p1)
    } else if 0x20 <= x && x <= 0x27 {
        (Instruction::Neg(spec_register_of(x)), p1)
    } else if 0x30 <= x && x <= 0x37 {
        (Instruction::Pop(spec_register_of(x)), p1)
    } else if 0x40 <= x && x <= 0x4f {
        let (o, e) = spec_decode_one(mem, p1, x);
        (Instruction::Push(o), e)
    } else if 0x50 <= x && x <= 0x5f {
        let (o, e) = spec_decode_one(mem, p1, x);
        (Instruction::Jmp(o), e)
    } else if 0x60 <= x && x <= 0x6f {
        let (o, e) = spec_decode_one(mem, p1, x);
        (Instruction::Call(o), e)
    } else if 0x80 <= x && x <= 0x88 {
        let (r, o, e) = spec_decode_regval(mem, p1);
        (
            if x == 0x80 {
                Instruction::Mov(r, o)
            } else if x == 0x81 {
                Instruction::Add(r, o)
            } else if x == 0x82 {
                Instruction::Sub(r, o)
            } else if x == 0x83 {
                Instruction::Xor(r, o)
            } else if x == 0x84 {
                Instruction::And(r, o)
            } else if x == 0x85 {
                Instruction::Or(r, o)
            } else if x == 0x86 {
                Instruction::Shl(r, o)
            } else if x == 0x87 {
                Instruction::Shr(r, o)
            } else {
                Instruction::Cmp(r, o)
            },
            e,
        )
    } else if 0x90 <= x && x <= 0x92 {
        let (r, a, e) = spec_decode_load(mem, p1, x);
        (Instruction::Load(r, a), e)
    } else if 0x94 <= x && x <= 0x96 {
        let (r, a, e) = spec_decode_load(mem, p1, x);
        (Instruction::Loadw(r, a), e)
    } else if 0x98 <= x && x <= 0x9a {
        let (o, a, e) = spec_decode_store(mem, p1, x);
        (Instruction::Store(o, a), e)
    } else if 0x9c <= x && x <= 0x9e {
        let (o, a, e) = spec_decode_store(mem, p1, x);
        (Instruction::Storew(o, a), e)
    } else if 0xa0 <= x && x <= 0xa5 {
        let (r, o, e) = spec_decode_regval(mem, p1);
        (
            if x == 0xa0 {
                Instruction::Jez(r, o)
            } else if x == 0xa1 {
                Instruction::Jnz(r, o)
            } else if x == 0xa2 {
                Instruction::Jl(r, o)
            } else if x == 0xa3 {
                Instruction::Jg(r, o)
            } else if x == 0xa4 {
                Instruction::Jle(r, o)
            } else {
                Instruction::Jge(r, o)
            },
            e,
        )
    } else if x == 0xf0 || x == 0xf1 {
        let (o1, o2, e) = spec_decode_two(mem, p1);
        (
            Instruction::Read(if x == 0xf0 { DiskId::D0 } else { DiskId::D1 }, o1, o2),
            e,
        )
    } else if x == 0xf8 || x == 0xf9 {
        let (o1, o2, e) = spec_decode_two(mem, p1);
        (
            Instruction::Write(if x == 0xf8 { DiskId::D0 } else { DiskId::D1 }, o1, o2),
            e,
        )
    } else {
        (Instruction::Invalid, p1)
    }
}

pub open spec fn slot_of(s: EmulatorView, id: DiskId) -> SlotView {
    match id {
        DiskId::D0 => s.slot0,
        DiskId::D1 => s.slot1,
    }
}

pub open spec fn with_slot(s: EmulatorView, id: DiskId, slot: SlotView) -> EmulatorView {
    match id {
        DiskId::D0 => EmulatorView { slot0: slot, ..s },
        DiskId::D1 => EmulatorView { slot1: slot, ..s },
    }
}

/// Starting a disk transfer: install the running operation if the slot is
/// idle, otherwise report busy or not-present as an event. A write marks the
/// disk modified when it begins.
pub open spec fn spec_start_disk(s: EmulatorView, id: DiskId, writing: bool, mem_op: Operand,
    disk_op: Operand) -> EmulatorView {
    let memory_ptr = spec_eval(s.registers, mem_op) as usize;
    let disk_ptr = ((spec_eval(s.registers, disk_op) as usize) * 16) as usize;
    let slot = slot_of(s, id);
    match slot.disk {
        SlotDisk::Present { modified, idle_time, running_op } => match running_op {
            None => {
                let op = if writing {
                    DiskOp::Writing {
                        disk_ptr,
                        memory_ptr,
                        remaining: DISK_OP_SIZE,
                        delay: CYCLES_PER_BYTE,
                    }
                } else {
                    DiskOp::Reading {
                        disk_ptr,
                        memory_ptr,
                        remaining: DISK_OP_SIZE,
                        delay: CYCLES_PER_BYTE,
                    }
                };
                with_slot(
                    s,
                    id,
                    SlotView {
                        data: slot.data,
                        disk: SlotDisk::Present {
                            modified: modified || writing,
                            idle_time: 0,
                            running_op: Some(op),
                        },
                    },
                )
            },
            Some(_) => EmulatorView {
                events: spec_queue_push(
                    s.events,
                    Event::spec_disk_finished(id, DiskResult::Busy),
                ),
                ..s
            },
        },
        SlotDisk::Missing => EmulatorView {
            events: spec_queue_push(
                s.events,
                Event::spec_disk_finished(id, DiskResult::NotPresent),
            ),
            ..s
        },
    }
}

/// Apply one decoded instruction to the machine state; the instruction
/// pointer has already been advanced past the instruction's bytes.
pub open spec fn spec_apply(s: EmulatorView, instruction: Instruction) -> EmulatorView {
    match instruction {
        Instruction::Nop => s,
        Instruction::Invalid => s,
        Instruction::Ret => {
            let sp = s.registers.s.wrapping_add(2);
            EmulatorView {
                registers: s.registers.spec_set(Register::S, sp),
                instruction_pointer: word_at(s.memory, sp),
                ..s
            }
        },
        Instruction::Wait => EmulatorView { state: CpuState::Waiting, ..s },
        Instruction::Poll => {
            if s.events.len() > 0 {
                EmulatorView {
                    registers: Registers { a: s.events[0].id, b: s.events[0].arg, ..s.registers },
                    events: s.events.drop_first(),
                    ..s
                }
            } else {
                EmulatorView { registers: Registers { a: 0, b: 0, ..s.registers }, ..s }
            }
        },
        Instruction::Halt => EmulatorView { state: CpuState::Halted, ..s },
        Instruction::Not(a) => EmulatorView {
            registers: s.registers.spec_set(a, !s.registers.spec_get(a)),
            ..s
        },
        Instruction::Neg(a) => EmulatorView {
            registers: s.registers.spec_set(a, 0u16.wrapping_sub(s.registers.spec_get(a))),
            ..s
        },
        Instruction::Pop(a) => {
            let sp = s.registers.s.wrapping_add(2);
            EmulatorView {
                registers: s.registers.spec_set(Register::S, sp).spec_set(
                    a,
                    word_at(s.memory, sp),
                ),
                ..s
            }
        },
        Instruction::Push(a) => EmulatorView {
            memory: store_word(s.memory, s.registers.s, spec_eval(s.registers, a)),
            registers: s.registers.spec_set(Register::S, s.registers.s.wrapping_sub(2)),
            ..s
        },
        Instruction::Jmp(a) => EmulatorView {
            instruction_pointer: spec_eval(s.registers, a),
            ..s
        },
        Instruction::Call(a) => EmulatorView {
            memory: store_word(s.memory, s.registers.s, s.instruction_pointer),
            instruction_pointer: spec_eval(s.registers, a),
            registers: s.registers.spec_set(Register::S, s.registers.s.wrapping_sub(2)),
            ..s
        },
        Instruction::Mov(a, b) => EmulatorView {
            registers: s.registers.spec_set(a, spec_eval(s.registers, b)),
            ..s
        },
        Instruction::Add(a, b) => EmulatorView {
            registers: s.registers.spec_set(
                a,
                s.registers.spec_get(a).wrapping_add(spec_eval(s.registers, b)),
            ),
            ..s
        },
        Instruction::Sub(a, b) => EmulatorView {
            registers: s.registers.spec_set(
                a,
                s.registers.spec_get(a).wrapping_sub(spec_eval(s.registers, b)),
            ),
            ..s
        },
        Instruction::Xor(a, b) => EmulatorView {
            registers: s.registers.spec_set(a, s.registers.spec_get(a) ^ spec_eval(s.registers, b)),
            ..s
        },
        Instruction::And(a, b) => EmulatorView {
            registers: s.registers.spec_set(a, s.registers.spec_get(a) & spec_eval(s.registers, b)),
            ..s
        },
        Instruction::Or(a, b) => EmulatorView {
            registers: s.registers.spec_set(a, s.registers.spec_get(a) | spec_eval(s.registers, b)),
            ..s
        },
        Instruction::Shl(a, b) => {
            let shift = spec_eval(s.registers, b);
            EmulatorView {
                registers: s.registers.spec_set(
                    a,
                    if shift >= 16 {
                        0
                    } else {
                        s.registers.spec_get(a) << shift
                    },
                ),
                ..s
            }
        },
        Instruction::Shr(a, b) => {
            let shift = spec_eval(s.registers, b);
            EmulatorView {
                registers: s.registers.spec_set(
                    a,
                    if shift >= 16 {
                        0
                    } else {
                        s.registers.spec_get(a) >> shift
                    },
                ),
                ..s
            }
        },
        Instruction::Cmp(a, b) => {
            let av = s.registers.spec_get(a);
            let bv = spec_eval(s.registers, b);
            EmulatorView {
                registers: s.registers.spec_set(
                    a,
                    if av > bv {
                        1
                    } else if av == bv {
                        0
                    } else {
                        0xffff
                    },
                ),
                ..s
            }
        },
        Instruction::Load(a, b) => EmulatorView {
            registers: s.registers.spec_set(
                a,
                byte_at(s.memory, spec_eval_address(s.registers, b)) as u16,
            ),
            ..s
        },
        Instruction::Loadw(a, b) => EmulatorView {
            registers: s.registers.spec_set(
                a,
                word_at(s.memory, spec_eval_address(s.registers, b)),
            ),
            ..s
        },
        Instruction::Store(a, b) => EmulatorView {
            memory: store_byte(
                s.memory,
                spec_eval_address(s.registers, b),
                (spec_eval(s.registers, a) & 0xff) as u8,
            ),
            ..s
        },
        Instruction::Storew(a, b) => EmulatorView {
            memory: store_word(
                s.memory,
                spec_eval_address(s.registers, b),
                spec_eval(s.registers, a),
            ),
            ..s
        },
        Instruction::Jez(a, d) => {
            if s.registers.spec_get(a) == 0 {
                EmulatorView { instruction_pointer: spec_eval(s.registers, d), ..s }
            } else {
                s
            }
        },
        Instruction::Jnz(a, d) => {
            if s.registers.spec_get(a) != 0 {
                EmulatorView { instruction_pointer: spec_eval(s.registers, d), ..s }
            } else {
                s
            }
        },
        Instruction::Jl(a, d) => {
            if s.registers.spec_get(a) == 0xffff {
                EmulatorView { instruction_pointer: spec_eval(s.registers, d), ..s }
            } else {
                s
            }
        },
        Instruction::Jg(a, d) => {
            if s.registers.spec_get(a) == 1 {
                EmulatorView { instruction_pointer: spec_eval(s.registers, d), ..s }
            } else {
                s
            }
        },
        Instruction::Jle(a, d) => {
            if s.registers.spec_get(a) != 1 {
                EmulatorView { instruction_pointer: spec_eval(s.registers, d), ..s }
            } else {
                s
            }
        },
        Instruction::Jge(a, d) => {
            if s.registers.spec_get(a) != 0xffff {
                EmulatorView { instruction_pointer: spec_eval(s.registers, d), ..s }
            } else {
                s
            }
        },
        Instruction::Read(id, mem_op, disk_op) => spec_start_disk(s, id, false, mem_op, disk_op),
        Instruction::Write(id, mem_op, disk_op) => spec_start_disk(s, id, true, mem_op, disk_op),
    }
}

/// One cycle of progress of a disk slot: count down a running operation's
/// delay, transfer one byte when it expires, retire the operation when its
/// last byte moved (reporting completion), and otherwise advance the idle
/// counter with saturation. Returns the new slot, the new memory, and the
/// completion event, if any.
pub open spec fn spec_update_slot(slot: SlotView, mem: Seq<u8>, id: DiskId) -> (
    SlotView,
    Seq<u8>,
    Option<Event>,
) {
    match slot.disk {
        SlotDisk::Missing => (slot, mem, None),
        SlotDisk::Present { modified, idle_time, running_op } => match running_op {
            None => (
                SlotView {
                    data: slot.data,
                    disk: SlotDisk::Present {
                        modified,
                        idle_time: idle_time.saturating_add(1),
                        running_op: None,
                    },
                },
                mem,
                None,
            ),
            Some(op) => {
                let (reading, disk_ptr, memory_ptr, remaining, delay) = op_fields(op);
                if delay > 1 {
                    (
                        SlotView {
                            data: slot.data,
                            disk: SlotDisk::Present {
                                modified,
                                idle_time,
                                running_op: Some(
                                    mk_op(
                                        reading,
                                        disk_ptr,
                                        memory_ptr,
                                        remaining,
                                        (delay - 1) as u64,
                                    ),
                                ),
                            },
                        },
                        mem,
                        None,
                    )
                } else {
                    let mem2 = if reading {
                        mem.update(
                            (memory_ptr % MEMORY_SIZE) as int,
                            slot.data[(disk_ptr % DISK_SIZE) as int],
                        )
                    } else {
                        mem
                    };
                    let data2 = if reading {
                        slot.data
                    } else {
                        slot.data.update(
                            (disk_ptr % DISK_SIZE) as int,
                            mem[(memory_ptr % MEMORY_SIZE) as int],
                        )
                    };
                    if remaining == 1 {
                        (
                            SlotView {
                                data: data2,
                                disk: SlotDisk::Present { modified, idle_time, running_op: None },
                            },
                            mem2,
                            Some(Event::spec_disk_finished(id, DiskResult::Completed)),
                        )
                    } else {
                        (
                            SlotView {
                                data: data2,
                                disk: SlotDisk::Present {
                                    modified,
                                    idle_time,
                                    running_op: Some(
                                        mk_op(
                                            reading,
                                            disk_ptr.wrapping_add(1),
                                            memory_ptr.wrapping_add(1),
                                            (remaining - 1) as usize,
                                            CYCLES_PER_BYTE,
                                        ),
                                    ),
                                },
                            },
                            mem2,
                            None,
                        )
                    }
                }
            },
        },
    }
}

/// The direction and the four counters of a running operation.
pub open spec fn op_fields(op: DiskOp) -> (bool, usize, usize, usize, u64) {
    match op {
        DiskOp::Reading { disk_ptr, memory_ptr, remaining, delay } => (
            true,
            disk_ptr,
            memory_ptr,
            remaining,
            delay,
        ),
        DiskOp::Writing { disk_ptr, memory_ptr, remaining, delay } => (
            false,
            disk_ptr,
            memory_ptr,
            remaining,
            delay,
        ),
    }
}

pub open spec fn mk_op(reading: bool, disk_ptr: usize, memory_ptr: usize, remaining: usize,
    delay: u64) -> DiskOp {
    if reading {
        DiskOp::Reading { disk_ptr, memory_ptr, remaining, delay }
    } else {
        DiskOp::Writing { disk_ptr, memory_ptr, remaining, delay }
    }
}

/// The framebuffer snapshot: [`SCREEN_SIZE`] bytes of memory starting at
/// [`SCREEN_POSITION`], row-major.
pub open spec fn spec_screen_snapshot(mem: Seq<u8>) -> Seq<u8> {
    Seq::new(SCREEN_SIZE as nat, |i: int| mem[SCREEN_POSITION + i])
}

pub open spec fn spec_push_opt(q: Seq<Event>, e: Option<Event>) -> Seq<Event> {
    match e {
        None => q,
        Some(e) => spec_queue_push(q, e),
    }
}

/// First stage of a cycle: when the refresh countdown has run out,
/// snapshot the framebuffer, enqueue the screen-refresh event and rearm the
/// countdown.
pub open spec fn spec_cycle_refresh(s: EmulatorView) -> EmulatorView {
    if s.time_to_refresh == 0 {
        EmulatorView {
            screen: spec_screen_snapshot(s.memory),
            time_to_refresh: SCREEN_REFRESH_TIME,
            events: spec_queue_push(s.events, Event { id: 3, arg: 0 }),
            ..s
        }
    } else {
        s
    }
}

/// Count the refresh countdown down by one.
pub open spec fn spec_cycle_tick(s: EmulatorView) -> EmulatorView {
    EmulatorView { time_to_refresh: (s.time_to_refresh - 1) as u64, ..s }
}

/// One cycle of progress of the given disk slot, with its completion event
/// enqueued if one arises.
pub open spec fn spec_cycle_disk(s: EmulatorView, id: DiskId) -> EmulatorView {
    let (slot, mem, e) = spec_update_slot(slot_of(s, id), s.memory, id);
    with_slot(
        EmulatorView { memory: mem, events: spec_push_opt(s.events, e), ..s },
        id,
        slot,
    )
}

/// Count the executed cycle.
pub open spec fn spec_cycle_count(s: EmulatorView) -> EmulatorView {
    EmulatorView { cycles: s.cycles.wrapping_add(1), ..s }
}

/// A waiting CPU consumes one event, if any, into registers `A` and `B` and
/// returns to running.
pub open spec fn spec_cycle_wake(s: EmulatorView) -> EmulatorView {
    if s.state == CpuState::Waiting && s.events.len() > 0 {
        EmulatorView {
            registers: Registers { a: s.events[0].id, b: s.events[0].arg, ..s.registers },
            events: s.events.drop_first(),
            state: CpuState::Running,
            ..s
        }
    } else {
        s
    }
}

/// A running CPU decodes and applies one instruction.
pub open spec fn spec_cycle_execute(s: EmulatorView) -> EmulatorView {
    if s.state == CpuState::Running {
        let (instruction, ip) = spec_decode(s.memory, s.instruction_pointer);
        spec_apply(EmulatorView { instruction_pointer: ip, ..s }, instruction)
    } else {
        s
    }
}

/// One cycle of the whole machine, in the fixed order: screen refresh when
/// due, refresh countdown, disk 0 then disk 1 progress, cycle count,
/// wake-up from `wait`, then one instruction if the CPU is running.
pub open spec fn spec_cycle(s: EmulatorView) -> EmulatorView {
    spec_cycle_execute(
        spec_cycle_wake(
            spec_cycle_count(
                spec_cycle_disk(
                    spec_cycle_disk(spec_cycle_tick(spec_cycle_refresh(s)), DiskId::D0),
                    DiskId::D1,
                ),
            ),
        ),
    )
}

/// `n` cycles of the machine.
pub open spec fn spec_run(s: EmulatorView, n: u64) -> EmulatorView
    decreases n,
{
    if n == 0 {
        s
    } else {
        spec_run(spec_cycle(s), (n - 1) as u64)
    }
}

/// All memory zeroed.
pub open spec fn spec_zero_memory() -> Seq<u8> {
    Seq::new(MEMORY_SIZE as nat, |i: int| 0u8)
}

/// A freshly powered-on machine: everything zeroed, no disks, the CPU
/// running at address 0, a full refresh interval ahead.
pub open spec fn spec_initial() -> EmulatorView {
    EmulatorView {
        memory: spec_zero_memory(),
        screen: Seq::new(SCREEN_SIZE as nat, |i: int| 0u8),
        registers: Registers::zeroed(),
        instruction_pointer: 0,
        events: Seq::<Event>::empty(),
        slot0: SlotView {
            data: Seq::new(DISK_SIZE as nat, |i: int| 0u8),
            disk: SlotDisk::Missing,
        },
        slot1: SlotView {
            data: Seq::new(DISK_SIZE as nat, |i: int| 0u8),
            disk: SlotDisk::Missing,
        },
        cycles: 0,
        time_to_refresh: SCREEN_REFRESH_TIME,
        state: CpuState::Running,
    }
}

/// Inserting a disk into an empty slot presents its backing bytes as an
/// unmodified, fully idle disk; an occupied slot is left alone.
pub open spec fn spec_insert_disk(s: EmulatorView, id: DiskId) -> EmulatorView {
    let slot = slot_of(s, id);
    match slot.disk {
        SlotDisk::Missing => with_slot(
            s,
            id,
            SlotView {
                data: slot.data,
                disk: SlotDisk::Present {
                    modified: false,
                    idle_time: u64::MAX,
                    running_op: None,
                },
            },
        ),
        SlotDisk::Present { .. } => s,
    }
}

/// Removing a disk empties the slot; the backing bytes stay with the host.
pub open spec fn spec_remove_disk(s: EmulatorView, id: DiskId) -> EmulatorView {
    with_slot(s, id, SlotView { data: slot_of(s, id).data, disk: SlotDisk::Missing })
}

pub open spec fn spec_clear_op(d: SlotDisk) -> SlotDisk {
    match d {
        SlotDisk::Missing => SlotDisk::Missing,
        SlotDisk::Present { modified, idle_time, running_op } => SlotDisk::Present {
            modified,
            idle_time,
            running_op: None,
        },
    }
}

/// Reset: cancel running disk operations (payloads remain), zero memory,
/// screen, registers, queue and counters, and, when disk 0 is present, copy
/// its first [`DISK_OP_SIZE`] bytes into low memory as a bootloader and mark
/// it actively used (idle counter zero). No event is enqueued.
pub open spec fn spec_reset(s: EmulatorView) -> EmulatorView {
    EmulatorView {
        memory: match s.slot0.disk {
            SlotDisk::Present { .. } => Seq::new(
                MEMORY_SIZE as nat,
                |i: int|
                    if i < DISK_OP_SIZE {
                        s.slot0.data[i]
                    } else {
                        0u8
                    },
            ),
            SlotDisk::Missing => spec_zero_memory(),
        },
        screen: Seq::new(SCREEN_SIZE as nat, |i: int| 0u8),
        registers: Registers::zeroed(),
        instruction_pointer: 0,
        events: Seq::<Event>::empty(),
        slot0: SlotView {
            data: s.slot0.data,
            disk: match s.slot0.disk {
                SlotDisk::Missing => SlotDisk::Missing,
                SlotDisk::Present { modified, .. } => SlotDisk::Present {
                    modified,
                    idle_time: 0,
                    running_op: None,
                },
            },
        },
        slot1: SlotView { data: s.slot1.data, disk: spec_clear_op(s.slot1.disk) },
        cycles: 0,
        time_to_refresh: SCREEN_REFRESH_TIME,
        state: CpuState::Running,
    }
}

} // verus!
