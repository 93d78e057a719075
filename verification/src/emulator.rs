//! The executable emulator, proved equal to the spec-level step functions of
//! [`crate::sem`].

use vstd::prelude::*;
use crate::isa::{Register, Registers, Operand, Address, Instruction, DiskId, spec_eval, spec_eval_address};
use crate::event::{Event, DiskResult, EventQueue, spec_queue_push};
use crate::sem::{CpuState, DiskOp, SlotDisk, SlotView, EmulatorView, wf_view, wf_slot, byte_at, word_at, store_byte, store_word, spec_register_of, operand_tail_len, spec_operand_at, spec_decode_one, spec_decode_regval, spec_decode_two, spec_offset_width, spec_offset_at, spec_decode_load, spec_decode_store, spec_decode, slot_of, with_slot, spec_start_disk, spec_apply, spec_update_slot, op_fields, mk_op, spec_screen_snapshot, spec_cycle, spec_cycle_refresh, spec_cycle_tick, spec_cycle_disk, spec_cycle_count, spec_cycle_wake, spec_cycle_execute, spec_run, spec_reset, spec_initial, spec_insert_disk, spec_remove_disk};
use crate::{MEMORY_SIZE, DISK_SIZE, SCREEN_SIZE, SCREEN_POSITION, SCREEN_REFRESH_TIME, DISK_OP_SIZE, CYCLES_PER_BYTE};

verus! {

/// A vector of `n` zero bytes.
fn zero_vec(n: usize) -> (r: Vec<u8>)
    ensures
        r@ == Seq::new(n as nat, |i: int| 0u8),
{
    let mut v: Vec<u8> = Vec::new();
    let mut i: usize = 0;
    while i < n
        invariant
            i <= n,
            v@.len() == i,
            forall|j: int| 0 <= j < i ==> v@[j] == 0u8,
        decreases n - i,
    {
        v.push(0);
        i = i + 1;
    }
    proof {
        assert(v@ =~= Seq::new(n as nat, |i: int| 0u8));
    }
    v
}

/// One disk slot: the backing bytes (always allocated in full) and the
/// slot's bookkeeping.
pub struct DiskSlot {
    data: Vec<u8>,
    disk: SlotDisk,
}

impl View for DiskSlot {
    type V = SlotView;

    closed spec fn view(&self) -> SlotView {
        SlotView { data: self.data@, disk: self.disk }
    }
}

impl DiskSlot {
    pub fn new(data: Vec<u8>) -> (r: DiskSlot)
        requires
            data@.len() == DISK_SIZE,
        ensures
            r@ == (SlotView { data: data@, disk: SlotDisk::Missing }),
    {
        DiskSlot { data, disk: SlotDisk::Missing }
    }
}

/// Stats of an inserted disk, as [`Emulator::disk`] reports them.
#[derive(Debug, Copy, Clone, PartialEq, Eq, Structural)]
pub struct Disk {
    pub modified: bool,
    pub idle_time: u64,
}

/// The whole virtual computer. Its view is the mathematical state
/// [`EmulatorView`]; every mutator states exactly how it changes that state.
pub struct Emulator {
    memory: Vec<u8>,
    screen: Vec<u8>,
    registers: Registers,
    instruction_pointer: u16,
    event_queue: EventQueue,
    slot0: DiskSlot,
    slot1: DiskSlot,
    cycles: u64,
    time_to_refresh: u64,
    state: CpuState,
}

impl View for Emulator {
    type V = EmulatorView;

    closed spec fn view(&self) -> EmulatorView {
        EmulatorView {
            memory: self.memory@,
            screen: self.screen@,
            registers: self.registers,
            instruction_pointer: self.instruction_pointer,
            events: self.event_queue@,
            slot0: self.slot0@,
            slot1: self.slot1@,
            cycles: self.cycles,
            time_to_refresh: self.time_to_refresh,
            state: self.state,
        }
    }
}

impl Emulator {
    /// The state is well-formed: buffers have their fixed sizes and all
    /// counters are in range.
    pub closed spec fn wf(&self) -> bool {
        &&& self.event_queue.wf()
        &&& wf_view(self@)
    }

    /// A freshly powered-on machine: everything zeroed, no disks, the CPU
    /// running at address 0.
    pub fn new() -> (r: Emulator)
        ensures
            r.wf(),
            r@ == spec_initial(),
    {
        Emulator {
            memory: zero_vec(MEMORY_SIZE),
            screen: zero_vec(SCREEN_SIZE),
            registers: Registers::new(),
            instruction_pointer: 0,
            event_queue: EventQueue::new(),
            slot0: DiskSlot::new(zero_vec(DISK_SIZE)),
            slot1: DiskSlot::new(zero_vec(DISK_SIZE)),
            cycles: 0,
            time_to_refresh: SCREEN_REFRESH_TIME,
            state: CpuState::Running,
        }
    }

    /// Enqueue an event for the CPU, dropping the oldest one when the queue
    /// is full.
    pub fn queue_event(&mut self, event: Event)
        requires
            old(self).wf(),
        ensures
            final(self).wf(),
            final(self)@ == (EmulatorView {
                events: spec_queue_push(old(self)@.events, event),
                ..old(self)@
            }),
    {
        self.event_queue.push(event);
    }

    /// Report a key release to the CPU.
    pub fn key_up(&mut self, key: u16)
        requires
            old(self).wf(),
        ensures
            final(self).wf(),
            final(self)@ == (EmulatorView {
                events: spec_queue_push(old(self)@.events, Event { id: 1, arg: key }),
                ..old(self)@
            }),
    {
        self.queue_event(Event::key_up(key));
    }

    /// Report a key press to the CPU.
    pub fn key_down(&mut self, key: u16)
        requires
            old(self).wf(),
        ensures
            final(self).wf(),
            final(self)@ == (EmulatorView {
                events: spec_queue_push(old(self)@.events, Event { id: 2, arg: key }),
                ..old(self)@
            }),
    {
        self.queue_event(Event::key_down(key));
    }

    /// Make the slot's backing bytes visible to the CPU as an inserted,
    /// unmodified, fully idle disk; does nothing when one is already there.
    pub fn insert_disk(&mut self, id: DiskId)
        requires
            old(self).wf(),
        ensures
            final(self).wf(),
            final(self)@ == spec_insert_disk(old(self)@, id),
    {
        let slot = self.disk_slot_mut(id);
        match slot.disk {
            SlotDisk::Missing => {
                slot.disk = SlotDisk::Present {
                    modified: false,
                    idle_time: u64::MAX,
                    running_op: None,
                };
            },
            SlotDisk::Present { .. } => {},
        }
    }

    /// Take the disk out of the slot; the backing bytes remain available to
    /// the host.
    pub fn remove_disk(&mut self, id: DiskId)
        requires
            old(self).wf(),
        ensures
            final(self).wf(),
            final(self)@ == spec_remove_disk(old(self)@, id),
    {
        let slot = self.disk_slot_mut(id);
        slot.disk = SlotDisk::Missing;
    }

    fn disk_slot_mut(&mut self, id: DiskId) -> (r: &mut DiskSlot)
        ensures
            *r == match id {
                DiskId::D0 => old(self).slot0,
                DiskId::D1 => old(self).slot1,
            },
            final(self)@ == with_slot(old(self)@, id, final(r)@),
            final(self).event_queue == old(self).event_queue,
            match id {
                DiskId::D0 => final(self).slot1 == old(self).slot1,
                DiskId::D1 => final(self).slot0 == old(self).slot0,
            },
    {
        match id {
            DiskId::D0 => &mut self.slot0,
            DiskId::D1 => &mut self.slot1,
        }
    }

    /// The inserted disk's stats, or `None` when the slot is empty.
    pub fn disk(&self, id: DiskId) -> (r: Option<Disk>)
        ensures
            r == match slot_of(self@, id).disk {
                SlotDisk::Missing => None::<Disk>,
                SlotDisk::Present { modified, idle_time, .. } => Some(
                    Disk { modified, idle_time },
                ),
            },
    {
        let slot = match id {
            DiskId::D0 => &self.slot0,
            DiskId::D1 => &self.slot1,
        };
        match slot.disk {
            SlotDisk::Missing => None,
            SlotDisk::Present { modified, idle_time, .. } => Some(Disk { modified, idle_time }),
        }
    }

    /// The slot's backing bytes, for the host to fill or read; keeping their
    /// length fixed keeps the machine well-formed.
    pub fn disk_slot(&mut self, id: DiskId) -> (r: &mut Vec<u8>)
        requires
            old(self).wf(),
        ensures
            (*r)@ == slot_of(old(self)@, id).data,
            final(self)@ == with_slot(
                old(self)@,
                id,
                SlotView { data: final(r)@, disk: slot_of(old(self)@, id).disk },
            ),
            final(r)@.len() == DISK_SIZE ==> final(self).wf(),
    {
        let slot = self.disk_slot_mut(id);
        &mut slot.data
    }

    /// The framebuffer, row-major, as of the last refresh.
    pub fn screen(&self) -> (r: &Vec<u8>)
        ensures
            r@ == self@.screen,
    {
        &self.screen
    }

    /// Main memory.
    pub fn memory(&self) -> (r: &Vec<u8>)
        ensures
            r@ == self@.memory,
    {
        &self.memory
    }

    /// Main memory, for the host to load a program into; keeping its length
    /// fixed keeps the machine well-formed.
    pub fn memory_mut(&mut self) -> (r: &mut Vec<u8>)
        requires
            old(self).wf(),
        ensures
            (*r)@ == old(self)@.memory,
            final(self)@ == (EmulatorView { memory: final(r)@, ..old(self)@ }),
            final(r)@.len() == MEMORY_SIZE ==> final(self).wf(),
    {
        &mut self.memory
    }

    /// The current register file.
    pub fn registers(&self) -> (r: Registers)
        ensures
            r == self@.registers,
    {
        self.registers
    }

    /// Replace the register file wholesale.
    pub fn set_registers(&mut self, registers: Registers)
        requires
            old(self).wf(),
        ensures
            final(self).wf(),
            final(self)@ == (EmulatorView { registers, ..old(self)@ }),
    {
        self.registers = registers;
    }

    /// The address of the next instruction.
    pub fn instruction_pointer(&self) -> (r: u16)
        ensures
            r == self@.instruction_pointer,
    {
        self.instruction_pointer
    }

    /// Point the CPU at an address.
    pub fn set_instruction_pointer(&mut self, ip: u16)
        requires
            old(self).wf(),
        ensures
            final(self).wf(),
            final(self)@ == (EmulatorView { instruction_pointer: ip, ..old(self)@ }),
    {
        self.instruction_pointer = ip;
    }

    /// Whether the CPU executes, waits or halted.
    pub fn state(&self) -> (r: CpuState)
        ensures
            r == self@.state,
    {
        self.state
    }

    /// False only once the CPU has halted for good.
    pub fn is_running(&self) -> (r: bool)
        ensures
            r == (self@.state != CpuState::Halted),
    {
        self.state != CpuState::Halted
    }

    /// How many cycles have been executed since power-on or reset.
    pub fn cycles(&self) -> (r: u64)
        ensures
            r == self@.cycles,
    {
        self.cycles
    }

    /// The value of an operand: a register operand reads the register file,
    /// an immediate yields its literal.
    pub fn eval(&self, operand: Operand) -> (r: u16)
        ensures
            r == spec_eval(self@.registers, operand),
    {
        match operand {
            Operand::Register(r) => self.registers.get(r),
            Operand::Word(w) => w,
        }
    }

    fn eval_address(&self, address: Address) -> (r: u16)
        ensures
            r == spec_eval_address(self@.registers, address),
    {
        self.eval(address.operand).wrapping_add(address.offset)
    }

    /// The byte of memory at `addr`.
    fn load(&self, addr: u16) -> (r: u8)
        requires
            self.wf(),
        ensures
            r == byte_at(self@.memory, addr),
    {
        self.memory[addr as usize]
    }

    /// The little-endian word at `addr`; the high byte wraps around.
    fn load_word(&self, addr: u16) -> (r: u16)
        requires
            self.wf(),
        ensures
            r == word_at(self@.memory, addr),
    {
        let low = self.memory[addr as usize] as u16;
        let high = self.memory[addr.wrapping_add(1) as usize] as u16;
        high * 256 + low
    }

    fn store(&mut self, addr: u16, value: u8)
        requires
            old(self).wf(),
        ensures
            final(self).wf(),
            final(self)@ == (EmulatorView {
                memory: store_byte(old(self)@.memory, addr, value),
                ..old(self)@
            }),
    {
        self.memory.set(addr as usize, value);
    }

    fn store_word(&mut self, addr: u16, value: u16)
        requires
            old(self).wf(),
        ensures
            final(self).wf(),
            final(self)@ == (EmulatorView {
                memory: store_word(old(self)@.memory, addr, value),
                ..old(self)@
            }),
    {
        let low = (value & 0xff) as u8;
        let high = ((value >> 8) & 0xff) as u8;
        self.memory.set(addr as usize, low);
        self.memory.set(addr.wrapping_add(1) as usize, high);
    }

    /// Read the byte at the instruction pointer and advance past it.
    fn read_byte(&mut self) -> (r: u8)
        requires
            old(self).wf(),
        ensures
            final(self).wf(),
            r == byte_at(old(self)@.memory, old(self)@.instruction_pointer),
            final(self)@ == (EmulatorView {
                instruction_pointer: old(self)@.instruction_pointer.wrapping_add(1),
                ..old(self)@
            }),
    {
        let byte = self.load(self.instruction_pointer);
        self.instruction_pointer = self.instruction_pointer.wrapping_add(1);
        byte
    }

    /// Read the little-endian word at the instruction pointer and advance
    /// past it.
    fn read_word(&mut self) -> (r: u16)
        requires
            old(self).wf(),
        ensures
            final(self).wf(),
            r == word_at(old(self)@.memory, old(self)@.instruction_pointer),
            final(self)@ == (EmulatorView {
                instruction_pointer: old(self)@.instruction_pointer.wrapping_add(2),
                ..old(self)@
            }),
    {
        let low = self.read_byte() as u16;
        let high = self.read_byte() as u16;
        high * 256 + low
    }

    /// The register the low three bits of a nibble name.
    fn decode_register(&mut self, bits: u8) -> (r: Register)
        ensures
            *final(self) == *old(self),
            r == spec_register_of(bits),
    {
        let b = bits & 0b111;
        if b == 0 {
            Register::A
        } else if b == 1 {
            Register::B
        } else if b == 2 {
            Register::C
        } else if b == 3 {
            Register::D
        } else if b == 4 {
            Register::I
        } else if b == 5 {
            Register::J
        } else if b == 6 {
            Register::P
        } else {
            Register::S
        }
    }

    /// Decode the operand a nibble selects, consuming its tail bytes.
    fn decode_operand(&mut self, bits: u8) -> (r: Operand)
        requires
            old(self).wf(),
        ensures
            final(self).wf(),
            r == spec_operand_at(
                old(self)@.memory,
                bits & 0xf,
                old(self)@.instruction_pointer,
            ),
            final(self)@ == (EmulatorView {
                instruction_pointer: old(self)@.instruction_pointer.wrapping_add(
                    operand_tail_len(bits & 0xf),
                ),
                ..old(self)@
            }),
    {
        let n = bits & 0xf;
        if n < 8 {
            Operand::Register(self.decode_register(n))
        } else if n <= 0xc {
            Operand::Word((n - 8) as u16)
        } else if n == 0xd {
            Operand::Word(self.read_byte() as u16)
        } else if n == 0xe {
            Operand::Word(self.read_word())
        } else {
            Operand::Word(0xffff)
        }
    }

    /// Decode a single-operand family's operand: the nibble is the opcode's
    /// low four bits.
    fn one_operand(&mut self, x: u8) -> (r: Operand)
        requires
            old(self).wf(),
        ensures
            final(self).wf(),
            (r, final(self)@.instruction_pointer) == spec_decode_one(
                old(self)@.memory,
                old(self)@.instruction_pointer,
                x,
            ),
            final(self)@ == (EmulatorView {
                instruction_pointer: final(self)@.instruction_pointer,
                ..old(self)@
            }),
    {
        self.decode_operand(x)
    }

    /// Decode a register-plus-operand pair from the next byte.
    fn register_operand(&mut self) -> (r: (Register, Operand))
        requires
            old(self).wf(),
        ensures
            final(self).wf(),
            (r.0, r.1, final(self)@.instruction_pointer) == spec_decode_regval(
                old(self)@.memory,
                old(self)@.instruction_pointer,
            ),
            final(self)@ == (EmulatorView {
                instruction_pointer: final(self)@.instruction_pointer,
                ..old(self)@
            }),
    {
        let x = self.read_byte();
        let reg = self.decode_register((x >> 4) & 0b111);
        let op = self.decode_operand(x);
        (reg, op)
    }

    /// Decode two operands from the next byte: upper nibble first, its tail
    /// bytes before the second operand's.
    fn two_operands(&mut self) -> (r: (Operand, Operand))
        requires
            old(self).wf(),
        ensures
            final(self).wf(),
            (r.0, r.1, final(self)@.instruction_pointer) == spec_decode_two(
                old(self)@.memory,
                old(self)@.instruction_pointer,
            ),
            final(self)@ == (EmulatorView {
                instruction_pointer: final(self)@.instruction_pointer,
                ..old(self)@
            }),
    {
        let x = self.read_byte();
        let op1 = self.decode_operand(x >> 4);
        let op2 = self.decode_operand(x);
        (op1, op2)
    }

    /// The load/store offset the opcode's low two bits call for: absent, one
    /// unsigned byte, or a little-endian word.
    fn read_offset(&mut self, b: u8) -> (r: u16)
        requires
            old(self).wf(),
        ensures
            final(self).wf(),
            r == spec_offset_at(old(self)@.memory, old(self)@.instruction_pointer, b),
            final(self)@ == (EmulatorView {
                instruction_pointer: old(self)@.instruction_pointer.wrapping_add(
                    spec_offset_width(b),
                ),
                ..old(self)@
            }),
    {
        if b & 0b11 == 1 {
            self.read_byte() as u16
        } else if b & 0b11 == 2 {
            self.read_word()
        } else {
            0
        }
    }

    /// Decode a load: reg|value byte, then offset bytes, then the value's
    /// tail bytes.
    fn decode_load(&mut self, b: u8) -> (r: (Register, Address))
        requires
            old(self).wf(),
        ensures
            final(self).wf(),
            (r.0, r.1, final(self)@.instruction_pointer) == spec_decode_load(
                old(self)@.memory,
                old(self)@.instruction_pointer,
                b,
            ),
            final(self)@ == (EmulatorView {
                instruction_pointer: final(self)@.instruction_pointer,
                ..old(self)@
            }),
    {
        let x = self.read_byte();
        let offset = self.read_offset(b);
        let reg = self.decode_register((x >> 4) & 0b111);
        let operand = self.decode_operand(x);
        (reg, Address { operand, offset })
    }

    /// Decode a store: value|value byte, then offset bytes, then the source
    /// value's tail, then the address value's tail.
    fn decode_store(&mut self, b: u8) -> (r: (Operand, Address))
        requires
            old(self).wf(),
        ensures
            final(self).wf(),
            (r.0, r.1, final(self)@.instruction_pointer) == spec_decode_store(
                old(self)@.memory,
                old(self)@.instruction_pointer,
                b,
            ),
            final(self)@ == (EmulatorView {
                instruction_pointer: final(self)@.instruction_pointer,
                ..old(self)@
            }),
    {
        let x = self.read_byte();
        let offset = self.read_offset(b);
        let op = self.decode_operand(x >> 4);
        let operand = self.decode_operand(x);
        (op, Address { operand, offset })
    }

    /// Decode the instruction at the instruction pointer, advancing the
    /// pointer past every byte consumed.
    pub fn decode_instruction(&mut self) -> (r: Instruction)
        requires
            old(self).wf(),
        ensures
            final(self).wf(),
            (r, final(self)@.instruction_pointer) == spec_decode(
                old(self)@.memory,
                old(self)@.instruction_pointer,
            ),
            final(self)@ == (EmulatorView {
                instruction_pointer: final(self)@.instruction_pointer,
                ..old(self)@
            }),
    {
        let x = self.read_byte();
        match x {
            0b0000_0000 => Instruction::Nop,
            0b0000_0001 => Instruction::Ret,
            0b0000_0010 => Instruction::Wait,
            0b0000_0011 => Instruction::Poll,
            0b0000_0100 => Instruction::Halt,
            0b0001_0000..=0b0001_0111 => Instruction::Not(self.decode_register(x)),
            0b0010_0000..=0b0010_0111 => Instruction::Neg(self.decode_register(x)),
            0b0011_0000..=0b0011_0111 => Instruction::Pop(self.decode_register(x)),
            0b0100_0000..=0b0100_1111 => Instruction::Push(self.one_operand(x)),
            0b0101_0000..=0b0101_1111 => Instruction::Jmp(self.one_operand(x)),
            0b0110_0000..=0b0110_1111 => Instruction::Call(self.one_operand(x)),
            0b1000_0000..=0b1000_1000 => {
                let (r, o) = self.register_operand();
                match x {
                    0b1000_0000 => Instruction::Mov(r, o),
                    0b1000_0001 => Instruction::Add(r, o),
                    0b1000_0010 => Instruction::Sub(r, o),
                    0b1000_0011 => Instruction::Xor(r, o),
                    0b1000_0100 => Instruction::And(r, o),
                    0b1000_0101 => Instruction::Or(r, o),
                    0b1000_0110 => Instruction::Shl(r, o),
                    0b1000_0111 => Instruction::Shr(r, o),
                    _ => Instruction::Cmp(r, o),
                }
            },
            0b1001_0000..=0b1001_0010 => {
                let (r, a) = self.decode_load(x);
                Instruction::Load(r, a)
            },
            0b1001_0100..=0b1001_0110 => {
                let (r, a) = self.decode_load(x);
                Instruction::Loadw(r, a)
            },
            0b1001_1000..=0b1001_1010 => {
                let (o, a) = self.decode_store(x);
                Instruction::Store(o, a)
            },
            0b1001_1100..=0b1001_1110 => {
                let (o, a) = self.decode_store(x);
                Instruction::Storew(o, a)
            },
            0b1010_0000..=0b1010_0101 => {
                let (r, o) = self.register_operand();
                match x {
                    0b1010_0000 => Instruction::Jez(r, o),
                    0b1010_0001 => Instruction::Jnz(r, o),
                    0b1010_0010 => Instruction::Jl(r, o),
                    0b1010_0011 => Instruction::Jg(r, o),
                    0b1010_0100 => Instruction::Jle(r, o),
                    _ => Instruction::Jge(r, o),
                }
            },
            0b1111_0000 => {
                let (o1, o2) = self.two_operands();
                Instruction::Read(DiskId::D0, o1, o2)
            },
            0b1111_0001 => {
                let (o1, o2) = self.two_operands();
                Instruction::Read(DiskId::D1, o1, o2)
            },
            0b1111_1000 => {
                let (o1, o2) = self.two_operands();
                Instruction::Write(DiskId::D0, o1, o2)
            },
            0b1111_1001 => {
                let (o1, o2) = self.two_operands();
                Instruction::Write(DiskId::D1, o1, o2)
            },
            _ => Instruction::Invalid,
        }
    }

    /// Start a disk transfer: install the running operation if the slot is
    /// idle, otherwise report busy or not-present as an event.
    fn start_disk(&mut self, id: DiskId, writing: bool, mem_op: Operand, disk_op: Operand)
        requires
            old(self).wf(),
        ensures
            final(self).wf(),
            final(self)@ == spec_start_disk(old(self)@, id, writing, mem_op, disk_op),
    {
        let memory_ptr = self.eval(mem_op) as usize;
        let disk_ptr = (self.eval(disk_op) as usize) * 16;
        let disk = match id {
            DiskId::D0 => self.slot0.disk,
            DiskId::D1 => self.slot1.disk,
        };
        match disk {
            SlotDisk::Present { modified, idle_time: _, running_op: None } => {
                let op = if writing {
                    DiskOp::Writing {
                        disk_ptr,
                        memory_ptr,
                        remaining: DISK_OP_SIZE,
                        delay: CYCLES_PER_BYTE,
                    }
                } else {
                    DiskOp::Reading {
                        disk_ptr,
                        memory_ptr,
                        remaining: DISK_OP_SIZE,
                        delay: CYCLES_PER_BYTE,
                    }
                };
                let new_disk = SlotDisk::Present {
                    modified: modified || writing,
                    idle_time: 0,
                    running_op: Some(op),
                };
                match id {
                    DiskId::D0 => self.slot0.disk = new_disk,
                    DiskId::D1 => self.slot1.disk = new_disk,
                }
            },
            SlotDisk::Present { running_op: Some(_), .. } => {
                self.queue_event(Event::disk_finished(id, DiskResult::Busy));
            },
            SlotDisk::Missing => {
                self.queue_event(Event::disk_finished(id, DiskResult::NotPresent));
            },
        }
    }

    /// Apply one decoded instruction; the instruction pointer has already
    /// been advanced past the instruction's bytes.
    fn apply_instruction(&mut self, instruction: Instruction)
        requires
            old(self).wf(),
        ensures
            final(self).wf(),
            final(self)@ == spec_apply(old(self)@, instruction),
    {
        match instruction {
            Instruction::Nop | Instruction::Invalid | Instruction::Wait | Instruction::Poll
            | Instruction::Halt | Instruction::Not(_) | Instruction::Neg(_) => {
                self.apply_system(instruction);
            },
            Instruction::Ret | Instruction::Pop(_) | Instruction::Push(_) | Instruction::Jmp(_)
            | Instruction::Call(_) => {
                self.apply_stack(instruction);
            },
            Instruction::Mov(..) | Instruction::Add(..) | Instruction::Sub(..)
            | Instruction::Xor(..) | Instruction::And(..) | Instruction::Or(..)
            | Instruction::Shl(..) | Instruction::Shr(..) | Instruction::Cmp(..) => {
                self.apply_alu(instruction);
            },
            Instruction::Load(..) | Instruction::Loadw(..) | Instruction::Store(..)
            | Instruction::Storew(..) => {
                self.apply_memory(instruction);
            },
            Instruction::Jez(..) | Instruction::Jnz(..) | Instruction::Jl(..)
            | Instruction::Jg(..) | Instruction::Jle(..) | Instruction::Jge(..) => {
                self.apply_jump(instruction);
            },
            Instruction::Read(id, mem_op, disk_op) => {
                self.start_disk(id, false, mem_op, disk_op);
            },
            Instruction::Write(id, mem_op, disk_op) => {
                self.start_disk(id, true, mem_op, disk_op);
            },
        }
    }

    /// The instructions that touch no memory and no operand: state changes,
    /// event polling and the one-register operations.
    fn apply_system(&mut self, instruction: Instruction)
        requires
            old(self).wf(),
            (instruction matches Instruction::Nop) || (instruction matches Instruction::Invalid)
                || (instruction matches Instruction::Wait) || (instruction
                matches Instruction::Poll) || (instruction matches Instruction::Halt)
                || (instruction matches Instruction::Not(_)) || (instruction
                matches Instruction::Neg(_)),
        ensures
            final(self).wf(),
            final(self)@ == spec_apply(old(self)@, instruction),
    {
        match instruction {
            Instruction::Wait => {
                self.state = CpuState::Waiting;
            },
            Instruction::Poll => {
                if let Some(event) = self.event_queue.pop() {
                    self.registers.a = event.id;
                    self.registers.b = event.arg;
                } else {
                    self.registers.a = 0;
                    self.registers.b = 0;
                }
            },
            Instruction::Halt => {
                self.state = CpuState::Halted;
            },
            Instruction::Not(a) => {
                let v = self.registers.get(a);
                self.registers.set(a, !v);
            },
            Instruction::Neg(a) => {
                let v = self.registers.get(a);
                self.registers.set(a, 0u16.wrapping_sub(v));
            },
            _ => {},
        }
    }

    /// The stack and control-transfer instructions.
    fn apply_stack(&mut self, instruction: Instruction)
        requires
            old(self).wf(),
            (instruction matches Instruction::Ret) || (instruction matches Instruction::Pop(_))
                || (instruction matches Instruction::Push(_)) || (instruction
                matches Instruction::Jmp(_)) || (instruction matches Instruction::Call(_)),
        ensures
            final(self).wf(),
            final(self)@ == spec_apply(old(self)@, instruction),
    {
        match instruction {
            Instruction::Ret => {
                self.registers.s = self.registers.s.wrapping_add(2);
                self.instruction_pointer = self.load_word(self.registers.s);
            },
            Instruction::Pop(a) => {
                self.registers.s = self.registers.s.wrapping_add(2);
                let w = self.load_word(self.registers.s);
                self.registers.set(a, w);
            },
            Instruction::Push(a) => {
                let v = self.eval(a);
                let sp = self.registers.s;
                self.store_word(sp, v);
                self.registers.s = sp.wrapping_sub(2);
            },
            Instruction::Jmp(a) => {
                self.instruction_pointer = self.eval(a);
            },
            Instruction::Call(a) => {
                let sp = self.registers.s;
                let ip = self.instruction_pointer;
                self.store_word(sp, ip);
                self.instruction_pointer = self.eval(a);
                self.registers.s = sp.wrapping_sub(2);
            },
            _ => {},
        }
    }

    /// The two-operand arithmetic, bitwise and compare instructions.
    fn apply_alu(&mut self, instruction: Instruction)
        requires
            old(self).wf(),
            (instruction matches Instruction::Mov(..)) || (instruction
                matches Instruction::Add(..)) || (instruction matches Instruction::Sub(..))
                || (instruction matches Instruction::Xor(..)) || (instruction
                matches Instruction::And(..)) || (instruction matches Instruction::Or(..))
                || (instruction matches Instruction::Shl(..)) || (instruction
                matches Instruction::Shr(..)) || (instruction matches Instruction::Cmp(..)),
        ensures
            final(self).wf(),
            final(self)@ == spec_apply(old(self)@, instruction),
    {
        match instruction {
            Instruction::Mov(a, b) => {
                let v = self.eval(b);
                self.registers.set(a, v);
            },
            Instruction::Add(a, b) => {
                let av = self.registers.get(a);
                let bv = self.eval(b);
                self.registers.set(a, av.wrapping_add(bv));
            },
            Instruction::Sub(a, b) => {
                let av = self.registers.get(a);
                let bv = self.eval(b);
                self.registers.set(a, av.wrapping_sub(bv));
            },
            Instruction::Xor(a, b) => {
                let av = self.registers.get(a);
                let bv = self.eval(b);
                self.registers.set(a, av ^ bv);
            },
            Instruction::And(a, b) => {
                let av = self.registers.get(a);
                let bv = self.eval(b);
                self.registers.set(a, av & bv);
            },
            Instruction::Or(a, b) => {
                let av = self.registers.get(a);
                let bv = self.eval(b);
                self.registers.set(a, av | bv);
            },
            Instruction::Shl(a, b) => {
                let shift = self.eval(b);
                let av = self.registers.get(a);
                let v = if shift >= 16 {
                    0
                } else {
                    av << shift
                };
                self.registers.set(a, v);
            },
            Instruction::Shr(a, b) => {
                let shift = self.eval(b);
                let av = self.registers.get(a);
                let v = if shift >= 16 {
                    0
                } else {
                    av >> shift
                };
                self.registers.set(a, v);
            },
            Instruction::Cmp(a, b) => {
                let av = self.registers.get(a);
                let bv = self.eval(b);
                let v: u16 = if av > bv {
                    1
                } else if av == bv {
                    0
                } else {
                    0xffff
                };
                self.registers.set(a, v);
            },
            _ => {},
        }
    }

    /// The load and store instructions. `store` truncates its source to the
    /// low byte.
    fn apply_memory(&mut self, instruction: Instruction)
        requires
            old(self).wf(),
            (instruction matches Instruction::Load(..)) || (instruction
                matches Instruction::Loadw(..)) || (instruction matches Instruction::Store(..))
                || (instruction matches Instruction::Storew(..)),
        ensures
            final(self).wf(),
            final(self)@ == spec_apply(old(self)@, instruction),
    {
        match instruction {
            Instruction::Load(a, b) => {
                let addr = self.eval_address(b);
                let v = self.load(addr) as u16;
                self.registers.set(a, v);
            },
            Instruction::Loadw(a, b) => {
                let addr = self.eval_address(b);
                let v = self.load_word(addr);
                self.registers.set(a, v);
            },
            Instruction::Store(a, b) => {
                let addr = self.eval_address(b);
                let v = (self.eval(a) & 0xff) as u8;
                self.store(addr, v);
            },
            Instruction::Storew(a, b) => {
                let addr = self.eval_address(b);
                let v = self.eval(a);
                self.store_word(addr, v);
            },
            _ => {},
        }
    }

    /// The conditional jumps, keyed off a prior `cmp` result in a register.
    fn apply_jump(&mut self, instruction: Instruction)
        requires
            old(self).wf(),
            (instruction matches Instruction::Jez(..)) || (instruction
                matches Instruction::Jnz(..)) || (instruction matches Instruction::Jl(..))
                || (instruction matches Instruction::Jg(..)) || (instruction
                matches Instruction::Jle(..)) || (instruction matches Instruction::Jge(..)),
        ensures
            final(self).wf(),
            final(self)@ == spec_apply(old(self)@, instruction),
    {
        match instruction {
            Instruction::Jez(a, d) => {
                if self.registers.get(a) == 0 {
                    self.instruction_pointer = self.eval(d);
                }
            },
            Instruction::Jnz(a, d) => {
                if self.registers.get(a) != 0 {
                    self.instruction_pointer = self.eval(d);
                }
            },
            Instruction::Jl(a, d) => {
                if self.registers.get(a) == 0xffff {
                    self.instruction_pointer = self.eval(d);
                }
            },
            Instruction::Jg(a, d) => {
                if self.registers.get(a) == 1 {
                    self.instruction_pointer = self.eval(d);
                }
            },
            Instruction::Jle(a, d) => {
                if self.registers.get(a) != 1 {
                    self.instruction_pointer = self.eval(d);
                }
            },
            Instruction::Jge(a, d) => {
                if self.registers.get(a) != 0xffff {
                    self.instruction_pointer = self.eval(d);
                }
            },
            _ => {},
        }
    }

    /// Snapshot the framebuffer from memory at [`SCREEN_POSITION`],
    /// row-major.
    fn refresh_screen(&mut self)
        requires
            old(self).wf(),
        ensures
            final(self).wf(),
            final(self)@ == (EmulatorView {
                screen: spec_screen_snapshot(old(self)@.memory),
                ..old(self)@
            }),
    {
        let mut i: usize = 0;
        while i < SCREEN_SIZE
            invariant
                old(self).wf(),
                i <= SCREEN_SIZE,
                self@ == (EmulatorView { screen: self@.screen, ..old(self)@ }),
                self.wf(),
                forall|j: int|
                    0 <= j < i ==> self@.screen[j] == old(self)@.memory[SCREEN_POSITION + j],
            decreases SCREEN_SIZE - i,
        {
            let b = self.memory[SCREEN_POSITION as usize + i];
            self.screen.set(i, b);
            i = i + 1;
        }
        proof {
            assert(self@.screen =~= spec_screen_snapshot(old(self)@.memory));
        }
    }

    /// One cycle of progress of one disk slot: count down a running
    /// operation's delay, transfer one byte when it expires, retire the
    /// operation after its last byte, and otherwise advance the idle counter
    /// with saturation.
    fn update_disk(disk_id: DiskId, memory: &mut Vec<u8>, slot: &mut DiskSlot) -> (r: Option<
        Event,
    >)
        requires
            wf_slot(old(slot)@),
            old(memory)@.len() == MEMORY_SIZE,
        ensures
            final(slot)@ == spec_update_slot(old(slot)@, old(memory)@, disk_id).0,
            final(memory)@ == spec_update_slot(old(slot)@, old(memory)@, disk_id).1,
            r == spec_update_slot(old(slot)@, old(memory)@, disk_id).2,
            wf_slot(final(slot)@),
            final(memory)@.len() == MEMORY_SIZE,
    {
        match slot.disk {
            SlotDisk::Missing => None,
            SlotDisk::Present { modified, idle_time, running_op: None } => {
                slot.disk = SlotDisk::Present {
                    modified,
                    idle_time: idle_time.saturating_add(1),
                    running_op: None,
                };
                None
            },
            SlotDisk::Present { modified, idle_time, running_op: Some(op) } => {
                let (reading, disk_ptr, memory_ptr, remaining, delay) = Self::op_parts(op);
                if delay > 1 {
                    slot.disk = SlotDisk::Present {
                        modified,
                        idle_time,
                        running_op: Some(
                            Self::make_op(reading, disk_ptr, memory_ptr, remaining, delay - 1),
                        ),
                    };
                    None
                } else {
                    if reading {
                        let b = slot.data[disk_ptr % DISK_SIZE];
                        memory.set(memory_ptr % MEMORY_SIZE, b);
                    } else {
                        let b = memory[memory_ptr % MEMORY_SIZE];
                        slot.data.set(disk_ptr % DISK_SIZE, b);
                    }
                    if remaining == 1 {
                        slot.disk = SlotDisk::Present { modified, idle_time, running_op: None };
                        Some(Event::disk_finished(disk_id, DiskResult::Completed))
                    } else {
                        slot.disk = SlotDisk::Present {
                            modified,
                            idle_time,
                            running_op: Some(
                                Self::make_op(
                                    reading,
                                    disk_ptr.wrapping_add(1),
                                    memory_ptr.wrapping_add(1),
                                    remaining - 1,
                                    CYCLES_PER_BYTE,
                                ),
                            ),
                        };
                        None
                    }
                }
            },
        }
    }

    /// The direction and the four counters of a running operation.
    fn op_parts(op: DiskOp) -> (r: (bool, usize, usize, usize, u64))
        ensures
            r == op_fields(op),
    {
        match op {
            DiskOp::Reading { disk_ptr, memory_ptr, remaining, delay } => (
                true,
                disk_ptr,
                memory_ptr,
                remaining,
                delay,
            ),
            DiskOp::Writing { disk_ptr, memory_ptr, remaining, delay } => (
                false,
                disk_ptr,
                memory_ptr,
                remaining,
                delay,
            ),
        }
    }

    fn make_op(reading: bool, disk_ptr: usize, memory_ptr: usize, remaining: usize, delay: u64)
        -> (r: DiskOp)
        ensures
            r == mk_op(reading, disk_ptr, memory_ptr, remaining, delay),
    {
        if reading {
            DiskOp::Reading { disk_ptr, memory_ptr, remaining, delay }
        } else {
            DiskOp::Writing { disk_ptr, memory_ptr, remaining, delay }
        }
    }

    /// One cycle of the whole machine: screen refresh when due, refresh
    /// countdown, disk 0 then disk 1 progress, cycle count, wake-up from
    /// `wait`, then one instruction if the CPU is running.
    pub fn cycle(&mut self)
        requires
            old(self).wf(),
        ensures
            final(self).wf(),
            final(self)@ == spec_cycle(old(self)@),
    {
        let ghost s0 = old(self)@;
        if self.time_to_refresh == 0 {
            self.refresh_screen();
            self.time_to_refresh = SCREEN_REFRESH_TIME;
            self.event_queue.push(Event::screen_refresh());
        }
        proof {
            assert(self@ == spec_cycle_refresh(s0));
        }
        let ghost s1 = spec_cycle_refresh(s0);
        self.time_to_refresh = self.time_to_refresh - 1;
        proof {
            assert(self@ == spec_cycle_tick(s1));
        }
        let ghost s2 = spec_cycle_tick(s1);

        let e0 = Self::update_disk(DiskId::D0, &mut self.memory, &mut self.slot0);
        if let Some(event) = e0 {
            self.event_queue.push(event);
        }
        proof {
            assert(self@ == spec_cycle_disk(s2, DiskId::D0));
        }
        let ghost s3 = spec_cycle_disk(s2, DiskId::D0);

        let e1 = Self::update_disk(DiskId::D1, &mut self.memory, &mut self.slot1);
        if let Some(event) = e1 {
            self.event_queue.push(event);
        }
        proof {
            assert(self@ == spec_cycle_disk(s3, DiskId::D1));
        }
        let ghost s4 = spec_cycle_disk(s3, DiskId::D1);

        self.cycles = self.cycles.wrapping_add(1);
        let ghost s5 = spec_cycle_count(s4);

        if self.state == CpuState::Waiting {
            if let Some(event) = self.event_queue.pop() {
                self.registers.a = event.id;
                self.registers.b = event.arg;
                self.state = CpuState::Running;
            }
        }
        proof {
            assert(self@ == spec_cycle_wake(s5));
        }
        let ghost s6 = spec_cycle_wake(s5);

        if self.state == CpuState::Running {
            let instruction = self.decode_instruction();
            self.apply_instruction(instruction);
        }
        proof {
            assert(self@ == spec_cycle_execute(s6));
        }
    }

    /// Run `n` cycles.
    pub fn run(&mut self, n: u64)
        requires
            old(self).wf(),
        ensures
            final(self).wf(),
            final(self)@ == spec_run(old(self)@, n),
    {
        let mut i: u64 = 0;
        while i < n
            invariant
                self.wf(),
                i <= n,
                spec_run(self@, (n - i) as u64) == spec_run(old(self)@, n),
            decreases n - i,
        {
            self.cycle();
            i = i + 1;
        }
    }

    /// Reset the machine: cancel running disk operations (payloads remain),
    /// zero memory, screen, registers, queue and counters, and, when disk 0
    /// is present, copy its first [`DISK_OP_SIZE`] bytes into low memory as
    /// a bootloader and mark it actively used. No event is enqueued.
    pub fn reset(&mut self)
        requires
            old(self).wf(),
        ensures
            final(self).wf(),
            final(self)@ == spec_reset(old(self)@),
    {
        let ghost target = spec_reset(old(self)@);
        self.memory = zero_vec(MEMORY_SIZE);
        self.screen = zero_vec(SCREEN_SIZE);
        self.registers = Registers::new();
        self.instruction_pointer = 0;
        self.event_queue = EventQueue::new();
        self.cycles = 0;
        self.time_to_refresh = SCREEN_REFRESH_TIME;
        self.state = CpuState::Running;
        proof {
            assert(self@.screen =~= target.screen);
        }
        self.slot1.disk = match self.slot1.disk {
            SlotDisk::Missing => SlotDisk::Missing,
            SlotDisk::Present { modified, idle_time, running_op: _ } => SlotDisk::Present {
                modified,
                idle_time,
                running_op: None,
            },
        };
        match self.slot0.disk {
            SlotDisk::Missing => {
                proof {
                    assert(self@.memory =~= target.memory);
                }
            },
            SlotDisk::Present { modified, .. } => {
                self.slot0.disk = SlotDisk::Present {
                    modified,
                    idle_time: 0,
                    running_op: None,
                };
                let mut i: usize = 0;
                while i < DISK_OP_SIZE
                    invariant
                        i <= DISK_OP_SIZE,
                        self.event_queue.wf(),
                        self@ == (EmulatorView { memory: self@.memory, ..target }),
                        self@.memory.len() == MEMORY_SIZE,
                        self@.slot0.data.len() == DISK_SIZE,
                        forall|j: int| 0 <= j < i ==> self@.memory[j] == self@.slot0.data[j],
                        forall|j: int|
                            i <= j < MEMORY_SIZE ==> self@.memory[j] == 0u8,
                    decreases DISK_OP_SIZE - i,
                {
                    let b = self.slot0.data[i];
                    self.memory.set(i, b);
                    i = i + 1;
                }
                proof {
                    assert(self@.memory =~= target.memory);
                }
            },
        }
    }
}

} // verus!
