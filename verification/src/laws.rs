//! Laws of the machine, stated and proved over the spec-level semantics.

use vstd::prelude::*;
use crate::isa::{Register, Operand, Instruction, DiskId, spec_eval};
use crate::event::Event;
use crate::sem::{CpuState, DiskOp, SlotDisk, EmulatorView, wf_view, byte_at, word_at, store_word, spec_apply, spec_cycle, spec_decode, slot_of, spec_reset, spec_insert_disk, spec_remove_disk, spec_register_of, spec_operand_at, operand_tail_len, spec_decode_one, spec_decode_regval, spec_decode_two, spec_decode_load, spec_decode_store};
use crate::parse::{ConstantV, ValueV, AddressV, InstructionV};
use crate::encode::{spec_reg_bits, spec_disk_bits, spec_constant_value, spec_constant_assemble, spec_value_assemble, spec_encode_one, spec_encode_regval, spec_encode_load, spec_encode_store, spec_encode_disk, spec_encode, lo_byte, hi_byte};
use crate::source::Error;
use crate::event::spec_queue_push;
use crate::MEMORY_SIZE;

verus! {

/// Arithmetic wrap: for all 16-bit values, `add` and `sub` compute the sum
/// and difference modulo 2^16, and a shift by 16 or more places yields 0.
pub proof fn lemma_arithmetic_wrap(s: EmulatorView, a: Register, b: Operand)
    ensures
        spec_apply(s, Instruction::Add(a, b)).registers.spec_get(a) == (s.registers.spec_get(a)
            + spec_eval(s.registers, b)) % 0x10000,
        spec_apply(s, Instruction::Sub(a, b)).registers.spec_get(a) == (s.registers.spec_get(a)
            - spec_eval(s.registers, b)) % 0x10000,
        spec_eval(s.registers, b) >= 16 ==> spec_apply(s, Instruction::Shl(a, b))
            .registers.spec_get(a) == 0,
        spec_eval(s.registers, b) >= 16 ==> spec_apply(s, Instruction::Shr(a, b))
            .registers.spec_get(a) == 0,
{
    let x = s.registers.spec_get(a) as int;
    let y = spec_eval(s.registers, b) as int;
    assert((x + y) % 0x10000 == if x + y > 0xffff {
        x + y - 0x10000
    } else {
        x + y
    }) by (nonlinear_arith)
        requires
            0 <= x <= 0xffff,
            0 <= y <= 0xffff,
    ;
    assert((x - y) % 0x10000 == if x - y < 0 {
        x - y + 0x10000
    } else {
        x - y
    }) by (nonlinear_arith)
        requires
            0 <= x <= 0xffff,
            0 <= y <= 0xffff,
    ;
}

/// Storing a word and reading it back at the same address yields the word,
/// whatever the address (including the wrap-around at the top of memory).
pub proof fn lemma_store_word_roundtrip(mem: Seq<u8>, addr: u16, v: u16)
    requires
        mem.len() == MEMORY_SIZE,
    ensures
        word_at(store_word(mem, addr, v), addr) == v,
{
    assert(addr != addr.wrapping_add(1));
    assert(((v & 0xff) as u8) as u16 + 256 * ((((v >> 8) & 0xff) as u8) as u16) == v)
        by (bit_vector);
}

/// Stack balance: `push v` followed by `pop r` restores the stack pointer
/// to its initial value and leaves `v` in `r`, for any 16-bit `v` and any
/// destination but the stack pointer itself (popping into `S` overwrites
/// the restored pointer with `v`).
pub proof fn lemma_stack_balance(s: EmulatorView, v: u16, r: Register)
    requires
        wf_view(s),
        !(r matches Register::S),
    ensures
        ({
            let s1 = spec_apply(s, Instruction::Push(Operand::Word(v)));
            let s2 = spec_apply(s1, Instruction::Pop(r));
            &&& s2.registers.s == s.registers.s
            &&& s2.registers.spec_get(r) == v
        }),
{
    let sp = s.registers.s;
    assert(sp.wrapping_sub(2).wrapping_add(2) == sp);
    lemma_store_word_roundtrip(s.memory, sp, v);
}

/// The idle counter of a running operation's fields.
pub open spec fn idle_of(d: SlotDisk) -> u64 {
    match d {
        SlotDisk::Missing => 0,
        SlotDisk::Present { idle_time, .. } => idle_time,
    }
}

pub open spec fn has_running_op(d: SlotDisk) -> bool {
    match d {
        SlotDisk::Missing => false,
        SlotDisk::Present { running_op, .. } => running_op is Some,
    }
}

pub open spec fn is_present(d: SlotDisk) -> bool {
    d is Present
}

/// Applying one instruction either leaves a slot's bookkeeping unchanged or
/// installs a running operation in it.
proof fn lemma_apply_keeps_slot(t: EmulatorView, i: Instruction, id: DiskId)
    ensures
        has_running_op(slot_of(spec_apply(t, i), id).disk) || slot_of(spec_apply(t, i), id)
            == slot_of(t, id),
{
    match i {
        Instruction::Nop => {},
        Instruction::Ret => {},
        Instruction::Wait => {},
        Instruction::Poll => {},
        Instruction::Halt => {},
        Instruction::Not(_) => {},
        Instruction::Neg(_) => {},
        Instruction::Pop(_) => {},
        Instruction::Push(_) => {},
        Instruction::Jmp(_) => {},
        Instruction::Call(_) => {},
        Instruction::Mov(_, _) => {},
        Instruction::Add(_, _) => {},
        Instruction::Sub(_, _) => {},
        Instruction::Xor(_, _) => {},
        Instruction::And(_, _) => {},
        Instruction::Or(_, _) => {},
        Instruction::Shl(_, _) => {},
        Instruction::Shr(_, _) => {},
        Instruction::Cmp(_, _) => {},
        Instruction::Load(_, _) => {},
        Instruction::Loadw(_, _) => {},
        Instruction::Store(_, _) => {},
        Instruction::Storew(_, _) => {},
        Instruction::Jez(_, _) => {},
        Instruction::Jnz(_, _) => {},
        Instruction::Jl(_, _) => {},
        Instruction::Jg(_, _) => {},
        Instruction::Jle(_, _) => {},
        Instruction::Jge(_, _) => {},
        Instruction::Read(_, _, _) => {},
        Instruction::Write(_, _, _) => {},
        Instruction::Invalid => {},
    }
}

/// Idle counter monotonicity: over a cycle in which a present disk has no
/// running operation, its idle counter advances by one, saturating at
/// `u64::MAX`; in particular it never decreases.
pub proof fn lemma_idle_monotonic(s: EmulatorView, id: DiskId)
    requires
        wf_view(s),
        is_present(slot_of(s, id).disk),
        !has_running_op(slot_of(s, id).disk),
        !has_running_op(slot_of(spec_cycle(s), id).disk),
    ensures
        is_present(slot_of(spec_cycle(s), id).disk),
        idle_of(slot_of(spec_cycle(s), id).disk) as int == if idle_of(slot_of(s, id).disk)
            == u64::MAX {
            u64::MAX as int
        } else {
            idle_of(slot_of(s, id).disk) + 1
        },
        idle_of(slot_of(spec_cycle(s), id).disk) >= idle_of(slot_of(s, id).disk),
{
    let s1 = crate::sem::spec_cycle_refresh(s);
    let s2 = crate::sem::spec_cycle_tick(s1);
    let s3 = crate::sem::spec_cycle_disk(s2, DiskId::D0);
    let s4 = crate::sem::spec_cycle_disk(s3, DiskId::D1);
    let s5 = crate::sem::spec_cycle_count(s4);
    let s6 = crate::sem::spec_cycle_wake(s5);
    let ticked = idle_of(slot_of(s, id).disk).saturating_add(1);
    assert(slot_of(s6, id).disk == (SlotDisk::Present {
        modified: slot_of(s, id).disk->Present_modified,
        idle_time: ticked,
        running_op: None::<DiskOp>,
    }));
    if s6.state == CpuState::Running {
        let (instruction, ip) = spec_decode(s6.memory, s6.instruction_pointer);
        lemma_apply_keeps_slot(
            EmulatorView { instruction_pointer: ip, ..s6 },
            instruction,
            id,
        );
    }
}

/// One step of the host's interface: advancing the machine one cycle,
/// injecting a key event, inserting or removing a disk, or resetting.
pub ghost enum HostAction {
    Cycle,
    KeyUp(u16),
    KeyDown(u16),
    InsertDisk(DiskId),
    RemoveDisk(DiskId),
    Reset,
}

pub open spec fn spec_host_step(s: EmulatorView, action: HostAction) -> EmulatorView {
    match action {
        HostAction::Cycle => spec_cycle(s),
        HostAction::KeyUp(key) => EmulatorView {
            events: spec_queue_push(s.events, Event { id: 1, arg: key }),
            ..s
        },
        HostAction::KeyDown(key) => EmulatorView {
            events: spec_queue_push(s.events, Event { id: 2, arg: key }),
            ..s
        },
        HostAction::InsertDisk(id) => spec_insert_disk(s, id),
        HostAction::RemoveDisk(id) => spec_remove_disk(s, id),
        HostAction::Reset => spec_reset(s),
    }
}

pub open spec fn spec_host_run(s: EmulatorView, script: Seq<HostAction>) -> EmulatorView
    decreases script.len(),
{
    if script.len() == 0 {
        s
    } else {
        spec_host_run(spec_host_step(s, script[0]), script.drop_first())
    }
}

/// Determinism: every mutation of the machine is a function of its state
/// alone, so two machines that start in identical states and are driven by
/// identical host actions, interleaved at identical cycle boundaries, stay
/// identical — memory, registers, screen, disks and all.
pub proof fn lemma_determinism(s1: EmulatorView, s2: EmulatorView, script: Seq<HostAction>)
    requires
        s1 == s2,
    ensures
        spec_host_run(s1, script) == spec_host_run(s2, script),
{
}

/// A byte string lies in memory at `p`, wrapping at the top of the address
/// space.
pub open spec fn placed(mem: Seq<u8>, p: u16, s: Seq<u8>) -> bool {
    forall|k: int| 0 <= k < s.len() ==> byte_at(mem, p.wrapping_add(k as u16)) == s[k]
}

proof fn lemma_wrap_assoc(ip: u16, a: u16, b: u16)
    requires
        a + b <= 0xffff,
    ensures
        ip.wrapping_add(a).wrapping_add(b) == ip.wrapping_add((a + b) as u16),
{
}

proof fn lemma_placed_byte(mem: Seq<u8>, p: u16, s: Seq<u8>, k: int)
    requires
        placed(mem, p, s),
        0 <= k < s.len(),
    ensures
        byte_at(mem, p.wrapping_add(k as u16)) == s[k],
{
}

proof fn lemma_placed_concat(mem: Seq<u8>, p: u16, s1: Seq<u8>, s2: Seq<u8>)
    requires
        placed(mem, p, s1 + s2),
        s1.len() + s2.len() <= 0xffff,
    ensures
        placed(mem, p, s1),
        placed(mem, p.wrapping_add(s1.len() as u16), s2),
{
    assert forall|k: int| 0 <= k < s1.len() implies byte_at(mem, p.wrapping_add(k as u16))
        == s1[k] by {
        assert((s1 + s2)[k] == s1[k]);
    }
    assert forall|k: int| 0 <= k < s2.len() implies byte_at(
        mem,
        p.wrapping_add(s1.len() as u16).wrapping_add(k as u16),
    ) == s2[k] by {
        lemma_wrap_assoc(p, s1.len() as u16, k as u16);
        assert((s1 + s2)[s1.len() + k] == s2[k]);
    }
}

/// The low and high bytes of a word recompose it.
proof fn lemma_lo_hi(v: u16)
    ensures
        (crate::encode::lo_byte(v) as u16) + 256 * (crate::encode::hi_byte(v) as u16) == v,
        crate::encode::lo_byte(v) == (v & 0xff) as u8,
        crate::encode::hi_byte(v) == ((v >> 8) & 0xff) as u8,
{
    assert(((v & 0xff) as u8) as u16 + 256 * ((((v >> 8) & 0xff) as u8) as u16) == v)
        by (bit_vector);
}

/// Packing a register code and an operand nibble into one byte and taking
/// them out again.
proof fn lemma_nibble_pack(a: u8, n: u8)
    requires
        a < 16,
        n < 16,
    ensures
        (((a * 16 + n) as u8) >> 4) & 0xf == a,
        (((a * 16 + n) as u8) >> 4) & 7 == a % 8,
        ((a * 16 + n) as u8) & 0xf == n,
{
    assert((((a * 16 + n) as u8) >> 4) & 0xf == a && (((a * 16 + n) as u8) >> 4) & 7 == a % 8 && ((
    a * 16 + n) as u8) & 0xf == n) by (bit_vector)
        requires
            a < 16,
            n < 16,
    ;
}

/// The register whose code is taken out is the register that was packed.
proof fn lemma_register_of_bits(r: Register)
    ensures
        spec_register_of(crate::encode::spec_reg_bits(r)) == r,
        crate::encode::spec_reg_bits(r) < 8,
        crate::encode::spec_reg_bits(r) & 7 == crate::encode::spec_reg_bits(r),
{
    let b = crate::encode::spec_reg_bits(r);
    assert(b < 8);
    assert(b & 7 == b) by (bit_vector)
        requires
            b < 8,
    ;
}

/// The operand a value denotes once labels are resolved.
pub open spec fn operand_of_value(v: ValueV, labels: Map<Seq<u8>, u16>) -> Operand {
    match v {
        ValueV::Register(r) => Operand::Register(r),
        ValueV::Constant(c) => Operand::Word(spec_constant_value(c, labels)->Ok_0),
    }
}

/// The operand a constant denotes once labels are resolved.
pub open spec fn operand_of_constant(c: ConstantV, labels: Map<Seq<u8>, u16>) -> Operand {
    Operand::Word(spec_constant_value(c, labels)->Ok_0)
}

/// An encoded operand decodes back to the operand it denotes, and its
/// nibble announces exactly its tail's length.
proof fn lemma_value_roundtrip(
    v: ValueV,
    labels: Map<Seq<u8>, u16>,
    mem: Seq<u8>,
    p: u16,
    n: u8,
    tail: Seq<u8>,
)
    requires
        mem.len() == MEMORY_SIZE,
        spec_value_assemble(v, labels) == Ok::<(u8, Seq<u8>), Error>((n, tail)),
        placed(mem, p, tail),
    ensures
        n <= 0xf,
        operand_tail_len(n) == tail.len(),
        tail.len() <= 2,
        spec_operand_at(mem, n, p) == operand_of_value(v, labels),
{
    match v {
        ValueV::Register(r) => {
            lemma_register_of_bits(r);
        },
        ValueV::Constant(c) => {
            lemma_constant_roundtrip(c, labels, mem, p, n, tail);
        },
    }
}

/// Same, for a constant operand.
proof fn lemma_constant_roundtrip(
    c: ConstantV,
    labels: Map<Seq<u8>, u16>,
    mem: Seq<u8>,
    p: u16,
    n: u8,
    tail: Seq<u8>,
)
    requires
        mem.len() == MEMORY_SIZE,
        spec_constant_assemble(c, labels) == Ok::<(u8, Seq<u8>), Error>((n, tail)),
        placed(mem, p, tail),
    ensures
        8 <= n <= 0xf,
        operand_tail_len(n) == tail.len(),
        tail.len() <= 2,
        spec_operand_at(mem, n, p) == operand_of_constant(c, labels),
        spec_constant_value(c, labels) is Ok,
{
    let v = spec_constant_value(c, labels)->Ok_0;
    match c {
        ConstantV::Name(_) => {
            lemma_lo_hi(v);
            assert(byte_at(mem, p.wrapping_add(0)) == tail[0]);
            assert(byte_at(mem, p.wrapping_add(1)) == tail[1]);
            assert(p.wrapping_add(0) == p);
            assert(word_at(mem, p) == v);
        },
        ConstantV::Number(num) => {
            if v <= 4 {
            } else if v <= 255 {
                assert(byte_at(mem, p.wrapping_add(0)) == tail[0]);
                assert(p.wrapping_add(0) == p);
            } else if v <= 0xfffe {
                lemma_lo_hi(v);
                assert(byte_at(mem, p.wrapping_add(0)) == tail[0]);
                assert(byte_at(mem, p.wrapping_add(1)) == tail[1]);
                assert(p.wrapping_add(0) == p);
                assert(word_at(mem, p) == v);
            } else {
            }
        },
    }
}

proof fn lemma_plain_reg(base: u8, b: u8)
    requires
        b < 8,
        base == 0x10 || base == 0x20 || base == 0x30,
    ensures
        ((base + b) as u8) & 7 == b,
{
    assert(((base + b) as u8) & 7 == b) by (bit_vector)
        requires
            b < 8,
            base == 0x10 || base == 0x20 || base == 0x30,
    ;
}

proof fn lemma_base_nibble(base: u8, n: u8)
    requires
        n < 16,
        base == 0x40 || base == 0x50 || base == 0x60,
    ensures
        ((base + n) as u8) & 0xf == n,
{
    assert(((base + n) as u8) & 0xf == n) by (bit_vector)
        requires
            n < 16,
            base == 0x40 || base == 0x50 || base == 0x60,
    ;
}

/// A single-operand encoding decodes to its operand, right after it.
proof fn lemma_roundtrip_one(
    base: u8,
    v: ValueV,
    labels: Map<Seq<u8>, u16>,
    mem: Seq<u8>,
    ip: u16,
    bytes: Seq<u8>,
)
    requires
        mem.len() == MEMORY_SIZE,
        base == 0x40 || base == 0x50 || base == 0x60,
        spec_encode_one(base, v, labels) == Ok::<Seq<u8>, Error>(bytes),
        placed(mem, ip, bytes),
    ensures
        1 <= bytes.len() <= 3,
        base <= byte_at(mem, ip) <= base + 0xf,
        spec_decode_one(mem, ip.wrapping_add(1), byte_at(mem, ip)) == (
            operand_of_value(v, labels),
            ip.wrapping_add(bytes.len() as u16),
        ),
{
    let n = spec_value_assemble(v, labels)->Ok_0.0;
    let tail = spec_value_assemble(v, labels)->Ok_0.1;
    lemma_placed_concat(mem, ip, seq![(base + n) as u8], tail);
    lemma_placed_byte(mem, ip, seq![(base + n) as u8], 0);
    assert(ip.wrapping_add(0) == ip);
    assert(byte_at(mem, ip) == (base + n) as u8);
    lemma_value_roundtrip(v, labels, mem, ip.wrapping_add(1), n, tail);
    lemma_base_nibble(base, n);
    lemma_wrap_assoc(ip, 1, tail.len() as u16);
}

/// A register-plus-value encoding decodes to its register and operand.
proof fn lemma_roundtrip_regval(
    op: u8,
    a: Register,
    v: ValueV,
    labels: Map<Seq<u8>, u16>,
    mem: Seq<u8>,
    ip: u16,
    bytes: Seq<u8>,
)
    requires
        mem.len() == MEMORY_SIZE,
        spec_encode_regval(op, a, v, labels) == Ok::<Seq<u8>, Error>(bytes),
        placed(mem, ip, bytes),
    ensures
        2 <= bytes.len() <= 4,
        byte_at(mem, ip) == op,
        spec_decode_regval(mem, ip.wrapping_add(1)) == (
            a,
            operand_of_value(v, labels),
            ip.wrapping_add(bytes.len() as u16),
        ),
{
    let n = spec_value_assemble(v, labels)->Ok_0.0;
    let tail = spec_value_assemble(v, labels)->Ok_0.1;
    let packed = (spec_reg_bits(a) * 16 + n) as u8;
    lemma_placed_concat(mem, ip, seq![op, packed], tail);
    lemma_placed_byte(mem, ip, seq![op, packed], 0);
    lemma_placed_byte(mem, ip, seq![op, packed], 1);
    assert(ip.wrapping_add(0) == ip);
    assert(byte_at(mem, ip) == op);
    assert(byte_at(mem, ip.wrapping_add(1)) == packed);
    lemma_value_roundtrip(v, labels, mem, ip.wrapping_add(2), n, tail);
    lemma_register_of_bits(a);
    lemma_nibble_pack(spec_reg_bits(a), n);
    lemma_wrap_assoc(ip, 1, 1);
    lemma_wrap_assoc(ip, 2, tail.len() as u16);
}

/// A load encoding decodes to its register, address operand and offset.
proof fn lemma_roundtrip_load(
    op: u8,
    a: Register,
    addr: AddressV,
    labels: Map<Seq<u8>, u16>,
    mem: Seq<u8>,
    ip: u16,
    bytes: Seq<u8>,
)
    requires
        mem.len() == MEMORY_SIZE,
        op == 0x90 || op == 0x94,
        spec_encode_load(op, a, addr, labels) == Ok::<Seq<u8>, Error>(bytes),
        placed(mem, ip, bytes),
    ensures
        2 <= bytes.len() <= 6,
        byte_at(mem, ip) == op || byte_at(mem, ip) == op + 2,
        spec_decode_load(mem, ip.wrapping_add(1), byte_at(mem, ip)) == (
            a,
            crate::isa::Address {
                operand: operand_of_value(addr.value, labels),
                offset: offset_of(addr, labels),
            },
            ip.wrapping_add(bytes.len() as u16),
        ),
{
    match addr.offset {
        None => {
            lemma_roundtrip_regval(op, a, addr.value, labels, mem, ip, bytes);
            assert(op & 3 == 0) by (bit_vector)
                requires
                    op == 0x90 || op == 0x94,
            ;
            assert(ip.wrapping_add(1).wrapping_add(1).wrapping_add(0) == ip.wrapping_add(
                1,
            ).wrapping_add(1));
        },
        Some(c) => {
            let n = spec_value_assemble(addr.value, labels)->Ok_0.0;
            let tail = spec_value_assemble(addr.value, labels)->Ok_0.1;
            let o = spec_constant_value(c, labels)->Ok_0;
            let packed = (spec_reg_bits(a) * 16 + n) as u8;
            let x = (op + 2) as u8;
            lemma_placed_concat(
                mem,
                ip,
                seq![x, packed, lo_byte(o), hi_byte(o)],
                tail,
            );
            lemma_placed_byte(mem, ip, seq![x, packed, lo_byte(o), hi_byte(o)], 0);
            lemma_placed_byte(mem, ip, seq![x, packed, lo_byte(o), hi_byte(o)], 1);
            lemma_placed_byte(mem, ip, seq![x, packed, lo_byte(o), hi_byte(o)], 2);
            lemma_placed_byte(mem, ip, seq![x, packed, lo_byte(o), hi_byte(o)], 3);
            assert(ip.wrapping_add(0) == ip);
            assert(byte_at(mem, ip) == x);
            assert(byte_at(mem, ip.wrapping_add(1)) == packed);
            assert(byte_at(mem, ip.wrapping_add(2)) == lo_byte(o));
            assert(byte_at(mem, ip.wrapping_add(3)) == hi_byte(o));
            assert(x & 3 == 2 && !(x & 3 == 1)) by (bit_vector)
                requires
                    op == 0x90 || op == 0x94,
                    x == (op + 2) as u8,
            ;
            lemma_lo_hi(o);
            lemma_wrap_assoc(ip, 2, 1);
            assert(word_at(mem, ip.wrapping_add(2)) == o);
            lemma_value_roundtrip(v_of(addr), labels, mem, ip.wrapping_add(4), n, tail);
            lemma_register_of_bits(a);
            lemma_nibble_pack(spec_reg_bits(a), n);
            lemma_wrap_assoc(ip, 1, 1);
            lemma_wrap_assoc(ip, 2, 2);
            lemma_wrap_assoc(ip, 4, tail.len() as u16);
        },
    }
}

/// The address value of an address expression, for stating lemmas.
pub open spec fn v_of(addr: AddressV) -> ValueV {
    addr.value
}

/// The offset an address expression denotes: absent means zero.
pub open spec fn offset_of(addr: AddressV, labels: Map<Seq<u8>, u16>) -> u16 {
    match addr.offset {
        None => 0,
        Some(c) => spec_constant_value(c, labels)->Ok_0,
    }
}

/// A store encoding decodes to its source operand, address operand and
/// offset.
proof fn lemma_roundtrip_store(
    op: u8,
    src: ValueV,
    addr: AddressV,
    labels: Map<Seq<u8>, u16>,
    mem: Seq<u8>,
    ip: u16,
    bytes: Seq<u8>,
)
    requires
        mem.len() == MEMORY_SIZE,
        op == 0x98 || op == 0x9c,
        spec_encode_store(op, src, addr, labels) == Ok::<Seq<u8>, Error>(bytes),
        placed(mem, ip, bytes),
    ensures
        2 <= bytes.len() <= 8,
        byte_at(mem, ip) == op || byte_at(mem, ip) == op + 2,
        spec_decode_store(mem, ip.wrapping_add(1), byte_at(mem, ip)) == (
            operand_of_value(src, labels),
            crate::isa::Address {
                operand: operand_of_value(addr.value, labels),
                offset: offset_of(addr, labels),
            },
            ip.wrapping_add(bytes.len() as u16),
        ),
{
    let sn = spec_value_assemble(src, labels)->Ok_0.0;
    let sbuf = spec_value_assemble(src, labels)->Ok_0.1;
    let an = spec_value_assemble(addr.value, labels)->Ok_0.0;
    let abuf = spec_value_assemble(addr.value, labels)->Ok_0.1;
    let packed = (sn * 16 + an) as u8;
    match addr.offset {
        None => {
            assert(bytes =~= seq![op, packed] + (sbuf + abuf));
            lemma_placed_concat(mem, ip, seq![op, packed], sbuf + abuf);
            lemma_placed_byte(mem, ip, seq![op, packed], 0);
            lemma_placed_byte(mem, ip, seq![op, packed], 1);
            assert(ip.wrapping_add(0) == ip);
            lemma_placed_concat(mem, ip.wrapping_add(2), sbuf, abuf);
            assert(op & 3 == 0) by (bit_vector)
                requires
                    op == 0x98 || op == 0x9c,
            ;
            lemma_value_roundtrip(src, labels, mem, ip.wrapping_add(2), sn, sbuf);
            lemma_value_roundtrip(
                addr.value,
                labels,
                mem,
                ip.wrapping_add(2).wrapping_add(sbuf.len() as u16),
                an,
                abuf,
            );
            lemma_nibble_pack(sn, an);
            lemma_wrap_assoc(ip, 1, 1);
            lemma_wrap_assoc(ip, 2, 0);
            lemma_wrap_assoc(ip, 2, sbuf.len() as u16);
            lemma_wrap_assoc(ip, (2 + sbuf.len()) as u16, abuf.len() as u16);
        },
        Some(c) => {
            let o = spec_constant_value(c, labels)->Ok_0;
            let x = (op + 2) as u8;
            assert(bytes =~= seq![x, packed, lo_byte(o), hi_byte(o)] + (sbuf + abuf));
            lemma_placed_concat(mem, ip, seq![x, packed, lo_byte(o), hi_byte(o)], sbuf + abuf);
            lemma_placed_byte(mem, ip, seq![x, packed, lo_byte(o), hi_byte(o)], 0);
            lemma_placed_byte(mem, ip, seq![x, packed, lo_byte(o), hi_byte(o)], 1);
            lemma_placed_byte(mem, ip, seq![x, packed, lo_byte(o), hi_byte(o)], 2);
            lemma_placed_byte(mem, ip, seq![x, packed, lo_byte(o), hi_byte(o)], 3);
            assert(ip.wrapping_add(0) == ip);
            lemma_placed_concat(mem, ip.wrapping_add(4), sbuf, abuf);
            assert(x & 3 == 2 && !(x & 3 == 1)) by (bit_vector)
                requires
                    op == 0x98 || op == 0x9c,
                    x == (op + 2) as u8,
            ;
            lemma_lo_hi(o);
            lemma_wrap_assoc(ip, 2, 1);
            assert(word_at(mem, ip.wrapping_add(2)) == o);
            lemma_value_roundtrip(src, labels, mem, ip.wrapping_add(4), sn, sbuf);
            lemma_value_roundtrip(
                addr.value,
                labels,
                mem,
                ip.wrapping_add(4).wrapping_add(sbuf.len() as u16),
                an,
                abuf,
            );
            lemma_nibble_pack(sn, an);
            lemma_wrap_assoc(ip, 1, 1);
            lemma_wrap_assoc(ip, 2, 2);
            lemma_wrap_assoc(ip, 4, sbuf.len() as u16);
            lemma_wrap_assoc(ip, (4 + sbuf.len()) as u16, abuf.len() as u16);
        },
    }
}

/// A disk-instruction encoding decodes to its two operands.
proof fn lemma_roundtrip_disk(
    op: u8,
    a: ConstantV,
    b: ConstantV,
    labels: Map<Seq<u8>, u16>,
    mem: Seq<u8>,
    ip: u16,
    bytes: Seq<u8>,
)
    requires
        mem.len() == MEMORY_SIZE,
        spec_encode_disk(op, a, b, labels) == Ok::<Seq<u8>, Error>(bytes),
        placed(mem, ip, bytes),
    ensures
        2 <= bytes.len() <= 6,
        byte_at(mem, ip) == op,
        spec_decode_two(mem, ip.wrapping_add(1)) == (
            operand_of_constant(a, labels),
            operand_of_constant(b, labels),
            ip.wrapping_add(bytes.len() as u16),
        ),
{
    let an = spec_constant_assemble(a, labels)->Ok_0.0;
    let abuf = spec_constant_assemble(a, labels)->Ok_0.1;
    let bn = spec_constant_assemble(b, labels)->Ok_0.0;
    let bbuf = spec_constant_assemble(b, labels)->Ok_0.1;
    let packed = (an * 16 + bn) as u8;
    assert(bytes =~= seq![op, packed] + (abuf + bbuf));
    lemma_placed_concat(mem, ip, seq![op, packed], abuf + bbuf);
    lemma_placed_byte(mem, ip, seq![op, packed], 0);
    lemma_placed_byte(mem, ip, seq![op, packed], 1);
    assert(ip.wrapping_add(0) == ip);
    lemma_placed_concat(mem, ip.wrapping_add(2), abuf, bbuf);
    lemma_constant_roundtrip(a, labels, mem, ip.wrapping_add(2), an, abuf);
    lemma_constant_roundtrip(
        b,
        labels,
        mem,
        ip.wrapping_add(2).wrapping_add(abuf.len() as u16),
        bn,
        bbuf,
    );
    lemma_nibble_pack(an, bn);
    lemma_wrap_assoc(ip, 1, 1);
    lemma_wrap_assoc(ip, 2, abuf.len() as u16);
    lemma_wrap_assoc(ip, (2 + abuf.len()) as u16, bbuf.len() as u16);
}

/// The CPU instruction an assembly instruction denotes once labels are
/// resolved (`db` data is not an instruction and is excluded).
pub open spec fn instr_of(i: InstructionV, labels: Map<Seq<u8>, u16>) -> Instruction {
    match i {
        InstructionV::Nop => Instruction::Nop,
        InstructionV::Ret => Instruction::Ret,
        InstructionV::Wait => Instruction::Wait,
        InstructionV::Poll => Instruction::Poll,
        InstructionV::Not(r) => Instruction::Not(r),
        InstructionV::Neg(r) => Instruction::Neg(r),
        InstructionV::Pop(r) => Instruction::Pop(r),
        InstructionV::Push(v) => Instruction::Push(operand_of_value(v, labels)),
        InstructionV::Jmp(v) => Instruction::Jmp(operand_of_value(v, labels)),
        InstructionV::Call(v) => Instruction::Call(operand_of_value(v, labels)),
        InstructionV::Mov(a, b) => Instruction::Mov(a, operand_of_value(b, labels)),
        InstructionV::Add(a, b) => Instruction::Add(a, operand_of_value(b, labels)),
        InstructionV::Sub(a, b) => Instruction::Sub(a, operand_of_value(b, labels)),
        InstructionV::Xor(a, b) => Instruction::Xor(a, operand_of_value(b, labels)),
        InstructionV::And(a, b) => Instruction::And(a, operand_of_value(b, labels)),
        InstructionV::Or(a, b) => Instruction::Or(a, operand_of_value(b, labels)),
        InstructionV::Shl(a, b) => Instruction::Shl(a, operand_of_value(b, labels)),
        InstructionV::Shr(a, b) => Instruction::Shr(a, operand_of_value(b, labels)),
        InstructionV::Cmp(a, b) => Instruction::Cmp(a, operand_of_value(b, labels)),
        InstructionV::Load(a, b) => Instruction::Load(
            a,
            crate::isa::Address {
                operand: operand_of_value(b.value, labels),
                offset: offset_of(b, labels),
            },
        ),
        InstructionV::Loadw(a, b) => Instruction::Loadw(
            a,
            crate::isa::Address {
                operand: operand_of_value(b.value, labels),
                offset: offset_of(b, labels),
            },
        ),
        InstructionV::Store(a, b) => Instruction::Store(
            operand_of_value(a, labels),
            crate::isa::Address {
                operand: operand_of_value(b.value, labels),
                offset: offset_of(b, labels),
            },
        ),
        InstructionV::Storew(a, b) => Instruction::Storew(
            operand_of_value(a, labels),
            crate::isa::Address {
                operand: operand_of_value(b.value, labels),
                offset: offset_of(b, labels),
            },
        ),
        InstructionV::Jez(a, c) => Instruction::Jez(a, operand_of_constant(c, labels)),
        InstructionV::Jnz(a, c) => Instruction::Jnz(a, operand_of_constant(c, labels)),
        InstructionV::Jl(a, c) => Instruction::Jl(a, operand_of_constant(c, labels)),
        InstructionV::Jg(a, c) => Instruction::Jg(a, operand_of_constant(c, labels)),
        InstructionV::Jle(a, c) => Instruction::Jle(a, operand_of_constant(c, labels)),
        InstructionV::Jge(a, c) => Instruction::Jge(a, operand_of_constant(c, labels)),
        InstructionV::Read(d, c1, c2) => Instruction::Read(
            d,
            operand_of_constant(c1, labels),
            operand_of_constant(c2, labels),
        ),
        InstructionV::Write(d, c1, c2) => Instruction::Write(
            d,
            operand_of_constant(c1, labels),
            operand_of_constant(c2, labels),
        ),
        InstructionV::Bytes(_) => Instruction::Invalid,
    }
}

/// Round-trip: the assembler and the CPU agree bit for bit on the
/// instruction encoding. Whatever instruction the assembler encodes, the
/// CPU decodes those bytes back to that instruction, consuming exactly
/// them.
proof fn lemma_agree_plain(
    i: InstructionV,
    labels: Map<Seq<u8>, u16>,
    mem: Seq<u8>,
    ip: u16,
    bytes: Seq<u8>,
)
    requires
        mem.len() == MEMORY_SIZE,
        (i matches InstructionV::Nop) || (i matches InstructionV::Ret) || (i
            matches InstructionV::Wait) || (i matches InstructionV::Poll) || (i
            matches InstructionV::Not(_)) || (i matches InstructionV::Neg(_)) || (i
            matches InstructionV::Pop(_)),
        spec_encode(i, labels) == Ok::<Seq<u8>, Error>(bytes),
        placed(mem, ip, bytes),
    ensures
        1 <= bytes.len() <= 8,
        spec_decode(mem, ip) == (instr_of(i, labels), ip.wrapping_add(bytes.len() as u16)),
{
    reveal(spec_encode);
    lemma_placed_byte(mem, ip, bytes, 0);
    assert(ip.wrapping_add(0) == ip);
    match i {
        InstructionV::Not(r) => {
            lemma_register_of_bits(r);
            lemma_plain_reg(0x10, spec_reg_bits(r));
        },
        InstructionV::Neg(r) => {
            lemma_register_of_bits(r);
            lemma_plain_reg(0x20, spec_reg_bits(r));
        },
        InstructionV::Pop(r) => {
            lemma_register_of_bits(r);
            lemma_plain_reg(0x30, spec_reg_bits(r));
        },
        _ => {},
    }
}

proof fn lemma_agree_one(
    i: InstructionV,
    labels: Map<Seq<u8>, u16>,
    mem: Seq<u8>,
    ip: u16,
    bytes: Seq<u8>,
)
    requires
        mem.len() == MEMORY_SIZE,
        (i matches InstructionV::Push(_)) || (i matches InstructionV::Jmp(_)) || (i
            matches InstructionV::Call(_)),
        spec_encode(i, labels) == Ok::<Seq<u8>, Error>(bytes),
        placed(mem, ip, bytes),
    ensures
        1 <= bytes.len() <= 8,
        spec_decode(mem, ip) == (instr_of(i, labels), ip.wrapping_add(bytes.len() as u16)),
{
    reveal(spec_encode);
    match i {
        InstructionV::Push(v) => {
            lemma_roundtrip_one(0x40, v, labels, mem, ip, bytes);
        },
        InstructionV::Jmp(v) => {
            lemma_roundtrip_one(0x50, v, labels, mem, ip, bytes);
        },
        InstructionV::Call(v) => {
            lemma_roundtrip_one(0x60, v, labels, mem, ip, bytes);
        },
        _ => {},
    }
}

proof fn lemma_agree_regval(
    i: InstructionV,
    labels: Map<Seq<u8>, u16>,
    mem: Seq<u8>,
    ip: u16,
    bytes: Seq<u8>,
)
    requires
        mem.len() == MEMORY_SIZE,
        (i matches InstructionV::Mov(..)) || (i matches InstructionV::Add(..)) || (i
            matches InstructionV::Sub(..)) || (i matches InstructionV::Xor(..)) || (i
            matches InstructionV::And(..)) || (i matches InstructionV::Or(..)) || (i
            matches InstructionV::Shl(..)) || (i matches InstructionV::Shr(..)) || (i
            matches InstructionV::Cmp(..)),
        spec_encode(i, labels) == Ok::<Seq<u8>, Error>(bytes),
        placed(mem, ip, bytes),
    ensures
        1 <= bytes.len() <= 8,
        spec_decode(mem, ip) == (instr_of(i, labels), ip.wrapping_add(bytes.len() as u16)),
{
    reveal(spec_encode);
    match i {
        InstructionV::Mov(a, b) => {
            lemma_roundtrip_regval(0x80, a, b, labels, mem, ip, bytes);
        },
        InstructionV::Add(a, b) => {
            lemma_roundtrip_regval(0x81, a, b, labels, mem, ip, bytes);
        },
        InstructionV::Sub(a, b) => {
            lemma_roundtrip_regval(0x82, a, b, labels, mem, ip, bytes);
        },
        InstructionV::Xor(a, b) => {
            lemma_roundtrip_regval(0x83, a, b, labels, mem, ip, bytes);
        },
        InstructionV::And(a, b) => {
            lemma_roundtrip_regval(0x84, a, b, labels, mem, ip, bytes);
        },
        InstructionV::Or(a, b) => {
            lemma_roundtrip_regval(0x85, a, b, labels, mem, ip, bytes);
        },
        InstructionV::Shl(a, b) => {
            lemma_roundtrip_regval(0x86, a, b, labels, mem, ip, bytes);
        },
        InstructionV::Shr(a, b) => {
            lemma_roundtrip_regval(0x87, a, b, labels, mem, ip, bytes);
        },
        InstructionV::Cmp(a, b) => {
            lemma_roundtrip_regval(0x88, a, b, labels, mem, ip, bytes);
        },
        _ => {},
    }
}

proof fn lemma_agree_mem(
    i: InstructionV,
    labels: Map<Seq<u8>, u16>,
    mem: Seq<u8>,
    ip: u16,
    bytes: Seq<u8>,
)
    requires
        mem.len() == MEMORY_SIZE,
        (i matches InstructionV::Load(..)) || (i matches InstructionV::Loadw(..)) || (i
            matches InstructionV::Store(..)) || (i matches InstructionV::Storew(..)),
        spec_encode(i, labels) == Ok::<Seq<u8>, Error>(bytes),
        placed(mem, ip, bytes),
    ensures
        1 <= bytes.len() <= 8,
        spec_decode(mem, ip) == (instr_of(i, labels), ip.wrapping_add(bytes.len() as u16)),
{
    reveal(spec_encode);
    match i {
        InstructionV::Load(a, b) => {
            lemma_roundtrip_load(0x90, a, b, labels, mem, ip, bytes);
        },
        InstructionV::Loadw(a, b) => {
            lemma_roundtrip_load(0x94, a, b, labels, mem, ip, bytes);
        },
        InstructionV::Store(a, b) => {
            lemma_roundtrip_store(0x98, a, b, labels, mem, ip, bytes);
        },
        InstructionV::Storew(a, b) => {
            lemma_roundtrip_store(0x9c, a, b, labels, mem, ip, bytes);
        },
        _ => {},
    }
}

proof fn lemma_agree_jump(
    i: InstructionV,
    labels: Map<Seq<u8>, u16>,
    mem: Seq<u8>,
    ip: u16,
    bytes: Seq<u8>,
)
    requires
        mem.len() == MEMORY_SIZE,
        (i matches InstructionV::Jez(..)) || (i matches InstructionV::Jnz(..)) || (i
            matches InstructionV::Jl(..)) || (i matches InstructionV::Jg(..)) || (i
            matches InstructionV::Jle(..)) || (i matches InstructionV::Jge(..)),
        spec_encode(i, labels) == Ok::<Seq<u8>, Error>(bytes),
        placed(mem, ip, bytes),
    ensures
        1 <= bytes.len() <= 8,
        spec_decode(mem, ip) == (instr_of(i, labels), ip.wrapping_add(bytes.len() as u16)),
{
    reveal(spec_encode);
    match i {
        InstructionV::Jez(a, c) => {
            lemma_roundtrip_regval(0xa0, a, ValueV::Constant(c), labels, mem, ip, bytes);
        },
        InstructionV::Jnz(a, c) => {
            lemma_roundtrip_regval(0xa1, a, ValueV::Constant(c), labels, mem, ip, bytes);
        },
        InstructionV::Jl(a, c) => {
            lemma_roundtrip_regval(0xa2, a, ValueV::Constant(c), labels, mem, ip, bytes);
        },
        InstructionV::Jg(a, c) => {
            lemma_roundtrip_regval(0xa3, a, ValueV::Constant(c), labels, mem, ip, bytes);
        },
        InstructionV::Jle(a, c) => {
            lemma_roundtrip_regval(0xa4, a, ValueV::Constant(c), labels, mem, ip, bytes);
        },
        InstructionV::Jge(a, c) => {
            lemma_roundtrip_regval(0xa5, a, ValueV::Constant(c), labels, mem, ip, bytes);
        },
        _ => {},
    }
}

proof fn lemma_agree_disk(
    i: InstructionV,
    labels: Map<Seq<u8>, u16>,
    mem: Seq<u8>,
    ip: u16,
    bytes: Seq<u8>,
)
    requires
        mem.len() == MEMORY_SIZE,
        (i matches InstructionV::Read(..)) || (i matches InstructionV::Write(..)),
        spec_encode(i, labels) == Ok::<Seq<u8>, Error>(bytes),
        placed(mem, ip, bytes),
    ensures
        1 <= bytes.len() <= 8,
        spec_decode(mem, ip) == (instr_of(i, labels), ip.wrapping_add(bytes.len() as u16)),
{
    reveal(spec_encode);
    match i {
        InstructionV::Read(d, c1, c2) => {
            lemma_roundtrip_disk(
                (0xf0 + spec_disk_bits(d)) as u8,
                c1,
                c2,
                labels,
                mem,
                ip,
                bytes,
            );
        },
        InstructionV::Write(d, c1, c2) => {
            lemma_roundtrip_disk(
                (0xf8 + spec_disk_bits(d)) as u8,
                c1,
                c2,
                labels,
                mem,
                ip,
                bytes,
            );
        },
        _ => {},
    }
}

/// Round-trip: the assembler and the CPU agree bit for bit on the
/// instruction encoding. Whatever instruction the assembler encodes under a
/// label table, the CPU decodes those bytes back to that instruction with
/// its labels resolved, consuming exactly those bytes.
pub proof fn lemma_assemble_decode_agree(
    i: InstructionV,
    labels: Map<Seq<u8>, u16>,
    mem: Seq<u8>,
    ip: u16,
    bytes: Seq<u8>,
)
    requires
        mem.len() == MEMORY_SIZE,
        !(i is Bytes),
        spec_encode(i, labels) == Ok::<Seq<u8>, Error>(bytes),
        placed(mem, ip, bytes),
    ensures
        1 <= bytes.len() <= 8,
        spec_decode(mem, ip) == (instr_of(i, labels), ip.wrapping_add(bytes.len() as u16)),
{
    match i {
        InstructionV::Nop | InstructionV::Ret | InstructionV::Wait | InstructionV::Poll
        | InstructionV::Not(_) | InstructionV::Neg(_) | InstructionV::Pop(_) => {
            lemma_agree_plain(i, labels, mem, ip, bytes);
        },
        InstructionV::Push(_) | InstructionV::Jmp(_) | InstructionV::Call(_) => {
            lemma_agree_one(i, labels, mem, ip, bytes);
        },
        InstructionV::Mov(..) | InstructionV::Add(..) | InstructionV::Sub(..)
        | InstructionV::Xor(..) | InstructionV::And(..) | InstructionV::Or(..)
        | InstructionV::Shl(..) | InstructionV::Shr(..) | InstructionV::Cmp(..) => {
            lemma_agree_regval(i, labels, mem, ip, bytes);
        },
        InstructionV::Load(..) | InstructionV::Loadw(..) | InstructionV::Store(..)
        | InstructionV::Storew(..) => {
            lemma_agree_mem(i, labels, mem, ip, bytes);
        },
        InstructionV::Jez(..) | InstructionV::Jnz(..) | InstructionV::Jl(..)
        | InstructionV::Jg(..) | InstructionV::Jle(..) | InstructionV::Jge(..) => {
            lemma_agree_jump(i, labels, mem, ip, bytes);
        },
        InstructionV::Read(..) | InstructionV::Write(..) => {
            lemma_agree_disk(i, labels, mem, ip, bytes);
        },
        InstructionV::Bytes(_) => {},
    }
}

} // verus!
