//! The assembler's back end: encoding parsed instructions into bytecode.
//!
//! [`spec_encode`] is the encoding, stated over the mathematical form of an
//! instruction and a label table; the executable encoder is proved to emit
//! exactly those bytes.

use vstd::prelude::*;
use crate::isa::{Register, DiskId};
use crate::source::{Error, ErrorMessage};
use crate::parse::{Number, ConstantV, ValueV, AddressV, InstructionV, Constant, Value, Address, Instruction};

verus! {

/// A byte buffer bounded by the longest instruction encoding (8 bytes), so
/// an instruction can be assembled in full before anything is emitted.
pub struct SmallBuf {
    bytes: Vec<u8>,
}

impl View for SmallBuf {
    type V = Seq<u8>;

    closed spec fn view(&self) -> Seq<u8> {
        self.bytes@
    }
}

impl SmallBuf {
    pub fn new() -> (r: SmallBuf)
        ensures
            r@ == Seq::<u8>::empty(),
    {
        SmallBuf { bytes: Vec::new() }
    }

    pub fn push(&mut self, byte: u8)
        requires
            old(self)@.len() < 8,
        ensures
            final(self)@ == old(self)@.push(byte),
    {
        self.bytes.push(byte);
    }

    /// This buffer followed by `other`.
    pub fn append(&self, other: &SmallBuf) -> (r: SmallBuf)
        requires
            self@.len() + other@.len() <= 8,
        ensures
            r@ == self@ + other@,
    {
        let mut bytes = Vec::new();
        let mut i: usize = 0;
        while i < self.bytes.len()
            invariant
                i <= self.bytes@.len(),
                bytes@ == self.bytes@.subrange(0, i as int),
            decreases self.bytes@.len() - i,
        {
            bytes.push(self.bytes[i]);
            proof {
                assert(self.bytes@.subrange(0, i + 1) =~= self.bytes@.subrange(0, i as int).push(
                    self.bytes@[i as int],
                ));
            }
            i = i + 1;
        }
        let mut j: usize = 0;
        while j < other.bytes.len()
            invariant
                j <= other.bytes@.len(),
                bytes@ == self.bytes@.subrange(0, self.bytes@.len() as int) + other.bytes@.subrange(
                    0,
                    j as int,
                ),
            decreases other.bytes@.len() - j,
        {
            bytes.push(other.bytes[j]);
            proof {
                assert(other.bytes@.subrange(0, j + 1) =~= other.bytes@.subrange(0, j as int).push(
                    other.bytes@[j as int],
                ));
                assert(self.bytes@.subrange(0, self.bytes@.len() as int) + other.bytes@.subrange(
                    0,
                    j + 1,
                ) =~= (self.bytes@.subrange(0, self.bytes@.len() as int) + other.bytes@.subrange(
                    0,
                    j as int,
                )).push(other.bytes@[j as int]));
            }
            j = j + 1;
        }
        proof {
            assert(self.bytes@.subrange(0, self.bytes@.len() as int) =~= self.bytes@);
            assert(other.bytes@.subrange(0, other.bytes@.len() as int) =~= other.bytes@);
        }
        SmallBuf { bytes }
    }

    pub fn len(&self) -> (r: usize)
        ensures
            r == self@.len(),
    {
        self.bytes.len()
    }

    /// The buffered bytes.
    pub fn as_slice(&self) -> (r: &Vec<u8>)
        ensures
            r@ == self@,
    {
        &self.bytes
    }
}

/// Append a whole vector's bytes.
pub fn extend_vec(into: &mut Vec<u8>, s: &Vec<u8>)
    ensures
        final(into)@ == old(into)@ + s@,
{
    let mut i: usize = 0;
    while i < s.len()
        invariant
            i <= s@.len(),
            into@ == old(into)@ + s@.subrange(0, i as int),
        decreases s@.len() - i,
    {
        into.push(s[i]);
        proof {
            assert(old(into)@ + s@.subrange(0, i + 1) =~= (old(into)@ + s@.subrange(0, i as int))
                .push(s@[i as int]));
        }
        i = i + 1;
    }
    proof {
        assert(old(into)@ + s@.subrange(0, s@.len() as int) =~= old(into)@ + s@);
    }
}

/// One label with its resolved byte offset.
struct LabelEntry {
    name: Vec<u8>,
    addr: u16,
}

/// The label table: each label's byte offset. Its view is a map from label
/// names to offsets.
pub struct LabelTable {
    entries: Vec<LabelEntry>,
}

/// The map an entry list denotes; later entries override earlier ones.
spec fn entries_map(s: Seq<LabelEntry>) -> Map<Seq<u8>, u16>
    decreases s.len(),
{
    if s.len() == 0 {
        Map::empty()
    } else {
        entries_map(s.drop_last()).insert(s.last().name@, s.last().addr)
    }
}

proof fn lemma_entries_map_get(s: Seq<LabelEntry>, k: Seq<u8>)
    ensures
        entries_map(s).contains_key(k) == exists|i: int| 0 <= i < s.len() && s[i].name@ == k,
    decreases s.len(),
{
    if s.len() > 0 {
        lemma_entries_map_get(s.drop_last(), k);
        if entries_map(s).contains_key(k) {
            if s.last().name@ == k {
                assert(s[s.len() - 1].name@ == k);
            } else {
                let i = choose|i: int| 0 <= i < s.drop_last().len() && s.drop_last()[i].name@ == k;
                assert(s[i].name@ == k);
            }
        }
        if exists|i: int| 0 <= i < s.len() && s[i].name@ == k {
            let i = choose|i: int| 0 <= i < s.len() && s[i].name@ == k;
            if i < s.len() - 1 {
                assert(s.drop_last()[i].name@ == k);
            }
        }
    }
}

/// The last entry carrying `k` gives the map's value at `k`.
proof fn lemma_entries_map_last(s: Seq<LabelEntry>, k: Seq<u8>, i: int)
    requires
        0 <= i < s.len(),
        s[i].name@ == k,
        forall|j: int| i < j < s.len() ==> (#[trigger] s[j].name@) != k,
    ensures
        entries_map(s).contains_key(k),
        entries_map(s)[k] == s[i].addr,
    decreases s.len(),
{
    if i == s.len() - 1 {
    } else {
        assert(s.drop_last()[i] == s[i]);
        lemma_entries_map_last(s.drop_last(), k, i);
        assert(s.last().name@ != k);
    }
}

/// Whether a vector's bytes equal another's.
fn bytes_eq(a: &Vec<u8>, b: &Vec<u8>) -> (r: bool)
    ensures
        r == (a@ == b@),
{
    if a.len() != b.len() {
        proof {
            assert(a@.len() != b@.len());
        }
        return false;
    }
    let mut i: usize = 0;
    while i < a.len()
        invariant
            i <= a@.len(),
            a@.len() == b@.len(),
            forall|j: int| 0 <= j < i ==> a@[j] == b@[j],
        decreases a@.len() - i,
    {
        if a[i] != b[i] {
            return false;
        }
        i = i + 1;
    }
    proof {
        assert(a@ =~= b@);
    }
    true
}

impl View for LabelTable {
    type V = Map<Seq<u8>, u16>;

    closed spec fn view(&self) -> Map<Seq<u8>, u16> {
        entries_map(self.entries@)
    }
}

impl LabelTable {
    pub fn new() -> (r: LabelTable)
        ensures
            r@ == Map::<Seq<u8>, u16>::empty(),
    {
        LabelTable { entries: Vec::new() }
    }

    /// The offset recorded for a label, if any (the latest record wins).
    pub fn get(&self, name: &Vec<u8>) -> (r: Option<u16>)
        ensures
            r == if self@.contains_key(name@) {
                Some(self@[name@])
            } else {
                None::<u16>
            },
    {
        let mut i: usize = self.entries.len();
        while i > 0
            invariant
                i <= self.entries@.len(),
                forall|j: int|
                    i <= j < self.entries@.len() ==> (#[trigger] self.entries@[j].name@) != name@,
            decreases i,
        {
            i = i - 1;
            if bytes_eq(&self.entries[i].name, name) {
                proof {
                    lemma_entries_map_last(self.entries@, name@, i as int);
                }
                return Some(self.entries[i].addr);
            }
        }
        proof {
            lemma_entries_map_get(self.entries@, name@);
        }
        None
    }

    /// Record a label's offset; a newer record overrides an older one.
    pub fn insert(&mut self, name: &Vec<u8>, addr: u16)
        ensures
            final(self)@ == old(self)@.insert(name@, addr),
    {
        let mut owned: Vec<u8> = Vec::new();
        extend_vec(&mut owned, name);
        proof {
            assert(Seq::<u8>::empty() + name@ =~= name@);
        }
        self.entries.push(LabelEntry { name: owned, addr });
        proof {
            assert(self.entries@.drop_last() =~= old(self).entries@);
        }
    }
}

/// The byte a `db` value emits (`db` arguments are checked to be below 256
/// when parsed).
pub open spec fn byte_of_number(n: Number) -> u8 {
    (n.value % 256) as u8
}

/// The bytes a `db` directive emits.
pub open spec fn data_bytes(ns: Seq<Number>) -> Seq<u8> {
    Seq::new(ns.len(), |i: int| byte_of_number(ns[i]))
}

/// The low byte of a word.
pub open spec fn lo_byte(v: u16) -> u8 {
    (v & 0xff) as u8
}

/// The high byte of a word.
pub open spec fn hi_byte(v: u16) -> u8 {
    ((v >> 8) & 0xff) as u8
}

/// The three-bit code of a register.
pub open spec fn spec_reg_bits(r: Register) -> u8 {
    match r {
        Register::A => 0,
        Register::B => 1,
        Register::C => 2,
        Register::D => 3,
        Register::I => 4,
        Register::J => 5,
        Register::P => 6,
        Register::S => 7,
    }
}

/// The one-bit code of a disk slot.
pub open spec fn spec_disk_bits(d: DiskId) -> u8 {
    match d {
        DiskId::D0 => 0,
        DiskId::D1 => 1,
    }
}

/// The 16-bit value a constant denotes: a number's value, or a label's
/// offset from the table (`undefined label` when absent).
pub open spec fn spec_constant_value(c: ConstantV, labels: Map<Seq<u8>, u16>) -> Result<
    u16,
    Error,
> {
    match c {
        ConstantV::Name(n) => if labels.contains_key(n.name) {
            Ok(labels[n.name])
        } else {
            Err(Error { fragment: n.fragment, message: ErrorMessage::UndefinedLabel })
        },
        ConstantV::Number(num) => Ok(num.value),
    }
}

/// A constant's operand encoding: the selector nibble and the tail bytes.
/// Numbers take the shortest form; labels always take the 16-bit form, which
/// keeps instruction sizes independent of label values.
pub open spec fn spec_constant_assemble(c: ConstantV, labels: Map<Seq<u8>, u16>) -> Result<
    (u8, Seq<u8>),
    Error,
> {
    match c {
        ConstantV::Name(n) => if labels.contains_key(n.name) {
            Ok((0xe, seq![lo_byte(labels[n.name]), hi_byte(labels[n.name])]))
        } else {
            Err(Error { fragment: n.fragment, message: ErrorMessage::UndefinedLabel })
        },
        ConstantV::Number(num) => {
            let v = num.value;
            if v <= 4 {
                Ok(((8 + v) as u8, Seq::<u8>::empty()))
            } else if v <= 255 {
                Ok((0xd, seq![v as u8]))
            } else if v <= 0xfffe {
                Ok((0xe, seq![lo_byte(v), hi_byte(v)]))
            } else {
                Ok((0xf, Seq::<u8>::empty()))
            }
        },
    }
}

/// A value's operand encoding: a register's code with no tail, or a
/// constant's encoding.
pub open spec fn spec_value_assemble(v: ValueV, labels: Map<Seq<u8>, u16>) -> Result<
    (u8, Seq<u8>),
    Error,
> {
    match v {
        ValueV::Register(r) => Ok((spec_reg_bits(r), Seq::<u8>::empty())),
        ValueV::Constant(c) => spec_constant_assemble(c, labels),
    }
}

/// A single-operand instruction: the operand nibble lives in the opcode
/// byte's low four bits, the tail follows.
pub open spec fn spec_encode_one(base: u8, v: ValueV, labels: Map<Seq<u8>, u16>) -> Result<
    Seq<u8>,
    Error,
> {
    match spec_value_assemble(v, labels) {
        Err(e) => Err(e),
        Ok((n, tail)) => Ok(seq![(base + n) as u8] + tail),
    }
}

/// A register-plus-value instruction: opcode byte, then reg|value byte, then
/// the value's tail.
pub open spec fn spec_encode_regval(op: u8, a: Register, v: ValueV, labels: Map<Seq<u8>, u16>)
    -> Result<Seq<u8>, Error> {
    match spec_value_assemble(v, labels) {
        Err(e) => Err(e),
        Ok((n, tail)) => Ok(seq![op, (spec_reg_bits(a) * 16 + n) as u8] + tail),
    }
}

/// A load: opcode (with offset width in the low two bits), reg|value byte,
/// offset bytes if any, then the value's tail.
pub open spec fn spec_encode_load(op: u8, a: Register, addr: AddressV, labels: Map<Seq<u8>, u16>)
    -> Result<Seq<u8>, Error> {
    match addr.offset {
        None => spec_encode_regval(op, a, addr.value, labels),
        Some(c) => match spec_value_assemble(addr.value, labels) {
            Err(e) => Err(e),
            Ok((n, tail)) => match spec_constant_value(c, labels) {
                Err(e) => Err(e),
                Ok(o) => Ok(
                    seq![
                        (op + 2) as u8,
                        (spec_reg_bits(a) * 16 + n) as u8,
                        lo_byte(o),
                        hi_byte(o),
                    ] + tail,
                ),
            },
        },
    }
}

/// A store: opcode, value|value byte, offset bytes if any, the source's
/// tail, then the address value's tail.
pub open spec fn spec_encode_store(op: u8, src: ValueV, addr: AddressV, labels: Map<Seq<u8>, u16>)
    -> Result<Seq<u8>, Error> {
    match spec_value_assemble(src, labels) {
        Err(e) => Err(e),
        Ok((sn, sbuf)) => match spec_value_assemble(addr.value, labels) {
            Err(e) => Err(e),
            Ok((an, abuf)) => match addr.offset {
                None => Ok(seq![op, (sn * 16 + an) as u8] + sbuf + abuf),
                Some(c) => match spec_constant_value(c, labels) {
                    Err(e) => Err(e),
                    Ok(o) => Ok(
                        seq![(op + 2) as u8, (sn * 16 + an) as u8, lo_byte(o), hi_byte(o)] + sbuf
                            + abuf,
                    ),
                },
            },
        },
    }
}

/// A conditional jump: opcode, reg|value byte, the target constant's tail.
pub open spec fn spec_encode_jump(op: u8, a: Register, c: ConstantV, labels: Map<Seq<u8>, u16>)
    -> Result<Seq<u8>, Error> {
    match spec_constant_assemble(c, labels) {
        Err(e) => Err(e),
        Ok((n, tail)) => Ok(seq![op, (spec_reg_bits(a) * 16 + n) as u8] + tail),
    }
}

/// A disk instruction: opcode (with the slot in its low bit), value|value
/// byte, then each constant's tail in order.
pub open spec fn spec_encode_disk(op: u8, a: ConstantV, b: ConstantV, labels: Map<Seq<u8>, u16>)
    -> Result<Seq<u8>, Error> {
    match spec_constant_assemble(a, labels) {
        Err(e) => Err(e),
        Ok((an, abuf)) => match spec_constant_assemble(b, labels) {
            Err(e) => Err(e),
            Ok((bn, bbuf)) => Ok(seq![op, (an * 16 + bn) as u8] + abuf + bbuf),
        },
    }
}

/// The bytecode of one instruction under a label table. This is the shared
/// contract between the assembler and the CPU decoder.
#[verifier::opaque]
pub open spec fn spec_encode(i: InstructionV, labels: Map<Seq<u8>, u16>) -> Result<
    Seq<u8>,
    Error,
> {
    match i {
        InstructionV::Nop => Ok(seq![0x00u8]),
        InstructionV::Ret => Ok(seq![0x01u8]),
        InstructionV::Wait => Ok(seq![0x02u8]),
        InstructionV::Poll => Ok(seq![0x03u8]),
        InstructionV::Not(r) => Ok(seq![(0x10 + spec_reg_bits(r)) as u8]),
        InstructionV::Neg(r) => Ok(seq![(0x20 + spec_reg_bits(r)) as u8]),
        InstructionV::Pop(r) => Ok(seq![(0x30 + spec_reg_bits(r)) as u8]),
        InstructionV::Push(v) => spec_encode_one(0x40, v, labels),
        InstructionV::Jmp(v) => spec_encode_one(0x50, v, labels),
        InstructionV::Call(v) => spec_encode_one(0x60, v, labels),
        InstructionV::Mov(a, b) => spec_encode_regval(0x80, a, b, labels),
        InstructionV::Add(a, b) => spec_encode_regval(0x81, a, b, labels),
        InstructionV::Sub(a, b) => spec_encode_regval(0x82, a, b, labels),
        InstructionV::Xor(a, b) => spec_encode_regval(0x83, a, b, labels),
        InstructionV::And(a, b) => spec_encode_regval(0x84, a, b, labels),
        InstructionV::Or(a, b) => spec_encode_regval(0x85, a, b, labels),
        InstructionV::Shl(a, b) => spec_encode_regval(0x86, a, b, labels),
        InstructionV::Shr(a, b) => spec_encode_regval(0x87, a, b, labels),
        InstructionV::Cmp(a, b) => spec_encode_regval(0x88, a, b, labels),
        InstructionV::Load(a, b) => spec_encode_load(0x90, a, b, labels),
        InstructionV::Loadw(a, b) => spec_encode_load(0x94, a, b, labels),
        InstructionV::Store(a, b) => spec_encode_store(0x98, a, b, labels),
        InstructionV::Storew(a, b) => spec_encode_store(0x9c, a, b, labels),
        InstructionV::Jez(a, b) => spec_encode_jump(0xa0, a, b, labels),
        InstructionV::Jnz(a, b) => spec_encode_jump(0xa1, a, b, labels),
        InstructionV::Jl(a, b) => spec_encode_jump(0xa2, a, b, labels),
        InstructionV::Jg(a, b) => spec_encode_jump(0xa3, a, b, labels),
        InstructionV::Jle(a, b) => spec_encode_jump(0xa4, a, b, labels),
        InstructionV::Jge(a, b) => spec_encode_jump(0xa5, a, b, labels),
        InstructionV::Read(d, a, b) => spec_encode_disk((0xf0 + spec_disk_bits(d)) as u8, a, b, labels),
        InstructionV::Write(d, a, b) => spec_encode_disk((0xf8 + spec_disk_bits(d)) as u8, a, b, labels),
        InstructionV::Bytes(ns) => Ok(data_bytes(ns)),
    }
}

impl Register {
    /// The register's three-bit code in the encoding.
    pub fn assemble(&self) -> (r: u8)
        ensures
            r == spec_reg_bits(*self),
            r < 8,
    {
        match self {
            Register::A => 0,
            Register::B => 1,
            Register::C => 2,
            Register::D => 3,
            Register::I => 4,
            Register::J => 5,
            Register::P => 6,
            Register::S => 7,
        }
    }
}

impl DiskId {
    /// The slot's one-bit code in the encoding.
    pub fn assemble(&self) -> (r: u8)
        ensures
            r == spec_disk_bits(*self),
            r < 2,
    {
        match self {
            DiskId::D0 => 0,
            DiskId::D1 => 1,
        }
    }
}

impl Constant {
    /// The constant's operand encoding, as [`spec_constant_assemble`] says.
    pub fn assemble(&self, labels: &LabelTable) -> (r: Result<(u8, SmallBuf), Error>)
        ensures
            match r {
                Ok(p) => spec_constant_assemble(self@, labels@) == Ok::<(u8, Seq<u8>), Error>(
                    (p.0, p.1@),
                ) && p.1@.len() <= 2 && p.0 <= 0xf,
                Err(e) => spec_constant_assemble(self@, labels@) == Err::<(u8, Seq<u8>), Error>(
                    e,
                ),
            },
    {
        match self {
            Constant::Name(name) => match labels.get(&name.name) {
                None => Err(
                    Error { fragment: name.fragment, message: ErrorMessage::UndefinedLabel },
                ),
                Some(x) => {
                    let mut buf = SmallBuf::new();
                    buf.push((x & 0xff) as u8);
                    buf.push(((x >> 8) & 0xff) as u8);
                    proof {
                        assert(buf@ =~= seq![lo_byte(labels@[name.name@]), hi_byte(
                            labels@[name.name@],
                        )]);
                    }
                    Ok((0xe, buf))
                },
            },
            Constant::Number(num) => {
                let v = num.value;
                if v <= 4 {
                    Ok(((8 + v) as u8, SmallBuf::new()))
                } else if v <= 255 {
                    let mut buf = SmallBuf::new();
                    buf.push(v as u8);
                    proof {
                        assert(buf@ =~= seq![v as u8]);
                    }
                    Ok((0xd, buf))
                } else if v <= 0xfffe {
                    let mut buf = SmallBuf::new();
                    buf.push((v & 0xff) as u8);
                    buf.push(((v >> 8) & 0xff) as u8);
                    proof {
                        assert(buf@ =~= seq![lo_byte(v), hi_byte(v)]);
                    }
                    Ok((0xe, buf))
                } else {
                    Ok((0xf, SmallBuf::new()))
                }
            },
        }
    }

    /// The 16-bit value the constant denotes, as [`spec_constant_value`]
    /// says.
    pub fn value(&self, labels: &LabelTable) -> (r: Result<u16, Error>)
        ensures
            r == spec_constant_value(self@, labels@),
    {
        match self {
            Constant::Name(name) => match labels.get(&name.name) {
                None => Err(
                    Error { fragment: name.fragment, message: ErrorMessage::UndefinedLabel },
                ),
                Some(x) => Ok(x),
            },
            Constant::Number(num) => Ok(num.value),
        }
    }
}

impl Value {
    /// The value's operand encoding, as [`spec_value_assemble`] says.
    pub fn assemble(&self, labels: &LabelTable) -> (r: Result<(u8, SmallBuf), Error>)
        ensures
            match r {
                Ok(p) => spec_value_assemble(self@, labels@) == Ok::<(u8, Seq<u8>), Error>(
                    (p.0, p.1@),
                ) && p.1@.len() <= 2 && p.0 <= 0xf,
                Err(e) => spec_value_assemble(self@, labels@) == Err::<(u8, Seq<u8>), Error>(e),
            },
    {
        match self {
            Value::Register(r) => Ok((r.assemble(), SmallBuf::new())),
            Value::Constant(c) => c.assemble(labels),
        }
    }
}

fn emit_data(into: &mut Vec<u8>, ns: &Vec<Number>)
    ensures
        final(into)@ == old(into)@ + data_bytes(ns@),
{
    let ghost start = into@;
    let mut i: usize = 0;
    while i < ns.len()
        invariant
            i <= ns@.len(),
            into@.len() == start.len() + i,
            forall|j: int| 0 <= j < start.len() ==> into@[j] == start[j],
            forall|j: int| 0 <= j < i ==> into@[start.len() + j] == byte_of_number(ns@[j]),
        decreases ns@.len() - i,
    {
        into.push((ns[i].value % 256) as u8);
        i = i + 1;
    }
    proof {
        assert(into@ =~= start + data_bytes(ns@));
    }
}

fn emit_byte(into: &mut Vec<u8>, b: u8)
    ensures
        final(into)@ == old(into)@ + seq![b],
{
    into.push(b);
    proof {
        assert(old(into)@ + seq![b] =~= old(into)@.push(b));
    }
}

fn emit_one(into: &mut Vec<u8>, base: u8, v: &Value, labels: &LabelTable) -> (r: Result<
    (),
    Error,
>)
    requires
        base <= 0xf0,
    ensures
        match r {
            Ok(_) => spec_encode_one(base, v@, labels@) is Ok && final(into)@ == old(into)@
                + spec_encode_one(base, v@, labels@)->Ok_0,
            Err(e) => spec_encode_one(base, v@, labels@) == Err::<Seq<u8>, Error>(e) && final(into)@ == old(into)@,
        },
{
    match v.assemble(labels) {
        Err(e) => Err(e),
        Ok((n, buf)) => {
            into.push(base + n);
            extend_vec(into, buf.as_slice());
            proof {
                assert(old(into)@ + (seq![(base + n) as u8] + buf@) =~= old(into)@.push(
                    (base + n) as u8,
                ) + buf@);
            }
            Ok(())
        },
    }
}

fn emit_regval(into: &mut Vec<u8>, op: u8, a: Register, v: &Value, labels: &LabelTable) -> (r:
    Result<(), Error>)
    ensures
        match r {
            Ok(_) => spec_encode_regval(op, a, v@, labels@) is Ok && final(into)@ == old(into)@
                + spec_encode_regval(op, a, v@, labels@)->Ok_0,
            Err(e) => spec_encode_regval(op, a, v@, labels@) == Err::<Seq<u8>, Error>(e)
                && final(into)@ == old(into)@,
        },
{
    match v.assemble(labels) {
        Err(e) => Err(e),
        Ok((n, buf)) => {
            into.push(op);
            into.push(a.assemble() * 16 + n);
            extend_vec(into, buf.as_slice());
            proof {
                assert(old(into)@ + (seq![op, (spec_reg_bits(a) * 16 + n) as u8] + buf@)
                    =~= old(into)@.push(op).push((spec_reg_bits(a) * 16 + n) as u8) + buf@);
            }
            Ok(())
        },
    }
}

fn emit_load(into: &mut Vec<u8>, op: u8, a: Register, addr: &Address, labels: &LabelTable) -> (r:
    Result<(), Error>)
    requires
        op <= 0xf0,
    ensures
        match r {
            Ok(_) => spec_encode_load(op, a, addr@, labels@) is Ok && final(into)@ == old(into)@
                + spec_encode_load(op, a, addr@, labels@)->Ok_0,
            Err(e) => spec_encode_load(op, a, addr@, labels@) == Err::<Seq<u8>, Error>(e)
                && final(into)@ == old(into)@,
        },
{
    match &addr.offset {
        None => emit_regval(into, op, a, &addr.value, labels),
        Some(c) => {
            let (n, buf) = match addr.value.assemble(labels) {
                Ok(p) => p,
                Err(e) => {
                    return Err(e);
                },
            };
            let o = match c.value(labels) {
                Ok(o) => o,
                Err(e) => {
                    return Err(e);
                },
            };
            into.push(op + 2);
            into.push(a.assemble() * 16 + n);
            into.push((o & 0xff) as u8);
            into.push(((o >> 8) & 0xff) as u8);
            extend_vec(into, buf.as_slice());
            proof {
                assert(old(into)@ + (seq![
                    (op + 2) as u8,
                    (spec_reg_bits(a) * 16 + n) as u8,
                    lo_byte(o),
                    hi_byte(o),
                ] + buf@) =~= old(into)@.push((op + 2) as u8).push(
                    (spec_reg_bits(a) * 16 + n) as u8,
                ).push(lo_byte(o)).push(hi_byte(o)) + buf@);
            }
            Ok(())
        },
    }
}

fn emit_store(into: &mut Vec<u8>, op: u8, src: &Value, addr: &Address, labels: &LabelTable) -> (r:
    Result<(), Error>)
    requires
        op <= 0xf0,
    ensures
        match r {
            Ok(_) => spec_encode_store(op, src@, addr@, labels@) is Ok && final(into)@ == old(
                into,
            )@ + spec_encode_store(op, src@, addr@, labels@)->Ok_0,
            Err(e) => spec_encode_store(op, src@, addr@, labels@) == Err::<Seq<u8>, Error>(e)
                && final(into)@ == old(into)@,
        },
{
    let (sn, sbuf) = match src.assemble(labels) {
        Ok(p) => p,
        Err(e) => {
            return Err(e);
        },
    };
    let (an, abuf) = match addr.value.assemble(labels) {
        Ok(p) => p,
        Err(e) => {
            return Err(e);
        },
    };
    match &addr.offset {
        None => {
            into.push(op);
            into.push(sn * 16 + an);
            extend_vec(into, sbuf.as_slice());
            extend_vec(into, abuf.as_slice());
            proof {
                assert(old(into)@ + (seq![op, (sn * 16 + an) as u8] + sbuf@ + abuf@)
                    =~= old(into)@.push(op).push((sn * 16 + an) as u8) + sbuf@ + abuf@);
            }
            Ok(())
        },
        Some(c) => {
            let o = match c.value(labels) {
                Ok(o) => o,
                Err(e) => {
                    return Err(e);
                },
            };
            into.push(op + 2);
            into.push(sn * 16 + an);
            into.push((o & 0xff) as u8);
            into.push(((o >> 8) & 0xff) as u8);
            extend_vec(into, sbuf.as_slice());
            extend_vec(into, abuf.as_slice());
            proof {
                assert(old(into)@ + (seq![
                    (op + 2) as u8,
                    (sn * 16 + an) as u8,
                    lo_byte(o),
                    hi_byte(o),
                ] + sbuf@ + abuf@) =~= old(into)@.push((op + 2) as u8).push(
                    (sn * 16 + an) as u8,
                ).push(lo_byte(o)).push(hi_byte(o)) + sbuf@ + abuf@);
            }
            Ok(())
        },
    }
}

fn emit_jump(into: &mut Vec<u8>, op: u8, a: Register, c: &Constant, labels: &LabelTable) -> (r:
    Result<(), Error>)
    ensures
        match r {
            Ok(_) => spec_encode_jump(op, a, c@, labels@) is Ok && final(into)@ == old(into)@
                + spec_encode_jump(op, a, c@, labels@)->Ok_0,
            Err(e) => spec_encode_jump(op, a, c@, labels@) == Err::<Seq<u8>, Error>(e) && final(into)@ == old(into)@,
        },
{
    match c.assemble(labels) {
        Err(e) => Err(e),
        Ok((n, buf)) => {
            into.push(op);
            into.push(a.assemble() * 16 + n);
            extend_vec(into, buf.as_slice());
            proof {
                assert(old(into)@ + (seq![op, (spec_reg_bits(a) * 16 + n) as u8] + buf@)
                    =~= old(into)@.push(op).push((spec_reg_bits(a) * 16 + n) as u8) + buf@);
            }
            Ok(())
        },
    }
}

fn emit_disk(into: &mut Vec<u8>, op: u8, a: &Constant, b: &Constant, labels: &LabelTable) -> (r:
    Result<(), Error>)
    ensures
        match r {
            Ok(_) => spec_encode_disk(op, a@, b@, labels@) is Ok && final(into)@ == old(into)@
                + spec_encode_disk(op, a@, b@, labels@)->Ok_0,
            Err(e) => spec_encode_disk(op, a@, b@, labels@) == Err::<Seq<u8>, Error>(e) && final(into)@ == old(into)@,
        },
{
    let (an, abuf) = match a.assemble(labels) {
        Ok(p) => p,
        Err(e) => {
            return Err(e);
        },
    };
    let (bn, bbuf) = match b.assemble(labels) {
        Ok(p) => p,
        Err(e) => {
            return Err(e);
        },
    };
    into.push(op);
    into.push(an * 16 + bn);
    extend_vec(into, abuf.as_slice());
    extend_vec(into, bbuf.as_slice());
    proof {
        assert(old(into)@ + (seq![op, (an * 16 + bn) as u8] + abuf@ + bbuf@) =~= old(into)@.push(
            op,
        ).push((an * 16 + bn) as u8) + abuf@ + bbuf@);
    }
    Ok(())
}

impl Instruction {
    /// Append the instruction's bytecode to `into`, leaving it untouched
    /// when a label cannot be resolved; [`spec_encode`] gives the bytes.
    pub fn assemble(&self, into: &mut Vec<u8>, labels: &LabelTable) -> (r: Result<(), Error>)
        ensures
            match r {
                Ok(_) => spec_encode(self@, labels@) is Ok && final(into)@ == old(into)@
                    + spec_encode(self@, labels@)->Ok_0,
                Err(e) => spec_encode(self@, labels@) == Err::<Seq<u8>, Error>(e) && final(into)@
                    == old(into)@,
            },
    {
        proof {
            reveal(spec_encode);
        }
        match self {
            Instruction::Nop | Instruction::Ret | Instruction::Wait | Instruction::Poll
            | Instruction::Not(_) | Instruction::Neg(_) | Instruction::Pop(_) => {
                self.assemble_plain(into)
            },
            Instruction::Push(..) | Instruction::Jmp(..) | Instruction::Call(..)
            | Instruction::Mov(..) | Instruction::Add(..) | Instruction::Sub(..)
            | Instruction::Xor(..) | Instruction::And(..) | Instruction::Or(..)
            | Instruction::Shl(..) | Instruction::Shr(..) | Instruction::Cmp(..) => {
                self.assemble_ops(into, labels)
            },
            Instruction::Load(..) | Instruction::Loadw(..) | Instruction::Store(..)
            | Instruction::Storew(..) => self.assemble_mem(into, labels),
            Instruction::Jez(..) | Instruction::Jnz(..) | Instruction::Jl(..)
            | Instruction::Jg(..) | Instruction::Jle(..) | Instruction::Jge(..) => {
                self.assemble_jumps(into, labels)
            },
            Instruction::Read(..) | Instruction::Write(..) | Instruction::Bytes(..) => {
                self.assemble_io(into, labels)
            },
        }
    }

    /// The one-byte instructions.
    fn assemble_plain(&self, into: &mut Vec<u8>) -> (r: Result<(), Error>)
        requires
            (self matches Instruction::Nop) || (self matches Instruction::Ret) || (self
                matches Instruction::Wait) || (self matches Instruction::Poll) || (self
                matches Instruction::Not(_)) || (self matches Instruction::Neg(_)) || (self
                matches Instruction::Pop(_)),
        ensures
            match r {
                Ok(_) => spec_encode(self@, Map::empty()) is Ok && final(into)@ == old(into)@
                    + spec_encode(self@, Map::empty())->Ok_0 && (forall|m: Map<Seq<u8>, u16>|
                    #[trigger] spec_encode(self@, m) == spec_encode(
                        self@,
                        Map::<Seq<u8>, u16>::empty(),
                    )),
                Err(_) => false,
            },
    {
        proof {
            reveal(spec_encode);
        }
        match self {
            Instruction::Nop => emit_byte(into, 0x00),
            Instruction::Ret => emit_byte(into, 0x01),
            Instruction::Wait => emit_byte(into, 0x02),
            Instruction::Poll => emit_byte(into, 0x03),
            Instruction::Not(r) => emit_byte(into, 0x10 + r.assemble()),
            Instruction::Neg(r) => emit_byte(into, 0x20 + r.assemble()),
            Instruction::Pop(r) => emit_byte(into, 0x30 + r.assemble()),
            _ => {},
        }
        Ok(())
    }

    /// The single-operand and register-plus-value instructions.
    fn assemble_ops(&self, into: &mut Vec<u8>, labels: &LabelTable) -> (r: Result<(), Error>)
        requires
            (self matches Instruction::Push(..)) || (self matches Instruction::Jmp(..)) || (self
                matches Instruction::Call(..)) || (self matches Instruction::Mov(..)) || (self
                matches Instruction::Add(..)) || (self matches Instruction::Sub(..)) || (self
                matches Instruction::Xor(..)) || (self matches Instruction::And(..)) || (self
                matches Instruction::Or(..)) || (self matches Instruction::Shl(..)) || (self
                matches Instruction::Shr(..)) || (self matches Instruction::Cmp(..)),
        ensures
            match r {
                Ok(_) => spec_encode(self@, labels@) is Ok && final(into)@ == old(into)@
                    + spec_encode(self@, labels@)->Ok_0,
                Err(e) => spec_encode(self@, labels@) == Err::<Seq<u8>, Error>(e) && final(into)@
                    == old(into)@,
            },
    {
        proof {
            reveal(spec_encode);
        }
        match self {
            Instruction::Push(v) => emit_one(into, 0x40, v, labels),
            Instruction::Jmp(v) => emit_one(into, 0x50, v, labels),
            Instruction::Call(v) => emit_one(into, 0x60, v, labels),
            Instruction::Mov(a, b) => emit_regval(into, 0x80, *a, b, labels),
            Instruction::Add(a, b) => emit_regval(into, 0x81, *a, b, labels),
            Instruction::Sub(a, b) => emit_regval(into, 0x82, *a, b, labels),
            Instruction::Xor(a, b) => emit_regval(into, 0x83, *a, b, labels),
            Instruction::And(a, b) => emit_regval(into, 0x84, *a, b, labels),
            Instruction::Or(a, b) => emit_regval(into, 0x85, *a, b, labels),
            Instruction::Shl(a, b) => emit_regval(into, 0x86, *a, b, labels),
            Instruction::Shr(a, b) => emit_regval(into, 0x87, *a, b, labels),
            Instruction::Cmp(a, b) => emit_regval(into, 0x88, *a, b, labels),
            _ => Ok(()),
        }
    }

    /// The load and store instructions.
    fn assemble_mem(&self, into: &mut Vec<u8>, labels: &LabelTable) -> (r: Result<(), Error>)
        requires
            (self matches Instruction::Load(..)) || (self matches Instruction::Loadw(..)) || (
            self matches Instruction::Store(..)) || (self matches Instruction::Storew(..)),
        ensures
            match r {
                Ok(_) => spec_encode(self@, labels@) is Ok && final(into)@ == old(into)@
                    + spec_encode(self@, labels@)->Ok_0,
                Err(e) => spec_encode(self@, labels@) == Err::<Seq<u8>, Error>(e) && final(into)@
                    == old(into)@,
            },
    {
        proof {
            reveal(spec_encode);
        }
        match self {
            Instruction::Load(a, b) => emit_load(into, 0x90, *a, b, labels),
            Instruction::Loadw(a, b) => emit_load(into, 0x94, *a, b, labels),
            Instruction::Store(a, b) => emit_store(into, 0x98, a, b, labels),
            Instruction::Storew(a, b) => emit_store(into, 0x9c, a, b, labels),
            _ => Ok(()),
        }
    }

    /// The conditional jumps.
    fn assemble_jumps(&self, into: &mut Vec<u8>, labels: &LabelTable) -> (r: Result<(), Error>)
        requires
            (self matches Instruction::Jez(..)) || (self matches Instruction::Jnz(..)) || (self
                matches Instruction::Jl(..)) || (self matches Instruction::Jg(..)) || (self
                matches Instruction::Jle(..)) || (self matches Instruction::Jge(..)),
        ensures
            match r {
                Ok(_) => spec_encode(self@, labels@) is Ok && final(into)@ == old(into)@
                    + spec_encode(self@, labels@)->Ok_0,
                Err(e) => spec_encode(self@, labels@) == Err::<Seq<u8>, Error>(e) && final(into)@
                    == old(into)@,
            },
    {
        proof {
            reveal(spec_encode);
        }
        match self {
            Instruction::Jez(a, b) => emit_jump(into, 0xa0, *a, b, labels),
            Instruction::Jnz(a, b) => emit_jump(into, 0xa1, *a, b, labels),
            Instruction::Jl(a, b) => emit_jump(into, 0xa2, *a, b, labels),
            Instruction::Jg(a, b) => emit_jump(into, 0xa3, *a, b, labels),
            Instruction::Jle(a, b) => emit_jump(into, 0xa4, *a, b, labels),
            Instruction::Jge(a, b) => emit_jump(into, 0xa5, *a, b, labels),
            _ => Ok(()),
        }
    }

    /// The disk instructions and the `db` directive.
    fn assemble_io(&self, into: &mut Vec<u8>, labels: &LabelTable) -> (r: Result<(), Error>)
        requires
            (self matches Instruction::Read(..)) || (self matches Instruction::Write(..)) || (
            self matches Instruction::Bytes(..)),
        ensures
            match r {
                Ok(_) => spec_encode(self@, labels@) is Ok && final(into)@ == old(into)@
                    + spec_encode(self@, labels@)->Ok_0,
                Err(e) => spec_encode(self@, labels@) == Err::<Seq<u8>, Error>(e) && final(into)@
                    == old(into)@,
            },
    {
        proof {
            reveal(spec_encode);
        }
        match self {
            Instruction::Read(d, a, b) => emit_disk(into, 0xf0 + d.assemble(), a, b, labels),
            Instruction::Write(d, a, b) => emit_disk(into, 0xf8 + d.assemble(), a, b, labels),
            Instruction::Bytes(ns) => {
                emit_data(into, ns);
                Ok(())
            },
            _ => Ok(()),
        }
    }
}

} // verus!
