//! The assembler's front end: parsing one source line into an optional label
//! and an optional instruction.
//!
//! Lines are handed in as bytes; every span an error reports is a byte range
//! of its line. Each parser's result is pinned, case by case, to spec-level
//! grammar functions over the line's bytes.

use vstd::prelude::*;
use crate::isa::{Register, DiskId};
use crate::source::{Fragment, Error, ErrorMessage, spec_find};

verus! {

/// The base a number was written in (kept for faithful reporting).
#[derive(Debug, Copy, Clone, PartialEq, Eq, Structural)]
pub enum Format {
    Binary,
    Decimal,
    Hexadecimal,
}

/// An unsigned 16-bit numeric literal.
#[derive(Debug, Copy, Clone, PartialEq, Eq, Structural)]
pub struct Number {
    pub value: u16,
    pub format: Format,
}

/// A label reference: the label's name and the span it was written at.
#[derive(Debug, Clone)]
pub struct Name {
    pub name: Vec<u8>,
    pub fragment: Fragment,
}

/// Mathematical form of [`Name`].
pub ghost struct NameV {
    pub name: Seq<u8>,
    pub fragment: Fragment,
}

impl View for Name {
    type V = NameV;

    open spec fn view(&self) -> NameV {
        NameV { name: self.name@, fragment: self.fragment }
    }
}

/// A constant: a label reference or a numeric literal.
#[derive(Debug, Clone)]
pub enum Constant {
    Name(Name),
    Number(Number),
}

/// Mathematical form of [`Constant`].
pub ghost enum ConstantV {
    Name(NameV),
    Number(Number),
}

impl View for Constant {
    type V = ConstantV;

    open spec fn view(&self) -> ConstantV {
        match self {
            Constant::Name(n) => ConstantV::Name(n@),
            Constant::Number(n) => ConstantV::Number(*n),
        }
    }
}

/// An instruction argument: a register or a constant.
#[derive(Debug, Clone)]
pub enum Value {
    Register(Register),
    Constant(Constant),
}

/// Mathematical form of [`Value`].
pub ghost enum ValueV {
    Register(Register),
    Constant(ConstantV),
}

impl View for Value {
    type V = ValueV;

    open spec fn view(&self) -> ValueV {
        match self {
            Value::Register(r) => ValueV::Register(*r),
            Value::Constant(c) => ValueV::Constant(c@),
        }
    }
}

/// An address argument: `value [+ offset]`.
#[derive(Debug, Clone)]
pub struct Address {
    pub value: Value,
    pub offset: Option<Constant>,
}

/// Mathematical form of [`Address`].
pub ghost struct AddressV {
    pub value: ValueV,
    pub offset: Option<ConstantV>,
}

impl View for Address {
    type V = AddressV;

    open spec fn view(&self) -> AddressV {
        AddressV {
            value: self.value@,
            offset: match &self.offset {
                Some(c) => Some(c@),
                None => None,
            },
        }
    }
}

/// The register a one-byte argument names, in either case.
pub open spec fn spec_register_name(text: Seq<u8>) -> Option<Register> {
    if text.len() != 1 {
        None
    } else {
        let b = text[0];
        if b == 'a' as u8 || b == 'A' as u8 {
            Some(Register::A)
        } else if b == 'b' as u8 || b == 'B' as u8 {
            Some(Register::B)
        } else if b == 'c' as u8 || b == 'C' as u8 {
            Some(Register::C)
        } else if b == 'd' as u8 || b == 'D' as u8 {
            Some(Register::D)
        } else if b == 'i' as u8 || b == 'I' as u8 {
            Some(Register::I)
        } else if b == 'j' as u8 || b == 'J' as u8 {
            Some(Register::J)
        } else if b == 'p' as u8 || b == 'P' as u8 {
            Some(Register::P)
        } else if b == 's' as u8 || b == 'S' as u8 {
            Some(Register::S)
        } else {
            None
        }
    }
}

/// The disk slot a one-byte argument names: `0` or `1`.
pub open spec fn spec_disk_name(text: Seq<u8>) -> Option<DiskId> {
    if text.len() != 1 {
        None
    } else if text[0] == '0' as u8 {
        Some(DiskId::D0)
    } else if text[0] == '1' as u8 {
        Some(DiskId::D1)
    } else {
        None
    }
}

/// The value of one digit in the given base, or `None` for a non-digit.
pub open spec fn spec_digit(b: u8, radix: int) -> Option<int> {
    let d: int = if '0' as u8 <= b && b <= '9' as u8 {
        b - '0' as u8
    } else if 'a' as u8 <= b && b <= 'z' as u8 {
        b - 'a' as u8 + 10
    } else if 'A' as u8 <= b && b <= 'Z' as u8 {
        b - 'A' as u8 + 10
    } else {
        -1
    };
    if 0 <= d < radix {
        Some(d)
    } else {
        None
    }
}

/// Fold digits left to right onto `acc`; fails on a non-digit or when the
/// value leaves the 16-bit range.
pub open spec fn spec_digits(text: Seq<u8>, radix: int, acc: int) -> Option<int>
    decreases text.len(),
{
    if text.len() == 0 {
        Some(acc)
    } else {
        match spec_digit(text[0], radix) {
            None => None,
            Some(d) => {
                let acc2 = acc * radix + d;
                if acc2 > 0xffff {
                    None
                } else {
                    spec_digits(text.drop_first(), radix, acc2)
                }
            },
        }
    }
}

/// An unsigned numeral in the given base: an optional leading `+`, then at
/// least one digit, with the value in 16-bit range.
pub open spec fn spec_parse_radix(text: Seq<u8>, radix: int) -> Option<u16> {
    let t = if text.len() > 0 && text[0] == '+' as u8 {
        text.drop_first()
    } else {
        text
    };
    if t.len() == 0 {
        None
    } else {
        match spec_digits(t, radix, 0) {
            Some(v) => Some(v as u16),
            None => None,
        }
    }
}

/// A numeric literal: `0x…` hexadecimal and `0b…` binary when their digits
/// parse, otherwise the whole text as decimal.
pub open spec fn spec_number(text: Seq<u8>) -> Option<Number> {
    let decimal: Option<Number> = match spec_parse_radix(text, 10) {
        Some(v) => Some(Number { value: v, format: Format::Decimal }),
        None => None,
    };
    if text.len() >= 2 && text[0] == '0' as u8 && (text[1] == 'x' as u8 || text[1] == 'X' as u8) {
        match spec_parse_radix(text.skip(2), 16) {
            Some(v) => Some(Number { value: v, format: Format::Hexadecimal }),
            None => decimal,
        }
    } else if text.len() >= 2 && text[0] == '0' as u8 && (text[1] == 'b' as u8 || text[1]
        == 'B' as u8) {
        match spec_parse_radix(text.skip(2), 2) {
            Some(v) => Some(Number { value: v, format: Format::Binary }),
            None => decimal,
        }
    } else {
        decimal
    }
}

pub open spec fn is_identifier_start(b: u8) -> bool {
    ('a' as u8 <= b && b <= 'z' as u8) || ('A' as u8 <= b && b <= 'Z' as u8) || b == '_' as u8
}

pub open spec fn is_identifier_char(b: u8) -> bool {
    is_identifier_start(b) || ('0' as u8 <= b && b <= '9' as u8)
}

/// An identifier: a letter or underscore, then letters, digits and
/// underscores.
pub open spec fn spec_is_identifier(text: Seq<u8>) -> bool {
    &&& text.len() > 0
    &&& is_identifier_start(text[0])
    &&& forall|i: int| 1 <= i < text.len() ==> is_identifier_char(#[trigger] text[i])
}

/// Whether the bytes of a fragment are the given identifier.
pub fn is_identifier(line: &Vec<u8>, fragment: Fragment) -> (r: bool)
    requires
        fragment.wf(line@),
    ensures
        r == spec_is_identifier(fragment.text(line@)),
{
    if fragment.start >= fragment.end {
        return false;
    }
    let b0 = line[fragment.start];
    let first_ok = (97 <= b0 && b0 <= 122) || (65 <= b0 && b0 <= 90) || b0 == 95;
    if !first_ok {
        return false;
    }
    let mut i = fragment.start + 1;
    while i < fragment.end
        invariant
            fragment.wf(line@),
            fragment.start + 1 <= i <= fragment.end,
            forall|j: int|
                fragment.start < j < i ==> is_identifier_char(#[trigger] line@[j]),
        decreases fragment.end - i,
    {
        let b = line[i];
        let ok = (97 <= b && b <= 122) || (65 <= b && b <= 90) || b == 95 || (48 <= b && b
            <= 57);
        if !ok {
            proof {
                assert(fragment.text(line@)[i - fragment.start] == line@[i as int]);
            }
            return false;
        }
        i = i + 1;
    }
    proof {
        assert forall|k: int| 1 <= k < fragment.text(line@).len() implies is_identifier_char(
            #[trigger] fragment.text(line@)[k],
        ) by {
            assert(fragment.text(line@)[k] == line@[fragment.start + k]);
        }
    }
    true
}

/// An argument that can be parsed from a fragment of a line, with its
/// grammar pinned down by a spec function.
pub trait ParseArg: View + Sized {
    /// The argument the fragment denotes, or the error reported for it.
    spec fn spec_parse(line: Seq<u8>, fragment: Fragment) -> Result<Self::V, Error>;

    /// Parse the fragment, returning exactly what [`Self::spec_parse`] says.
    fn parse(line: &Vec<u8>, fragment: Fragment) -> (r: Result<Self, Error>)
        requires
            fragment.wf(line@),
        ensures
            match r {
                Ok(a) => Self::spec_parse(line@, fragment) == Ok::<Self::V, Error>(a@),
                Err(e) => Self::spec_parse(line@, fragment) == Err::<Self::V, Error>(e),
            },
    ;
}

impl View for DiskId {
    type V = DiskId;

    open spec fn view(&self) -> DiskId {
        *self
    }
}

impl ParseArg for DiskId {
    open spec fn spec_parse(line: Seq<u8>, fragment: Fragment) -> Result<DiskId, Error> {
        let t = fragment.spec_trim(line);
        match spec_disk_name(t.text(line)) {
            Some(d) => Ok(d),
            None => Err(Error { fragment: t, message: ErrorMessage::InvalidDisk }),
        }
    }

    fn parse(line: &Vec<u8>, fragment: Fragment) -> (r: Result<DiskId, Error>) {
        let t = fragment.trim(line);
        if t.end - t.start == 1 {
            let b = line[t.start];
            if b == 48 {
                return Ok(DiskId::D0);
            }
            if b == 49 {
                return Ok(DiskId::D1);
            }
        }
        Err(Error { fragment: t, message: ErrorMessage::InvalidDisk })
    }
}

impl View for Register {
    type V = Register;

    open spec fn view(&self) -> Register {
        *self
    }
}

impl ParseArg for Register {
    open spec fn spec_parse(line: Seq<u8>, fragment: Fragment) -> Result<Register, Error> {
        let t = fragment.spec_trim(line);
        match spec_register_name(t.text(line)) {
            Some(r) => Ok(r),
            None => Err(Error { fragment: t, message: ErrorMessage::InvalidRegister }),
        }
    }

    fn parse(line: &Vec<u8>, fragment: Fragment) -> (r: Result<Register, Error>) {
        let t = fragment.trim(line);
        if t.end - t.start == 1 {
            let b = line[t.start];
            let reg = if b == 97 || b == 65 {
                Some(Register::A)
            } else if b == 98 || b == 66 {
                Some(Register::B)
            } else if b == 99 || b == 67 {
                Some(Register::C)
            } else if b == 100 || b == 68 {
                Some(Register::D)
            } else if b == 105 || b == 73 {
                Some(Register::I)
            } else if b == 106 || b == 74 {
                Some(Register::J)
            } else if b == 112 || b == 80 {
                Some(Register::P)
            } else if b == 115 || b == 83 {
                Some(Register::S)
            } else {
                None
            };
            if let Some(reg) = reg {
                return Ok(reg);
            }
        }
        Err(Error { fragment: t, message: ErrorMessage::InvalidRegister })
    }
}

impl View for Number {
    type V = Number;

    open spec fn view(&self) -> Number {
        *self
    }
}

/// Parse the digits of `fragment` in the given base, as
/// [`spec_parse_radix`] says.
fn parse_radix(line: &Vec<u8>, fragment: Fragment, radix: u16) -> (r: Option<u16>)
    requires
        fragment.wf(line@),
        2 <= radix <= 16,
    ensures
        r == spec_parse_radix(fragment.text(line@), radix as int),
{
    let ghost text = fragment.text(line@);
    let mut i = fragment.start;
    if i < fragment.end && line[i] == 43 {
        i = i + 1;
    }
    let ghost t = line@.subrange(i as int, fragment.end as int);
    proof {
        assert(text.len() == fragment.end - fragment.start);
        if fragment.start < fragment.end {
            assert(text[0] == line@[fragment.start as int]);
        }
        if i != fragment.start {
            assert(t =~= text.drop_first());
        } else {
            assert(t =~= text);
        }
    }
    if i >= fragment.end {
        return None;
    }
    let mut acc: u32 = 0;
    while i < fragment.end
        invariant
            fragment.wf(line@),
            fragment.start <= i <= fragment.end,
            2 <= radix <= 16,
            acc <= 0xffff,
            t.len() > 0,
            text == fragment.text(line@),
            spec_parse_radix(text, radix as int) == (match spec_digits(t, radix as int, 0) {
                Some(v) => Some(v as u16),
                None => None::<u16>,
            }),
            spec_digits(t, radix as int, 0) == spec_digits(
                line@.subrange(i as int, fragment.end as int),
                radix as int,
                acc as int,
            ),
        decreases fragment.end - i,
    {
        let ghost rest = line@.subrange(i as int, fragment.end as int);
        let b = line[i];
        proof {
            assert(rest[0] == line@[i as int]);
        }
        let d: u32 = if 48 <= b && b <= 57 {
            (b - 48) as u32
        } else if 97 <= b && b <= 122 {
            (b - 97 + 10) as u32
        } else if 65 <= b && b <= 90 {
            (b - 65 + 10) as u32
        } else {
            16
        };
        if d >= radix as u32 {
            proof {
                assert(spec_digit(rest[0], radix as int) is None);
                assert(spec_digits(rest, radix as int, acc as int) is None);
                assert(spec_parse_radix(text, radix as int) is None);
            }
            return None;
        }
        proof {
            assert(acc * (radix as u32) <= 0xffff * 16) by (nonlinear_arith)
                requires
                    acc <= 0xffff,
                    radix <= 16,
            ;
        }
        let acc2: u32 = acc * (radix as u32) + d;
        if acc2 > 0xffff {
            proof {
                assert(spec_digit(rest[0], radix as int) == Some(d as int));
                assert(spec_digits(rest, radix as int, acc as int) is None);
                assert(spec_parse_radix(text, radix as int) is None);
            }
            return None;
        }
        proof {
            assert(spec_digit(rest[0], radix as int) == Some(d as int));
            assert(rest.drop_first() =~= line@.subrange(i + 1, fragment.end as int));
        }
        acc = acc2;
        i = i + 1;
    }
    proof {
        assert(line@.subrange(i as int, fragment.end as int).len() == 0);
    }
    Some(acc as u16)
}

impl ParseArg for Number {
    open spec fn spec_parse(line: Seq<u8>, fragment: Fragment) -> Result<Number, Error> {
        let t = fragment.spec_trim(line);
        match spec_number(t.text(line)) {
            Some(n) => Ok(n),
            None => Err(Error { fragment: t, message: ErrorMessage::InvalidNumber }),
        }
    }

    fn parse(line: &Vec<u8>, fragment: Fragment) -> (r: Result<Number, Error>) {
        let t = fragment.trim(line);
        let ghost text = t.text(line@);
        if t.end - t.start >= 2 && line[t.start] == 48 {
            let b1 = line[t.start + 1];
            proof {
                assert(text[0] == line@[t.start as int]);
                assert(text[1] == line@[t.start + 1]);
                assert(text.skip(2) =~= line@.subrange(t.start + 2, t.end as int));
            }
            let rest = Fragment { line_number: t.line_number, start: t.start + 2, end: t.end };
            if b1 == 120 || b1 == 88 {
                if let Some(value) = parse_radix(line, rest, 16) {
                    return Ok(Number { value, format: Format::Hexadecimal });
                }
            } else if b1 == 98 || b1 == 66 {
                if let Some(value) = parse_radix(line, rest, 2) {
                    return Ok(Number { value, format: Format::Binary });
                }
            }
        }
        if let Some(value) = parse_radix(line, t, 10) {
            return Ok(Number { value, format: Format::Decimal });
        }
        Err(Error { fragment: t, message: ErrorMessage::InvalidNumber })
    }
}

impl ParseArg for Name {
    open spec fn spec_parse(line: Seq<u8>, fragment: Fragment) -> Result<NameV, Error> {
        let t = fragment.spec_trim(line);
        if spec_is_identifier(t.text(line)) {
            Ok(NameV { name: t.text(line), fragment: t })
        } else {
            Err(Error { fragment: t, message: ErrorMessage::InvalidName })
        }
    }

    fn parse(line: &Vec<u8>, fragment: Fragment) -> (r: Result<Name, Error>) {
        let t = fragment.trim(line);
        if is_identifier(line, t) {
            Ok(Name { name: t.as_str(line), fragment: t })
        } else {
            Err(Error { fragment: t, message: ErrorMessage::InvalidName })
        }
    }
}

impl ParseArg for Constant {
    open spec fn spec_parse(line: Seq<u8>, fragment: Fragment) -> Result<ConstantV, Error> {
        let t = fragment.spec_trim(line);
        let text = t.text(line);
        if spec_register_name(text) is Some {
            Err(Error { fragment: t, message: ErrorMessage::InvalidConstant })
        } else if spec_number(text) is Some {
            Ok(ConstantV::Number(spec_number(text)->Some_0))
        } else if spec_is_identifier(text) {
            Ok(ConstantV::Name(NameV { name: text, fragment: t }))
        } else {
            Err(Error { fragment: t, message: ErrorMessage::InvalidValue })
        }
    }

    fn parse(line: &Vec<u8>, fragment: Fragment) -> (r: Result<Constant, Error>) {
        let t = fragment.trim(line);
        if let Ok(_) = Register::parse(line, t) {
            Err(Error { fragment: t, message: ErrorMessage::InvalidConstant })
        } else if let Ok(num) = Number::parse(line, t) {
            Ok(Constant::Number(num))
        } else if let Ok(name) = Name::parse(line, t) {
            Ok(Constant::Name(name))
        } else {
            Err(Error { fragment: t, message: ErrorMessage::InvalidValue })
        }
    }
}

impl ParseArg for Value {
    open spec fn spec_parse(line: Seq<u8>, fragment: Fragment) -> Result<ValueV, Error> {
        let t = fragment.spec_trim(line);
        match spec_register_name(t.text(line)) {
            Some(reg) => Ok(ValueV::Register(reg)),
            None => match Constant::spec_parse(line, fragment) {
                Ok(c) => Ok(ValueV::Constant(c)),
                Err(_) => Err(Error { fragment: t, message: ErrorMessage::InvalidValue }),
            },
        }
    }

    fn parse(line: &Vec<u8>, fragment: Fragment) -> (r: Result<Value, Error>) {
        if let Ok(reg) = Register::parse(line, fragment) {
            Ok(Value::Register(reg))
        } else if let Ok(constant) = Constant::parse(line, fragment) {
            Ok(Value::Constant(constant))
        } else {
            Err(Error { fragment: fragment.trim(line), message: ErrorMessage::InvalidValue })
        }
    }
}

impl ParseArg for Address {
    open spec fn spec_parse(line: Seq<u8>, fragment: Fragment) -> Result<AddressV, Error> {
        let t = fragment.spec_trim(line);
        match spec_find(line, t.start as int, t.end as int, '+' as u8) {
            None => match Value::spec_parse(line, t) {
                Ok(v) => Ok(AddressV { value: v, offset: None }),
                Err(e) => Err(e),
            },
            Some(i) => {
                let value_frag = Fragment {
                    line_number: t.line_number,
                    start: t.start,
                    end: i as usize,
                };
                let plus = Fragment {
                    line_number: t.line_number,
                    start: i as usize,
                    end: (i + 1) as usize,
                };
                let offset_frag = Fragment {
                    line_number: t.line_number,
                    start: (i + 1) as usize,
                    end: t.end,
                };
                match Value::spec_parse(line, value_frag) {
                    Err(e) => Err(e),
                    Ok(v) => match Constant::spec_parse(line, offset_frag) {
                        Err(e) => Err(
                            e.spec_or(
                                Error { fragment: plus, message: ErrorMessage::MissingOffset },
                            ),
                        ),
                        Ok(c) => Ok(AddressV { value: v, offset: Some(c) }),
                    },
                }
            },
        }
    }

    fn parse(line: &Vec<u8>, fragment: Fragment) -> (r: Result<Address, Error>) {
        let t = fragment.trim(line);
        proof {
            crate::source::lemma_find_in_range(line@, t.start as int, t.end as int, 43);
        }
        let (value_frag, offset_part) = t.split_on(line, 43);
        let value = match Value::parse(line, value_frag) {
            Ok(v) => v,
            Err(e) => {
                return Err(e);
            },
        };
        let offset = if let Some((plus, offset_frag)) = offset_part {
            match Constant::parse(line, offset_frag) {
                Ok(c) => Some(c),
                Err(e) => {
                    return Err(
                        e.or(Error { fragment: plus, message: ErrorMessage::MissingOffset }),
                    );
                },
            }
        } else {
            None
        };
        Ok(Address { value, offset })
    }
}

/// One parsed instruction of the assembly language. `Bytes` is the `db`
/// directive: a list of literal bytes.
#[derive(Debug, Clone)]
pub enum Instruction {
    Nop,
    Ret,
    Wait,
    Poll,
    Not(Register),
    Neg(Register),
    Pop(Register),
    Push(Value),
    Jmp(Value),
    Call(Value),
    Mov(Register, Value),
    Add(Register, Value),
    Sub(Register, Value),
    Xor(Register, Value),
    And(Register, Value),
    Or(Register, Value),
    Shl(Register, Value),
    Shr(Register, Value),
    Cmp(Register, Value),
    Load(Register, Address),
    Loadw(Register, Address),
    Store(Value, Address),
    Storew(Value, Address),
    Jez(Register, Constant),
    Jnz(Register, Constant),
    Jl(Register, Constant),
    Jg(Register, Constant),
    Jle(Register, Constant),
    Jge(Register, Constant),
    Read(DiskId, Constant, Constant),
    Write(DiskId, Constant, Constant),
    Bytes(Vec<Number>),
}

/// Mathematical form of [`Instruction`].
pub ghost enum InstructionV {
    Nop,
    Ret,
    Wait,
    Poll,
    Not(Register),
    Neg(Register),
    Pop(Register),
    Push(ValueV),
    Jmp(ValueV),
    Call(ValueV),
    Mov(Register, ValueV),
    Add(Register, ValueV),
    Sub(Register, ValueV),
    Xor(Register, ValueV),
    And(Register, ValueV),
    Or(Register, ValueV),
    Shl(Register, ValueV),
    Shr(Register, ValueV),
    Cmp(Register, ValueV),
    Load(Register, AddressV),
    Loadw(Register, AddressV),
    Store(ValueV, AddressV),
    Storew(ValueV, AddressV),
    Jez(Register, ConstantV),
    Jnz(Register, ConstantV),
    Jl(Register, ConstantV),
    Jg(Register, ConstantV),
    Jle(Register, ConstantV),
    Jge(Register, ConstantV),
    Read(DiskId, ConstantV, ConstantV),
    Write(DiskId, ConstantV, ConstantV),
    Bytes(Seq<Number>),
}

impl View for Instruction {
    type V = InstructionV;

    open spec fn view(&self) -> InstructionV {
        match self {
            Instruction::Nop => InstructionV::Nop,
            Instruction::Ret => InstructionV::Ret,
            Instruction::Wait => InstructionV::Wait,
            Instruction::Poll => InstructionV::Poll,
            Instruction::Not(r) => InstructionV::Not(*r),
            Instruction::Neg(r) => InstructionV::Neg(*r),
            Instruction::Pop(r) => InstructionV::Pop(*r),
            Instruction::Push(v) => InstructionV::Push(v@),
            Instruction::Jmp(v) => InstructionV::Jmp(v@),
            Instruction::Call(v) => InstructionV::Call(v@),
            Instruction::Mov(r, v) => InstructionV::Mov(*r, v@),
            Instruction::Add(r, v) => InstructionV::Add(*r, v@),
            Instruction::Sub(r, v) => InstructionV::Sub(*r, v@),
            Instruction::Xor(r, v) => InstructionV::Xor(*r, v@),
            Instruction::And(r, v) => InstructionV::And(*r, v@),
            Instruction::Or(r, v) => InstructionV::Or(*r, v@),
            Instruction::Shl(r, v) => InstructionV::Shl(*r, v@),
            Instruction::Shr(r, v) => InstructionV::Shr(*r, v@),
            Instruction::Cmp(r, v) => InstructionV::Cmp(*r, v@),
            Instruction::Load(r, a) => InstructionV::Load(*r, a@),
            Instruction::Loadw(r, a) => InstructionV::Loadw(*r, a@),
            Instruction::Store(v, a) => InstructionV::Store(v@, a@),
            Instruction::Storew(v, a) => InstructionV::Storew(v@, a@),
            Instruction::Jez(r, c) => InstructionV::Jez(*r, c@),
            Instruction::Jnz(r, c) => InstructionV::Jnz(*r, c@),
            Instruction::Jl(r, c) => InstructionV::Jl(*r, c@),
            Instruction::Jg(r, c) => InstructionV::Jg(*r, c@),
            Instruction::Jle(r, c) => InstructionV::Jle(*r, c@),
            Instruction::Jge(r, c) => InstructionV::Jge(*r, c@),
            Instruction::Read(d, c1, c2) => InstructionV::Read(*d, c1@, c2@),
            Instruction::Write(d, c1, c2) => InstructionV::Write(*d, c1@, c2@),
            Instruction::Bytes(ns) => InstructionV::Bytes(ns@),
        }
    }
}

/// One parsed source line: an optional label and an optional instruction.
#[derive(Debug, Clone)]
pub struct Line {
    pub label: Option<Vec<u8>>,
    pub instruction: Option<Instruction>,
}

/// Mathematical form of [`Line`].
pub ghost struct LineV {
    pub label: Option<Seq<u8>>,
    pub instruction: Option<InstructionV>,
}

impl View for Line {
    type V = LineV;

    open spec fn view(&self) -> LineV {
        LineV {
            label: match &self.label {
                Some(l) => Some(l@),
                None => None,
            },
            instruction: match &self.instruction {
                Some(i) => Some(i@),
                None => None,
            },
        }
    }
}

/// An argument list that must be empty.
pub open spec fn spec_parse0(line: Seq<u8>, args: Fragment, opcode: Fragment) -> Result<
    (),
    Error,
> {
    let t = args.spec_trim(line);
    if t.spec_len() == 0 {
        Ok(())
    } else {
        Err(Error { fragment: t, message: ErrorMessage::ExpectedNoArguments })
    }
}

/// An argument list of exactly one argument.
pub open spec fn spec_parse1<A: ParseArg>(line: Seq<u8>, args: Fragment, opcode: Fragment)
    -> Result<A::V, Error> {
    let t = args.spec_trim(line);
    if t.spec_len() == 0 {
        Err(Error { fragment: opcode, message: ErrorMessage::ExpectedOneArgument })
    } else if spec_find(line, t.start as int, t.end as int, ',' as u8) is Some {
        Err(Error { fragment: t, message: ErrorMessage::ExpectedOneArgument })
    } else {
        A::spec_parse(line, t)
    }
}

/// An argument list of exactly two comma-separated arguments.
pub open spec fn spec_parse2<A: ParseArg, B: ParseArg>(
    line: Seq<u8>,
    args: Fragment,
    opcode: Fragment,
) -> Result<(A::V, B::V), Error> {
    let t = args.spec_trim(line);
    if t.spec_len() == 0 {
        Err(Error { fragment: opcode, message: ErrorMessage::ExpectedTwoArguments })
    } else {
        match spec_find(line, t.start as int, t.end as int, ',' as u8) {
            None => Err(Error { fragment: t, message: ErrorMessage::ExpectedTwoArguments }),
            Some(i) => {
                let a_frag = Fragment { line_number: t.line_number, start: t.start, end: i as usize };
                let c = Fragment { line_number: t.line_number, start: i as usize, end: (i + 1) as usize };
                let b_frag = Fragment { line_number: t.line_number, start: (i + 1) as usize, end: t.end };
                if spec_find(line, b_frag.start as int, b_frag.end as int, ',' as u8) is Some {
                    Err(Error { fragment: t, message: ErrorMessage::ExpectedTwoArguments })
                } else {
                    match A::spec_parse(line, a_frag) {
                        Err(e) => Err(
                            e.spec_or(
                                Error { fragment: c, message: ErrorMessage::MissingArgument },
                            ),
                        ),
                        Ok(a) => match B::spec_parse(line, b_frag) {
                            Err(e) => Err(
                                e.spec_or(
                                    Error { fragment: c, message: ErrorMessage::MissingArgument },
                                ),
                            ),
                            Ok(b) => Ok((a, b)),
                        },
                    }
                }
            },
        }
    }
}

/// An argument list of exactly three comma-separated arguments.
pub open spec fn spec_parse3<A: ParseArg, B: ParseArg, C: ParseArg>(
    line: Seq<u8>,
    args: Fragment,
    opcode: Fragment,
) -> Result<(A::V, B::V, C::V), Error> {
    let t = args.spec_trim(line);
    if t.spec_len() == 0 {
        Err(Error { fragment: opcode, message: ErrorMessage::ExpectedThreeArguments })
    } else {
        match spec_find(line, t.start as int, t.end as int, ',' as u8) {
            None => Err(Error { fragment: t, message: ErrorMessage::ExpectedThreeArguments }),
            Some(i) => {
                let a_frag = Fragment { line_number: t.line_number, start: t.start, end: i as usize };
                let c1 = Fragment { line_number: t.line_number, start: i as usize, end: (i + 1) as usize };
                let bb = Fragment { line_number: t.line_number, start: (i + 1) as usize, end: t.end };
                match spec_find(line, bb.start as int, bb.end as int, ',' as u8) {
                    None => Err(
                        Error { fragment: t, message: ErrorMessage::ExpectedThreeArguments },
                    ),
                    Some(j) => {
                        let b_frag = Fragment { line_number: t.line_number, start: bb.start, end: j as usize };
                        let c2 = Fragment { line_number: t.line_number, start: j as usize, end: (j + 1) as usize };
                        let c_frag = Fragment { line_number: t.line_number, start: (j + 1) as usize, end: t.end };
                        if spec_find(line, c_frag.start as int, c_frag.end as int, ',' as u8)
                            is Some {
                            Err(
                                Error {
                                    fragment: t,
                                    message: ErrorMessage::ExpectedThreeArguments,
                                },
                            )
                        } else {
                            match A::spec_parse(line, a_frag) {
                                Err(e) => Err(
                                    e.spec_or(
                                        Error {
                                            fragment: c1,
                                            message: ErrorMessage::MissingArgument,
                                        },
                                    ),
                                ),
                                Ok(a) => match B::spec_parse(line, b_frag) {
                                    Err(e) => Err(
                                        e.spec_or(
                                            Error {
                                                fragment: c1,
                                                message: ErrorMessage::MissingArgument,
                                            },
                                        ),
                                    ),
                                    Ok(b) => match C::spec_parse(line, c_frag) {
                                        Err(e) => Err(
                                            e.spec_or(
                                                Error {
                                                    fragment: c2,
                                                    message: ErrorMessage::MissingArgument,
                                                },
                                            ),
                                        ),
                                        Ok(c) => Ok((a, b, c)),
                                    },
                                },
                            }
                        }
                    },
                }
            },
        }
    }
}

pub fn parse0(line: &Vec<u8>, args: Fragment, opcode: Fragment) -> (r: Result<(), Error>)
    requires
        args.wf(line@),
    ensures
        r == spec_parse0(line@, args, opcode),
{
    let t = args.trim(line);
    if t.start == t.end {
        Ok(())
    } else {
        Err(Error { fragment: t, message: ErrorMessage::ExpectedNoArguments })
    }
}

pub fn parse1<A: ParseArg>(line: &Vec<u8>, args: Fragment, opcode: Fragment) -> (r: Result<
    A,
    Error,
>)
    requires
        args.wf(line@),
    ensures
        match r {
            Ok(a) => spec_parse1::<A>(line@, args, opcode) == Ok::<A::V, Error>(a@),
            Err(e) => spec_parse1::<A>(line@, args, opcode) == Err::<A::V, Error>(e),
        },
{
    let t = args.trim(line);
    if t.start == t.end {
        return Err(Error { fragment: opcode, message: ErrorMessage::ExpectedOneArgument });
    }
    proof {
        crate::source::lemma_find_in_range(line@, t.start as int, t.end as int, 44);
    }
    let (_, rest) = t.split_on(line, 44);
    if rest.is_some() {
        return Err(Error { fragment: t, message: ErrorMessage::ExpectedOneArgument });
    }
    A::parse(line, t)
}

pub fn parse2<A: ParseArg, B: ParseArg>(line: &Vec<u8>, args: Fragment, opcode: Fragment) -> (r:
    Result<(A, B), Error>)
    requires
        args.wf(line@),
    ensures
        match r {
            Ok(ab) => spec_parse2::<A, B>(line@, args, opcode) == Ok::<(A::V, B::V), Error>(
                (ab.0@, ab.1@),
            ),
            Err(e) => spec_parse2::<A, B>(line@, args, opcode) == Err::<(A::V, B::V), Error>(e),
        },
{
    let t = args.trim(line);
    if t.start == t.end {
        return Err(Error { fragment: opcode, message: ErrorMessage::ExpectedTwoArguments });
    }
    proof {
        crate::source::lemma_find_in_range(line@, t.start as int, t.end as int, 44);
    }
    let (a_frag, rest) = t.split_on(line, 44);
    match rest {
        None => Err(Error { fragment: t, message: ErrorMessage::ExpectedTwoArguments }),
        Some((c, b_frag)) => {
            proof {
                crate::source::lemma_find_in_range(
                    line@,
                    b_frag.start as int,
                    b_frag.end as int,
                    44,
                );
            }
            let (_, more) = b_frag.split_on(line, 44);
            if more.is_some() {
                return Err(Error { fragment: t, message: ErrorMessage::ExpectedTwoArguments });
            }
            let a = match A::parse(line, a_frag) {
                Ok(a) => a,
                Err(e) => {
                    return Err(
                        e.or(Error { fragment: c, message: ErrorMessage::MissingArgument }),
                    );
                },
            };
            let b = match B::parse(line, b_frag) {
                Ok(b) => b,
                Err(e) => {
                    return Err(
                        e.or(Error { fragment: c, message: ErrorMessage::MissingArgument }),
                    );
                },
            };
            Ok((a, b))
        },
    }
}

pub fn parse3<A: ParseArg, B: ParseArg, C: ParseArg>(
    line: &Vec<u8>,
    args: Fragment,
    opcode: Fragment,
) -> (r: Result<(A, B, C), Error>)
    requires
        args.wf(line@),
    ensures
        match r {
            Ok(abc) => spec_parse3::<A, B, C>(line@, args, opcode) == Ok::<
                (A::V, B::V, C::V),
                Error,
            >((abc.0@, abc.1@, abc.2@)),
            Err(e) => spec_parse3::<A, B, C>(line@, args, opcode) == Err::<
                (A::V, B::V, C::V),
                Error,
            >(e),
        },
{
    let t = args.trim(line);
    if t.start == t.end {
        return Err(Error { fragment: opcode, message: ErrorMessage::ExpectedThreeArguments });
    }
    proof {
        crate::source::lemma_find_in_range(line@, t.start as int, t.end as int, 44);
    }
    let (a_frag, rest) = t.split_on(line, 44);
    match rest {
        None => Err(Error { fragment: t, message: ErrorMessage::ExpectedThreeArguments }),
        Some((c1, bb)) => {
            proof {
                crate::source::lemma_find_in_range(line@, bb.start as int, bb.end as int, 44);
            }
            let (b_frag, rest2) = bb.split_on(line, 44);
            match rest2 {
                None => Err(
                    Error { fragment: t, message: ErrorMessage::ExpectedThreeArguments },
                ),
                Some((c2, c_frag)) => {
                    proof {
                        crate::source::lemma_find_in_range(
                            line@,
                            c_frag.start as int,
                            c_frag.end as int,
                            44,
                        );
                    }
                    let (_, more) = c_frag.split_on(line, 44);
                    if more.is_some() {
                        return Err(
                            Error { fragment: t, message: ErrorMessage::ExpectedThreeArguments },
                        );
                    }
                    let a = match A::parse(line, a_frag) {
                        Ok(a) => a,
                        Err(e) => {
                            return Err(
                                e.or(
                                    Error {
                                        fragment: c1,
                                        message: ErrorMessage::MissingArgument,
                                    },
                                ),
                            );
                        },
                    };
                    let b = match B::parse(line, b_frag) {
                        Ok(b) => b,
                        Err(e) => {
                            return Err(
                                e.or(
                                    Error {
                                        fragment: c1,
                                        message: ErrorMessage::MissingArgument,
                                    },
                                ),
                            );
                        },
                    };
                    let c = match C::parse(line, c_frag) {
                        Ok(c) => c,
                        Err(e) => {
                            return Err(
                                e.or(
                                    Error {
                                        fragment: c2,
                                        message: ErrorMessage::MissingArgument,
                                    },
                                ),
                            );
                        },
                    };
                    Ok((a, b, c))
                },
            }
        },
    }
}

/// ASCII lowercase folding of one byte.
pub open spec fn to_lower(b: u8) -> u8 {
    if 'A' as u8 <= b && b <= 'Z' as u8 {
        (b + 32) as u8
    } else {
        b
    }
}

/// ASCII lowercase folding of a byte string.
pub open spec fn lower_text(text: Seq<u8>) -> Seq<u8> {
    text.map_values(|b: u8| to_lower(b))
}

/// The bytes a packed mnemonic word holds, low byte first, up to eight.
pub open spec fn mnemonic_bytes(s: int) -> Seq<u8>
    decreases s,
{
    if s <= 0 {
        Seq::empty()
    } else {
        seq![(s % 256) as u8] + mnemonic_bytes(s / 256)
    }
}

/// Whether the fragment's text is the packed mnemonic, ignoring ASCII case.
pub open spec fn spec_matches(line: Seq<u8>, fragment: Fragment, s: int) -> bool {
    lower_text(fragment.text(line)) == mnemonic_bytes(s)
}

fn lower_byte(b: u8) -> (r: u8)
    ensures
        r == to_lower(b),
{
    if 65 <= b && b <= 90 {
        b + 32
    } else {
        b
    }
}

proof fn lemma_lower_text_head(text: Seq<u8>)
    requires
        text.len() > 0,
    ensures
        lower_text(text) == seq![to_lower(text[0])] + lower_text(text.drop_first()),
        lower_text(text).len() == text.len(),
{
    assert(lower_text(text) =~= seq![to_lower(text[0])] + lower_text(text.drop_first()));
}

/// Whether the fragment spells the packed mnemonic `s`, case-insensitively.
pub fn matches(line: &Vec<u8>, fragment: Fragment, s: u64) -> (r: bool)
    requires
        fragment.wf(line@),
    ensures
        r == spec_matches(line@, fragment, s as int),
{
    let ghost goal = spec_matches(line@, fragment, s as int);
    let mut i = fragment.start;
    let mut w = s;
    while i < fragment.end
        invariant
            fragment.wf(line@),
            fragment.start <= i <= fragment.end,
            goal == spec_matches(line@, fragment, s as int),
            goal == (lower_text(line@.subrange(i as int, fragment.end as int)) == mnemonic_bytes(
                w as int,
            )),
        decreases fragment.end - i,
    {
        let ghost rest = line@.subrange(i as int, fragment.end as int);
        proof {
            lemma_lower_text_head(rest);
            assert(rest[0] == line@[i as int]);
            assert(rest.drop_first() =~= line@.subrange(i + 1, fragment.end as int));
        }
        let b = lower_byte(line[i]);
        if w == 0 {
            proof {
                assert(lower_text(rest).len() > 0);
                assert(mnemonic_bytes(w as int).len() == 0);
            }
            return false;
        }
        let m = (w % 256) as u8;
        proof {
            assert(mnemonic_bytes(w as int) == seq![(w as int % 256) as u8] + mnemonic_bytes(
                w as int / 256,
            ));
        }
        if b != m {
            proof {
                assert(lower_text(rest)[0] == to_lower(rest[0]));
                assert(mnemonic_bytes(w as int)[0] == m);
            }
            return false;
        }
        proof {
            assert((lower_text(rest) == mnemonic_bytes(w as int)) == (lower_text(
                rest.drop_first(),
            ) == mnemonic_bytes(w as int / 256))) by {
                if lower_text(rest.drop_first()) == mnemonic_bytes(w as int / 256) {
                    assert(lower_text(rest) =~= mnemonic_bytes(w as int));
                }
                if lower_text(rest) == mnemonic_bytes(w as int) {
                    let t1 = lower_text(rest.drop_first());
                    let t2 = mnemonic_bytes(w as int / 256);
                    assert(t1.len() == t2.len());
                    assert forall|k: int| 0 <= k < t1.len() implies t1[k] == t2[k] by {
                        assert(t1[k] == (seq![to_lower(rest[0])] + t1)[k + 1]);
                        assert(t2[k] == (seq![(w as int % 256) as u8] + t2)[k + 1]);
                    }
                    assert(t1 =~= t2);
                }
            }
        }
        i = i + 1;
        w = w / 256;
    }
    proof {
        assert(line@.subrange(i as int, fragment.end as int).len() == 0);
        assert(lower_text(line@.subrange(i as int, fragment.end as int)) =~= Seq::<u8>::empty());
        if w == 0 {
            assert(mnemonic_bytes(w as int).len() == 0);
            assert(lower_text(line@.subrange(i as int, fragment.end as int)) =~= mnemonic_bytes(
                w as int,
            ));
        } else {
            assert(mnemonic_bytes(w as int).len() > 0);
        }
    }
    w == 0
}

/// The `db` directive's arguments: one or more comma-separated byte values.
/// `if_missing` is the span blamed when the next value is absent.
pub open spec fn spec_parse_data(line: Seq<u8>, args: Fragment, if_missing: Fragment) -> Result<
    Seq<Number>,
    Error,
>
    decreases args.end - args.start,
    via spec_parse_data_decreases
{
    match spec_find(line, args.start as int, args.end as int, ',' as u8) {
        None => {
            let last = args.spec_trim(line);
            if last.spec_len() == 0 {
                Err(Error { fragment: if_missing, message: ErrorMessage::MissingByte })
            } else {
                match Number::spec_parse(line, args) {
                    Err(e) => Err(e),
                    Ok(n) => if n.value >= 256 {
                        Err(Error { fragment: last, message: ErrorMessage::ByteValueTooLarge })
                    } else {
                        Ok(seq![n])
                    },
                }
            }
        },
        Some(i) => {
            let a_raw = Fragment { line_number: args.line_number, start: args.start, end: i as usize };
            let c = Fragment { line_number: args.line_number, start: i as usize, end: (i + 1) as usize };
            let rest = Fragment { line_number: args.line_number, start: (i + 1) as usize, end: args.end };
            let a = a_raw.spec_trim(line);
            if a.spec_len() == 0 {
                Err(Error { fragment: c, message: ErrorMessage::MissingByte })
            } else {
                match Number::spec_parse(line, a_raw) {
                    Err(e) => Err(e),
                    Ok(n) => if n.value >= 256 {
                        Err(Error { fragment: a, message: ErrorMessage::ByteValueTooLarge })
                    } else {
                        match spec_parse_data(line, rest, c) {
                            Err(e) => Err(e),
                            Ok(s) => Ok(seq![n] + s),
                        }
                    },
                }
            }
        },
    }
}

#[via_fn]
proof fn spec_parse_data_decreases(line: Seq<u8>, args: Fragment, if_missing: Fragment) {
    crate::source::lemma_find_in_range(line, args.start as int, args.end as int, ',' as u8);
}

fn parse_data_rec(line: &Vec<u8>, cur: Fragment, if_missing: Fragment) -> (r: Result<
    Vec<Number>,
    Error,
>)
    requires
        cur.wf(line@),
    ensures
        match r {
            Ok(ns) => spec_parse_data(line@, cur, if_missing) == Ok::<Seq<Number>, Error>(ns@),
            Err(e) => spec_parse_data(line@, cur, if_missing) == Err::<Seq<Number>, Error>(e),
        },
    decreases cur.end - cur.start,
{
    proof {
        crate::source::lemma_find_in_range(line@, cur.start as int, cur.end as int, 44);
    }
    let (a_raw, rest) = cur.split_on(line, 44);
    match rest {
        None => {
            let last = cur.trim(line);
            if last.start == last.end {
                return Err(Error { fragment: if_missing, message: ErrorMessage::MissingByte });
            }
            let num = match Number::parse(line, cur) {
                Ok(n) => n,
                Err(e) => {
                    return Err(e);
                },
            };
            if num.value >= 256 {
                return Err(Error { fragment: last, message: ErrorMessage::ByteValueTooLarge });
            }
            let mut v: Vec<Number> = Vec::new();
            v.push(num);
            proof {
                assert(v@ =~= seq![num]);
            }
            Ok(v)
        },
        Some((c, rest)) => {
            let a = a_raw.trim(line);
            if a.start == a.end {
                return Err(Error { fragment: c, message: ErrorMessage::MissingByte });
            }
            let num = match Number::parse(line, a_raw) {
                Ok(n) => n,
                Err(e) => {
                    return Err(e);
                },
            };
            if num.value >= 256 {
                return Err(Error { fragment: a, message: ErrorMessage::ByteValueTooLarge });
            }
            let mut v = match parse_data_rec(line, rest, c) {
                Ok(v) => v,
                Err(e) => {
                    return Err(e);
                },
            };
            let ghost tail = v@;
            v.insert(0, num);
            proof {
                assert(v@ =~= seq![num] + tail);
            }
            Ok(v)
        },
    }
}

/// Parse the `db` directive's arguments into their byte values.
pub fn parse_data(line: &Vec<u8>, args: Fragment, opcode: Fragment) -> (r: Result<
    Vec<Number>,
    Error,
>)
    requires
        args.wf(line@),
    ensures
        match r {
            Ok(ns) => spec_parse_data(line@, args.spec_trim(line@), opcode) == Ok::<
                Seq<Number>,
                Error,
            >(ns@),
            Err(e) => spec_parse_data(line@, args.spec_trim(line@), opcode) == Err::<
                Seq<Number>,
                Error,
            >(e),
        },
{
    let t = args.trim(line);
    parse_data_rec(line, t, opcode)
}

pub const MN_NOP: u64 = 0x706f6e;

pub const MN_RET: u64 = 0x746572;

pub const MN_WAIT: u64 = 0x74696177;

pub const MN_POLL: u64 = 0x6c6c6f70;

pub const MN_NOT: u64 = 0x746f6e;

pub const MN_NEG: u64 = 0x67656e;

pub const MN_POP: u64 = 0x706f70;

pub const MN_PUSH: u64 = 0x68737570;

pub const MN_JMP: u64 = 0x706d6a;

pub const MN_CALL: u64 = 0x6c6c6163;

pub const MN_MOV: u64 = 0x766f6d;

pub const MN_ADD: u64 = 0x646461;

pub const MN_SUB: u64 = 0x627573;

pub const MN_XOR: u64 = 0x726f78;

pub const MN_AND: u64 = 0x646e61;

pub const MN_OR: u64 = 0x726f;

pub const MN_SHL: u64 = 0x6c6873;

pub const MN_SHR: u64 = 0x726873;

pub const MN_CMP: u64 = 0x706d63;

pub const MN_LOAD: u64 = 0x64616f6c;

pub const MN_LOADW: u64 = 0x7764616f6c;

pub const MN_STORE: u64 = 0x65726f7473;

pub const MN_STOREW: u64 = 0x7765726f7473;

pub const MN_JEZ: u64 = 0x7a656a;

pub const MN_JNZ: u64 = 0x7a6e6a;

pub const MN_JL: u64 = 0x6c6a;

pub const MN_JG: u64 = 0x676a;

pub const MN_JLE: u64 = 0x656c6a;

pub const MN_JGE: u64 = 0x65676a;

pub const MN_READ: u64 = 0x64616572;

pub const MN_WRITE: u64 = 0x6574697277;

pub const MN_DB: u64 = 0x6264;

/// The instruction a mnemonic and its arguments denote. Mnemonics are
/// case-insensitive and tried in a fixed order; an unknown one is
/// `invalid instruction`.
pub open spec fn spec_dispatch(line: Seq<u8>, opcode: Fragment, args: Fragment) -> Result<
    InstructionV,
    Error,
> {
    if spec_matches(line, opcode, MN_NOP as int) {
        match spec_parse0(line, args, opcode) {
            Ok(_) => Ok(InstructionV::Nop),
            Err(e) => Err(e),
        }
    } else if spec_matches(line, opcode, MN_RET as int) {
        match spec_parse0(line, args, opcode) {
            Ok(_) => Ok(InstructionV::Ret),
            Err(e) => Err(e),
        }
    } else if spec_matches(line, opcode, MN_WAIT as int) {
        match spec_parse0(line, args, opcode) {
            Ok(_) => Ok(InstructionV::Wait),
            Err(e) => Err(e),
        }
    } else if spec_matches(line, opcode, MN_POLL as int) {
        match spec_parse0(line, args, opcode) {
            Ok(_) => Ok(InstructionV::Poll),
            Err(e) => Err(e),
        }
    } else if spec_matches(line, opcode, MN_NOT as int) {
        match spec_parse1::<Register>(line, args, opcode) {
            Ok(r) => Ok(InstructionV::Not(r)),
            Err(e) => Err(e),
        }
    } else if spec_matches(line, opcode, MN_NEG as int) {
        match spec_parse1::<Register>(line, args, opcode) {
            Ok(r) => Ok(InstructionV::Neg(r)),
            Err(e) => Err(e),
        }
    } else if spec_matches(line, opcode, MN_POP as int) {
        match spec_parse1::<Register>(line, args, opcode) {
            Ok(r) => Ok(InstructionV::Pop(r)),
            Err(e) => Err(e),
        }
    } else if spec_matches(line, opcode, MN_PUSH as int) {
        match spec_parse1::<Value>(line, args, opcode) {
            Ok(v) => Ok(InstructionV::Push(v)),
            Err(e) => Err(e),
        }
    } else if spec_matches(line, opcode, MN_JMP as int) {
        match spec_parse1::<Value>(line, args, opcode) {
            Ok(v) => Ok(InstructionV::Jmp(v)),
            Err(e) => Err(e),
        }
    } else if spec_matches(line, opcode, MN_CALL as int) {
        match spec_parse1::<Value>(line, args, opcode) {
            Ok(v) => Ok(InstructionV::Call(v)),
            Err(e) => Err(e),
        }
    } else if spec_matches(line, opcode, MN_MOV as int) {
        match spec_parse2::<Register, Value>(line, args, opcode) {
            Ok((a, b)) => Ok(InstructionV::Mov(a, b)),
            Err(e) => Err(e),
        }
    } else if spec_matches(line, opcode, MN_ADD as int) {
        match spec_parse2::<Register, Value>(line, args, opcode) {
            Ok((a, b)) => Ok(InstructionV::Add(a, b)),
            Err(e) => Err(e),
        }
    } else if spec_matches(line, opcode, MN_SUB as int) {
        match spec_parse2::<Register, Value>(line, args, opcode) {
            Ok((a, b)) => Ok(InstructionV::Sub(a, b)),
            Err(e) => Err(e),
        }
    } else if spec_matches(line, opcode, MN_XOR as int) {
        match spec_parse2::<Register, Value>(line, args, opcode) {
            Ok((a, b)) => Ok(InstructionV::Xor(a, b)),
            Err(e) => Err(e),
        }
    } else if spec_matches(line, opcode, MN_AND as int) {
        match spec_parse2::<Register, Value>(line, args, opcode) {
            Ok((a, b)) => Ok(InstructionV::And(a, b)),
            Err(e) => Err(e),
        }
    } else if spec_matches(line, opcode, MN_OR as int) {
        match spec_parse2::<Register, Value>(line, args, opcode) {
            Ok((a, b)) => Ok(InstructionV::Or(a, b)),
            Err(e) => Err(e),
        }
    } else if spec_matches(line, opcode, MN_SHL as int) {
        match spec_parse2::<Register, Value>(line, args, opcode) {
            Ok((a, b)) => Ok(InstructionV::Shl(a, b)),
            Err(e) => Err(e),
        }
    } else if spec_matches(line, opcode, MN_SHR as int) {
        match spec_parse2::<Register, Value>(line, args, opcode) {
            Ok((a, b)) => Ok(InstructionV::Shr(a, b)),
            Err(e) => Err(e),
        }
    } else if spec_matches(line, opcode, MN_CMP as int) {
        match spec_parse2::<Register, Value>(line, args, opcode) {
            Ok((a, b)) => Ok(InstructionV::Cmp(a, b)),
            Err(e) => Err(e),
        }
    } else if spec_matches(line, opcode, MN_LOAD as int) {
        match spec_parse2::<Register, Address>(line, args, opcode) {
            Ok((a, b)) => Ok(InstructionV::Load(a, b)),
            Err(e) => Err(e),
        }
    } else if spec_matches(line, opcode, MN_LOADW as int) {
        match spec_parse2::<Register, Address>(line, args, opcode) {
            Ok((a, b)) => Ok(InstructionV::Loadw(a, b)),
            Err(e) => Err(e),
        }
    } else if spec_matches(line, opcode, MN_STORE as int) {
        match spec_parse2::<Value, Address>(line, args, opcode) {
            Ok((a, b)) => Ok(InstructionV::Store(a, b)),
            Err(e) => Err(e),
        }
    } else if spec_matches(line, opcode, MN_STOREW as int) {
        match spec_parse2::<Value, Address>(line, args, opcode) {
            Ok((a, b)) => Ok(InstructionV::Storew(a, b)),
            Err(e) => Err(e),
        }
    } else if spec_matches(line, opcode, MN_JEZ as int) {
        match spec_parse2::<Register, Constant>(line, args, opcode) {
            Ok((a, b)) => Ok(InstructionV::Jez(a, b)),
            Err(e) => Err(e),
        }
    } else if spec_matches(line, opcode, MN_JNZ as int) {
        match spec_parse2::<Register, Constant>(line, args, opcode) {
            Ok((a, b)) => Ok(InstructionV::Jnz(a, b)),
            Err(e) => Err(e),
        }
    } else if spec_matches(line, opcode, MN_JL as int) {
        match spec_parse2::<Register, Constant>(line, args, opcode) {
            Ok((a, b)) => Ok(InstructionV::Jl(a, b)),
            Err(e) => Err(e),
        }
    } else if spec_matches(line, opcode, MN_JG as int) {
        match spec_parse2::<Register, Constant>(line, args, opcode) {
            Ok((a, b)) => Ok(InstructionV::Jg(a, b)),
            Err(e) => Err(e),
        }
    } else if spec_matches(line, opcode, MN_JLE as int) {
        match spec_parse2::<Register, Constant>(line, args, opcode) {
            Ok((a, b)) => Ok(InstructionV::Jle(a, b)),
            Err(e) => Err(e),
        }
    } else if spec_matches(line, opcode, MN_JGE as int) {
        match spec_parse2::<Register, Constant>(line, args, opcode) {
            Ok((a, b)) => Ok(InstructionV::Jge(a, b)),
            Err(e) => Err(e),
        }
    } else if spec_matches(line, opcode, MN_READ as int) {
        match spec_parse3::<DiskId, Constant, Constant>(line, args, opcode) {
            Ok((d, a, b)) => Ok(InstructionV::Read(d, a, b)),
            Err(e) => Err(e),
        }
    } else if spec_matches(line, opcode, MN_WRITE as int) {
        match spec_parse3::<DiskId, Constant, Constant>(line, args, opcode) {
            Ok((d, a, b)) => Ok(InstructionV::Write(d, a, b)),
            Err(e) => Err(e),
        }
    } else if spec_matches(line, opcode, MN_DB as int) {
        match spec_parse_data(line, args.spec_trim(line), opcode) {
            Ok(ns) => Ok(InstructionV::Bytes(ns)),
            Err(e) => Err(e),
        }
    } else {
        Err(Error { fragment: opcode, message: ErrorMessage::InvalidInstruction })
    }
}

/// A line's instruction field: nothing on a blank line, else the mnemonic
/// before the first space dispatched on its arguments.
pub open spec fn spec_parse_instruction(line: Seq<u8>, fragment: Fragment) -> Result<
    Option<InstructionV>,
    Error,
> {
    let t = fragment.spec_trim(line);
    if t.spec_len() == 0 {
        Ok(None)
    } else {
        let (opcode, args) = match spec_find(line, t.start as int, t.end as int, ' ' as u8) {
            None => (t, Fragment { line_number: t.line_number, start: t.start, end: t.start }),
            Some(i) => (
                Fragment { line_number: t.line_number, start: t.start, end: i as usize }.spec_trim(
                    line,
                ),
                Fragment { line_number: t.line_number, start: (i + 1) as usize, end: t.end },
            ),
        };
        match spec_dispatch(line, opcode, args) {
            Ok(i) => Ok(Some(i)),
            Err(e) => Err(e),
        }
    }
}

/// Parse a line's instruction part, exactly as [`spec_parse_instruction`]
/// says.
pub fn parse_instruction(line: &Vec<u8>, fragment: Fragment) -> (r: Result<
    Option<Instruction>,
    Error,
>)
    requires
        fragment.wf(line@),
    ensures
        match r {
            Ok(Some(i)) => spec_parse_instruction(line@, fragment) == Ok::<
                Option<InstructionV>,
                Error,
            >(Some(i@)),
            Ok(None) => spec_parse_instruction(line@, fragment) == Ok::<
                Option<InstructionV>,
                Error,
            >(None),
            Err(e) => spec_parse_instruction(line@, fragment) == Err::<
                Option<InstructionV>,
                Error,
            >(e),
        },
{
    let t = fragment.trim(line);
    if t.start == t.end {
        return Ok(None);
    }
    proof {
        crate::source::lemma_find_in_range(line@, t.start as int, t.end as int, 32);
    }
    let (opcode_raw, rest) = t.split_on(line, 32);
    let (opcode, args) = match rest {
        None => (t, Fragment { line_number: t.line_number, start: t.start, end: t.start }),
        Some((_, a)) => (opcode_raw.trim(line), a),
    };
    match dispatch(line, opcode, args) {
        Ok(i) => Ok(Some(i)),
        Err(e) => Err(e),
    }
}

/// Dispatch a mnemonic on its arguments, exactly as [`spec_dispatch`] says.
fn dispatch(line: &Vec<u8>, opcode: Fragment, args: Fragment) -> (r: Result<Instruction, Error>)
    requires
        opcode.wf(line@),
        args.wf(line@),
    ensures
        match r {
            Ok(i) => spec_dispatch(line@, opcode, args) == Ok::<InstructionV, Error>(i@),
            Err(e) => spec_dispatch(line@, opcode, args) == Err::<InstructionV, Error>(e),
        },
{
    if matches(line, opcode, MN_NOP) {
        match parse0(line, args, opcode) {
            Ok(_) => Ok(Instruction::Nop),
            Err(e) => Err(e),
        }
    } else if matches(line, opcode, MN_RET) {
        match parse0(line, args, opcode) {
            Ok(_) => Ok(Instruction::Ret),
            Err(e) => Err(e),
        }
    } else if matches(line, opcode, MN_WAIT) {
        match parse0(line, args, opcode) {
            Ok(_) => Ok(Instruction::Wait),
            Err(e) => Err(e),
        }
    } else if matches(line, opcode, MN_POLL) {
        match parse0(line, args, opcode) {
            Ok(_) => Ok(Instruction::Poll),
            Err(e) => Err(e),
        }
    } else if matches(line, opcode, MN_NOT) {
        match parse1::<Register>(line, args, opcode) {
            Ok(a) => Ok(Instruction::Not(a)),
            Err(e) => Err(e),
        }
    } else if matches(line, opcode, MN_NEG) {
        match parse1::<Register>(line, args, opcode) {
            Ok(a) => Ok(Instruction::Neg(a)),
            Err(e) => Err(e),
        }
    } else if matches(line, opcode, MN_POP) {
        match parse1::<Register>(line, args, opcode) {
            Ok(a) => Ok(Instruction::Pop(a)),
            Err(e) => Err(e),
        }
    } else if matches(line, opcode, MN_PUSH) {
        match parse1::<Value>(line, args, opcode) {
            Ok(a) => Ok(Instruction::Push(a)),
            Err(e) => Err(e),
        }
    } else if matches(line, opcode, MN_JMP) {
        match parse1::<Value>(line, args, opcode) {
            Ok(a) => Ok(Instruction::Jmp(a)),
            Err(e) => Err(e),
        }
    } else if matches(line, opcode, MN_CALL) {
        match parse1::<Value>(line, args, opcode) {
            Ok(a) => Ok(Instruction::Call(a)),
            Err(e) => Err(e),
        }
    } else if matches(line, opcode, MN_MOV) {
        match parse2::<Register, Value>(line, args, opcode) {
            Ok((a, b)) => Ok(Instruction::Mov(a, b)),
            Err(e) => Err(e),
        }
    } else if matches(line, opcode, MN_ADD) {
        match parse2::<Register, Value>(line, args, opcode) {
            Ok((a, b)) => Ok(Instruction::Add(a, b)),
            Err(e) => Err(e),
        }
    } else if matches(line, opcode, MN_SUB) {
        match parse2::<Register, Value>(line, args, opcode) {
            Ok((a, b)) => Ok(Instruction::Sub(a, b)),
            Err(e) => Err(e),
        }
    } else if matches(line, opcode, MN_XOR) {
        match parse2::<Register, Value>(line, args, opcode) {
            Ok((a, b)) => Ok(Instruction::Xor(a, b)),
            Err(e) => Err(e),
        }
    } else if matches(line, opcode, MN_AND) {
        match parse2::<Register, Value>(line, args, opcode) {
            Ok((a, b)) => Ok(Instruction::And(a, b)),
            Err(e) => Err(e),
        }
    } else if matches(line, opcode, MN_OR) {
        match parse2::<Register, Value>(line, args, opcode) {
            Ok((a, b)) => Ok(Instruction::Or(a, b)),
            Err(e) => Err(e),
        }
    } else if matches(line, opcode, MN_SHL) {
        match parse2::<Register, Value>(line, args, opcode) {
            Ok((a, b)) => Ok(Instruction::Shl(a, b)),
            Err(e) => Err(e),
        }
    } else if matches(line, opcode, MN_SHR) {
        match parse2::<Register, Value>(line, args, opcode) {
            Ok((a, b)) => Ok(Instruction::Shr(a, b)),
            Err(e) => Err(e),
        }
    } else if matches(line, opcode, MN_CMP) {
        match parse2::<Register, Value>(line, args, opcode) {
            Ok((a, b)) => Ok(Instruction::Cmp(a, b)),
            Err(e) => Err(e),
        }
    } else if matches(line, opcode, MN_LOAD) {
        match parse2::<Register, Address>(line, args, opcode) {
            Ok((a, b)) => Ok(Instruction::Load(a, b)),
            Err(e) => Err(e),
        }
    } else if matches(line, opcode, MN_LOADW) {
        match parse2::<Register, Address>(line, args, opcode) {
            Ok((a, b)) => Ok(Instruction::Loadw(a, b)),
            Err(e) => Err(e),
        }
    } else if matches(line, opcode, MN_STORE) {
        match parse2::<Value, Address>(line, args, opcode) {
            Ok((a, b)) => Ok(Instruction::Store(a, b)),
            Err(e) => Err(e),
        }
    } else if matches(line, opcode, MN_STOREW) {
        match parse2::<Value, Address>(line, args, opcode) {
            Ok((a, b)) => Ok(Instruction::Storew(a, b)),
            Err(e) => Err(e),
        }
    } else if matches(line, opcode, MN_JEZ) {
        match parse2::<Register, Constant>(line, args, opcode) {
            Ok((a, b)) => Ok(Instruction::Jez(a, b)),
            Err(e) => Err(e),
        }
    } else if matches(line, opcode, MN_JNZ) {
        match parse2::<Register, Constant>(line, args, opcode) {
            Ok((a, b)) => Ok(Instruction::Jnz(a, b)),
            Err(e) => Err(e),
        }
    } else if matches(line, opcode, MN_JL) {
        match parse2::<Register, Constant>(line, args, opcode) {
            Ok((a, b)) => Ok(Instruction::Jl(a, b)),
            Err(e) => Err(e),
        }
    } else if matches(line, opcode, MN_JG) {
        match parse2::<Register, Constant>(line, args, opcode) {
            Ok((a, b)) => Ok(Instruction::Jg(a, b)),
            Err(e) => Err(e),
        }
    } else if matches(line, opcode, MN_JLE) {
        match parse2::<Register, Constant>(line, args, opcode) {
            Ok((a, b)) => Ok(Instruction::Jle(a, b)),
            Err(e) => Err(e),
        }
    } else if matches(line, opcode, MN_JGE) {
        match parse2::<Register, Constant>(line, args, opcode) {
            Ok((a, b)) => Ok(Instruction::Jge(a, b)),
            Err(e) => Err(e),
        }
    } else if matches(line, opcode, MN_READ) {
        match parse3::<DiskId, Constant, Constant>(line, args, opcode) {
            Ok((d, a, b)) => Ok(Instruction::Read(d, a, b)),
            Err(e) => Err(e),
        }
    } else if matches(line, opcode, MN_WRITE) {
        match parse3::<DiskId, Constant, Constant>(line, args, opcode) {
            Ok((d, a, b)) => Ok(Instruction::Write(d, a, b)),
            Err(e) => Err(e),
        }
    } else if matches(line, opcode, MN_DB) {
        match parse_data(line, args, opcode) {
            Ok(ns) => Ok(Instruction::Bytes(ns)),
            Err(e) => Err(e),
        }
    } else {
        Err(Error { fragment: opcode, message: ErrorMessage::InvalidInstruction })
    }
}

/// One source line: everything after `;` is a comment; an optional
/// `label:` prefix names the position; the rest is an optional instruction.
#[verifier::opaque]
pub open spec fn spec_parse_line(line: Seq<u8>, fragment: Fragment) -> Result<LineV, Error> {
    let f = match spec_find(line, fragment.start as int, fragment.end as int, ';' as u8) {
        Some(i) => Fragment { line_number: fragment.line_number, start: fragment.start, end: i as usize },
        None => fragment,
    };
    match spec_find(line, f.start as int, f.end as int, ':' as u8) {
        Some(i) => {
            let label_raw = Fragment { line_number: f.line_number, start: f.start, end: i as usize };
            let colon = Fragment { line_number: f.line_number, start: i as usize, end: (i + 1) as usize };
            let rest = Fragment { line_number: f.line_number, start: (i + 1) as usize, end: f.end };
            let label = label_raw.spec_trim(line);
            if label.spec_len() == 0 {
                Err(Error { fragment: colon, message: ErrorMessage::MissingLabel })
            } else if !spec_is_identifier(label.text(line)) {
                Err(Error { fragment: label, message: ErrorMessage::InvalidLabel })
            } else {
                match spec_parse_instruction(line, rest) {
                    Err(e) => Err(e),
                    Ok(instruction) => Ok(
                        LineV { label: Some(label.text(line)), instruction },
                    ),
                }
            }
        },
        None => match spec_parse_instruction(line, f) {
            Err(e) => Err(e),
            Ok(instruction) => Ok(LineV { label: None, instruction }),
        },
    }
}

/// Parse one source line, exactly as [`spec_parse_line`] says.
pub fn parse_line(line: &Vec<u8>, fragment: Fragment) -> (r: Result<Line, Error>)
    requires
        fragment.wf(line@),
    ensures
        match r {
            Ok(l) => spec_parse_line(line@, fragment) == Ok::<LineV, Error>(l@),
            Err(e) => spec_parse_line(line@, fragment) == Err::<LineV, Error>(e),
        },
{
    proof {
        reveal(spec_parse_line);
    }
    proof {
        crate::source::lemma_find_in_range(line@, fragment.start as int, fragment.end as int, 59);
    }
    let (f, _) = fragment.split_on(line, 59);
    proof {
        crate::source::lemma_find_in_range(line@, f.start as int, f.end as int, 58);
    }
    let (label_raw, rest) = f.split_on(line, 58);
    match rest {
        Some((colon, rest)) => {
            let label = label_raw.trim(line);
            if label.start == label.end {
                Err(Error { fragment: colon, message: ErrorMessage::MissingLabel })
            } else if !is_identifier(line, label) {
                Err(Error { fragment: label, message: ErrorMessage::InvalidLabel })
            } else {
                match parse_instruction(line, rest) {
                    Err(e) => Err(e),
                    Ok(instruction) => Ok(
                        Line { label: Some(label.as_str(line)), instruction },
                    ),
                }
            }
        },
        None => match parse_instruction(line, f) {
            Err(e) => Err(e),
            Ok(instruction) => Ok(Line { label: None, instruction }),
        },
    }
}

} // verus!
