//! The instruction-set architecture: registers, operands, addresses and the
//! decoded instruction type shared by the CPU and the assembler.

use vstd::prelude::*;

verus! {

/// One of the eight general-purpose 16-bit registers.
#[derive(Debug, Copy, Clone, PartialEq, Eq, Structural)]
pub enum Register {
    A,
    B,
    C,
    D,
    I,
    J,
    P,
    S,
}

/// The register file; all registers are zeroed on construction and reset.
#[derive(Debug, Clone, Copy, PartialEq, Eq, Structural)]
pub struct Registers {
    pub a: u16,
    pub b: u16,
    pub c: u16,
    pub d: u16,
    pub i: u16,
    pub j: u16,
    pub p: u16,
    pub s: u16,
}

impl Registers {
    /// The register file with every register zero.
    pub open spec fn zeroed() -> Registers {
        Registers { a: 0, b: 0, c: 0, d: 0, i: 0, j: 0, p: 0, s: 0 }
    }

    /// The value of register `reg`.
    pub open spec fn spec_get(self, reg: Register) -> u16 {
        match reg {
            Register::A => self.a,
            Register::B => self.b,
            Register::C => self.c,
            Register::D => self.d,
            Register::I => self.i,
            Register::J => self.j,
            Register::P => self.p,
            Register::S => self.s,
        }
    }

    /// The register file with `reg` set to `value` and all others unchanged.
    pub open spec fn spec_set(self, reg: Register, value: u16) -> Registers {
        match reg {
            Register::A => Registers { a: value, ..self },
            Register::B => Registers { b: value, ..self },
            Register::C => Registers { c: value, ..self },
            Register::D => Registers { d: value, ..self },
            Register::I => Registers { i: value, ..self },
            Register::J => Registers { j: value, ..self },
            Register::P => Registers { p: value, ..self },
            Register::S => Registers { s: value, ..self },
        }
    }

    pub fn new() -> (r: Registers)
        ensures
            r == Registers::zeroed(),
    {
        Registers { a: 0, b: 0, c: 0, d: 0, i: 0, j: 0, p: 0, s: 0 }
    }

    pub fn get(&self, reg: Register) -> (r: u16)
        ensures
            r == self.spec_get(reg),
    {
        match reg {
            Register::A => self.a,
            Register::B => self.b,
            Register::C => self.c,
            Register::D => self.d,
            Register::I => self.i,
            Register::J => self.j,
            Register::P => self.p,
            Register::S => self.s,
        }
    }

    pub fn set(&mut self, reg: Register, value: u16)
        ensures
            *final(self) == old(self).spec_set(reg, value),
    {
        match reg {
            Register::A => self.a = value,
            Register::B => self.b = value,
            Register::C => self.c = value,
            Register::D => self.d = value,
            Register::I => self.i = value,
            Register::J => self.j = value,
            Register::P => self.p = value,
            Register::S => self.s = value,
        }
    }

    pub fn get_mut(&mut self, reg: Register) -> (r: &mut u16)
        ensures
            *r == old(self).spec_get(reg),
            *final(self) == old(self).spec_set(reg, *final(r)),
    {
        match reg {
            Register::A => &mut self.a,
            Register::B => &mut self.b,
            Register::C => &mut self.c,
            Register::D => &mut self.d,
            Register::I => &mut self.i,
            Register::J => &mut self.j,
            Register::P => &mut self.p,
            Register::S => &mut self.s,
        }
    }
}

impl Default for Registers {
    fn default() -> (r: Registers)
        ensures
            r == Registers::zeroed(),
    {
        Registers::new()
    }
}

/// One of the two disk slots.
#[derive(PartialEq, Eq, Structural, Debug, Hash, Copy, Clone)]
pub enum DiskId {
    D0,
    D1,
}

/// Returned when a numeric disk id is neither 0 nor 1.
#[derive(Debug, Copy, Clone)]
pub struct DiskIdConvertError;

impl DiskId {
    /// The slot a numeric id names: 0 and 1 name the two slots, any other
    /// value is rejected.
    pub fn from_index(index: u16) -> (r: Result<DiskId, DiskIdConvertError>)
        ensures
            index == 0 ==> r == Ok::<DiskId, DiskIdConvertError>(DiskId::D0),
            index == 1 ==> r == Ok::<DiskId, DiskIdConvertError>(DiskId::D1),
            index > 1 ==> r is Err,
    {
        match index {
            0 => Ok(DiskId::D0),
            1 => Ok(DiskId::D1),
            _ => Err(DiskIdConvertError),
        }
    }
}

/// An instruction argument: a register reference or a 16-bit immediate.
#[derive(Debug, Copy, Clone, PartialEq, Eq, Structural)]
pub enum Operand {
    Register(Register),
    Word(u16),
}

/// A memory address: an operand plus a 16-bit constant offset, added with
/// wrap-around.
#[derive(Debug, Copy, Clone, PartialEq, Eq, Structural)]
pub struct Address {
    pub operand: Operand,
    pub offset: u16,
}

/// One decoded CPU instruction. Bytes that decode to no listed opcode become
/// `Invalid`, which executes as a no-op.
#[derive(Debug, Copy, Clone, PartialEq, Eq, Structural)]
pub enum Instruction {
    Nop,
    Ret,
    Wait,
    Poll,
    Halt,
    Not(Register),
    Neg(Register),
    Pop(Register),
    Push(Operand),
    Jmp(Operand),
    Call(Operand),
    Mov(Register, Operand),
    Add(Register, Operand),
    Sub(Register, Operand),
    Xor(Register, Operand),
    And(Register, Operand),
    Or(Register, Operand),
    Shl(Register, Operand),
    Shr(Register, Operand),
    Cmp(Register, Operand),
    Load(Register, Address),
    Loadw(Register, Address),
    Store(Operand, Address),
    Storew(Operand, Address),
    Jez(Register, Operand),
    Jnz(Register, Operand),
    Jl(Register, Operand),
    Jg(Register, Operand),
    Jle(Register, Operand),
    Jge(Register, Operand),
    Read(DiskId, Operand, Operand),
    Write(DiskId, Operand, Operand),
    Invalid,
}

/// The value an operand evaluates to: a register operand reads the register
/// file, an immediate yields its literal.
pub open spec fn spec_eval(regs: Registers, operand: Operand) -> u16 {
    match operand {
        Operand::Register(r) => regs.spec_get(r),
        Operand::Word(w) => w,
    }
}

/// The address an address expression evaluates to: operand plus offset with
/// 16-bit wrap-around.
pub open spec fn spec_eval_address(regs: Registers, address: Address) -> u16 {
    spec_eval(regs, address.operand).wrapping_add(address.offset)
}

} // verus!
