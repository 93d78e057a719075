use tcpu::assemble::assemble_program;
use tcpu::emulator::Emulator;
use tcpu::isa::{Instruction, Operand, Register, Address, DiskId};
use tcpu::source::ErrorMessage;

fn lines(src: &[&str]) -> Vec<Vec<u8>> {
    src.iter().map(|l| l.as_bytes().to_vec()).collect()
}

fn assemble(src: &[&str]) -> Vec<u8> {
    assemble_program(&lines(src)).expect("program should assemble")
}

fn errors(src: &[&str]) -> Vec<ErrorMessage> {
    assemble_program(&lines(src))
        .expect_err("program should be refused")
        .iter()
        .map(|e| e.message)
        .collect()
}

/// Assemble a one-instruction program and decode its bytes with the CPU.
fn roundtrip(src: &str) -> (Instruction, u16) {
    let bytes = assemble(&[src]);
    let mut emulator = Emulator::new();
    {
        let memory = emulator.memory_mut();
        for (i, &b) in bytes.iter().enumerate() {
            memory[i] = b;
        }
    }
    let instruction = emulator.decode_instruction();
    assert_eq!(
        emulator.instruction_pointer() as usize,
        bytes.len(),
        "decoding must consume exactly the encoding of {:?}",
        src
    );
    (instruction, emulator.instruction_pointer())
}

#[test]
fn roundtrip_plain() {
    assert_eq!(roundtrip("nop").0, Instruction::Nop);
    assert_eq!(roundtrip("ret").0, Instruction::Ret);
    assert_eq!(roundtrip("wait").0, Instruction::Wait);
    assert_eq!(roundtrip("poll").0, Instruction::Poll);
    assert_eq!(roundtrip("not d").0, Instruction::Not(Register::D));
    assert_eq!(roundtrip("neg j").0, Instruction::Neg(Register::J));
    assert_eq!(roundtrip("pop s").0, Instruction::Pop(Register::S));
}

#[test]
fn roundtrip_one_operand() {
    assert_eq!(roundtrip("push 3").0, Instruction::Push(Operand::Word(3)));
    assert_eq!(roundtrip("push 53").0, Instruction::Push(Operand::Word(53)));
    assert_eq!(roundtrip("push 0x1234").0, Instruction::Push(Operand::Word(0x1234)));
    assert_eq!(roundtrip("push 0xffff").0, Instruction::Push(Operand::Word(0xffff)));
    assert_eq!(roundtrip("push b").0, Instruction::Push(Operand::Register(Register::B)));
    assert_eq!(roundtrip("jmp 0x100").0, Instruction::Jmp(Operand::Word(0x100)));
    assert_eq!(roundtrip("call p").0, Instruction::Call(Operand::Register(Register::P)));
}

#[test]
fn roundtrip_two_operand() {
    assert_eq!(
        roundtrip("mov a, 58").0,
        Instruction::Mov(Register::A, Operand::Word(58))
    );
    assert_eq!(
        roundtrip("add b, c").0,
        Instruction::Add(Register::B, Operand::Register(Register::C))
    );
    assert_eq!(
        roundtrip("sub s, 2").0,
        Instruction::Sub(Register::S, Operand::Word(2))
    );
    assert_eq!(
        roundtrip("xor i, 0x7fff").0,
        Instruction::Xor(Register::I, Operand::Word(0x7fff))
    );
    assert_eq!(
        roundtrip("and d, 0xec").0,
        Instruction::And(Register::D, Operand::Word(0xec))
    );
    assert_eq!(
        roundtrip("or c, d").0,
        Instruction::Or(Register::C, Operand::Register(Register::D))
    );
    assert_eq!(
        roundtrip("shl a, 2").0,
        Instruction::Shl(Register::A, Operand::Word(2))
    );
    assert_eq!(
        roundtrip("shr d, 7").0,
        Instruction::Shr(Register::D, Operand::Word(7))
    );
    assert_eq!(
        roundtrip("cmp a, 1").0,
        Instruction::Cmp(Register::A, Operand::Word(1))
    );
}

#[test]
fn roundtrip_memory() {
    assert_eq!(
        roundtrip("load a, 0x200").0,
        Instruction::Load(Register::A, Address { operand: Operand::Word(0x200), offset: 0 })
    );
    assert_eq!(
        roundtrip("load a, i + 4").0,
        Instruction::Load(Register::A, Address { operand: Operand::Register(Register::I), offset: 4 })
    );
    assert_eq!(
        roundtrip("loadw b, p").0,
        Instruction::Loadw(Register::B, Address { operand: Operand::Register(Register::P), offset: 0 })
    );
    assert_eq!(
        roundtrip("store 0xab, 0x300").0,
        Instruction::Store(Operand::Word(0xab), Address { operand: Operand::Word(0x300), offset: 0 })
    );
    assert_eq!(
        roundtrip("storew c, i + 0x10").0,
        Instruction::Storew(
            Operand::Register(Register::C),
            Address { operand: Operand::Register(Register::I), offset: 0x10 }
        )
    );
}

#[test]
fn roundtrip_jumps_and_disk() {
    assert_eq!(
        roundtrip("jez a, 0x40").0,
        Instruction::Jez(Register::A, Operand::Word(0x40))
    );
    assert_eq!(
        roundtrip("jnz b, 3").0,
        Instruction::Jnz(Register::B, Operand::Word(3))
    );
    assert_eq!(roundtrip("jl c, 9").0, Instruction::Jl(Register::C, Operand::Word(9)));
    assert_eq!(roundtrip("jg d, 9").0, Instruction::Jg(Register::D, Operand::Word(9)));
    assert_eq!(roundtrip("jle i, 9").0, Instruction::Jle(Register::I, Operand::Word(9)));
    assert_eq!(
        roundtrip("jge a, 0xffff").0,
        Instruction::Jge(Register::A, Operand::Word(0xffff))
    );
    assert_eq!(
        roundtrip("read 0, 0x4000, 16").0,
        Instruction::Read(DiskId::D0, Operand::Word(0x4000), Operand::Word(16))
    );
    assert_eq!(
        roundtrip("write 1, 0x4000, 0").0,
        Instruction::Write(DiskId::D1, Operand::Word(0x4000), Operand::Word(0))
    );
}

#[test]
fn known_encodings() {
    assert_eq!(assemble(&["mov a, 58"]), vec![0x80, 0x0d, 0x3a]);
    assert_eq!(assemble(&["push 53", "pop c"]), vec![0x4d, 0x35, 0x32]);
    assert_eq!(
        assemble(&["sub s, 2", "call 0x05", "nop", "ret"]),
        vec![0x82, 0x7a, 0x6d, 0x05, 0x00, 0x01]
    );
    assert_eq!(
        assemble(&["mov a, 2", "cmp a, 1", "jge a, 0xffff"]),
        vec![0x80, 0x0a, 0x88, 0x09, 0xa5, 0x0f]
    );
    assert_eq!(assemble(&["wait", "nop", "xor a, a"]), vec![0x02, 0x00, 0x83, 0x00]);
    assert_eq!(assemble(&["db 0x80, 13, 0b111010"]), vec![0x80, 13, 0x3a]);
}

#[test]
fn labels_and_length_stability() {
    let src = [
        "start: mov a, 0 ; counter",
        "loop: add a, 1",
        "  cmp a, 4",
        "  jle a, loop",
        "  jmp end",
        "  db 1, 2, 3",
        "end: nop",
    ];
    let first = assemble(&src);
    let second = assemble(&src);
    // assembling twice yields identical bytes
    assert_eq!(first, second);
    // a label always encodes in the 16-bit form: jle a, loop -> a4 0e lo hi
    let loop_offset = 4u16; // start: mov a,0 takes 2 bytes... add starts at 2
    let bytes = first;
    assert_eq!(bytes[0..2], [0x80, 0x08]); // mov a, 0
    assert_eq!(bytes[2..4], [0x81, 0x09]); // add a, 1
    assert_eq!(bytes[4..6], [0x88, 0x0c]); // cmp a, 4
    assert_eq!(bytes[6..10], [0xa4, 0x0e, 0x02, 0x00]); // jle a, loop (loop = 2)
    let _ = loop_offset;
    // jmp end: end sits after jmp (3 bytes at offset 10) and db (3 bytes)
    assert_eq!(bytes[10..13], [0x5e, 0x10, 0x00]); // jmp end (end = 16)
    assert_eq!(bytes[13..16], [1, 2, 3]);
    assert_eq!(bytes[16], 0x00); // end: nop
}

#[test]
fn case_insensitive_mnemonics() {
    assert_eq!(assemble(&["MOV A, 58"]), vec![0x80, 0x0d, 0x3a]);
    assert_eq!(assemble(&["Mov a, 58"]), vec![0x80, 0x0d, 0x3a]);
    assert_eq!(assemble(&["NOP"]), vec![0x00]);
}

#[test]
fn number_formats() {
    assert_eq!(assemble(&["push 0x2a"]), vec![0x4d, 0x2a]);
    assert_eq!(assemble(&["push 0B101"]), vec![0x4d, 5]);
    assert_eq!(assemble(&["push 42"]), vec![0x4d, 42]);
    assert_eq!(assemble(&["push 0"]), vec![0x48]);
    assert_eq!(assemble(&["push 4"]), vec![0x4c]);
    assert_eq!(assemble(&["push 5"]), vec![0x4d, 5]);
    assert_eq!(assemble(&["push 255"]), vec![0x4d, 255]);
    assert_eq!(assemble(&["push 256"]), vec![0x4e, 0x00, 0x01]);
    assert_eq!(assemble(&["push 0xfffe"]), vec![0x4e, 0xfe, 0xff]);
    assert_eq!(assemble(&["push 0xffff"]), vec![0x4f]);
}

#[test]
fn comments_and_blank_lines() {
    assert_eq!(assemble(&["; just a comment", "", "   ", "nop ; trailing"]), vec![0x00]);
}

#[test]
fn error_invalid_instruction() {
    assert_eq!(errors(&["frobnicate a, b"]), vec![ErrorMessage::InvalidInstruction]);
}

#[test]
fn error_argument_counts() {
    assert_eq!(errors(&["nop 3"]), vec![ErrorMessage::ExpectedNoArguments]);
    assert_eq!(errors(&["not"]), vec![ErrorMessage::ExpectedOneArgument]);
    assert_eq!(errors(&["not a, b"]), vec![ErrorMessage::ExpectedOneArgument]);
    assert_eq!(errors(&["mov a"]), vec![ErrorMessage::ExpectedTwoArguments]);
    assert_eq!(errors(&["mov a, b, c"]), vec![ErrorMessage::ExpectedTwoArguments]);
    assert_eq!(errors(&["read 0, 1"]), vec![ErrorMessage::ExpectedThreeArguments]);
}

#[test]
fn error_bad_arguments() {
    assert_eq!(errors(&["not q"]), vec![ErrorMessage::InvalidRegister]);
    assert_eq!(errors(&["mov a, "]), vec![ErrorMessage::MissingArgument]);
    assert_eq!(errors(&["mov 5, a"]), vec![ErrorMessage::InvalidRegister]);
    assert_eq!(errors(&["push 0x1g"]), vec![ErrorMessage::InvalidValue]);
    assert_eq!(errors(&["jez a, s"]), vec![ErrorMessage::InvalidConstant]);
    assert_eq!(errors(&["read 2, 0, 0"]), vec![ErrorMessage::InvalidDisk]);
    assert_eq!(errors(&["load a, b +"]), vec![ErrorMessage::MissingOffset]);
}

#[test]
fn error_data_directive() {
    assert_eq!(errors(&["db"]), vec![ErrorMessage::MissingByte]);
    assert_eq!(errors(&["db 1,"]), vec![ErrorMessage::MissingByte]);
    assert_eq!(errors(&["db 1, , 2"]), vec![ErrorMessage::MissingByte]);
    assert_eq!(errors(&["db 256"]), vec![ErrorMessage::ByteValueTooLarge]);
    assert_eq!(errors(&["db x"]), vec![ErrorMessage::InvalidNumber]);
}

#[test]
fn error_labels() {
    assert_eq!(errors(&[": nop"]), vec![ErrorMessage::MissingLabel]);
    assert_eq!(errors(&["1bad: nop"]), vec![ErrorMessage::InvalidLabel]);
    assert_eq!(errors(&["jmp nowhere"]), vec![ErrorMessage::UndefinedLabel]);
}

#[test]
fn errors_are_collected_per_line() {
    let es = errors(&["bogus", "nop", "also bogus"]);
    assert_eq!(
        es,
        vec![ErrorMessage::InvalidInstruction, ErrorMessage::InvalidInstruction]
    );
    let raw = assemble_program(&lines(&["bogus", "nop", "also bogus"])).unwrap_err();
    assert_eq!(raw[0].fragment.line_number, 1);
    assert_eq!(raw[1].fragment.line_number, 3);
}
