//! Whole-program assembly: parse every line, lay labels out, then emit.
//!
//! The layout pass assembles each instruction against a provisional table
//! (every label 0) to learn its size; because a label reference always
//! encodes in the 16-bit form, sizes do not depend on label values, so the
//! offsets recorded during that pass are final (see
//! [`lemma_layout_fixpoint`]).

use vstd::prelude::*;
use crate::source::{Fragment, Error};
use crate::parse::{Line, LineV, InstructionV, parse_line, spec_parse_line};
use crate::encode::{LabelTable, spec_encode, spec_constant_assemble, spec_value_assemble};

verus! {

/// The bytes of each line of a source file.
pub open spec fn lines_view(lines: Seq<Vec<u8>>) -> Seq<Seq<u8>> {
    Seq::new(lines.len(), |i: int| lines[i]@)
}

/// The views of parsed lines.
pub open spec fn parsed_view(lines: Seq<Line>) -> Seq<LineV> {
    Seq::new(lines.len(), |i: int| lines[i]@)
}

/// What parsing the `i`-th source line (1-based line numbers) yields.
pub open spec fn spec_line_result(ls: Seq<Seq<u8>>, i: int) -> Result<LineV, Error> {
    spec_parse_line(
        ls[i],
        Fragment { line_number: (i + 1) as usize, start: 0, end: ls[i].len() as usize },
    )
}

/// The parse errors of a source file, in line order.
pub open spec fn spec_parse_errors(ls: Seq<Seq<u8>>, i: int) -> Seq<Error>
    decreases ls.len() - i,
{
    if i < 0 || i >= ls.len() {
        Seq::empty()
    } else {
        match spec_line_result(ls, i) {
            Err(e) => seq![e] + spec_parse_errors(ls, i + 1),
            Ok(_) => spec_parse_errors(ls, i + 1),
        }
    }
}

pub open spec fn spec_all_parse(ls: Seq<Seq<u8>>) -> bool {
    forall|i: int| 0 <= i < ls.len() ==> (#[trigger] spec_line_result(ls, i)) is Ok
}

/// The provisional label table: every label of the program, at offset 0.
pub open spec fn spec_labels0(parsed: Seq<LineV>) -> Map<Seq<u8>, u16>
    decreases parsed.len(),
{
    if parsed.len() == 0 {
        Map::empty()
    } else {
        let m = spec_labels0(parsed.drop_last());
        match parsed.last().label {
            Some(l) => m.insert(l, 0),
            None => m,
        }
    }
}

/// One combined layout-and-emit pass from line `i` on: record each label at
/// the current output offset, then assemble its line's instruction against
/// the table so far, collecting errors. Returns the final table, the bytes
/// and the errors.
pub open spec fn spec_pass(
    parsed: Seq<LineV>,
    i: int,
    table: Map<Seq<u8>, u16>,
    out: Seq<u8>,
    errs: Seq<Error>,
) -> (Map<Seq<u8>, u16>, Seq<u8>, Seq<Error>)
    decreases parsed.len() - i,
{
    if i < 0 || i >= parsed.len() {
        (table, out, errs)
    } else {
        let table1 = match parsed[i].label {
            Some(l) => table.insert(l, (out.len() % 0x10000) as u16),
            None => table,
        };
        match parsed[i].instruction {
            None => spec_pass(parsed, i + 1, table1, out, errs),
            Some(instruction) => match spec_encode(instruction, table1) {
                Err(e) => spec_pass(parsed, i + 1, table1, out, errs.push(e)),
                Ok(bs) => spec_pass(parsed, i + 1, table1, out + bs, errs),
            },
        }
    }
}

/// Emitting from line `i` on against a fixed label table: the program's
/// bytes, or the first error.
pub open spec fn spec_emit(parsed: Seq<LineV>, i: int, table: Map<Seq<u8>, u16>, out: Seq<u8>)
    -> Result<Seq<u8>, Error>
    decreases parsed.len() - i,
{
    if i < 0 || i >= parsed.len() {
        Ok(out)
    } else {
        match parsed[i].instruction {
            None => spec_emit(parsed, i + 1, table, out),
            Some(instruction) => match spec_encode(instruction, table) {
                Err(e) => Err(e),
                Ok(bs) => spec_emit(parsed, i + 1, table, out + bs),
            },
        }
    }
}

/// Parse every line of a program; either all lines parse or all parse
/// errors are reported, in line order.
#[verifier::rlimit(100)]
pub fn parse_program(lines: &Vec<Vec<u8>>) -> (r: Result<Vec<Line>, Vec<Error>>)
    ensures
        match r {
            Ok(parsed) => spec_all_parse(lines_view(lines@)) && parsed_view(parsed@)
                == Seq::new(
                lines@.len(),
                |i: int| spec_line_result(lines_view(lines@), i)->Ok_0,
            ),
            Err(es) => es@ == spec_parse_errors(lines_view(lines@), 0) && es@.len() > 0,
        },
{
    let ghost ls = lines_view(lines@);
    let mut parsed: Vec<Line> = Vec::new();
    let mut errors: Vec<Error> = Vec::new();
    let mut i: usize = 0;
    while i < lines.len()
        invariant
            ls == lines_view(lines@),
            i <= lines@.len(),
            errors@.len() == 0 ==> {
                &&& parsed@.len() == i
                &&& forall|j: int|
                    0 <= j < i ==> (#[trigger] spec_line_result(ls, j)) is Ok && parsed@[j]@
                        == spec_line_result(ls, j)->Ok_0
            },
            spec_parse_errors(ls, 0) == errors@ + spec_parse_errors(ls, i as int),
        decreases lines@.len() - i,
    {
        let line = &lines[i];
        let number = i + 1;
        proof {
            assert(ls[i as int] == line@);
        }
        match parse_line(line, Fragment { line_number: number, start: 0, end: line.len() }) {
            Ok(l) => {
                if errors.len() == 0 {
                    parsed.push(l);
                }
            },
            Err(e) => {
                errors.push(e);
                proof {
                    assert(errors@ + spec_parse_errors(ls, i + 1) =~= errors@.drop_last() + (seq![
                        e,
                    ] + spec_parse_errors(ls, i + 1)));
                }
            },
        }
        i = i + 1;
    }
    proof {
        assert(spec_parse_errors(ls, i as int) =~= Seq::<Error>::empty());
        assert(errors@ + Seq::<Error>::empty() =~= errors@);
    }
    if errors.len() > 0 {
        Err(errors)
    } else {
        proof {
            assert(parsed_view(parsed@) =~= Seq::new(
                lines@.len(),
                |i: int| spec_line_result(ls, i)->Ok_0,
            ));
            assert forall|j: int| 0 <= j < ls.len() implies (#[trigger] spec_line_result(
                ls,
                j,
            )) is Ok by {}
        }
        Ok(parsed)
    }
}

/// Assemble a program: parse every line, lay labels out with a provisional
/// table, then emit against the final table. Errors are collected per pass;
/// assembly is refused as soon as a pass reported any.
#[verifier::rlimit(100)]
pub fn assemble_program(lines: &Vec<Vec<u8>>) -> (r: Result<Vec<u8>, Vec<Error>>)
    ensures
        ({
            let ls = lines_view(lines@);
            if !spec_all_parse(ls) {
                r matches Err(es) && es@ == spec_parse_errors(ls, 0)
            } else {
                let parsed = Seq::new(ls.len(), |i: int| spec_line_result(ls, i)->Ok_0);
                let result = spec_pass(parsed, 0, spec_labels0(parsed), Seq::empty(), Seq::empty());
                if result.2.len() > 0 {
                    r matches Err(es) && es@ == result.2
                } else {
                    match spec_emit(parsed, 0, result.0, Seq::empty()) {
                        Ok(bs) => r matches Ok(out) && out@ == bs,
                        Err(e) => r matches Err(es) && es@ == seq![e],
                    }
                }
            }
        }),
{
    let ghost ls = lines_view(lines@);
    let parsed = match parse_program(lines) {
        Ok(p) => p,
        Err(es) => {
            proof {
                if spec_all_parse(ls) {
                    lemma_no_parse_errors(ls, 0);
                }
            }
            return Err(es);
        },
    };
    let ghost pv = parsed_view(parsed@);

    // provisional table: every label at 0
    let mut labels = LabelTable::new();
    let mut i: usize = 0;
    while i < parsed.len()
        invariant
            pv == parsed_view(parsed@),
            i <= parsed@.len(),
            labels@ == spec_labels0(pv.subrange(0, i as int)),
        decreases parsed@.len() - i,
    {
        if let Some(l) = &parsed[i].label {
            labels.insert(l, 0);
        }
        proof {
            assert(pv.subrange(0, i + 1).drop_last() =~= pv.subrange(0, i as int));
            assert(pv.subrange(0, i + 1).last() == pv[i as int]);
        }
        i = i + 1;
    }
    proof {
        assert(pv.subrange(0, pv.len() as int) =~= pv);
    }

    // layout pass: record each label at its offset, sizing each instruction
    // against the table so far
    let ghost t0 = spec_labels0(pv);
    let ghost target = spec_pass(pv, 0, t0, Seq::empty(), Seq::empty());
    let mut output_bytes: Vec<u8> = Vec::new();
    let mut errors: Vec<Error> = Vec::new();
    let mut i: usize = 0;
    while i < parsed.len()
        invariant
            pv == parsed_view(parsed@),
            i <= parsed@.len(),
            spec_pass(pv, i as int, labels@, output_bytes@, errors@) == target,
        decreases parsed@.len() - i,
    {
        if let Some(l) = &parsed[i].label {
            labels.insert(l, (output_bytes.len() % 0x10000) as u16);
        }
        if let Some(instruction) = &parsed[i].instruction {
            match instruction.assemble(&mut output_bytes, &labels) {
                Ok(_) => {},
                Err(e) => {
                    errors.push(e);
                },
            }
        }
        i = i + 1;
    }
    if errors.len() > 0 {
        return Err(errors);
    }

    // emit pass, against the final table
    let ghost t = target.0;
    let ghost emit_target = spec_emit(pv, 0, t, Seq::empty());
    let mut output: Vec<u8> = Vec::new();
    let mut i: usize = 0;
    while i < parsed.len()
        invariant
            ls == lines_view(lines@),
            spec_all_parse(ls),
            pv == parsed_view(parsed@),
            pv == Seq::new(ls.len(), |j: int| spec_line_result(ls, j)->Ok_0),
            target == spec_pass(pv, 0, spec_labels0(pv), Seq::empty(), Seq::empty()),
            target.2.len() == 0,
            t == target.0,
            emit_target == spec_emit(pv, 0, t, Seq::empty()),
            i <= parsed@.len(),
            labels@ == t,
            spec_emit(pv, i as int, t, output@) == emit_target,
        decreases parsed@.len() - i,
    {
        if let Some(instruction) = &parsed[i].instruction {
            match instruction.assemble(&mut output, &labels) {
                Ok(_) => {},
                Err(e) => {
                    proof {
                        assert(pv[i as int].instruction == Some(instruction@));
                        assert(spec_emit(pv, i as int, t, output@) == Err::<Seq<u8>, Error>(e));
                    }
                    let mut es: Vec<Error> = Vec::new();
                    es.push(e);
                    proof {
                        assert(es@ =~= seq![e]);
                    }
                    return Err(es);
                },
            }
        }
        i = i + 1;
    }
    Ok(output)
}

/// A program whose lines all parse has no parse errors.
proof fn lemma_no_parse_errors(ls: Seq<Seq<u8>>, i: int)
    requires
        spec_all_parse(ls),
    ensures
        spec_parse_errors(ls, i).len() == 0,
    decreases ls.len() - i,
{
    if 0 <= i < ls.len() {
        lemma_no_parse_errors(ls, i + 1);
    }
}

/// A constant's encoding under two tables defining the same labels: the
/// same selector, the same tail length (a label always takes the 16-bit
/// form), and identical errors.
proof fn lemma_constant_stable(c: crate::parse::ConstantV, m1: Map<Seq<u8>, u16>, m2: Map<
    Seq<u8>,
    u16,
>)
    requires
        m1.dom() =~= m2.dom(),
    ensures
        match (spec_constant_assemble(c, m1), spec_constant_assemble(c, m2)) {
            (Ok(p1), Ok(p2)) => p1.0 == p2.0 && p1.1.len() == p2.1.len(),
            (Err(e1), Err(e2)) => e1 == e2,
            _ => false,
        },
{
}

proof fn lemma_value_stable(v: crate::parse::ValueV, m1: Map<Seq<u8>, u16>, m2: Map<
    Seq<u8>,
    u16,
>)
    requires
        m1.dom() =~= m2.dom(),
    ensures
        match (spec_value_assemble(v, m1), spec_value_assemble(v, m2)) {
            (Ok(p1), Ok(p2)) => p1.0 == p2.0 && p1.1.len() == p2.1.len(),
            (Err(e1), Err(e2)) => e1 == e2,
            _ => false,
        },
{
    match v {
        crate::parse::ValueV::Register(_) => {},
        crate::parse::ValueV::Constant(c) => {
            lemma_constant_stable(c, m1, m2);
        },
    }
}

/// Length stability: under two label tables that define the same labels, an
/// instruction encodes to the same number of bytes (and fails with the same
/// error when a label is undefined). This is why the layout pass may size
/// instructions against a provisional table.
#[verifier::rlimit(100)]
#[verifier::spinoff_prover]
pub proof fn lemma_encode_stable(i: InstructionV, m1: Map<Seq<u8>, u16>, m2: Map<Seq<u8>, u16>)
    requires
        m1.dom() =~= m2.dom(),
    ensures
        match (spec_encode(i, m1), spec_encode(i, m2)) {
            (Ok(b1), Ok(b2)) => b1.len() == b2.len(),
            (Err(e1), Err(e2)) => e1 == e2,
            _ => false,
        },
{
    reveal(spec_encode);
    match i {
        InstructionV::Push(v) => {
            lemma_value_stable(v, m1, m2);
        },
        InstructionV::Jmp(v) => {
            lemma_value_stable(v, m1, m2);
        },
        InstructionV::Call(v) => {
            lemma_value_stable(v, m1, m2);
        },
        InstructionV::Mov(_, b) => {
            lemma_value_stable(b, m1, m2);
        },
        InstructionV::Add(_, b) => {
            lemma_value_stable(b, m1, m2);
        },
        InstructionV::Sub(_, b) => {
            lemma_value_stable(b, m1, m2);
        },
        InstructionV::Xor(_, b) => {
            lemma_value_stable(b, m1, m2);
        },
        InstructionV::And(_, b) => {
            lemma_value_stable(b, m1, m2);
        },
        InstructionV::Or(_, b) => {
            lemma_value_stable(b, m1, m2);
        },
        InstructionV::Shl(_, b) => {
            lemma_value_stable(b, m1, m2);
        },
        InstructionV::Shr(_, b) => {
            lemma_value_stable(b, m1, m2);
        },
        InstructionV::Cmp(_, b) => {
            lemma_value_stable(b, m1, m2);
        },
        InstructionV::Load(_, b) | InstructionV::Loadw(_, b) => {
            lemma_value_stable(b.value, m1, m2);
            match b.offset {
                Some(c) => {
                    lemma_constant_stable(c, m1, m2);
                },
                None => {},
            }
        },
        InstructionV::Store(a, b) | InstructionV::Storew(a, b) => {
            lemma_value_stable(a, m1, m2);
            lemma_value_stable(b.value, m1, m2);
            match b.offset {
                Some(c) => {
                    lemma_constant_stable(c, m1, m2);
                },
                None => {},
            }
        },
        InstructionV::Jez(_, c) | InstructionV::Jnz(_, c) | InstructionV::Jl(_, c)
        | InstructionV::Jg(_, c) | InstructionV::Jle(_, c) | InstructionV::Jge(_, c) => {
            lemma_constant_stable(c, m1, m2);
        },
        InstructionV::Read(_, c1, c2) | InstructionV::Write(_, c1, c2) => {
            lemma_constant_stable(c1, m1, m2);
            lemma_constant_stable(c2, m1, m2);
        },
        _ => {},
    }
}

/// The labels declared from line `i` on.
pub open spec fn labels_of(parsed: Seq<LineV>, i: int) -> Set<Seq<u8>>
    decreases parsed.len() - i,
{
    if i < 0 || i >= parsed.len() {
        Set::empty()
    } else {
        let rest = labels_of(parsed, i + 1);
        match parsed[i].label {
            Some(l) => rest.insert(l),
            None => rest,
        }
    }
}

proof fn lemma_labels_of_drop_last(parsed: Seq<LineV>, i: int)
    requires
        parsed.len() > 0,
        0 <= i <= parsed.len() - 1,
    ensures
        labels_of(parsed, i) =~= match parsed.last().label {
            Some(l) => labels_of(parsed.drop_last(), i).insert(l),
            None => labels_of(parsed.drop_last(), i),
        },
    decreases parsed.len() - i,
{
    if i < parsed.len() - 1 {
        lemma_labels_of_drop_last(parsed, i + 1);
        assert(parsed.drop_last()[i] == parsed[i]);
        match parsed[i].label {
            Some(l) => {
                match parsed.last().label {
                    Some(x) => {
                        assert(labels_of(parsed, i) =~= labels_of(
                            parsed.drop_last(),
                            i,
                        ).insert(x));
                    },
                    None => {
                        assert(labels_of(parsed, i) =~= labels_of(parsed.drop_last(), i));
                    },
                }
            },
            None => {
                match parsed.last().label {
                    Some(x) => {
                        assert(labels_of(parsed, i) =~= labels_of(
                            parsed.drop_last(),
                            i,
                        ).insert(x));
                    },
                    None => {
                        assert(labels_of(parsed, i) =~= labels_of(parsed.drop_last(), i));
                    },
                }
            },
        }
    } else {
        assert(labels_of(parsed, i + 1) =~= Set::<Seq<u8>>::empty());
        assert(labels_of(parsed.drop_last(), i) =~= Set::<Seq<u8>>::empty());
        match parsed.last().label {
            Some(x) => {
                assert(labels_of(parsed, i) =~= Set::<Seq<u8>>::empty().insert(x));
            },
            None => {
                assert(labels_of(parsed, i) =~= Set::<Seq<u8>>::empty());
            },
        }
    }
}

/// The provisional table defines exactly the program's labels.
proof fn lemma_labels0_dom(parsed: Seq<LineV>)
    ensures
        spec_labels0(parsed).dom() =~= labels_of(parsed, 0),
    decreases parsed.len(),
{
    if parsed.len() > 0 {
        lemma_labels0_dom(parsed.drop_last());
        lemma_labels_of_drop_last(parsed, 0);
    }
}

/// The pass defines the incoming labels plus the program's labels.
proof fn lemma_pass_dom(parsed: Seq<LineV>, i: int, t: Map<Seq<u8>, u16>, out: Seq<u8>, errs: Seq<
    Error,
>)
    ensures
        spec_pass(parsed, i, t, out, errs).0.dom() =~= t.dom().union(labels_of(parsed, i)),
    decreases parsed.len() - i,
{
    if 0 <= i < parsed.len() {
        let table1 = match parsed[i].label {
            Some(l) => t.insert(l, (out.len() % 0x10000) as u16),
            None => t,
        };
        match parsed[i].instruction {
            None => {
                lemma_pass_dom(parsed, i + 1, table1, out, errs);
            },
            Some(instruction) => match spec_encode(instruction, table1) {
                Err(e) => {
                    lemma_pass_dom(parsed, i + 1, table1, out, errs.push(e));
                },
                Ok(bs) => {
                    lemma_pass_dom(parsed, i + 1, table1, out + bs, errs);
                },
            },
        }
    }
}

/// Two layout passes from tables that define the same labels, agree outside
/// the labels still to come, and stand at the same offset, record the same
/// offsets, report the same errors and end with the same table.
proof fn lemma_pass_stable(
    parsed: Seq<LineV>,
    i: int,
    t1: Map<Seq<u8>, u16>,
    t2: Map<Seq<u8>, u16>,
    out1: Seq<u8>,
    out2: Seq<u8>,
    errs: Seq<Error>,
)
    requires
        t1.dom() =~= t2.dom(),
        out1.len() == out2.len(),
        forall|k: Seq<u8>|
            t1.dom().contains(k) && !labels_of(parsed, i).contains(k) ==> t1[k] == t2[k],
    ensures
        ({
            let r1 = spec_pass(parsed, i, t1, out1, errs);
            let r2 = spec_pass(parsed, i, t2, out2, errs);
            &&& r1.2 == r2.2
            &&& r1.1.len() - out1.len() == r2.1.len() - out2.len()
            &&& r1.0.dom() =~= r2.0.dom()
            &&& (forall|k: Seq<u8>| r1.0.dom().contains(k) ==> r1.0[k] == r2.0[k])
        }),
    decreases parsed.len() - i,
{
    if 0 <= i < parsed.len() {
        let v = (out1.len() % 0x10000) as u16;
        let t1n = match parsed[i].label {
            Some(l) => t1.insert(l, v),
            None => t1,
        };
        let t2n = match parsed[i].label {
            Some(l) => t2.insert(l, v),
            None => t2,
        };
        assert(t1n.dom() =~= t2n.dom());
        assert forall|k: Seq<u8>|
            t1n.dom().contains(k) && !labels_of(parsed, i + 1).contains(k) implies t1n[k]
            == t2n[k] by {
            match parsed[i].label {
                Some(l) => {
                    if k != l {
                        assert(!labels_of(parsed, i).contains(k));
                    }
                },
                None => {
                    assert(!labels_of(parsed, i).contains(k));
                },
            }
        }
        match parsed[i].instruction {
            None => {
                lemma_pass_stable(parsed, i + 1, t1n, t2n, out1, out2, errs);
            },
            Some(instruction) => {
                lemma_encode_stable(instruction, t1n, t2n);
                match spec_encode(instruction, t1n) {
                    Err(e) => {
                        lemma_pass_stable(parsed, i + 1, t1n, t2n, out1, out2, errs.push(e));
                    },
                    Ok(bs) => {
                        let bs2 = spec_encode(instruction, t2n)->Ok_0;
                        lemma_pass_stable(parsed, i + 1, t1n, t2n, out1 + bs, out2 + bs2, errs);
                    },
                }
            },
        }
    }
}

/// Length stability of the whole layout: the offsets the layout pass
/// records against the provisional all-zero table are a fixpoint — running
/// the pass again with the recorded table reproduces the same table, the
/// same output length and the same errors. With the table fixed, emitting
/// is a function of the parsed program and the table, so assembling twice
/// yields identical bytes.
pub proof fn lemma_layout_fixpoint(parsed: Seq<LineV>)
    ensures
        ({
            let t0 = spec_labels0(parsed);
            let first = spec_pass(parsed, 0, t0, Seq::empty(), Seq::empty());
            let again = spec_pass(parsed, 0, first.0, Seq::empty(), Seq::empty());
            &&& again.0 =~= first.0
            &&& again.1.len() == first.1.len()
            &&& again.2 == first.2
        }),
{
    let t0 = spec_labels0(parsed);
    let first = spec_pass(parsed, 0, t0, Seq::empty(), Seq::empty());
    lemma_labels0_dom(parsed);
    lemma_pass_dom(parsed, 0, t0, Seq::empty(), Seq::empty());
    assert(first.0.dom() =~= t0.dom());
    lemma_pass_stable(parsed, 0, t0, first.0, Seq::empty(), Seq::empty(), Seq::empty());
    let again = spec_pass(parsed, 0, first.0, Seq::empty(), Seq::empty());
    assert(again.0 =~= first.0);
}

} // verus!
