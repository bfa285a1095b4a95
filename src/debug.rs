use vstd::prelude::*;

use crate::chunk::{constant_at, operands_valid, width, Chunk, OpCode};

verus! {

/// One decoded instruction of a chunk, ready to be printed.
#[derive(Debug, Clone, Copy, PartialEq, Eq, Structural)]
pub struct Disassembly {
    pub offset: usize,
    /// The source line, or `None` where it equals the previous slot's line.
    pub line: Option<usize>,
    pub op: OpCode,
    /// For a `Constant` followed by its operand: the pool index.
    pub constant: Option<usize>,
    /// Offset of the instruction that follows.
    pub next: usize,
}

/// The instruction at `offset`, decoded.
pub open spec fn decode(code: Seq<OpCode>, lines: Seq<usize>, offset: int) -> Disassembly {
    Disassembly {
        offset: offset as usize,
        line: if offset > 0 && lines[offset] == lines[offset - 1] {
            None
        } else {
            Some(lines[offset])
        },
        op: code[offset],
        constant: if code[offset] == OpCode::Constant && offset + 1 < code.len() && code[offset
            + 1] is OpArg {
            Some(code[offset + 1]->OpArg_0)
        } else {
            None
        },
        next: (offset + width(code, offset)) as usize,
    }
}

/// Decodes the instruction at `offset`. A `Constant` spans two slots, every
/// other instruction one (an operand slot met on its own included).
pub fn disassemble_instruction(chunk: &Chunk, offset: usize) -> (r: Disassembly)
    requires
        chunk.wf(),
        offset < chunk.code@.len(),
        chunk.code@.len() < usize::MAX,
    ensures
        r == decode(chunk.code@, chunk.lines@, offset as int),
{
    let line = if offset > 0 && chunk.lines[offset] == chunk.lines[offset - 1] {
        None
    } else {
        Some(chunk.lines[offset])
    };
    let op = chunk.code[offset];
    match op {
        OpCode::Constant => constant_instruction(chunk, offset, line),
        _ => simple_instruction(op, offset, line),
    }
}

fn simple_instruction(op: OpCode, offset: usize, line: Option<usize>) -> (r: Disassembly)
    requires
        offset < usize::MAX,
    ensures
        r == (Disassembly { offset, line, op, constant: None, next: (offset + 1) as usize }),
{
    Disassembly { offset, line, op, constant: None, next: offset + 1 }
}

fn constant_instruction(chunk: &Chunk, offset: usize, line: Option<usize>) -> (r: Disassembly)
    requires
        chunk.wf(),
        offset < chunk.code@.len(),
        chunk.code@.len() < usize::MAX,
        chunk.code@[offset as int] == OpCode::Constant,
    ensures
        r == (Disassembly {
            offset,
            line,
            op: OpCode::Constant,
            constant: if offset + 1 < chunk.code@.len() && chunk.code@[offset + 1] is OpArg {
                Some(chunk.code@[offset + 1]->OpArg_0)
            } else {
                None
            },
            next: (offset + 2) as usize,
        }),
{
    let mut constant = None;
    if offset + 1 < chunk.code.len() {
        if let OpCode::OpArg(index) = chunk.code[offset + 1] {
            constant = Some(index);
        }
    }
    Disassembly { offset, line, op: OpCode::Constant, constant, next: offset + 2 }
}

/// Decodes the whole chunk, instruction after instruction from offset 0.
/// On a chunk whose operands are valid the walk ends exactly at the end of
/// the code.
pub fn disassemble_chunk(chunk: &Chunk) -> (r: Vec<Disassembly>)
    requires
        chunk.wf(),
        chunk.code@.len() < usize::MAX,
    ensures
        r@.len() == 0 <==> chunk.code@.len() == 0,
        r@.len() > 0 ==> r@[0].offset == 0,
        forall|i: int|
            0 <= i < r@.len() ==> r@[i].offset < chunk.code@.len() && #[trigger] r@[i] == decode(
                chunk.code@,
                chunk.lines@,
                r@[i].offset as int,
            ),
        forall|i: int| 0 <= i < r@.len() - 1 ==> #[trigger] r@[i + 1].offset == r@[i].next,
        r@.len() > 0 ==> r@.last().next >= chunk.code@.len(),
        r@.len() > 0 && operands_valid(chunk.code@, chunk.constants@.len()) ==> r@.last().next
            == chunk.code@.len(),
{
    let mut out: Vec<Disassembly> = Vec::new();
    let mut offset: usize = 0;
    while offset < chunk.code.len()
        invariant
            chunk.wf(),
            chunk.code@.len() < usize::MAX,
            out@.len() == 0 <==> offset == 0,
            out@.len() > 0 ==> out@[0].offset == 0,
            out@.len() > 0 ==> out@.last().next == offset,
            forall|i: int|
                0 <= i < out@.len() ==> out@[i].offset < chunk.code@.len() && #[trigger] out@[i]
                    == decode(chunk.code@, chunk.lines@, out@[i].offset as int),
            forall|i: int| 0 <= i < out@.len() - 1 ==> #[trigger] out@[i + 1].offset == out@[i].next,
            operands_valid(chunk.code@, chunk.constants@.len()) ==> offset <= chunk.code@.len(),
            offset <= chunk.code@.len() + 1,
        decreases chunk.code@.len() + 1 - offset,
    {
        let d = disassemble_instruction(chunk, offset);
        proof {
            if operands_valid(chunk.code@, chunk.constants@.len()) && chunk.code@[offset as int]
                == OpCode::Constant {
                reveal(operands_valid);
                assert(constant_at(chunk.code@, offset as int));
            }
        }
        let ghost before = out@;
        out.push(d);
        offset = d.next;
        proof {
            assert forall|i: int| 0 <= i < out@.len() - 1 implies #[trigger] out@[i + 1].offset
                == out@[i].next by {
                if i + 1 < before.len() {
                    assert(before[i + 1].offset == before[i].next);
                }
            }
        }
    }
    out
}

} // verus!
