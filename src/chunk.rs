use vstd::prelude::*;

verus! {

/// One slot of bytecode.
#[derive(Debug, Clone, Copy, PartialEq, Eq, Structural)]
pub enum OpCode {
    Constant,
    Add,
    Subtract,
    Multiply,
    Divide,
    Negate,
    Return,
    /// The constant-pool index that follows a `Constant`.
    OpArg(usize),
}

/// Largest constant-pool index that an operand may hold.
pub const MAX_CONSTANT_INDEX: usize = 255;

/// A compiled unit: instructions, one source line per slot, and the constant
/// pool. The pool keeps each numeric literal as it was written; the host
/// turns it into its number type when it runs the chunk.
#[derive(Debug)]
pub struct Chunk {
    pub code: Vec<OpCode>,
    pub constants: Vec<String>,
    pub lines: Vec<usize>,
}

pub open spec fn is_binary(op: OpCode) -> bool {
    op == OpCode::Add || op == OpCode::Subtract || op == OpCode::Multiply || op == OpCode::Divide
}

pub open spec fn constant_at(code: Seq<OpCode>, p: int) -> bool {
    0 <= p < code.len() && code[p] == OpCode::Constant
}

pub open spec fn operand_at(code: Seq<OpCode>, p: int) -> bool {
    0 <= p < code.len() && code[p] is OpArg
}

/// Every `Constant` is followed by an operand that indexes the pool (and
/// fits in a byte), and every operand follows a `Constant`.
#[verifier::opaque]
pub open spec fn operands_valid(code: Seq<OpCode>, pool_len: nat) -> bool {
    &&& forall|p: int|
        #[trigger] constant_at(code, p) ==> {
            &&& p + 1 < code.len()
            &&& code[p + 1] is OpArg
            &&& code[p + 1]->OpArg_0 < pool_len
            &&& code[p + 1]->OpArg_0 <= MAX_CONSTANT_INDEX
        }
    &&& forall|p: int| #[trigger] operand_at(code, p) ==> p > 0 && code[p - 1] == OpCode::Constant
}

/// In code whose operands are valid, as compiled code is, the slot after
/// every `Constant` is an operand whose index lies inside the constant pool.
pub proof fn constant_operand_in_pool(code: Seq<OpCode>, pool_len: nat, p: int)
    requires
        operands_valid(code, pool_len),
        0 <= p < code.len(),
        code[p] == OpCode::Constant,
    ensures
        p + 1 < code.len(),
        code[p + 1] is OpArg,
        code[p + 1]->OpArg_0 < pool_len,
{
    reveal(operands_valid);
    assert(constant_at(code, p));
}

pub open spec fn shifted(d: Option<int>, k: int) -> Option<int> {
    match d {
        Some(v) => Some(v + k),
        None => None,
    }
}

pub proof fn lemma_operands_valid_empty(code: Seq<OpCode>, n: nat)
    requires
        code.len() == 0,
    ensures
        operands_valid(code, n),
{
    reveal(operands_valid);
}

pub proof fn lemma_operands_valid_grow_pool(code: Seq<OpCode>, n: nat, m: nat)
    requires
        operands_valid(code, n),
        n <= m,
    ensures
        operands_valid(code, m),
{
    reveal(operands_valid);
}

/// Appending an instruction without an operand keeps the operands valid;
/// the stack depth then follows the instruction.
pub proof fn lemma_push_plain(code: Seq<OpCode>, n: nat, op: OpCode)
    requires
        operands_valid(code, n),
        op != OpCode::Constant,
        !(op is OpArg),
    ensures
        operands_valid(code.push(op), n),
        code.push(op).drop_last() == code,
        code.push(op).last() == op,
{
    reveal(operands_valid);
    let c2 = code.push(op);
    assert(c2.drop_last() =~= code);
    assert forall|p: int| #[trigger] constant_at(c2, p) implies {
        &&& p + 1 < c2.len()
        &&& c2[p + 1] is OpArg
        &&& c2[p + 1]->OpArg_0 < n
        &&& c2[p + 1]->OpArg_0 <= MAX_CONSTANT_INDEX
    } by {
        assert(constant_at(code, p));
    }
    assert forall|p: int| #[trigger] operand_at(c2, p) implies p > 0 && c2[p - 1]
        == OpCode::Constant by {
        assert(operand_at(code, p));
    }
}

/// Appending a `Constant` with a valid operand keeps the operands valid and
/// pushes one value.
pub proof fn lemma_push_constant(code: Seq<OpCode>, n: nat, i: usize)
    requires
        operands_valid(code, n),
        i < n,
        i <= MAX_CONSTANT_INDEX,
    ensures
        operands_valid(code.push(OpCode::Constant).push(OpCode::OpArg(i)), n),
        stack_depth(code.push(OpCode::Constant).push(OpCode::OpArg(i))) == shifted(stack_depth(code), 1),
{
    reveal(operands_valid);
    let c2 = code.push(OpCode::Constant).push(OpCode::OpArg(i));
    assert(c2.drop_last().drop_last() =~= code);
    assert forall|p: int| #[trigger] constant_at(c2, p) implies {
        &&& p + 1 < c2.len()
        &&& c2[p + 1] is OpArg
        &&& c2[p + 1]->OpArg_0 < n
        &&& c2[p + 1]->OpArg_0 <= MAX_CONSTANT_INDEX
    } by {
        if p < code.len() {
            assert(constant_at(code, p));
        }
    }
    assert forall|p: int| #[trigger] operand_at(c2, p) implies p > 0 && c2[p - 1]
        == OpCode::Constant by {
        if p < code.len() {
            assert(operand_at(code, p));
        }
    }
}

/// Number of slots that the instruction at `p` occupies.
pub open spec fn width(code: Seq<OpCode>, p: int) -> int {
    if code[p] == OpCode::Constant {
        2
    } else {
        1
    }
}

/// Operand-stack depth after running `code` from an empty stack, for code
/// made of whole instructions, none of them `Return`; `None` where an
/// operator would find too few operands or the code is not of that shape.
/// `Negate` on an empty stack leaves it empty.
pub open spec fn stack_depth(code: Seq<OpCode>) -> Option<int>
    decreases code.len(),
{
    if code.len() == 0 {
        Some(0)
    } else {
        let rest = code.drop_last();
        let op = code.last();
        if op is OpArg {
            if rest.len() > 0 && rest.last() == OpCode::Constant {
                match stack_depth(rest.drop_last()) {
                    Some(d) => Some(d + 1),
                    None => None,
                }
            } else {
                None
            }
        } else if op == OpCode::Negate {
            stack_depth(rest)
        } else if is_binary(op) {
            match stack_depth(rest) {
                Some(d) => if d >= 2 {
                    Some(d - 1)
                } else {
                    None
                },
                None => None,
            }
        } else {
            None
        }
    }
}

pub proof fn lemma_stack_depth_nonneg(code: Seq<OpCode>)
    ensures
        stack_depth(code) matches Some(d) ==> d >= 0,
    decreases code.len(),
{
    if code.len() > 0 {
        lemma_stack_depth_nonneg(code.drop_last());
        if code.len() > 1 {
            lemma_stack_depth_nonneg(code.drop_last().drop_last());
        }
    }
}

/// The code evaluates one expression and then returns its value: it ends
/// in `Return`, and what comes before leaves exactly one value on the stack.
pub open spec fn returns_one_value(code: Seq<OpCode>) -> bool {
    &&& code.len() > 0
    &&& code.last() == OpCode::Return
    &&& stack_depth(code.drop_last()) == Some(1int)
}

impl Chunk {
    pub open spec fn wf(&self) -> bool {
        self.lines.len() == self.code.len()
    }

    pub fn new() -> (r: Chunk)
        ensures
            r.wf(),
            r.code@.len() == 0,
            r.constants@.len() == 0,
    {
        Chunk { code: Vec::new(), constants: Vec::new(), lines: Vec::new() }
    }

    /// Appends one slot, recorded as coming from source line `line`.
    pub fn write_chunk(&mut self, instruction: OpCode, line: usize)
        ensures
            final(self).code@ == old(self).code@.push(instruction),
            final(self).lines@ == old(self).lines@.push(line),
            final(self).constants@ == old(self).constants@,
    {
        self.code.push(instruction);
        self.lines.push(line);
    }

    /// Appends `value` to the constant pool and returns its index.
    pub fn add_constant(&mut self, value: String) -> (r: usize)
        ensures
            final(self).constants@ == old(self).constants@.push(value),
            final(self).code@ == old(self).code@,
            final(self).lines@ == old(self).lines@,
            r == old(self).constants@.len(),
    {
        self.constants.push(value);
        self.constants.len() - 1
    }
}

} // verus!
