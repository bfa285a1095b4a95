use vstd::prelude::*;

use crate::chunk::{
    constant_operand_in_pool, is_binary, operand_at, operands_valid, returns_one_value, stack_depth,
    Chunk, OpCode,
};
use crate::scanner::{is_numeral, next_token, TokenType};
use crate::compiler::{pool_texts, reports_failure, CompileError, Compiler};
use crate::grammar::{compile_failure, compile_spec};

verus! {

/// Outcome of interpreting a source text.
#[derive(Debug, Clone, Copy, PartialEq, Eq, Structural)]
pub enum InterpretResult {
    Success,
    CompileError,
    RuntimeError,
}

/// What one step of the machine asks of the operand stack, which the host
/// keeps: the machine decides, the host computes the values.
#[derive(Debug, Clone, Copy, PartialEq, Eq, Structural)]
pub enum Action {
    /// Push constant number `i` of the pool.
    Push(usize),
    /// Replace the top value by its negation.
    Negate,
    /// Pop the right operand, then the left one, and push the result.
    Add,
    Subtract,
    Multiply,
    Divide,
    /// Pop the top value: it is the result, and the run is over.
    Return,
    /// Leave the stack as it is.
    Skip,
    /// The run stops with a runtime error.
    Fault,
}

pub open spec fn binary_action(op: OpCode) -> Action {
    match op {
        OpCode::Add => Action::Add,
        OpCode::Subtract => Action::Subtract,
        OpCode::Multiply => Action::Multiply,
        _ => Action::Divide,
    }
}

/// One step from instruction pointer `ip` with `depth` values on the stack:
/// the action, the next instruction pointer and the next depth.
pub open spec fn step_spec(code: Seq<OpCode>, pool_len: nat, ip: int, depth: int) -> (
    Action,
    int,
    int,
) {
    if ip < 0 || ip >= code.len() {
        (Action::Fault, ip, depth)
    } else {
        let op = code[ip];
        if op == OpCode::Return {
            if depth >= 1 {
                (Action::Return, ip + 1, depth - 1)
            } else {
                (Action::Fault, ip + 1, depth)
            }
        } else if op == OpCode::Constant {
            if ip + 1 < code.len() && code[ip + 1] is OpArg && code[ip + 1]->OpArg_0 < pool_len {
                (Action::Push(code[ip + 1]->OpArg_0), ip + 2, depth + 1)
            } else {
                (Action::Fault, ip + 1, depth)
            }
        } else if op == OpCode::Negate {
            if depth >= 1 {
                (Action::Negate, ip + 1, depth)
            } else {
                (Action::Skip, ip + 1, depth)
            }
        } else if is_binary(op) {
            if depth >= 2 {
                (binary_action(op), ip + 1, depth - 1)
            } else {
                (Action::Fault, ip + 1, depth)
            }
        } else {
            (Action::Skip, ip + 1, depth)
        }
    }
}

/// A state of a run of `code` before its end: `ip` starts an instruction,
/// and the instructions before it leave `depth` values on the stack.
pub open spec fn on_track(code: Seq<OpCode>, ip: int, depth: int) -> bool {
    0 <= ip < code.len() && stack_depth(code.take(ip)) == Some(depth)
}

proof fn lemma_boundary_prefix(q: Seq<OpCode>, j: int)
    requires
        stack_depth(q) is Some,
        0 <= j <= q.len(),
        j < q.len() ==> !(q[j] is OpArg),
    ensures
        stack_depth(q.take(j)) is Some,
    decreases q.len(),
{
    if j < q.len() {
        let rest = q.drop_last();
        if q.last() is OpArg {
            let r2 = rest.drop_last();
            assert(r2.take(j) =~= q.take(j));
            lemma_boundary_prefix(r2, j);
        } else {
            assert(rest.take(j) =~= q.take(j));
            lemma_boundary_prefix(rest, j);
        }
    } else {
        assert(q.take(j) =~= q);
    }
}

/// Compiled code runs without a runtime fault. The start, with an empty
/// stack, is on track; from a state on track the next step never faults;
/// the final `Return` finds exactly one value on the stack; every other step
/// leads to a state on track.
pub proof fn compiled_code_runs_clean(code: Seq<OpCode>, pool_len: nat, ip: int, depth: int)
    requires
        returns_one_value(code),
        operands_valid(code, pool_len),
        on_track(code, ip, depth),
    ensures
        on_track(code, 0, 0),
        step_spec(code, pool_len, ip, depth).0 != Action::Fault,
        (step_spec(code, pool_len, ip, depth).0 == Action::Return) == (ip == code.len() - 1),
        ip == code.len() - 1 ==> depth == 1,
        ip < code.len() - 1 ==> on_track(
            code,
            step_spec(code, pool_len, ip, depth).1,
            step_spec(code, pool_len, ip, depth).2,
        ),
{
    let body = code.drop_last();
    assert(code.take(0) =~= Seq::<OpCode>::empty());
    if ip == code.len() - 1 {
        assert(code.take(ip) =~= body);
    } else {
        let op = code[ip];
        if op == OpCode::Constant {
            constant_operand_in_pool(code, pool_len, ip);
            assert(code.take(ip + 2).drop_last().drop_last() =~= code.take(ip));
        } else if op is OpArg {
            reveal(operands_valid);
            assert(operand_at(code, ip));
            assert(code.take(ip).last() == OpCode::Constant);
        } else {
            if ip + 1 < body.len() && body[ip + 1] is OpArg {
                reveal(operands_valid);
                assert(operand_at(code, ip + 1));
            }
            lemma_boundary_prefix(body, ip + 1);
            assert(body.take(ip + 1) =~= code.take(ip).push(op));
            assert(code.take(ip + 1) =~= code.take(ip).push(op));
            assert(code.take(ip).push(op).drop_last() =~= code.take(ip));
        }
    }
}

/// The virtual machine: a loaded chunk, the instruction pointer, and the
/// number of values on the host's operand stack.
pub struct VM {
    chunk: Chunk,
    ip: usize,
    depth: usize,
    error: Option<CompileError>,
}

impl VM {
    pub closed spec fn code(&self) -> Seq<OpCode> {
        self.chunk.code@
    }

    pub closed spec fn pool_len(&self) -> nat {
        self.chunk.constants@.len()
    }

    /// The text of constant `i` of the pool.
    pub closed spec fn pool_text(&self, i: int) -> Seq<char> {
        self.chunk.constants@[i]@
    }

    /// The texts of the constant pool.
    pub closed spec fn pool(&self) -> Seq<Seq<char>> {
        pool_texts(self.chunk.constants@)
    }

    pub closed spec fn ip(&self) -> int {
        self.ip as int
    }

    pub closed spec fn depth(&self) -> int {
        self.depth as int
    }

    pub closed spec fn wf(&self) -> bool {
        &&& self.chunk.wf()
        &&& self.ip <= self.chunk.code@.len()
        &&& self.depth <= self.ip
    }

    pub fn new() -> (r: VM)
        ensures
            r.wf(),
            r.code().len() == 0,
    {
        VM { chunk: Chunk::new(), ip: 0, depth: 0, error: None }
    }

    /// Compiles `source` and loads the chunk with an empty stack, ready to
    /// run; on a compile error keeps the report for `take_error`.
    pub fn interpret(&mut self, source: String) -> (r: InterpretResult)
        requires
            source@.len() < usize::MAX,
        ensures
            final(self).wf(),
            r == InterpretResult::Success || r == InterpretResult::CompileError,
            (r == InterpretResult::CompileError) == (final(self).pending_error() is Some),
            (r == InterpretResult::Success) == (compile_spec(source@) is Some),
            r == InterpretResult::CompileError ==> reports_failure(
                final(self).pending_error().unwrap(),
                compile_failure(source@),
            ),
            r == InterpretResult::Success ==> final(self).code() == compile_spec(source@).unwrap().code.push(
                OpCode::Return,
            ) && final(self).pool() == compile_spec(source@).unwrap().lits,
            r == InterpretResult::Success ==> {
                &&& final(self).ip() == 0
                &&& final(self).depth() == 0
                &&& returns_one_value(final(self).code())
                &&& operands_valid(final(self).code(), final(self).pool_len())
                &&& forall|i: int|
                    0 <= i < final(self).pool_len() ==> is_numeral(
                        #[trigger] final(self).pool_text(i),
                    )
            },
            match next_token(source@, 0) {
                None => r == InterpretResult::CompileError,
                Some(x) => x.0 == TokenType::Error ==> r == InterpretResult::CompileError,
            },
    {
        let mut compiler = Compiler::new(source);
        match compiler.compile() {
            Ok(chunk) => {
                self.chunk = chunk;
                self.ip = 0;
                self.depth = 0;
                self.error = None;
                InterpretResult::Success
            },
            Err(e) => {
                self.chunk = Chunk::new();
                self.ip = 0;
                self.depth = 0;
                self.error = Some(e);
                InterpretResult::CompileError
            },
        }
    }

    /// Loads an already compiled chunk with an empty stack.
    pub fn load(&mut self, chunk: Chunk)
        requires
            chunk.wf(),
        ensures
            final(self).wf(),
            final(self).code() == chunk.code@,
            final(self).pool_len() == chunk.constants@.len(),
            final(self).ip() == 0,
            final(self).depth() == 0,
    {
        self.chunk = chunk;
        self.ip = 0;
        self.depth = 0;
    }

    /// The report of the last compile error, if one is kept.
    pub closed spec fn pending_error(&self) -> Option<CompileError> {
        self.error
    }

    /// The report of the last compile error, once.
    pub fn take_error(&mut self) -> (r: Option<CompileError>)
        ensures
            r == old(self).pending_error(),
            final(self).pending_error() is None,
            final(self).code() == old(self).code(),
            final(self).pool_len() == old(self).pool_len(),
    {
        let mut e = None;
        std::mem::swap(&mut self.error, &mut e);
        e
    }

    /// The loaded chunk.
    pub fn chunk(&self) -> (r: &Chunk)
        requires
            self.wf(),
        ensures
            r.wf(),
            r.code@ == self.code(),
            r.constants@.len() == self.pool_len(),
            pool_texts(r.constants@) == self.pool(),
    {
        &self.chunk
    }

    /// The instruction pointer.
    pub fn instruction_pointer(&self) -> (r: usize)
        ensures
            r == self.ip(),
    {
        self.ip
    }

    /// The slot at the instruction pointer; moves past it.
    fn advance(&mut self) -> (op: OpCode)
        requires
            old(self).wf(),
            old(self).ip < old(self).chunk.code@.len(),
        ensures
            final(self).chunk == old(self).chunk,
            final(self).depth == old(self).depth,
            final(self).ip == old(self).ip + 1,
            op == old(self).chunk.code@[old(self).ip as int],
    {
        self.ip += 1;
        self.chunk.code[self.ip - 1]
    }

    /// The pool index held by an operand slot that lies in the pool; `None`
    /// for any other slot, which `step` turns into a runtime fault.
    fn read_constant(&self, arg: OpCode) -> (r: Option<usize>)
        ensures
            r == if arg is OpArg && arg->OpArg_0 < self.chunk.constants@.len() {
                Some(arg->OpArg_0)
            } else {
                None
            },
    {
        if let OpCode::OpArg(a) = arg {
            if a < self.chunk.constants.len() {
                return Some(a);
            }
        }
        None
    }

    /// A binary operator: two operands are needed, one value remains.
    fn binary_op(&mut self, action: Action) -> (r: Action)
        requires
            old(self).wf(),
            old(self).depth <= old(self).ip,
        ensures
            final(self).chunk == old(self).chunk,
            final(self).ip == old(self).ip,
            if old(self).depth >= 2 {
                r == action && final(self).depth == old(self).depth - 1
            } else {
                r == Action::Fault && final(self).depth == old(self).depth
            },
    {
        if self.depth < 2 {
            return Action::Fault;
        }
        self.depth -= 1;
        action
    }

    /// Executes the instruction at the instruction pointer and says what the
    /// host must do with its stack.
    pub fn step(&mut self) -> (r: Action)
        requires
            old(self).wf(),
        ensures
            final(self).wf(),
            final(self).code() == old(self).code(),
            final(self).pool_len() == old(self).pool_len(),
            (r, final(self).ip(), final(self).depth()) == step_spec(
                old(self).code(),
                old(self).pool_len(),
                old(self).ip(),
                old(self).depth(),
            ),
    {
        if self.ip >= self.chunk.code.len() {
            return Action::Fault;
        }
        let instruction = self.advance();
        match instruction {
            OpCode::Return => {
                if self.depth == 0 {
                    return Action::Fault;
                }
                self.depth -= 1;
                Action::Return
            },
            OpCode::Constant => {
                if self.ip >= self.chunk.code.len() {
                    return Action::Fault;
                }
                let arg = self.chunk.code[self.ip];
                match self.read_constant(arg) {
                    Some(index) => {
                        self.ip += 1;
                        self.depth += 1;
                        Action::Push(index)
                    },
                    None => Action::Fault,
                }
            },
            OpCode::Negate => {
                if self.depth == 0 {
                    Action::Skip
                } else {
                    Action::Negate
                }
            },
            OpCode::Add => self.binary_op(Action::Add),
            OpCode::Subtract => self.binary_op(Action::Subtract),
            OpCode::Multiply => self.binary_op(Action::Multiply),
            OpCode::Divide => self.binary_op(Action::Divide),
            OpCode::OpArg(_) => Action::Skip,
        }
    }
}

} // verus!
