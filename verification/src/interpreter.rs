//! The interpreter: stack, frames and their outcome.
use crate::primitives::{PQAddress, PQTx, PqBytes};
use crate::state::PqvmDatabase;
use crate::word::PqU256;
use vstd::prelude::*;

verus! {

/// The block and chain in which code runs.
#[derive(Clone, Copy, Debug, PartialEq, Eq)]
pub struct Env {
    pub chain_id: u64,
    pub block_number: u64,
    pub coinbase: PQAddress,
    pub gas_limit: u64,
    pub timestamp: u64,
}

/// How a frame ended.
#[derive(Clone, Copy, Debug, PartialEq, Eq, Structural)]
pub enum ExecutionStatus {
    Success,
    Revert,
    Halt,
}

/// A log record that code emitted.
#[derive(Clone, Debug, PartialEq, Eq)]
pub struct LogEntry {
    pub address: PQAddress,
    pub topics: Vec<PqU256>,
    pub data: PqBytes,
}

/// What a frame came to.
#[derive(Clone, Debug, PartialEq, Eq)]
pub struct ExecutionResult {
    pub status: ExecutionStatus,
    pub gas_used: u64,
    pub output: PqBytes,
    pub logs: Vec<LogEntry>,
}

/// What a frame came to, by its byte string and its list of logs.
#[verifier::ext_equal]
pub struct ExecutionView {
    pub status: ExecutionStatus,
    pub gas_used: u64,
    pub output: Seq<u8>,
    pub logs: Seq<LogEntry>,
}

impl View for ExecutionResult {
    type V = ExecutionView;

    open spec fn view(&self) -> ExecutionView {
        ExecutionView {
            status: self.status,
            gas_used: self.gas_used,
            output: self.output@,
            logs: self.logs@,
        }
    }
}

/// Why code cannot be run.
#[derive(Clone, Copy, Debug, PartialEq, Eq)]
pub enum InterpreterError {
    UnsupportedOpcode(u8),
    RemovedOpcode(&'static str),
    StackUnderflow,
    StackOverflow,
}

/// Why code cannot be run, by the characters of the opcode's name.
pub enum InterpreterErrorView {
    UnsupportedOpcode(u8),
    RemovedOpcode(Seq<char>),
    StackUnderflow,
    StackOverflow,
}

impl View for InterpreterError {
    type V = InterpreterErrorView;

    open spec fn view(&self) -> InterpreterErrorView {
        match *self {
            InterpreterError::UnsupportedOpcode(opcode) => InterpreterErrorView::UnsupportedOpcode(
                opcode,
            ),
            InterpreterError::RemovedOpcode(name) => InterpreterErrorView::RemovedOpcode(name@),
            InterpreterError::StackUnderflow => InterpreterErrorView::StackUnderflow,
            InterpreterError::StackOverflow => InterpreterErrorView::StackOverflow,
        }
    }
}

/// `CALLCODE`, which the machine has no longer.
pub const CALLCODE_OPCODE: u8 = 0xf2;

/// What running code comes to. Empty code succeeds at once; no opcode is implemented
/// yet, and the removed one is told apart from the others.
pub open spec fn code_outcome(code: Seq<u8>) -> Result<ExecutionView, InterpreterErrorView> {
    if code.len() == 0 {
        Ok(
            ExecutionView {
                status: ExecutionStatus::Success,
                gas_used: 0,
                output: Seq::empty(),
                logs: Seq::empty(),
            },
        )
    } else if code[0] == CALLCODE_OPCODE {
        Err(InterpreterErrorView::RemovedOpcode("CALLCODE"@))
    } else {
        Err(InterpreterErrorView::UnsupportedOpcode(code[0]))
    }
}

/// One call frame.
#[derive(Clone, Debug, PartialEq, Eq)]
pub struct FrameContext {
    pub code: PqBytes,
    pub calldata: PqBytes,
    pub caller: PQAddress,
    pub address: PQAddress,
    pub value: PqU256,
    pub origin: PQAddress,
    pub is_static: bool,
    pub depth: usize,
    pub gas_limit: u64,
}

/// A call frame, by its numbers and byte strings.
#[verifier::ext_equal]
pub struct FrameView {
    pub code: Seq<u8>,
    pub calldata: Seq<u8>,
    pub caller: Seq<u8>,
    pub address: Seq<u8>,
    pub value: nat,
    pub origin: Seq<u8>,
    pub is_static: bool,
    pub depth: usize,
    pub gas_limit: u64,
}

impl View for FrameContext {
    type V = FrameView;

    open spec fn view(&self) -> FrameView {
        FrameView {
            code: self.code@,
            calldata: self.calldata@,
            caller: self.caller@,
            address: self.address@,
            value: self.value@,
            origin: self.origin@,
            is_static: self.is_static,
            depth: self.depth,
            gas_limit: self.gas_limit,
        }
    }
}

/// How many words the stack can hold.
pub const STACK_LIMIT: usize = 1024;

/// The machine: a stack of at most 1024 words.
#[derive(Debug)]
pub struct Interpreter {
    stack: Vec<PqU256>,
}

impl View for Interpreter {
    type V = Seq<nat>;

    /// The words on the stack, the top one last.
    closed spec fn view(&self) -> Seq<nat> {
        self.stack@.map_values(|w: PqU256| w@)
    }
}

impl Default for Interpreter {
    fn default() -> (interpreter: Self)
        ensures
            interpreter@ == Seq::<nat>::empty(),
    {
        let interpreter = Interpreter { stack: Vec::with_capacity(STACK_LIMIT) };
        assert(interpreter@ =~= Seq::<nat>::empty());
        interpreter
    }
}

impl Interpreter {
    #[verifier::type_invariant]
    spec fn within_limit(self) -> bool {
        self.stack@.len() <= STACK_LIMIT
    }

    /// Runs a transaction's data as code.
    pub fn execute<D: PqvmDatabase>(&mut self, db: &mut D, env: &Env, tx: &PQTx) -> (outcome: Result<
        ExecutionResult,
        InterpreterError,
    >)
        ensures
            outcome matches Ok(result) ==> code_outcome(tx.data@) == Ok::<
                ExecutionView,
                InterpreterErrorView,
            >(result@),
            outcome matches Err(error) ==> code_outcome(tx.data@) == Err::<
                ExecutionView,
                InterpreterErrorView,
            >(error@),
            final(self)@ == old(self)@,
            *final(db) == *old(db),
    {
        run_code(tx.data.as_slice())
    }

    /// Runs a frame's code.
    pub fn execute_frame<D: PqvmDatabase>(
        &mut self,
        db: &mut D,
        env: &Env,
        ctx: &FrameContext,
    ) -> (outcome: Result<ExecutionResult, InterpreterError>)
        ensures
            outcome matches Ok(result) ==> code_outcome(ctx.code@) == Ok::<
                ExecutionView,
                InterpreterErrorView,
            >(result@),
            outcome matches Err(error) ==> code_outcome(ctx.code@) == Err::<
                ExecutionView,
                InterpreterErrorView,
            >(error@),
            final(self)@ == old(self)@,
            *final(db) == *old(db),
    {
        run_code(ctx.code.as_slice())
    }

    /// Puts a word on the stack, unless it is full.
    pub fn push(&mut self, value: PqU256) -> (done: Result<(), InterpreterError>)
        ensures
            match done {
                Ok(_) => old(self)@.len() < STACK_LIMIT && final(self)@ == old(self)@.push(value@),
                Err(error) => old(self)@.len() == STACK_LIMIT && error@
                    == InterpreterErrorView::StackOverflow && final(self)@ == old(self)@,
            },
            final(self)@.len() <= STACK_LIMIT,
    {
        proof {
            use_type_invariant(&*self);
        }
        if self.stack.len() >= STACK_LIMIT {
            return Err(InterpreterError::StackOverflow);
        }
        let mut stack: Vec<PqU256> = Vec::new();
        std::mem::swap(&mut stack, &mut self.stack);
        stack.push(value);
        self.stack = stack;
        assert(self@ =~= old(self)@.push(value@));
        Ok(())
    }

    /// Takes the top word off the stack, unless it is empty.
    pub fn pop(&mut self) -> (taken: Result<PqU256, InterpreterError>)
        ensures
            match taken {
                Ok(value) => old(self)@.len() > 0 && value@ == old(self)@.last() && final(self)@
                    == old(self)@.drop_last(),
                Err(error) => old(self)@.len() == 0 && error@
                    == InterpreterErrorView::StackUnderflow && final(self)@ == old(self)@,
            },
            final(self)@.len() <= STACK_LIMIT,
    {
        proof {
            use_type_invariant(&*self);
        }
        let mut stack: Vec<PqU256> = Vec::new();
        std::mem::swap(&mut stack, &mut self.stack);
        let top = stack.pop();
        self.stack = stack;
        match top {
            Some(value) => {
                assert(self@ =~= old(self)@.drop_last());
                Ok(value)
            },
            None => Err(InterpreterError::StackUnderflow),
        }
    }
}

fn run_code(code: &[u8]) -> (outcome: Result<ExecutionResult, InterpreterError>)
    ensures
        outcome matches Ok(result) ==> code_outcome(code@) == Ok::<
            ExecutionView,
            InterpreterErrorView,
        >(result@),
        outcome matches Err(error) ==> code_outcome(code@) == Err::<
            ExecutionView,
            InterpreterErrorView,
        >(error@),
{
    if code.len() > 0 {
        if code[0] == CALLCODE_OPCODE {
            return Err(InterpreterError::RemovedOpcode("CALLCODE"));
        }
        return Err(InterpreterError::UnsupportedOpcode(code[0]));
    }
    let result = ExecutionResult {
        status: ExecutionStatus::Success,
        gas_used: 0,
        output: Vec::new(),
        logs: Vec::new(),
    };
    assert(result@.output =~= Seq::<u8>::empty());
    assert(result@.logs =~= Seq::<LogEntry>::empty());
    Ok(result)
}

/// Taking a word off a stack gives the word that was put on it last and leaves the
/// stack as it was before.
pub proof fn law_pop_undoes_push(stack: Seq<nat>, word: nat)
    ensures
        stack.push(word).last() == word,
        stack.push(word).drop_last() == stack,
{
    assert(stack.push(word).drop_last() =~= stack);
}

/// Running code succeeds exactly if there is none, and then without gas, output or logs.
/// Code of any other length is refused, and its first byte alone says how: the removed
/// opcode by its name, every other as unsupported.
pub proof fn law_code_outcome(code: Seq<u8>)
    ensures
        code_outcome(code) is Ok <==> code.len() == 0,
        code_outcome(code) matches Ok(run) ==> {
            &&& run.status == ExecutionStatus::Success
            &&& run.gas_used == 0
            &&& run.output.len() == 0
            &&& run.logs.len() == 0
        },
        code_outcome(code) == Err::<ExecutionView, InterpreterErrorView>(
            InterpreterErrorView::RemovedOpcode("CALLCODE"@),
        ) <==> code.len() > 0 && code[0] == 0xf2,
        code_outcome(code) == Err::<ExecutionView, InterpreterErrorView>(
            InterpreterErrorView::UnsupportedOpcode(code[0]),
        ) <==> code.len() > 0 && code[0] != 0xf2,
{
}

/// What follows the first byte of code plays no part.
pub proof fn law_first_byte_decides(a: Seq<u8>, b: Seq<u8>)
    requires
        a.len() > 0,
        b.len() > 0,
        a[0] == b[0],
    ensures
        code_outcome(a) == code_outcome(b),
        code_outcome(a) is Err,
{
}

} // verus!
