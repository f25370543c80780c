//! The Shell-Chain post-quantum virtual machine: addresses, transactions, world
//! state, precompiles and the execution of transactions and blocks.
pub mod block;
pub mod bytes;
pub mod digest;
pub mod gas;
pub mod hexcode;
pub mod interpreter;
pub mod keyed;
pub mod laws;
pub mod precompiles;
pub mod primitives;
pub mod rules;
pub mod signatures;
pub mod state;
pub mod transaction;
pub mod word;

pub use block::{execute_block, BlockExecutionError, BlockExecutionResult};
pub use interpreter::{
    Env, ExecutionResult, ExecutionStatus, FrameContext, Interpreter, InterpreterError, LogEntry,
};
pub use primitives::{AlgoId, PQAddress, PQTx, PqBytes, PqHash, PrimitiveError};
pub use state::{AccountInfo, PqvmDatabase, PqvmState, StateDiff, StateError};
pub use transaction::{execute_transaction, TxExecutionError, TxReceipt};
pub use word::PqU256;
