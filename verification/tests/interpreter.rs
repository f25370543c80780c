use pqvm::interpreter::STACK_LIMIT;
use pqvm::{
    Env, ExecutionStatus, FrameContext, Interpreter, InterpreterError, PQAddress, PqU256, PqvmState,
};

#[test]
fn pop_undoes_push() {
    let mut interpreter = Interpreter::default();
    interpreter.push(PqU256::from_u64(1)).unwrap();
    interpreter.push(PqU256::from_u64(2)).unwrap();
    assert_eq!(interpreter.pop(), Ok(PqU256::from_u64(2)));
    assert_eq!(interpreter.pop(), Ok(PqU256::from_u64(1)));
    assert_eq!(interpreter.pop(), Err(InterpreterError::StackUnderflow));
}

#[test]
fn stack_holds_1024_words() {
    let mut interpreter = Interpreter::default();
    assert_eq!(STACK_LIMIT, 1024);
    for i in 0..1024u64 {
        assert_eq!(interpreter.push(PqU256::from_u64(i)), Ok(()));
    }
    assert_eq!(
        interpreter.push(PqU256::zero()),
        Err(InterpreterError::StackOverflow)
    );
    assert_eq!(interpreter.pop(), Ok(PqU256::from_u64(1023)));
    assert_eq!(interpreter.push(PqU256::from_u64(7)), Ok(()));
}

#[test]
fn frames_run_their_own_code() {
    let env = Env {
        chain_id: 1,
        block_number: 0,
        coinbase: PQAddress::zero(),
        gas_limit: 100,
        timestamp: 0,
    };
    let mut ctx = FrameContext {
        code: vec![],
        calldata: vec![0xf2],
        caller: PQAddress::zero(),
        address: PQAddress::zero(),
        value: PqU256::zero(),
        origin: PQAddress::zero(),
        is_static: false,
        depth: 0,
        gas_limit: 100,
    };
    let mut state = PqvmState::default();
    let mut interpreter = Interpreter::default();
    let result = interpreter.execute_frame(&mut state, &env, &ctx).unwrap();
    assert_eq!(result.status, ExecutionStatus::Success);
    ctx.code = vec![0xf2];
    assert_eq!(
        interpreter.execute_frame(&mut state, &env, &ctx),
        Err(InterpreterError::RemovedOpcode("CALLCODE"))
    );
    ctx.code = vec![0x60, 0x00];
    assert_eq!(
        interpreter.execute_frame(&mut state, &env, &ctx),
        Err(InterpreterError::UnsupportedOpcode(0x60))
    );
}
