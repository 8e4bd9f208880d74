use mini_cpu::errors::ParseError;
use mini_cpu::operation::Operation;

#[test]
fn round_trip_arith_line() {
    let line = "add r2 r0 r1";
    let op = Operation::parse_op(line.to_string()).unwrap();
    assert_eq!(op.to_string(), line);
}

#[test]
fn round_trip_all_opcodes() {
    let lines = [
        "add r0 1 2",
        "sub r1 r0 -3",
        "mul r2 4 r1",
        "div r3 r2 2",
        "ld r0 r1",
        "str r0 10",
        "mov r1 r2",
        "cmp r0 7",
        "jmp r0 5",
    ];
    for line in lines {
        let op = Operation::parse_op(line.to_string()).unwrap();
        assert_eq!(op.to_string(), line);
    }
}

#[test]
fn round_trip_keeps_empty_tokens() {
    // Two touching spaces make an empty operand token; the arity check
    // counts it, and the canonical form reproduces the line exactly.
    let line = "mov r1  r2";
    assert!(Operation::parse_op(line.to_string()).is_err());
    let padded = "ld  r0";
    let op = Operation::parse_op(padded.to_string()).unwrap();
    assert_eq!(op.to_string(), padded);
}

#[test]
fn unknown_opcode_is_rejected() {
    assert_eq!(
        Operation::parse_op("foo r1 r2".to_string()).unwrap_err(),
        ParseError::UnknownOpcode
    );
    assert_eq!(
        Operation::parse_op("".to_string()).unwrap_err(),
        ParseError::UnknownOpcode
    );
    assert_eq!(
        Operation::parse_op("ADD r0 r1 r2".to_string()).unwrap_err(),
        ParseError::UnknownOpcode
    );
}

#[test]
fn wrong_arity_is_rejected() {
    // Arithmetic lines need four tokens.
    assert_eq!(
        Operation::parse_op("add r1 r2".to_string()).unwrap_err(),
        ParseError::WrongArity
    );
    assert_eq!(
        Operation::parse_op("add r1 r2 r3 r4".to_string()).unwrap_err(),
        ParseError::WrongArity
    );
    // Load, store, move, compare and jump lines need three.
    assert_eq!(
        Operation::parse_op("ld r0 r1 r2".to_string()).unwrap_err(),
        ParseError::WrongArity
    );
    assert_eq!(
        Operation::parse_op("jmp r0".to_string()).unwrap_err(),
        ParseError::WrongArity
    );
    assert_eq!(
        Operation::parse_op("str".to_string()).unwrap_err(),
        ParseError::WrongArity
    );
}

#[test]
fn parse_keeps_operand_text() {
    let op = Operation::parse_op("cmp r3 42".to_string()).unwrap();
    match op {
        Operation::Cmp { this, eq_this } => {
            assert_eq!(this, "r3");
            assert_eq!(eq_this, "42");
        }
        _ => panic!("expected a compare instruction"),
    }
}

#[test]
fn get_particles_splits_on_single_spaces() {
    let line = "add r0  r1".to_string();
    let parts = mini_cpu::operation::get_particles(&line);
    assert_eq!(parts, vec!["add", "r0", "", "r1"]);
}
