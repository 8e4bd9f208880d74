use mini_cpu::cpu_state::{CpuState, RunOutcome, gen_program_vec, new_interal};
use mini_cpu::errors::{ParseError, VmError};
use mini_cpu::operation::{get_mem_val, get_val, check_between_cpu_mem_refs};

fn load(lines: &[&str]) -> CpuState {
    let program: Vec<String> = lines.iter().map(|l| l.to_string()).collect();
    CpuState::new(program).unwrap()
}

#[test]
fn fresh_machine_is_all_zero() {
    let cpu = load(&["mov r0 r1"]);
    assert_eq!(cpu.registers(), [0i32; 12]);
    assert_eq!(cpu.memory(), [0i32; 48]);
    assert_eq!(cpu.program_counter, 0);
}

#[test]
fn load_is_all_or_nothing() {
    let lines: Vec<String> = vec!["add r1 r2 r3".to_string(), "bogus x".to_string()];
    let err = CpuState::new(lines).unwrap_err();
    assert_eq!(
        err,
        VmError::Parse { line: 1, kind: ParseError::UnknownOpcode }
    );
    let lines: Vec<String> = vec!["add r1 r2".to_string(), "bogus x".to_string()];
    let err = gen_program_vec(&lines).unwrap_err();
    assert_eq!(err, VmError::Parse { line: 0, kind: ParseError::WrongArity });
}

#[test]
fn arithmetic_adds_and_advances() {
    // Registers r0 = 5, r1 = 3; `add r2 r0 r1` leaves r2 = 8 and moves the
    // program counter forward by exactly one.
    let mut cpu = load(&["add r2 r0 r1"]);
    cpu.cpu_memory[0] = 5;
    cpu.cpu_memory[1] = 3;
    let (next, err) = cpu.step();
    assert!(err.is_none());
    assert_eq!(next.registers()[2], 8);
    assert_eq!(next.program_counter, 1);
}

#[test]
fn arithmetic_exact_values() {
    let (cpu, outcome) = load(&[
        "add r0 20 22",
        "sub r1 r0 50",
        "mul r2 r1 -6",
        "div r3 r2 7",
    ])
    .execute_program(100);
    assert_eq!(outcome, RunOutcome::Completed);
    assert_eq!(cpu.registers()[0], 42);
    assert_eq!(cpu.registers()[1], -8);
    assert_eq!(cpu.registers()[2], 48);
    assert_eq!(cpu.registers()[3], 6);
}

#[test]
fn addition_wraps_on_overflow() {
    let (cpu, outcome) = load(&["add r0 2147483647 1"]).execute_program(10);
    assert_eq!(outcome, RunOutcome::Completed);
    assert_eq!(cpu.registers()[0], i32::MIN);
}

#[test]
fn division_truncates_toward_zero() {
    let (cpu, outcome) = load(&[
        "div r0 -7 2",
        "div r1 7 -2",
        "div r2 -7 -2",
        "div r3 7 2",
    ])
    .execute_program(100);
    assert_eq!(outcome, RunOutcome::Completed);
    assert_eq!(cpu.registers()[0], -3);
    assert_eq!(cpu.registers()[1], -3);
    assert_eq!(cpu.registers()[2], 3);
    assert_eq!(cpu.registers()[3], 3);
}

#[test]
fn division_of_minimum_by_minus_one_wraps() {
    let (cpu, outcome) = load(&["div r0 -2147483648 -1"]).execute_program(10);
    assert_eq!(outcome, RunOutcome::Completed);
    assert_eq!(cpu.registers()[0], i32::MIN);
}

#[test]
fn division_by_zero_faults_and_keeps_state() {
    // r2 is zero-initialized; the run stops with DivisionByZero and r0 is
    // left unmodified.
    let mut cpu = load(&["div r0 r1 r2"]);
    cpu.cpu_memory[0] = 7;
    let (after, outcome) = cpu.execute_program(10);
    assert_eq!(
        outcome,
        RunOutcome::Faulted(VmError::DivisionByZero { at: 0 })
    );
    assert_eq!(after.registers()[0], 7);
    assert_eq!(after.program_counter, 0);
}

#[test]
fn store_then_load_round_trip() {
    // `str r0 0` writes r0's value to memory cell 0; `ld r0 r1` reads the
    // cell addressed by r0's register index — 0 — into r1.
    let mut cpu = load(&["str r0 0", "ld r0 r1"]);
    cpu.cpu_memory[0] = 42;
    let (after, outcome) = cpu.execute_program(10);
    assert_eq!(outcome, RunOutcome::Completed);
    assert_eq!(after.memory()[0], 42);
    assert_eq!(after.registers()[1], 42);
}

#[test]
fn store_addresses_the_literal_cell() {
    let mut cpu = load(&["str r3 10"]);
    cpu.cpu_memory[3] = -9;
    let (after, outcome) = cpu.execute_program(10);
    assert_eq!(outcome, RunOutcome::Completed);
    assert_eq!(after.memory()[10], -9);
}

#[test]
fn move_copies_between_registers() {
    let mut cpu = load(&["mov r5 r11"]);
    cpu.cpu_memory[5] = 13;
    let (after, outcome) = cpu.execute_program(10);
    assert_eq!(outcome, RunOutcome::Completed);
    assert_eq!(after.registers()[11], 13);
    assert_eq!(after.registers()[5], 13);
}

#[test]
fn jump_taken_redirects_the_counter() {
    // r0 does not hold 7, so the compare leaves r0 = 0 and the jump on
    // r0 == 0 is taken to instruction index 5, skipping everything between.
    let cpu = load(&["cmp r0 7", "jmp r0 5", "add r1 1 1", "add r1 1 1"]);
    let (after, outcome) = cpu.execute_program(10);
    assert_eq!(outcome, RunOutcome::Completed);
    assert_eq!(after.registers()[0], 0);
    assert_eq!(after.registers()[1], 0);
    assert_eq!(after.program_counter, 5);
}

#[test]
fn jump_not_taken_falls_through() {
    // r0 holds 7, the compare sets r0 = 1, and the jump falls through to
    // the next instruction.
    let mut cpu = load(&["cmp r0 7", "jmp r0 5", "add r1 1 1"]);
    cpu.cpu_memory[0] = 7;
    let (after, outcome) = cpu.execute_program(10);
    assert_eq!(outcome, RunOutcome::Completed);
    assert_eq!(after.registers()[0], 1);
    assert_eq!(after.registers()[1], 2);
    assert_eq!(after.program_counter, 3);
}

#[test]
fn end_to_end_batch_run() {
    // add r0 2 3   -> r0 = 5
    // add r1 r0 1  -> r1 = 6
    // str r0 0     -> memory[0] = 5
    // ld r0 r1     -> r1 = memory[0] = 5, per the load addressing rule:
    //                 the first operand's register index is the address.
    let cpu = load(&["add r0 2 3", "add r1 r0 1", "str r0 0", "ld r0 r1"]);
    let (after, outcome) = cpu.execute_program(100);
    assert_eq!(outcome, RunOutcome::Completed);
    assert_eq!(after.registers()[0], 5);
    assert_eq!(after.registers()[1], 5);
    assert_eq!(after.memory()[0], 5);
    assert_eq!(after.program_counter, 4);
}

#[test]
fn empty_program_completes_at_once() {
    let cpu = load(&[]);
    let (after, outcome) = cpu.execute_program(0);
    assert_eq!(outcome, RunOutcome::Completed);
    assert_eq!(after.program_counter, 0);
}

#[test]
fn tight_loop_runs_out_of_steps() {
    // r0 stays 0, so the jump to index 0 is always taken.
    let cpu = load(&["jmp r0 0"]);
    let (after, outcome) = cpu.execute_program(5);
    assert_eq!(outcome, RunOutcome::OutOfSteps);
    assert_eq!(after.program_counter, 0);
}

#[test]
fn store_out_of_range_faults() {
    let (_, outcome) = load(&["str r0 48"]).execute_program(10);
    assert_eq!(
        outcome,
        RunOutcome::Faulted(VmError::OutOfRangeMemoryAccess { at: 0 })
    );
    let (_, outcome) = load(&["str r0 ten"]).execute_program(10);
    assert_eq!(
        outcome,
        RunOutcome::Faulted(VmError::OperandFormat { at: 0 })
    );
}

#[test]
fn bad_destination_faults_with_position() {
    let (_, outcome) = load(&["mov r0 r1", "add 5 r0 r1"]).execute_program(10);
    assert_eq!(
        outcome,
        RunOutcome::Faulted(VmError::OperandFormat { at: 1 })
    );
    let (_, outcome) = load(&["add r12 1 2"]).execute_program(10);
    assert_eq!(
        outcome,
        RunOutcome::Faulted(VmError::OperandRange { at: 0 })
    );
}

#[test]
fn taken_jump_needs_a_numeric_target() {
    let (_, outcome) = load(&["jmp r0 five"]).execute_program(10);
    assert_eq!(
        outcome,
        RunOutcome::Faulted(VmError::OperandFormat { at: 0 })
    );
    // Not taken: the target operand is never read, as in deferred
    // resolution generally.
    let mut cpu = load(&["jmp r0 five"]);
    cpu.cpu_memory[0] = 1;
    let (after, outcome) = cpu.execute_program(10);
    assert_eq!(outcome, RunOutcome::Completed);
    assert_eq!(after.program_counter, 1);
}

#[test]
fn operand_resolution_reads_registers_and_literals() {
    let mut cpu = load(&["mov r0 r1"]);
    cpu.cpu_memory[3] = -17;
    assert_eq!(get_val("r3".to_string(), &cpu).unwrap(), -17);
    assert_eq!(get_val("-5".to_string(), &cpu).unwrap(), -5);
    assert_eq!(
        get_val("abc".to_string(), &cpu).unwrap_err(),
        VmError::OperandFormat { at: 0 }
    );
    assert_eq!(
        get_val("r99".to_string(), &cpu).unwrap_err(),
        VmError::OperandRange { at: 0 }
    );
    assert_eq!(get_mem_val("r11".to_string(), &cpu).unwrap(), 11);
    assert_eq!(
        get_mem_val("7".to_string(), &cpu).unwrap_err(),
        VmError::OperandFormat { at: 0 }
    );
    assert_eq!(
        get_mem_val("r12".to_string(), &cpu).unwrap_err(),
        VmError::OperandRange { at: 0 }
    );
    assert_eq!(check_between_cpu_mem_refs(11, &cpu).unwrap(), 11);
    assert_eq!(
        check_between_cpu_mem_refs(12, &cpu).unwrap_err(),
        VmError::OperandRange { at: 0 }
    );
}

#[test]
fn listing_gives_canonical_text() {
    let cpu = load(&["add r0 1 2", "mov r1 r0"]);
    let listing = cpu.listing();
    assert_eq!(listing, vec!["add r0 1 2".to_string(), "mov r1 r0".to_string()]);
}

#[test]
fn new_interal_builds_from_parts() {
    let program = gen_program_vec(&vec!["mov r0 r1".to_string()]).unwrap();
    let cpu = new_interal([1i32; 12], [2i32; 48], program, 9);
    assert_eq!(cpu.registers(), [1i32; 12]);
    assert_eq!(cpu.memory(), [2i32; 48]);
    assert_eq!(cpu.program_counter, 9);
    assert_eq!(cpu.listing(), vec!["mov r0 r1".to_string()]);
}

#[test]
fn step_on_fault_returns_the_machine_unchanged() {
    let mut cpu = load(&["div r0 1 0"]);
    cpu.cpu_memory[2] = 6;
    let (after, err) = cpu.step();
    assert_eq!(err, Some(VmError::DivisionByZero { at: 0 }));
    assert_eq!(after.registers()[2], 6);
    assert_eq!(after.program_counter, 0);
}
