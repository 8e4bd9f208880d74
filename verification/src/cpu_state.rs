//! The machine: register file, main memory, loaded program and program
//! counter, with the fetch-decode-execute loop.

use vstd::prelude::*;

use crate::errors::VmError;
use crate::operation::{
    Operation, Snap, spec_step, op_tokens, line_well_formed, parse_fail_kind, spec_format,
    lemma_step_keeps_pc,
};
use crate::text::spec_split;

verus! {

/// The whole state of one machine. The register file holds twelve signed
/// 32-bit cells, the main memory forty-eight; both start at all zero.
#[derive(Debug)]
pub struct CpuState {
    pub cpu_memory: [i32; 12],
    pub main_memory: [i32; 48],
    pub program: Vec<Operation>,
    pub program_counter: usize,
}

/// Builds a machine directly from its four parts.
pub fn new_interal(
    cpu_memory: [i32; 12],
    main_memory: [i32; 48],
    program: Vec<Operation>,
    program_counter: usize,
) -> (r: CpuState)
    ensures
        r.cpu_memory == cpu_memory,
        r.main_memory == main_memory,
        r.program == program,
        r.program_counter == program_counter,
{
    CpuState { cpu_memory, main_memory, program, program_counter }
}

/// The mathematical state of a machine: what the instruction semantics act
/// on, leaving the loaded program aside.
pub open spec fn snap_of(c: CpuState) -> Snap {
    Snap { regs: c.cpu_memory@, mem: c.main_memory@, pc: c.program_counter }
}

/// Every line of the program text parses.
pub open spec fn all_lines_parse(lines: Seq<Seq<char>>) -> bool {
    forall|i: int| 0 <= i < lines.len() ==> line_well_formed(#[trigger] lines[i])
}

/// The index of the first line that does not parse; the length when all do.
pub open spec fn first_bad_line(lines: Seq<Seq<char>>) -> int
    decreases lines.len(),
{
    if lines.len() == 0 {
        0
    } else if !line_well_formed(lines[0]) {
        0
    } else {
        1 + first_bad_line(lines.skip(1))
    }
}

proof fn lemma_first_bad(lines: Seq<Seq<char>>, k: int)
    requires
        0 <= k < lines.len(),
        !line_well_formed(lines[k]),
        forall|i: int| 0 <= i < k ==> line_well_formed(#[trigger] lines[i]),
    ensures
        first_bad_line(lines) == k,
    decreases k,
{
    if k == 0 {
    } else {
        assert(lines.skip(1)[k - 1] == lines[k]);
        assert forall|i: int| 0 <= i < k - 1 implies line_well_formed(
            #[trigger] lines.skip(1)[i],
        ) by {
            assert(lines.skip(1)[i] == lines[i + 1]);
        }
        lemma_first_bad(lines.skip(1), k - 1);
    }
}

/// Parses every program line into an instruction, in order, aborting the
/// whole load at the first malformed line.
pub fn gen_program_vec(reading: &Vec<String>) -> (r: Result<Vec<Operation>, VmError>)
    ensures
        r is Ok <==> all_lines_parse(reading.deep_view()),
        r matches Ok(v) ==> v@.len() == reading@.len() && (forall|i: int|
            0 <= i < v@.len() ==> op_tokens(#[trigger] v@[i]) == spec_split(
                reading.deep_view()[i],
            )),
        r matches Err(e) ==> e == (VmError::Parse {
            line: first_bad_line(reading.deep_view()) as usize,
            kind: parse_fail_kind(reading.deep_view()[first_bad_line(reading.deep_view())]),
        }),
{
    let mut vector: Vec<Operation> = Vec::new();
    let n = reading.len();
    let mut i: usize = 0;
    while i < n
        invariant
            0 <= i <= n,
            n == reading@.len(),
            vector@.len() == i,
            forall|k: int| 0 <= k < i ==> line_well_formed(#[trigger] reading.deep_view()[k]),
            forall|k: int|
                0 <= k < i ==> op_tokens(#[trigger] vector@[k]) == spec_split(
                    reading.deep_view()[k],
                ),
        decreases n - i,
    {
        let line = reading[i].clone();
        assert(line@ == reading.deep_view()[i as int]);
        match Operation::parse_op(line) {
            Ok(op) => {
                vector.push(op);
            },
            Err(kind) => {
                proof {
                    lemma_first_bad(reading.deep_view(), i as int);
                }
                return Err(VmError::Parse { line: i, kind });
            },
        }
        i = i + 1;
    }
    Ok(vector)
}

impl Clone for CpuState {
    /// A clone carries the same registers, memory, program and counter.
    fn clone(&self) -> (r: Self)
        ensures
            r.cpu_memory == self.cpu_memory,
            r.main_memory == self.main_memory,
            r.program@ == self.program@,
            r.program_counter == self.program_counter,
    {
        let program = self.program.clone();
        proof {
            assert forall|i: int| 0 <= i < self.program@.len() implies program@[i]
                == self.program@[i] by {
                assert(cloned(self.program@[i], program@[i]));
            }
            assert(program@ =~= self.program@);
        }
        CpuState {
            cpu_memory: self.cpu_memory,
            main_memory: self.main_memory,
            program,
            program_counter: self.program_counter,
        }
    }
}

/// One fetch-decode-execute step at the current program counter: execute the
/// fetched instruction, then advance the counter by one unless the
/// instruction was a jump, which set it itself.
pub open spec fn spec_step_at(prog: Seq<Operation>, m: Snap) -> Result<Snap, VmError>
    recommends
        m.pc < prog.len(),
{
    let op = prog[m.pc as int];
    match spec_step(op, m) {
        Err(e) => Err(e),
        Ok(m2) => Ok(
            if op is Jmp {
                m2
            } else {
                Snap { regs: m2.regs, mem: m2.mem, pc: (m2.pc + 1) as usize }
            },
        ),
    }
}

/// How a bounded run of the machine ends.
pub ghost enum RunState {
    /// The program counter reached past the end of the program.
    Done(Snap),
    /// An instruction faulted; the state is the one just before it.
    Failed(VmError, Snap),
    /// The step bound ran out with the machine still running.
    Running(Snap),
}

/// The machine after at most `fuel` fetch-decode-execute steps from `m`.
pub open spec fn spec_run(prog: Seq<Operation>, m: Snap, fuel: nat) -> RunState
    decreases fuel,
{
    if m.pc >= prog.len() {
        RunState::Done(m)
    } else if fuel == 0 {
        RunState::Running(m)
    } else {
        match spec_step_at(prog, m) {
            Err(e) => RunState::Failed(e, m),
            Ok(m2) => spec_run(prog, m2, (fuel - 1) as nat),
        }
    }
}

/// A run that completed stays completed under any larger step bound.
proof fn lemma_run_done_persists(prog: Seq<Operation>, m: Snap, n: nat, k: nat, x: Snap)
    requires
        spec_run(prog, m, n) == RunState::Done(x),
        n <= k,
    ensures
        spec_run(prog, m, k) == RunState::Done(x),
    decreases n,
{
    if m.pc >= prog.len() {
    } else {
        match spec_step_at(prog, m) {
            Err(_) => {
                assert(false);
            },
            Ok(m2) => {
                lemma_run_done_persists(prog, m2, (n - 1) as nat, (k - 1) as nat, x);
            },
        }
    }
}

/// A run that faulted stays faulted, at the same state, under any larger
/// step bound.
proof fn lemma_run_fail_persists(
    prog: Seq<Operation>,
    m: Snap,
    n: nat,
    k: nat,
    x: Snap,
    e: VmError,
)
    requires
        spec_run(prog, m, n) == RunState::Running(x),
        x.pc < prog.len(),
        spec_step_at(prog, x) == Err::<Snap, VmError>(e),
        n < k,
    ensures
        spec_run(prog, m, k) == RunState::Failed(e, x),
    decreases n,
{
    if m.pc >= prog.len() {
        assert(false);
    } else if n == 0 {
    } else {
        match spec_step_at(prog, m) {
            Err(_) => {
                assert(false);
            },
            Ok(m2) => {
                lemma_run_fail_persists(prog, m2, (n - 1) as nat, (k - 1) as nat, x, e);
            },
        }
    }
}

/// One more successful step extends a still-running run.
proof fn lemma_run_advance(prog: Seq<Operation>, m: Snap, n: nat, x: Snap, y: Snap)
    requires
        spec_run(prog, m, n) == RunState::Running(x),
        x.pc < prog.len(),
        spec_step_at(prog, x) == Ok::<Snap, VmError>(y),
    ensures
        spec_run(prog, m, n + 1) == (if y.pc >= prog.len() {
            RunState::Done(y)
        } else {
            RunState::Running(y)
        }),
    decreases n,
{
    if m.pc >= prog.len() {
        assert(false);
    } else if n == 0 {
        assert(m == x);
        assert(spec_run(prog, m, 1) == spec_run(prog, y, 0));
        assert(spec_run(prog, y, 0) == (if y.pc >= prog.len() {
            RunState::Done(y)
        } else {
            RunState::Running(y)
        }));
    } else {
        match spec_step_at(prog, m) {
            Err(_) => {
                assert(false);
            },
            Ok(m2) => {
                lemma_run_advance(prog, m2, (n - 1) as nat, x, y);
                assert(spec_run(prog, m, n + 1) == spec_run(prog, m2, n));
            },
        }
    }
}

/// How `execute_program` ended.
#[derive(Clone, Copy, Debug, PartialEq, Eq, Structural)]
pub enum RunOutcome {
    /// The program counter reached past the end of the program.
    Completed,
    /// An instruction faulted; the returned state is the one just before it.
    Faulted(VmError),
    /// The step bound ran out with the machine still running.
    OutOfSteps,
}

impl CpuState {
    /// Loads a program: parses every line, all or nothing, and starts a
    /// machine with both memory regions at all zero and the program counter
    /// at the first instruction.
    pub fn new(program: Vec<String>) -> (r: Result<CpuState, VmError>)
        ensures
            r is Ok <==> all_lines_parse(program.deep_view()),
            r matches Ok(c) ==> ({
                &&& c.cpu_memory@ == Seq::new(12, |i: int| 0i32)
                &&& c.main_memory@ == Seq::new(48, |i: int| 0i32)
                &&& c.program_counter == 0
                &&& c.program@.len() == program@.len()
                &&& forall|i: int|
                    0 <= i < program@.len() ==> op_tokens(#[trigger] c.program@[i]) == spec_split(
                        program.deep_view()[i],
                    )
            }),
            r matches Err(e) ==> e == (VmError::Parse {
                line: first_bad_line(program.deep_view()) as usize,
                kind: parse_fail_kind(program.deep_view()[first_bad_line(program.deep_view())]),
            }),
    {
        let cpu_memory: [i32; 12] = [0, 0, 0, 0, 0, 0, 0, 0, 0, 0, 0, 0];
        let main_memory: [i32; 48] = [
            0, 0, 0, 0, 0, 0, 0, 0, 0, 0, 0, 0, 0, 0, 0, 0, 0, 0, 0, 0, 0, 0, 0, 0, 0, 0, 0, 0, 0,
            0, 0, 0, 0, 0, 0, 0, 0, 0, 0, 0, 0, 0, 0, 0, 0, 0, 0, 0,
        ];
        let program_counter: usize = 0;
        match gen_program_vec(&program) {
            Ok(ops) => {
                proof {
                    assert(cpu_memory@ =~= Seq::new(12, |i: int| 0i32));
                    assert(main_memory@ =~= Seq::new(48, |i: int| 0i32));
                }
                Ok(CpuState { cpu_memory, main_memory, program: ops, program_counter })
            },
            Err(e) => Err(e),
        }
    }

    /// One step of the execution loop: fetch the instruction at the program
    /// counter, execute it, and advance or redirect the counter. On a fault
    /// the machine comes back unchanged beside the error.
    pub fn step(self) -> (r: (CpuState, Option<VmError>))
        requires
            self.program_counter < self.program@.len(),
        ensures
            r.0.program@ == self.program@,
            ({
                match spec_step_at(self.program@, snap_of(self)) {
                    Ok(m2) => r.1 is None && r.0.cpu_memory@ == m2.regs && r.0.main_memory@
                        == m2.mem && r.0.program_counter == m2.pc,
                    Err(e) => r.1 == Some(e) && r.0.cpu_memory == self.cpu_memory
                        && r.0.main_memory == self.main_memory && r.0.program_counter
                        == self.program_counter,
                }
            }),
    {
        let n = self.program.len();
        assert(self.program_counter < n);
        let saved = self.clone();
        let instruction = self.program[self.program_counter].clone();
        let is_jmp = matches!(instruction, Operation::Jmp { .. });
        proof {
            if !is_jmp {
                lemma_step_keeps_pc(instruction, snap_of(self));
            }
        }
        match instruction.compute(self) {
            Ok(cpu) => {
                if is_jmp {
                    (cpu, None)
                } else {
                    (cpu.next_program_counter(), None)
                }
            },
            Err(e) => (saved, Some(e)),
        }
    }

    /// Runs the fetch-decode-execute loop in batch mode: repeatedly, while
    /// the program counter is inside the program and at most `max_steps`
    /// instructions long, execute and advance. The run completes when the
    /// counter passes the end, stops at the first fault with the state just
    /// before it, or runs out of steps with the machine still running.
    #[verifier::loop_isolation(false)]
    pub fn execute_program(self, max_steps: usize) -> (r: (CpuState, RunOutcome))
        ensures
            r.0.program@ == self.program@,
            ({
                match spec_run(self.program@, snap_of(self), max_steps as nat) {
                    RunState::Done(m) => r.1 == RunOutcome::Completed && r.0.cpu_memory@ == m.regs
                        && r.0.main_memory@ == m.mem && r.0.program_counter == m.pc,
                    RunState::Failed(e, m) => r.1 == RunOutcome::Faulted(e) && r.0.cpu_memory@
                        == m.regs && r.0.main_memory@ == m.mem && r.0.program_counter == m.pc,
                    RunState::Running(m) => r.1 == RunOutcome::OutOfSteps && r.0.cpu_memory@
                        == m.regs && r.0.main_memory@ == m.mem && r.0.program_counter == m.pc,
                }
            }),
    {
        let ghost prog = self.program@;
        let ghost m0 = snap_of(self);
        let mut cpu = self;
        let mut steps: usize = 0;
        while steps < max_steps && cpu.program_counter < cpu.program.len()
            invariant
                steps <= max_steps,
                cpu.program@ == prog,
                spec_run(prog, m0, steps as nat) == (if snap_of(cpu).pc >= prog.len() {
                    RunState::Done(snap_of(cpu))
                } else {
                    RunState::Running(snap_of(cpu))
                }),
            decreases max_steps - steps,
        {
            let ghost before = snap_of(cpu);
            let stepped = cpu.step();
            cpu = stepped.0;
            match stepped.1 {
                Some(e) => {
                    proof {
                        lemma_run_fail_persists(
                            prog,
                            m0,
                            steps as nat,
                            max_steps as nat,
                            before,
                            e,
                        );
                    }
                    return (cpu, RunOutcome::Faulted(e));
                },
                None => {
                    proof {
                        lemma_run_advance(prog, m0, steps as nat, before, snap_of(cpu));
                    }
                },
            }
            steps = steps + 1;
        }
        if cpu.program_counter < cpu.program.len() {
            (cpu, RunOutcome::OutOfSteps)
        } else {
            proof {
                lemma_run_done_persists(prog, m0, steps as nat, max_steps as nat, snap_of(cpu));
            }
            (cpu, RunOutcome::Completed)
        }
    }

    /// Read-only snapshot of the register file.
    pub fn registers(&self) -> (r: [i32; 12])
        ensures
            r == self.cpu_memory,
    {
        self.cpu_memory
    }

    /// Read-only snapshot of the main memory.
    pub fn memory(&self) -> (r: [i32; 48])
        ensures
            r == self.main_memory,
    {
        self.main_memory
    }

    /// Read-only listing of the loaded program, one canonical instruction
    /// text per line.
    pub fn listing(&self) -> (r: Vec<String>)
        ensures
            r@.len() == self.program@.len(),
            forall|i: int| 0 <= i < r@.len() ==> (#[trigger] r@[i])@ == spec_format(
                self.program@[i],
            ),
    {
        let mut out: Vec<String> = Vec::new();
        let n = self.program.len();
        let mut i: usize = 0;
        while i < n
            invariant
                0 <= i <= n,
                n == self.program@.len(),
                out@.len() == i,
                forall|k: int| 0 <= k < i ==> (#[trigger] out@[k])@ == spec_format(
                    self.program@[k],
                ),
            decreases n - i,
        {
            let text = self.program[i].clone().to_string();
            out.push(text);
            i = i + 1;
        }
        out
    }

    /// Writes `val` into register `dir`.
    pub fn alloc_reg(self, dir: usize, val: i32) -> (r: CpuState)
        requires
            dir < 12,
        ensures
            r.cpu_memory@ == self.cpu_memory@.update(dir as int, val),
            r.main_memory == self.main_memory,
            r.program == self.program,
            r.program_counter == self.program_counter,
    {
        let mut cpu = self;
        cpu.cpu_memory[dir] = val;
        cpu
    }

    /// Copies register `reg` into main memory cell `to`.
    pub fn move_to_main_memory(self, reg: usize, to: usize) -> (r: CpuState)
        requires
            reg < 12,
            to < 48,
        ensures
            r.main_memory@ == self.main_memory@.update(to as int, self.cpu_memory@[reg as int]),
            r.cpu_memory == self.cpu_memory,
            r.program == self.program,
            r.program_counter == self.program_counter,
    {
        let mut cpu = self;
        cpu.main_memory[to] = cpu.cpu_memory[reg];
        cpu
    }

    /// Copies main memory cell `dir` into register `at`.
    pub fn move_to_cpu_memory(self, dir: usize, at: usize) -> (r: CpuState)
        requires
            dir < 48,
            at < 12,
        ensures
            r.cpu_memory@ == self.cpu_memory@.update(at as int, self.main_memory@[dir as int]),
            r.main_memory == self.main_memory,
            r.program == self.program,
            r.program_counter == self.program_counter,
    {
        let mut cpu = self;
        cpu.cpu_memory[at] = cpu.main_memory[dir];
        cpu
    }

    /// Copies register `from` into register `to`.
    pub fn move_on_cpu_memory(self, from: usize, to: usize) -> (r: CpuState)
        requires
            from < 12,
            to < 12,
        ensures
            r.cpu_memory@ == self.cpu_memory@.update(to as int, self.cpu_memory@[from as int]),
            r.main_memory == self.main_memory,
            r.program == self.program,
            r.program_counter == self.program_counter,
    {
        let mut cpu = self;
        let v = cpu.cpu_memory[from];
        cpu.cpu_memory[to] = v;
        cpu
    }

    /// Advances the program counter by one: the fall-through of every
    /// non-jump instruction.
    pub fn next_program_counter(self) -> (r: CpuState)
        requires
            self.program_counter < usize::MAX,
        ensures
            r.program_counter == self.program_counter + 1,
            r.cpu_memory == self.cpu_memory,
            r.main_memory == self.main_memory,
            r.program == self.program,
    {
        let cpu_program_counter = self.program_counter + 1;
        new_interal(self.cpu_memory, self.main_memory, self.program, cpu_program_counter)
    }

    /// Redirects the program counter to an explicit instruction index: a
    /// taken jump.
    pub fn jump_program_counter(self, new_program_counter: usize) -> (r: CpuState)
        ensures
            r.program_counter == new_program_counter,
            r.cpu_memory == self.cpu_memory,
            r.main_memory == self.main_memory,
            r.program == self.program,
    {
        new_interal(self.cpu_memory, self.main_memory, self.program, new_program_counter)
    }
}

} // verus!
