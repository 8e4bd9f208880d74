//! The instruction set: a closed set of opcode variants carrying their
//! operand tokens as raw text, with the line parser, the canonical
//! formatter, and the per-opcode state transition.

use vstd::prelude::*;

use crate::cpu_state::{CpuState, snap_of};
use crate::errors::{ParseError, VmError};
use crate::text::{
    spec_split, spec_join, is_nat_token, dec_val, is_i32_token, int_val,
    lemma_split_len, lemma_split_no_space, lemma_split_at_first_space, lemma_join_split,
    lemma_join3, lemma_join4, str_eq_str, NatParse, parse_nat_capped, parse_i32_token,
};
use vstd::math::abs;
use vstd::string::StrSliceExecFns;
use vstd::string::StringExecFns;

verus! {

/// One typed instruction. Operands stay as the unparsed tokens of the source
/// line; their numeric or register reading happens at execution time.
#[derive(Debug)]
pub enum Operation {
    Add { op1: String, op2: String, op3: String },
    Sub { op1: String, op2: String, op3: String },
    Mul { op1: String, op2: String, op3: String },
    Div { op1: String, op2: String, op3: String },
    Ld { dir: String, at: String },
    Str { reg: String, to: String },
    Mov { from_reg: String, to_reg: String },
    Cmp { this: String, eq_this: String },
    Jmp { reg_cond: String, pc_to_jump: String },
}

pub open spec fn kw_add() -> Seq<char> { seq!['a', 'd', 'd'] }

pub open spec fn kw_sub() -> Seq<char> { seq!['s', 'u', 'b'] }

pub open spec fn kw_mul() -> Seq<char> { seq!['m', 'u', 'l'] }

pub open spec fn kw_div() -> Seq<char> { seq!['d', 'i', 'v'] }

pub open spec fn kw_ld() -> Seq<char> { seq!['l', 'd'] }

pub open spec fn kw_str() -> Seq<char> { seq!['s', 't', 'r'] }

pub open spec fn kw_mov() -> Seq<char> { seq!['m', 'o', 'v'] }

pub open spec fn kw_cmp() -> Seq<char> { seq!['c', 'm', 'p'] }

pub open spec fn kw_jmp() -> Seq<char> { seq!['j', 'm', 'p'] }

/// The keywords of the four arithmetic opcodes, which take three operands.
pub open spec fn is_arith_kw(t: Seq<char>) -> bool {
    t == kw_add() || t == kw_sub() || t == kw_mul() || t == kw_div()
}

/// The keywords of the five two-operand opcodes.
pub open spec fn is_two_op_kw(t: Seq<char>) -> bool {
    t == kw_ld() || t == kw_str() || t == kw_mov() || t == kw_cmp() || t == kw_jmp()
}

/// The nine recognized opcode keywords.
pub open spec fn is_known_kw(t: Seq<char>) -> bool {
    is_arith_kw(t) || is_two_op_kw(t)
}

/// A line parses exactly when its first token is a known keyword and its
/// token count matches the keyword's arity: four tokens for arithmetic,
/// three for load, store, move, compare and jump.
pub open spec fn line_well_formed(s: Seq<char>) -> bool {
    let ts = spec_split(s);
    (is_arith_kw(ts[0]) && ts.len() == 4) || (is_two_op_kw(ts[0]) && ts.len() == 3)
}

/// Which of the two parse faults a malformed line draws: an unrecognized
/// keyword, or a recognized one with the wrong token count.
pub open spec fn parse_fail_kind(s: Seq<char>) -> ParseError {
    if is_known_kw(spec_split(s)[0]) {
        ParseError::WrongArity
    } else {
        ParseError::UnknownOpcode
    }
}

/// The token list an instruction stands for: its keyword, then its operands.
pub open spec fn op_tokens(op: Operation) -> Seq<Seq<char>> {
    match op {
        Operation::Add { op1, op2, op3 } => seq![kw_add(), op1@, op2@, op3@],
        Operation::Sub { op1, op2, op3 } => seq![kw_sub(), op1@, op2@, op3@],
        Operation::Mul { op1, op2, op3 } => seq![kw_mul(), op1@, op2@, op3@],
        Operation::Div { op1, op2, op3 } => seq![kw_div(), op1@, op2@, op3@],
        Operation::Ld { dir, at } => seq![kw_ld(), dir@, at@],
        Operation::Str { reg, to } => seq![kw_str(), reg@, to@],
        Operation::Mov { from_reg, to_reg } => seq![kw_mov(), from_reg@, to_reg@],
        Operation::Cmp { this, eq_this } => seq![kw_cmp(), this@, eq_this@],
        Operation::Jmp { reg_cond, pc_to_jump } => seq![kw_jmp(), reg_cond@, pc_to_jump@],
    }
}

/// The canonical text of an instruction: its tokens joined with single
/// spaces.
pub open spec fn spec_format(op: Operation) -> Seq<char> {
    spec_join(op_tokens(op))
}

/// The mathematical machine state one instruction acts on: the register
/// file, the main memory, and the program counter.
pub ghost struct Snap {
    pub regs: Seq<i32>,
    pub mem: Seq<i32>,
    pub pc: usize,
}

/// A register-sigil token: `r` followed by text.
pub open spec fn is_reg_sigil(t: Seq<char>) -> bool {
    t.len() > 0 && t[0] == 'r'
}

/// Resolving a token that must name a register: the sigil `r` followed by a
/// digit string whose value is a register index. A token of another shape is
/// an operand-format fault; an index past the register file is an
/// operand-range fault. `pc` names the instruction for the diagnostic.
pub open spec fn spec_reg_index(t: Seq<char>, pc: usize) -> Result<int, VmError> {
    if !is_reg_sigil(t) || !is_nat_token(t.skip(1)) {
        Err(VmError::OperandFormat { at: pc })
    } else if dec_val(t.skip(1)) > 11 {
        Err(VmError::OperandRange { at: pc })
    } else {
        Ok(dec_val(t.skip(1)) as int)
    }
}

/// Resolving a value operand: a register-sigil token reads the named
/// register's current value, any other token is a literal signed 32-bit
/// integer.
pub open spec fn spec_value(t: Seq<char>, regs: Seq<i32>, pc: usize) -> Result<i32, VmError> {
    if is_reg_sigil(t) {
        match spec_reg_index(t, pc) {
            Ok(i) => Ok(regs[i]),
            Err(e) => Err(e),
        }
    } else if is_i32_token(t) {
        Ok(int_val(t) as i32)
    } else {
        Err(VmError::OperandFormat { at: pc })
    }
}

/// Signed division truncating toward zero, wrapping on the one overflowing
/// case: the smallest value divided by minus one.
pub open spec fn spec_div(a: i32, b: i32) -> i32
    recommends
        b != 0,
{
    let q = abs(a as int) / abs(b as int);
    if (a < 0) == (b < 0) {
        if q > i32::MAX {
            i32::MIN
        } else {
            q as i32
        }
    } else {
        (-q) as i32
    }
}

/// The per-opcode state transition: what executing one instruction does to
/// the machine state, or the fault that stops the run. Arithmetic writes the
/// 32-bit-wrapped result to the destination register. A load reads the main
/// memory cell addressed by the first operand's register index itself, not
/// by the register's value. Only a jump sets the program counter; every
/// other instruction leaves it to the fall-through of the execution loop.
/// A jump's target operand is read only when the jump is taken.
pub open spec fn spec_step(op: Operation, m: Snap) -> Result<Snap, VmError> {
    match op {
        Operation::Add { op1, op2, op3 } => match (
            spec_reg_index(op1@, m.pc),
            spec_value(op2@, m.regs, m.pc),
            spec_value(op3@, m.regs, m.pc),
        ) {
            (Err(e), _, _) => Err(e),
            (Ok(_), Err(e), _) => Err(e),
            (Ok(_), Ok(_), Err(e)) => Err(e),
            (Ok(d), Ok(a), Ok(b)) => Ok(
                Snap {
                    regs: m.regs.update(d, vstd::wrapping::i32_specs::wrapping_add(a, b)),
                    mem: m.mem,
                    pc: m.pc,
                },
            ),
        },
        Operation::Sub { op1, op2, op3 } => match (
            spec_reg_index(op1@, m.pc),
            spec_value(op2@, m.regs, m.pc),
            spec_value(op3@, m.regs, m.pc),
        ) {
            (Err(e), _, _) => Err(e),
            (Ok(_), Err(e), _) => Err(e),
            (Ok(_), Ok(_), Err(e)) => Err(e),
            (Ok(d), Ok(a), Ok(b)) => Ok(
                Snap {
                    regs: m.regs.update(d, vstd::wrapping::i32_specs::wrapping_sub(a, b)),
                    mem: m.mem,
                    pc: m.pc,
                },
            ),
        },
        Operation::Mul { op1, op2, op3 } => match (
            spec_reg_index(op1@, m.pc),
            spec_value(op2@, m.regs, m.pc),
            spec_value(op3@, m.regs, m.pc),
        ) {
            (Err(e), _, _) => Err(e),
            (Ok(_), Err(e), _) => Err(e),
            (Ok(_), Ok(_), Err(e)) => Err(e),
            (Ok(d), Ok(a), Ok(b)) => Ok(
                Snap {
                    regs: m.regs.update(d, vstd::wrapping::i32_specs::wrapping_mul(a, b)),
                    mem: m.mem,
                    pc: m.pc,
                },
            ),
        },
        Operation::Div { op1, op2, op3 } => match (
            spec_reg_index(op1@, m.pc),
            spec_value(op2@, m.regs, m.pc),
            spec_value(op3@, m.regs, m.pc),
        ) {
            (Err(e), _, _) => Err(e),
            (Ok(_), Err(e), _) => Err(e),
            (Ok(_), Ok(_), Err(e)) => Err(e),
            (Ok(d), Ok(a), Ok(b)) => if b == 0 {
                Err(VmError::DivisionByZero { at: m.pc })
            } else {
                Ok(Snap { regs: m.regs.update(d, spec_div(a, b)), mem: m.mem, pc: m.pc })
            },
        },
        Operation::Ld { dir, at } => match (spec_reg_index(dir@, m.pc), spec_reg_index(at@, m.pc)) {
            (Err(e), _) => Err(e),
            (Ok(_), Err(e)) => Err(e),
            (Ok(src), Ok(dst)) => Ok(
                Snap { regs: m.regs.update(dst, m.mem[src]), mem: m.mem, pc: m.pc },
            ),
        },
        Operation::Str { reg, to } => match spec_reg_index(reg@, m.pc) {
            Err(e) => Err(e),
            Ok(src) => if !is_nat_token(to@) {
                Err(VmError::OperandFormat { at: m.pc })
            } else if dec_val(to@) > 47 {
                Err(VmError::OutOfRangeMemoryAccess { at: m.pc })
            } else {
                Ok(
                    Snap {
                        regs: m.regs,
                        mem: m.mem.update(dec_val(to@) as int, m.regs[src]),
                        pc: m.pc,
                    },
                )
            },
        },
        Operation::Mov { from_reg, to_reg } => match (
            spec_reg_index(from_reg@, m.pc),
            spec_reg_index(to_reg@, m.pc),
        ) {
            (Err(e), _) => Err(e),
            (Ok(_), Err(e)) => Err(e),
            (Ok(src), Ok(dst)) => Ok(
                Snap { regs: m.regs.update(dst, m.regs[src]), mem: m.mem, pc: m.pc },
            ),
        },
        Operation::Cmp { this, eq_this } => match spec_reg_index(this@, m.pc) {
            Err(e) => Err(e),
            Ok(t) => if !is_i32_token(eq_this@) {
                Err(VmError::OperandFormat { at: m.pc })
            } else {
                Ok(
                    Snap {
                        regs: m.regs.update(
                            t,
                            if m.regs[t] as int == int_val(eq_this@) {
                                1i32
                            } else {
                                0i32
                            },
                        ),
                        mem: m.mem,
                        pc: m.pc,
                    },
                )
            },
        },
        Operation::Jmp { reg_cond, pc_to_jump } => match spec_reg_index(reg_cond@, m.pc) {
            Err(e) => Err(e),
            Ok(c) => if m.regs[c] == 0 {
                if !is_nat_token(pc_to_jump@) || dec_val(pc_to_jump@) > usize::MAX {
                    Err(VmError::OperandFormat { at: m.pc })
                } else {
                    Ok(Snap { regs: m.regs, mem: m.mem, pc: dec_val(pc_to_jump@) as usize })
                }
            } else {
                Ok(Snap { regs: m.regs, mem: m.mem, pc: (m.pc + 1) as usize })
            },
        },
    }
}

/// A non-jump instruction never touches the program counter.
pub proof fn lemma_step_keeps_pc(op: Operation, m: Snap)
    requires
        !(op is Jmp),
    ensures
        match spec_step(op, m) {
            Ok(m2) => m2.pc == m.pc,
            Err(_) => true,
        },
{
    match op {
        Operation::Add { .. } => {},
        Operation::Sub { .. } => {},
        Operation::Mul { .. } => {},
        Operation::Div { .. } => {},
        Operation::Ld { .. } => {},
        Operation::Str { .. } => {},
        Operation::Mov { .. } => {},
        Operation::Cmp { .. } => {},
        Operation::Jmp { .. } => {},
    }
}

/// Round-trip law: an instruction whose tokens are the tokens of a line —
/// what `parse_op` returns on that line — formats back to the line itself.
pub proof fn lemma_parse_format_round_trip(line: Seq<char>, op: Operation)
    requires
        op_tokens(op) == spec_split(line),
    ensures
        spec_format(op) == line,
{
    lemma_join_split(line);
}

/// Splits a line on every single space character.
pub fn get_particles<'a>(line: &'a String) -> (r: Vec<&'a str>)
    ensures
        r.deep_view() == spec_split(line@),
{
    let s = line.as_str();
    let n = s.unicode_len();
    let mut toks: Vec<&'a str> = Vec::new();
    let mut j: usize = 0;
    let mut i: usize = 0;
    proof {
        assert(line@.skip(0) =~= line@);
        assert(toks.deep_view() + spec_split(line@) =~= spec_split(line@));
    }
    while i < n
        invariant
            0 <= j <= i <= n,
            n == s@.len(),
            s@ == line@,
            forall|m: int| j <= m < i ==> s@[m] != ' ',
            spec_split(line@) == toks.deep_view() + spec_split(line@.skip(j as int)),
        decreases n - i,
    {
        if s.get_char(i) == ' ' {
            let t = s.substring_char(j, i);
            let ghost pre = toks.deep_view();
            proof {
                let tail = line@.skip(j as int);
                lemma_split_at_first_space(tail, i as int - j as int);
                assert(tail.take(i as int - j as int) =~= line@.subrange(j as int, i as int));
                assert(tail.skip(i as int - j as int + 1) =~= line@.skip(i as int + 1));
            }
            toks.push(t);
            proof {
                assert(toks.deep_view() =~= pre.push(t@));
                assert(pre.push(t@) + spec_split(line@.skip(i as int + 1)) =~= pre + spec_split(
                    line@.skip(j as int),
                ));
            }
            j = i + 1;
        }
        i = i + 1;
    }
    let t = s.substring_char(j, n);
    let ghost pre = toks.deep_view();
    proof {
        let tail = line@.skip(j as int);
        lemma_split_no_space(tail);
        assert(t@ =~= tail);
    }
    toks.push(t);
    proof {
        assert(toks.deep_view() =~= pre.push(t@));
        assert(pre.push(t@) =~= spec_split(line@));
    }
    toks
}

impl Operation {
    /// Turns one program line into a typed instruction. Fails exactly when
    /// the opcode keyword is not one of the nine recognized ones, or when the
    /// token count does not match the opcode's arity.
    pub fn parse_op(line: String) -> (r: Result<Operation, ParseError>)
        ensures
            r is Ok <==> line_well_formed(line@),
            r matches Ok(op) ==> op_tokens(op) == spec_split(line@),
            r matches Err(e) ==> e == parse_fail_kind(line@),
    {
        proof {
            lemma_split_len(line@);
            reveal_strlit("add");
            reveal_strlit("sub");
            reveal_strlit("mul");
            reveal_strlit("div");
            reveal_strlit("ld");
            reveal_strlit("str");
            reveal_strlit("mov");
            reveal_strlit("cmp");
            reveal_strlit("jmp");
            assert("add"@ =~= kw_add());
            assert("sub"@ =~= kw_sub());
            assert("mul"@ =~= kw_mul());
            assert("div"@ =~= kw_div());
            assert("ld"@ =~= kw_ld());
            assert("str"@ =~= kw_str());
            assert("mov"@ =~= kw_mov());
            assert("cmp"@ =~= kw_cmp());
            assert("jmp"@ =~= kw_jmp());
        }
        let particles = get_particles(&line);
        assert(particles@.len() >= 1);
        let kw = particles[0];
        assert(kw@ == spec_split(line@)[0]);
        let n = particles.len();
        if str_eq_str(kw, "add") {
            if n == 4 {
                let op = Operation::Add {
                    op1: particles[1].to_owned(),
                    op2: particles[2].to_owned(),
                    op3: particles[3].to_owned(),
                };
                assert(op_tokens(op) =~= spec_split(line@));
                Ok(op)
            } else {
                Err(ParseError::WrongArity)
            }
        } else if str_eq_str(kw, "sub") {
            if n == 4 {
                let op = Operation::Sub {
                    op1: particles[1].to_owned(),
                    op2: particles[2].to_owned(),
                    op3: particles[3].to_owned(),
                };
                assert(op_tokens(op) =~= spec_split(line@));
                Ok(op)
            } else {
                Err(ParseError::WrongArity)
            }
        } else if str_eq_str(kw, "mul") {
            if n == 4 {
                let op = Operation::Mul {
                    op1: particles[1].to_owned(),
                    op2: particles[2].to_owned(),
                    op3: particles[3].to_owned(),
                };
                assert(op_tokens(op) =~= spec_split(line@));
                Ok(op)
            } else {
                Err(ParseError::WrongArity)
            }
        } else if str_eq_str(kw, "div") {
            if n == 4 {
                let op = Operation::Div {
                    op1: particles[1].to_owned(),
                    op2: particles[2].to_owned(),
                    op3: particles[3].to_owned(),
                };
                assert(op_tokens(op) =~= spec_split(line@));
                Ok(op)
            } else {
                Err(ParseError::WrongArity)
            }
        } else if str_eq_str(kw, "ld") {
            if n == 3 {
                let op = Operation::Ld {
                    dir: particles[1].to_owned(),
                    at: particles[2].to_owned(),
                };
                assert(op_tokens(op) =~= spec_split(line@));
                Ok(op)
            } else {
                Err(ParseError::WrongArity)
            }
        } else if str_eq_str(kw, "str") {
            if n == 3 {
                let op = Operation::Str {
                    reg: particles[1].to_owned(),
                    to: particles[2].to_owned(),
                };
                assert(op_tokens(op) =~= spec_split(line@));
                Ok(op)
            } else {
                Err(ParseError::WrongArity)
            }
        } else if str_eq_str(kw, "mov") {
            if n == 3 {
                let op = Operation::Mov {
                    from_reg: particles[1].to_owned(),
                    to_reg: particles[2].to_owned(),
                };
                assert(op_tokens(op) =~= spec_split(line@));
                Ok(op)
            } else {
                Err(ParseError::WrongArity)
            }
        } else if str_eq_str(kw, "cmp") {
            if n == 3 {
                let op = Operation::Cmp {
                    this: particles[1].to_owned(),
                    eq_this: particles[2].to_owned(),
                };
                assert(op_tokens(op) =~= spec_split(line@));
                Ok(op)
            } else {
                Err(ParseError::WrongArity)
            }
        } else if str_eq_str(kw, "jmp") {
            if n == 3 {
                let op = Operation::Jmp {
                    reg_cond: particles[1].to_owned(),
                    pc_to_jump: particles[2].to_owned(),
                };
                assert(op_tokens(op) =~= spec_split(line@));
                Ok(op)
            } else {
                Err(ParseError::WrongArity)
            }
        } else {
            Err(ParseError::UnknownOpcode)
        }
    }

    /// Renders the instruction back to its canonical text: the opcode
    /// keyword and the operands, joined with single spaces.
    pub fn to_string(self) -> (r: String)
        ensures
            r@ == spec_format(self),
    {
        match self {
            Operation::Add { op1, op2, op3 } => {
                let r = format4("add", op1.as_str(), op2.as_str(), op3.as_str());
                proof {
                    reveal_strlit("add");
                    assert("add"@ =~= kw_add());
                    assert(seq!["add"@, op1@, op2@, op3@] =~= op_tokens(self));
                }
                r
            },
            Operation::Sub { op1, op2, op3 } => {
                let r = format4("sub", op1.as_str(), op2.as_str(), op3.as_str());
                proof {
                    reveal_strlit("sub");
                    assert("sub"@ =~= kw_sub());
                    assert(seq!["sub"@, op1@, op2@, op3@] =~= op_tokens(self));
                }
                r
            },
            Operation::Mul { op1, op2, op3 } => {
                let r = format4("mul", op1.as_str(), op2.as_str(), op3.as_str());
                proof {
                    reveal_strlit("mul");
                    assert("mul"@ =~= kw_mul());
                    assert(seq!["mul"@, op1@, op2@, op3@] =~= op_tokens(self));
                }
                r
            },
            Operation::Div { op1, op2, op3 } => {
                let r = format4("div", op1.as_str(), op2.as_str(), op3.as_str());
                proof {
                    reveal_strlit("div");
                    assert("div"@ =~= kw_div());
                    assert(seq!["div"@, op1@, op2@, op3@] =~= op_tokens(self));
                }
                r
            },
            Operation::Ld { dir, at } => {
                let r = format3("ld", dir.as_str(), at.as_str());
                proof {
                    reveal_strlit("ld");
                    assert("ld"@ =~= kw_ld());
                    assert(seq!["ld"@, dir@, at@] =~= op_tokens(self));
                }
                r
            },
            Operation::Str { reg, to } => {
                let r = format3("str", reg.as_str(), to.as_str());
                proof {
                    reveal_strlit("str");
                    assert("str"@ =~= kw_str());
                    assert(seq!["str"@, reg@, to@] =~= op_tokens(self));
                }
                r
            },
            Operation::Mov { from_reg, to_reg } => {
                let r = format3("mov", from_reg.as_str(), to_reg.as_str());
                proof {
                    reveal_strlit("mov");
                    assert("mov"@ =~= kw_mov());
                    assert(seq!["mov"@, from_reg@, to_reg@] =~= op_tokens(self));
                }
                r
            },
            Operation::Cmp { this, eq_this } => {
                let r = format3("cmp", this.as_str(), eq_this.as_str());
                proof {
                    reveal_strlit("cmp");
                    assert("cmp"@ =~= kw_cmp());
                    assert(seq!["cmp"@, this@, eq_this@] =~= op_tokens(self));
                }
                r
            },
            Operation::Jmp { reg_cond, pc_to_jump } => {
                let r = format3("jmp", reg_cond.as_str(), pc_to_jump.as_str());
                proof {
                    reveal_strlit("jmp");
                    assert("jmp"@ =~= kw_jmp());
                    assert(seq!["jmp"@, reg_cond@, pc_to_jump@] =~= op_tokens(self));
                }
                r
            },
        }
    }

    /// Executes this instruction against a machine state, giving the next
    /// state or the fault that stops the run. The loaded program is never
    /// touched. Only a jump sets the program counter; after any other
    /// instruction the caller advances it.
    pub fn compute(self, cpu_state: CpuState) -> (r: Result<CpuState, VmError>)
        requires
            cpu_state.program_counter < usize::MAX,
        ensures
            ({
                let m = snap_of(cpu_state);
                match spec_step(self, m) {
                    Ok(m2) => r matches Ok(c) && c.cpu_memory@ == m2.regs && c.main_memory@
                        == m2.mem && c.program_counter == m2.pc && c.program == cpu_state.program,
                    Err(e) => r matches Err(e2) && e2 == e,
                }
            }),
    {
        let pc = cpu_state.program_counter;
        match self {
            Operation::Add { op1, op2, op3 } => {
                let d = match get_mem_val(op1, &cpu_state) {
                    Ok(d) => d,
                    Err(e) => {
                        return Err(e);
                    },
                };
                let a = match get_val(op2, &cpu_state) {
                    Ok(v) => v,
                    Err(e) => {
                        return Err(e);
                    },
                };
                let b = match get_val(op3, &cpu_state) {
                    Ok(v) => v,
                    Err(e) => {
                        return Err(e);
                    },
                };
                Ok(cpu_state.alloc_reg(d, a.wrapping_add(b)))
            },
            Operation::Sub { op1, op2, op3 } => {
                let d = match get_mem_val(op1, &cpu_state) {
                    Ok(d) => d,
                    Err(e) => {
                        return Err(e);
                    },
                };
                let a = match get_val(op2, &cpu_state) {
                    Ok(v) => v,
                    Err(e) => {
                        return Err(e);
                    },
                };
                let b = match get_val(op3, &cpu_state) {
                    Ok(v) => v,
                    Err(e) => {
                        return Err(e);
                    },
                };
                Ok(cpu_state.alloc_reg(d, a.wrapping_sub(b)))
            },
            Operation::Mul { op1, op2, op3 } => {
                let d = match get_mem_val(op1, &cpu_state) {
                    Ok(d) => d,
                    Err(e) => {
                        return Err(e);
                    },
                };
                let a = match get_val(op2, &cpu_state) {
                    Ok(v) => v,
                    Err(e) => {
                        return Err(e);
                    },
                };
                let b = match get_val(op3, &cpu_state) {
                    Ok(v) => v,
                    Err(e) => {
                        return Err(e);
                    },
                };
                Ok(cpu_state.alloc_reg(d, a.wrapping_mul(b)))
            },
            Operation::Div { op1, op2, op3 } => {
                let d = match get_mem_val(op1, &cpu_state) {
                    Ok(d) => d,
                    Err(e) => {
                        return Err(e);
                    },
                };
                let a = match get_val(op2, &cpu_state) {
                    Ok(v) => v,
                    Err(e) => {
                        return Err(e);
                    },
                };
                let b = match get_val(op3, &cpu_state) {
                    Ok(v) => v,
                    Err(e) => {
                        return Err(e);
                    },
                };
                if b == 0 {
                    return Err(VmError::DivisionByZero { at: pc });
                }
                let am: u64 = if a < 0 {
                    (-(a as i64)) as u64
                } else {
                    a as u64
                };
                let bm: u64 = if b < 0 {
                    (-(b as i64)) as u64
                } else {
                    b as u64
                };
                let q: u64 = am / bm;
                let res: i32 = if (a < 0) != (b < 0) {
                    (-(q as i64)) as i32
                } else {
                    if q >= 2147483648 {
                        i32::MIN
                    } else {
                        q as i32
                    }
                };
                proof {
                    assert(am == abs(a as int));
                    assert(bm == abs(b as int));
                    assert(res == spec_div(a, b));
                }
                Ok(cpu_state.alloc_reg(d, res))
            },
            Operation::Ld { dir, at } => {
                let src = match get_mem_val(dir, &cpu_state) {
                    Ok(v) => v,
                    Err(e) => {
                        return Err(e);
                    },
                };
                let dst = match get_mem_val(at, &cpu_state) {
                    Ok(v) => v,
                    Err(e) => {
                        return Err(e);
                    },
                };
                Ok(cpu_state.move_to_cpu_memory(src, dst))
            },
            Operation::Str { reg, to } => {
                let src = match get_mem_val(reg, &cpu_state) {
                    Ok(v) => v,
                    Err(e) => {
                        return Err(e);
                    },
                };
                proof {
                    assert(to@.skip(0) =~= to@);
                }
                match parse_nat_capped(to.as_str(), 0, 47) {
                    NatParse::BadDigit => Err(VmError::OperandFormat { at: pc }),
                    NatParse::TooBig => Err(VmError::OutOfRangeMemoryAccess { at: pc }),
                    NatParse::Value(v) => Ok(cpu_state.move_to_main_memory(src, v)),
                }
            },
            Operation::Mov { from_reg, to_reg } => {
                let src = match get_mem_val(from_reg, &cpu_state) {
                    Ok(v) => v,
                    Err(e) => {
                        return Err(e);
                    },
                };
                let dst = match get_mem_val(to_reg, &cpu_state) {
                    Ok(v) => v,
                    Err(e) => {
                        return Err(e);
                    },
                };
                Ok(cpu_state.move_on_cpu_memory(src, dst))
            },
            Operation::Cmp { this, eq_this } => {
                let t = match get_mem_val(this, &cpu_state) {
                    Ok(v) => v,
                    Err(e) => {
                        return Err(e);
                    },
                };
                let lit = match parse_i32_token(eq_this.as_str()) {
                    Some(v) => v,
                    None => {
                        return Err(VmError::OperandFormat { at: pc });
                    },
                };
                let cur = cpu_state.cpu_memory[t];
                let cmp: i32 = if cur != lit {
                    0
                } else {
                    1
                };
                Ok(cpu_state.alloc_reg(t, cmp))
            },
            Operation::Jmp { reg_cond, pc_to_jump } => {
                let c = match get_mem_val(reg_cond, &cpu_state) {
                    Ok(v) => v,
                    Err(e) => {
                        return Err(e);
                    },
                };
                if cpu_state.cpu_memory[c] == 0 {
                    proof {
                        assert(pc_to_jump@.skip(0) =~= pc_to_jump@);
                    }
                    match parse_nat_capped(pc_to_jump.as_str(), 0, usize::MAX) {
                        NatParse::BadDigit => Err(VmError::OperandFormat { at: pc }),
                        NatParse::TooBig => Err(VmError::OperandFormat { at: pc }),
                        NatParse::Value(v) => Ok(cpu_state.jump_program_counter(v)),
                    }
                } else {
                    Ok(cpu_state.next_program_counter())
                }
            },
        }
    }
}

impl Clone for Operation {
    /// A clone carries the same opcode and the same operand text.
    fn clone(&self) -> (r: Self)
        ensures
            r == *self,
    {
        match self {
            Operation::Add { op1, op2, op3 } => Operation::Add {
                op1: op1.clone(),
                op2: op2.clone(),
                op3: op3.clone(),
            },
            Operation::Sub { op1, op2, op3 } => Operation::Sub {
                op1: op1.clone(),
                op2: op2.clone(),
                op3: op3.clone(),
            },
            Operation::Mul { op1, op2, op3 } => Operation::Mul {
                op1: op1.clone(),
                op2: op2.clone(),
                op3: op3.clone(),
            },
            Operation::Div { op1, op2, op3 } => Operation::Div {
                op1: op1.clone(),
                op2: op2.clone(),
                op3: op3.clone(),
            },
            Operation::Ld { dir, at } => Operation::Ld { dir: dir.clone(), at: at.clone() },
            Operation::Str { reg, to } => Operation::Str { reg: reg.clone(), to: to.clone() },
            Operation::Mov { from_reg, to_reg } => Operation::Mov {
                from_reg: from_reg.clone(),
                to_reg: to_reg.clone(),
            },
            Operation::Cmp { this, eq_this } => Operation::Cmp {
                this: this.clone(),
                eq_this: eq_this.clone(),
            },
            Operation::Jmp { reg_cond, pc_to_jump } => Operation::Jmp {
                reg_cond: reg_cond.clone(),
                pc_to_jump: pc_to_jump.clone(),
            },
        }
    }
}

/// Resolves a token that must name a register — the sigil `r` followed by
/// the register's index in digits — to that index.
pub fn get_mem_val(op: String, cpu_state: &CpuState) -> (r: Result<usize, VmError>)
    ensures
        r matches Ok(i) ==> spec_reg_index(op@, cpu_state.program_counter) == Ok::<
            int,
            VmError,
        >(i as int) && i < 12,
        r matches Err(e) ==> spec_reg_index(op@, cpu_state.program_counter) == Err::<
            int,
            VmError,
        >(e),
{
    let pc = cpu_state.program_counter;
    let s = op.as_str();
    let n = s.unicode_len();
    if n == 0 || s.get_char(0) != 'r' {
        return Err(VmError::OperandFormat { at: pc });
    }
    match parse_nat_capped(s, 1, 11) {
        NatParse::BadDigit => Err(VmError::OperandFormat { at: pc }),
        NatParse::TooBig => Err(VmError::OperandRange { at: pc }),
        NatParse::Value(v) => Ok(v),
    }
}

/// Checks a resolved register index against the register file's bounds.
pub fn check_between_cpu_mem_refs(dir: usize, cpu_state: &CpuState) -> (r: Result<usize, VmError>)
    ensures
        r == (if dir <= 11 {
            Ok::<usize, VmError>(dir)
        } else {
            Err::<usize, VmError>(VmError::OperandRange { at: cpu_state.program_counter })
        }),
{
    if dir <= 11 {
        Ok(dir)
    } else {
        Err(VmError::OperandRange { at: cpu_state.program_counter })
    }
}

/// Resolves a value operand: a register-sigil token reads the named
/// register's current value, any other token is a literal signed 32-bit
/// integer.
pub fn get_val(op: String, cpu_state: &CpuState) -> (r: Result<i32, VmError>)
    ensures
        r matches Ok(v) ==> spec_value(op@, cpu_state.cpu_memory@, cpu_state.program_counter)
            == Ok::<i32, VmError>(v),
        r matches Err(e) ==> spec_value(op@, cpu_state.cpu_memory@, cpu_state.program_counter)
            == Err::<i32, VmError>(e),
{
    let pc = cpu_state.program_counter;
    let s = op.as_str();
    let n = s.unicode_len();
    if n > 0 && s.get_char(0) == 'r' {
        match parse_nat_capped(s, 1, 11) {
            NatParse::BadDigit => Err(VmError::OperandFormat { at: pc }),
            NatParse::TooBig => Err(VmError::OperandRange { at: pc }),
            NatParse::Value(v) => match check_between_cpu_mem_refs(v, cpu_state) {
                Ok(i) => Ok(cpu_state.cpu_memory[i]),
                Err(e) => Err(e),
            },
        }
    } else {
        match parse_i32_token(s) {
            Some(v) => Ok(v),
            None => Err(VmError::OperandFormat { at: pc }),
        }
    }
}

/// Joins a keyword and two operand tokens with single spaces.
fn format3(kw: &str, a: &str, b: &str) -> (r: String)
    ensures
        r@ == spec_join(seq![kw@, a@, b@]),
{
    proof {
        reveal_strlit(" ");
        lemma_join3(kw@, a@, b@);
    }
    let mut s = kw.to_owned();
    s.append(" ");
    s.append(a);
    s.append(" ");
    s.append(b);
    proof {
        assert(" "@ =~= seq![' ']);
        assert(s@ =~= spec_join(seq![kw@, a@, b@]));
    }
    s
}

/// Joins a keyword and three operand tokens with single spaces.
fn format4(kw: &str, a: &str, b: &str, c: &str) -> (r: String)
    ensures
        r@ == spec_join(seq![kw@, a@, b@, c@]),
{
    proof {
        reveal_strlit(" ");
        lemma_join4(kw@, a@, b@, c@);
    }
    let mut s = kw.to_owned();
    s.append(" ");
    s.append(a);
    s.append(" ");
    s.append(b);
    s.append(" ");
    s.append(c);
    proof {
        assert(" "@ =~= seq![' ']);
        assert(s@ =~= spec_join(seq![kw@, a@, b@, c@]));
    }
    s
}

} // verus!
