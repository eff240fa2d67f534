//! The assembler: turns a newline-delimited source text into a program of
//! 256 decoded instructions, or fails with a positioned diagnostic. The
//! whole translation is specified by `parse_program_spec`, a pure function
//! over the source's characters; `parse_program` is proved to return
//! exactly what the specification says, error cases included.

use vstd::prelude::*;
use vstd::string::StrSliceExecFns;
use vstd::string::StringExecFns;
use crate::names::Instruction;
use crate::names::Register;
use crate::text::range_contents;
use crate::text::split_at_char;
use crate::text::split_ranges;
use crate::text::trim_range;
use crate::text::trim_spec;
use crate::text::u8_of;
use crate::text::chars_of;
use crate::text::parse_u8_range;
use crate::text::range_matches;

verus! {

/// An assembly failure, over mathematical values: the exec `ParserError`
/// views to this.
pub enum ParserErrorSpec {
    /// Line index, column, and the token that is no opcode.
    UnknownKeyWord(u8, u8, Seq<char>),
    /// Line index, column, and the operand that is no register name and no
    /// 8-bit number.
    InvalidArgument(u8, u8, Seq<char>),
    /// The source has this many lines, more than the 256 program slots.
    LengthError(nat),
    /// The opcode wants the first count of tokens, the line has the second.
    InstructionLengthError(u8, nat),
}

/// An assembly failure: each variant carries enough position context to
/// point at the failing line, and token-level variants carry the offending
/// token's text.
#[derive(Debug, Clone, PartialEq, Eq)]
pub enum ParserError {
    /// Line index, column, and the token that is no opcode.
    UnknownKeyWord(u8, u8, String),
    /// Line index, column, and the operand that is no register name and no
    /// 8-bit number.
    InvalidArgument(u8, u8, String),
    /// The source has this many lines, more than the 256 program slots.
    LengthError(usize),
    /// The opcode wants the first count of tokens, the line has the second.
    InstructionLengthError(u8, usize),
}

impl View for ParserError {
    type V = ParserErrorSpec;

    open spec fn view(&self) -> ParserErrorSpec {
        match self {
            ParserError::UnknownKeyWord(l, c, t) => ParserErrorSpec::UnknownKeyWord(*l, *c, t@),
            ParserError::InvalidArgument(l, c, t) => ParserErrorSpec::InvalidArgument(*l, *c, t@),
            ParserError::LengthError(n) => ParserErrorSpec::LengthError(*n as nat),
            ParserError::InstructionLengthError(e, n) => ParserErrorSpec::InstructionLengthError(
                *e,
                *n as nat,
            ),
        }
    }
}

/// The register a token names: exactly the four spellings, case-sensitive.
pub open spec fn register_of(t: Seq<char>) -> Option<Register> {
    if t == "a"@ {
        Some(Register::A)
    } else if t == "b"@ {
        Some(Register::B)
    } else if t == "rip"@ {
        Some(Register::Rip)
    } else if t == "result"@ {
        Some(Register::Res)
    } else {
        None
    }
}

/// `mov <reg> <u8>`: the register stands at column 2, the value at 3.
pub open spec fn mov_spec(line: u8, toks: Seq<Seq<char>>) -> Result<Instruction, ParserErrorSpec> {
    if toks.len() == 3 {
        match register_of(toks[1]) {
            None => Err(ParserErrorSpec::InvalidArgument(line, 2, toks[1])),
            Some(r) => match u8_of(toks[2]) {
                None => Err(ParserErrorSpec::InvalidArgument(line, 3, toks[2])),
                Some(v) => Ok(Instruction::Move(r, v)),
            },
        }
    } else {
        Err(ParserErrorSpec::InstructionLengthError(3, toks.len()))
    }
}

/// Two register operands at columns 1 and 2, as `cpy`, `sub`, `add`, `lfa`
/// and `lta` take them.
pub open spec fn reg_pair_of(line: u8, toks: Seq<Seq<char>>) -> Result<
    (Register, Register),
    ParserErrorSpec,
> {
    match register_of(toks[1]) {
        None => Err(ParserErrorSpec::InvalidArgument(line, 1, toks[1])),
        Some(r1) => match register_of(toks[2]) {
            None => Err(ParserErrorSpec::InvalidArgument(line, 2, toks[2])),
            Some(r2) => Ok((r1, r2)),
        },
    }
}

/// `cpy <dst_reg> <src_reg>`.
pub open spec fn cpy_spec(line: u8, toks: Seq<Seq<char>>) -> Result<Instruction, ParserErrorSpec> {
    if toks.len() == 3 {
        match reg_pair_of(line, toks) {
            Err(e) => Err(e),
            Ok((r1, r2)) => Ok(Instruction::Cpy(r1, r2)),
        }
    } else {
        Err(ParserErrorSpec::InstructionLengthError(3, toks.len()))
    }
}

/// `sub <lhs_reg> <rhs_reg>`.
pub open spec fn sub_spec(line: u8, toks: Seq<Seq<char>>) -> Result<Instruction, ParserErrorSpec> {
    if toks.len() == 3 {
        match reg_pair_of(line, toks) {
            Err(e) => Err(e),
            Ok((r1, r2)) => Ok(Instruction::Sub(r1, r2)),
        }
    } else {
        Err(ParserErrorSpec::InstructionLengthError(3, toks.len()))
    }
}

/// `add <lhs_reg> <rhs_reg>`.
pub open spec fn add_spec(line: u8, toks: Seq<Seq<char>>) -> Result<Instruction, ParserErrorSpec> {
    if toks.len() == 3 {
        match reg_pair_of(line, toks) {
            Err(e) => Err(e),
            Ok((r1, r2)) => Ok(Instruction::Add(r1, r2)),
        }
    } else {
        Err(ParserErrorSpec::InstructionLengthError(3, toks.len()))
    }
}

/// `lfa <dst_reg> <addr_reg>`: load memory at the address held in the
/// second operand into the first.
pub open spec fn lfa_spec(line: u8, toks: Seq<Seq<char>>) -> Result<Instruction, ParserErrorSpec> {
    if toks.len() == 3 {
        match reg_pair_of(line, toks) {
            Err(e) => Err(e),
            Ok((r1, r2)) => Ok(Instruction::LoadFromAddress(r1, r2)),
        }
    } else {
        Err(ParserErrorSpec::InstructionLengthError(3, toks.len()))
    }
}

/// `lta <addr_reg> <src_reg>`: store the second operand's value into
/// memory at the address held in the first.
pub open spec fn lta_spec(line: u8, toks: Seq<Seq<char>>) -> Result<Instruction, ParserErrorSpec> {
    if toks.len() == 3 {
        match reg_pair_of(line, toks) {
            Err(e) => Err(e),
            Ok((r1, r2)) => Ok(Instruction::LoadToAddress(r1, r2)),
        }
    } else {
        Err(ParserErrorSpec::InstructionLengthError(3, toks.len()))
    }
}

/// One numeric jump target at column 1, for the four jump opcodes.
pub open spec fn jump_target_of(line: u8, toks: Seq<Seq<char>>) -> Result<u8, ParserErrorSpec> {
    if toks.len() == 2 {
        match u8_of(toks[1]) {
            None => Err(ParserErrorSpec::InvalidArgument(line, 1, toks[1])),
            Some(v) => Ok(v),
        }
    } else {
        Err(ParserErrorSpec::InstructionLengthError(2, toks.len()))
    }
}

/// `jlt <u8 address>`.
pub open spec fn jlt_spec(line: u8, toks: Seq<Seq<char>>) -> Result<Instruction, ParserErrorSpec> {
    match jump_target_of(line, toks) {
        Err(e) => Err(e),
        Ok(v) => Ok(Instruction::JumpLessThan(v)),
    }
}

/// `jgt <u8 address>`.
pub open spec fn jgt_spec(line: u8, toks: Seq<Seq<char>>) -> Result<Instruction, ParserErrorSpec> {
    match jump_target_of(line, toks) {
        Err(e) => Err(e),
        Ok(v) => Ok(Instruction::JumpGreaterThan(v)),
    }
}

/// `jeq <u8 address>`.
pub open spec fn jeq_spec(line: u8, toks: Seq<Seq<char>>) -> Result<Instruction, ParserErrorSpec> {
    match jump_target_of(line, toks) {
        Err(e) => Err(e),
        Ok(v) => Ok(Instruction::JumpEqual(v)),
    }
}

/// `jmp <u8 address>`.
pub open spec fn jmp_spec(line: u8, toks: Seq<Seq<char>>) -> Result<Instruction, ParserErrorSpec> {
    match jump_target_of(line, toks) {
        Err(e) => Err(e),
        Ok(v) => Ok(Instruction::Jump(v)),
    }
}

/// `dump <reg>`: the register stands at column 1.
pub open spec fn dump_spec(line: u8, toks: Seq<Seq<char>>) -> Result<Instruction, ParserErrorSpec> {
    if toks.len() == 2 {
        match register_of(toks[1]) {
            None => Err(ParserErrorSpec::InvalidArgument(line, 1, toks[1])),
            Some(r) => Ok(Instruction::Dump(r)),
        }
    } else {
        Err(ParserErrorSpec::InstructionLengthError(2, toks.len()))
    }
}

/// `dm <addr_reg>`: the register stands at column 1.
pub open spec fn dm_spec(line: u8, toks: Seq<Seq<char>>) -> Result<Instruction, ParserErrorSpec> {
    if toks.len() == 2 {
        match register_of(toks[1]) {
            None => Err(ParserErrorSpec::InvalidArgument(line, 1, toks[1])),
            Some(r) => Ok(Instruction::DumpMem(r)),
        }
    } else {
        Err(ParserErrorSpec::InstructionLengthError(2, toks.len()))
    }
}

/// `nop`: no operands.
pub open spec fn nop_spec(toks: Seq<Seq<char>>) -> Result<Instruction, ParserErrorSpec> {
    if toks.len() == 1 {
        Ok(Instruction::Nop)
    } else {
        Err(ParserErrorSpec::InstructionLengthError(1, toks.len()))
    }
}

/// The instruction the tokens of one line denote: the first token selects
/// the opcode by exact match, the rest are its operands.
pub open spec fn parse_tokens_spec(line: u8, toks: Seq<Seq<char>>) -> Result<
    Instruction,
    ParserErrorSpec,
>
    recommends
        toks.len() >= 1,
{
    let op = toks[0];
    if op == "nop"@ {
        nop_spec(toks)
    } else if op == "mov"@ {
        mov_spec(line, toks)
    } else if op == "cpy"@ {
        cpy_spec(line, toks)
    } else if op == "sub"@ {
        sub_spec(line, toks)
    } else if op == "add"@ {
        add_spec(line, toks)
    } else if op == "lfa"@ {
        lfa_spec(line, toks)
    } else if op == "lta"@ {
        lta_spec(line, toks)
    } else if op == "jlt"@ {
        jlt_spec(line, toks)
    } else if op == "jgt"@ {
        jgt_spec(line, toks)
    } else if op == "jeq"@ {
        jeq_spec(line, toks)
    } else if op == "jmp"@ {
        jmp_spec(line, toks)
    } else if op == "dump"@ {
        dump_spec(line, toks)
    } else if op == "dm"@ {
        dm_spec(line, toks)
    } else {
        Err(ParserErrorSpec::UnknownKeyWord(line, 0, op))
    }
}

/// The program slots from line `i` on: each line is trimmed; a blank line
/// or one starting with `#` leaves its slot as it is; any other line is
/// tokenized on single spaces and decoded into the slot whose address
/// equals its line index.
pub open spec fn parse_lines_spec(lines: Seq<Seq<char>>, i: nat, prog: Seq<Instruction>) -> Result<
    Seq<Instruction>,
    ParserErrorSpec,
>
    recommends
        lines.len() <= 256,
        prog.len() == 256,
    decreases lines.len() - i,
{
    if i >= lines.len() {
        Ok(prog)
    } else {
        let t = trim_spec(lines[i as int]);
        if t.len() == 0 || t[0] == '#' {
            parse_lines_spec(lines, i + 1, prog)
        } else {
            match parse_tokens_spec(i as u8, split_at_char(t, ' ')) {
                Err(e) => Err(e),
                Ok(ins) => parse_lines_spec(lines, i + 1, prog.update(i as int, ins)),
            }
        }
    }
}

/// The program a source text denotes: the text is trimmed, split into
/// lines, refused when there are more than 256 of them, and decoded line
/// by line into a 256-slot program whose unused slots hold `Nop`.
pub open spec fn parse_program_spec(src: Seq<char>) -> Result<Seq<Instruction>, ParserErrorSpec> {
    let lines = split_at_char(trim_spec(src), '\n');
    if lines.len() > 256 {
        Err(ParserErrorSpec::LengthError(lines.len()))
    } else {
        parse_lines_spec(lines, 0, Seq::new(256, |i: int| Instruction::Nop))
    }
}

/// How an exec parse result must relate to the specification's: the same
/// instruction, or an error that views to the specification's error.
pub open spec fn line_result_matches(
    r: Result<Instruction, ParserError>,
    m: Result<Instruction, ParserErrorSpec>,
) -> bool {
    match r {
        Ok(i) => m == Ok::<Instruction, ParserErrorSpec>(i),
        Err(e) => m is Err && e@ == m->Err_0,
    }
}

/// Whether every range points into `v`.
pub open spec fn ranges_ok(v: Seq<char>, rs: Seq<(usize, usize)>) -> bool {
    forall|k: int| 0 <= k < rs.len() ==> ((#[trigger] rs[k]).0 <= rs[k].1 && rs[k].1 <= v.len())
}

/// The token `v[start..end]`, copied out as owned text for an error.
fn token_string(src: &str, v: &Vec<char>, start: usize, end: usize) -> (s: String)
    requires
        v@ == src@,
        start <= end <= v@.len(),
    ensures
        s@ == v@.subrange(start as int, end as int),
{
    let sub = src.substring_char(start, end);
    String::from_str(sub)
}

fn parse_register(src: &str, v: &Vec<char>, line: u8, col: u8, start: usize, end: usize) -> (r:
    Result<Register, ParserError>)
    requires
        v@ == src@,
        start <= end <= v@.len(),
    ensures
        (match r {
            Ok(reg) => register_of(v@.subrange(start as int, end as int)) == Some(reg),
            Err(e) => register_of(v@.subrange(start as int, end as int)) is None && e@
                == ParserErrorSpec::InvalidArgument(
                line,
                col,
                v@.subrange(start as int, end as int),
            ),
        }),
{
    if range_matches(v, start, end, "a") {
        Ok(Register::A)
    } else if range_matches(v, start, end, "b") {
        Ok(Register::B)
    } else if range_matches(v, start, end, "rip") {
        Ok(Register::Rip)
    } else if range_matches(v, start, end, "result") {
        Ok(Register::Res)
    } else {
        Err(ParserError::InvalidArgument(line, col, token_string(src, v, start, end)))
    }
}

fn parse_number(src: &str, v: &Vec<char>, line: u8, col: u8, start: usize, end: usize) -> (r:
    Result<u8, ParserError>)
    requires
        v@ == src@,
        start <= end <= v@.len(),
    ensures
        (match r {
            Ok(x) => u8_of(v@.subrange(start as int, end as int)) == Some(x),
            Err(e) => u8_of(v@.subrange(start as int, end as int)) is None && e@
                == ParserErrorSpec::InvalidArgument(
                line,
                col,
                v@.subrange(start as int, end as int),
            ),
        }),
{
    match parse_u8_range(v, start, end) {
        Some(x) => Ok(x),
        None => Err(ParserError::InvalidArgument(line, col, token_string(src, v, start, end))),
    }
}

fn parse_move(src: &str, v: &Vec<char>, line: u8, toks: &Vec<(usize, usize)>) -> (r: Result<
    Instruction,
    ParserError,
>)
    requires
        v@ == src@,
        ranges_ok(v@, toks@),
    ensures
        line_result_matches(r, mov_spec(line, range_contents(v@, toks@))),
{
    if toks.len() == 3 {
        let t1 = toks[1];
        let t2 = toks[2];
        let register = match parse_register(src, v, line, 2, t1.0, t1.1) {
            Ok(x) => x,
            Err(e) => {
                return Err(e);
            },
        };
        let number = match parse_number(src, v, line, 3, t2.0, t2.1) {
            Ok(x) => x,
            Err(e) => {
                return Err(e);
            },
        };
        Ok(Instruction::Move(register, number))
    } else {
        Err(ParserError::InstructionLengthError(3, toks.len()))
    }
}

fn parse_cpy(src: &str, v: &Vec<char>, line: u8, toks: &Vec<(usize, usize)>) -> (r: Result<
    Instruction,
    ParserError,
>)
    requires
        v@ == src@,
        ranges_ok(v@, toks@),
    ensures
        line_result_matches(r, cpy_spec(line, range_contents(v@, toks@))),
{
    if toks.len() == 3 {
        let t1 = toks[1];
        let t2 = toks[2];
        let register1 = match parse_register(src, v, line, 1, t1.0, t1.1) {
            Ok(x) => x,
            Err(e) => {
                return Err(e);
            },
        };
        let register2 = match parse_register(src, v, line, 2, t2.0, t2.1) {
            Ok(x) => x,
            Err(e) => {
                return Err(e);
            },
        };
        Ok(Instruction::Cpy(register1, register2))
    } else {
        Err(ParserError::InstructionLengthError(3, toks.len()))
    }
}

fn parse_sub(src: &str, v: &Vec<char>, line: u8, toks: &Vec<(usize, usize)>) -> (r: Result<
    Instruction,
    ParserError,
>)
    requires
        v@ == src@,
        ranges_ok(v@, toks@),
    ensures
        line_result_matches(r, sub_spec(line, range_contents(v@, toks@))),
{
    if toks.len() == 3 {
        let t1 = toks[1];
        let t2 = toks[2];
        let register1 = match parse_register(src, v, line, 1, t1.0, t1.1) {
            Ok(x) => x,
            Err(e) => {
                return Err(e);
            },
        };
        let register2 = match parse_register(src, v, line, 2, t2.0, t2.1) {
            Ok(x) => x,
            Err(e) => {
                return Err(e);
            },
        };
        Ok(Instruction::Sub(register1, register2))
    } else {
        Err(ParserError::InstructionLengthError(3, toks.len()))
    }
}

fn parse_add(src: &str, v: &Vec<char>, line: u8, toks: &Vec<(usize, usize)>) -> (r: Result<
    Instruction,
    ParserError,
>)
    requires
        v@ == src@,
        ranges_ok(v@, toks@),
    ensures
        line_result_matches(r, add_spec(line, range_contents(v@, toks@))),
{
    if toks.len() == 3 {
        let t1 = toks[1];
        let t2 = toks[2];
        let register1 = match parse_register(src, v, line, 1, t1.0, t1.1) {
            Ok(x) => x,
            Err(e) => {
                return Err(e);
            },
        };
        let register2 = match parse_register(src, v, line, 2, t2.0, t2.1) {
            Ok(x) => x,
            Err(e) => {
                return Err(e);
            },
        };
        Ok(Instruction::Add(register1, register2))
    } else {
        Err(ParserError::InstructionLengthError(3, toks.len()))
    }
}

fn parse_load_from_address(src: &str, v: &Vec<char>, line: u8, toks: &Vec<(usize, usize)>) -> (r:
    Result<Instruction, ParserError>)
    requires
        v@ == src@,
        ranges_ok(v@, toks@),
    ensures
        line_result_matches(r, lfa_spec(line, range_contents(v@, toks@))),
{
    if toks.len() == 3 {
        let t1 = toks[1];
        let t2 = toks[2];
        let register1 = match parse_register(src, v, line, 1, t1.0, t1.1) {
            Ok(x) => x,
            Err(e) => {
                return Err(e);
            },
        };
        let address = match parse_register(src, v, line, 2, t2.0, t2.1) {
            Ok(x) => x,
            Err(e) => {
                return Err(e);
            },
        };
        Ok(Instruction::LoadFromAddress(register1, address))
    } else {
        Err(ParserError::InstructionLengthError(3, toks.len()))
    }
}

fn parse_load_to_address(src: &str, v: &Vec<char>, line: u8, toks: &Vec<(usize, usize)>) -> (r:
    Result<Instruction, ParserError>)
    requires
        v@ == src@,
        ranges_ok(v@, toks@),
    ensures
        line_result_matches(r, lta_spec(line, range_contents(v@, toks@))),
{
    if toks.len() == 3 {
        let t1 = toks[1];
        let t2 = toks[2];
        let address = match parse_register(src, v, line, 1, t1.0, t1.1) {
            Ok(x) => x,
            Err(e) => {
                return Err(e);
            },
        };
        let register = match parse_register(src, v, line, 2, t2.0, t2.1) {
            Ok(x) => x,
            Err(e) => {
                return Err(e);
            },
        };
        Ok(Instruction::LoadToAddress(address, register))
    } else {
        Err(ParserError::InstructionLengthError(3, toks.len()))
    }
}

fn parse_jump_less_than(src: &str, v: &Vec<char>, line: u8, toks: &Vec<(usize, usize)>) -> (r:
    Result<Instruction, ParserError>)
    requires
        v@ == src@,
        ranges_ok(v@, toks@),
    ensures
        line_result_matches(r, jlt_spec(line, range_contents(v@, toks@))),
{
    if toks.len() == 2 {
        let t1 = toks[1];
        match parse_number(src, v, line, 1, t1.0, t1.1) {
            Ok(address) => Ok(Instruction::JumpLessThan(address)),
            Err(e) => Err(e),
        }
    } else {
        Err(ParserError::InstructionLengthError(2, toks.len()))
    }
}

fn parse_jump_greater_than(src: &str, v: &Vec<char>, line: u8, toks: &Vec<(usize, usize)>) -> (r:
    Result<Instruction, ParserError>)
    requires
        v@ == src@,
        ranges_ok(v@, toks@),
    ensures
        line_result_matches(r, jgt_spec(line, range_contents(v@, toks@))),
{
    if toks.len() == 2 {
        let t1 = toks[1];
        match parse_number(src, v, line, 1, t1.0, t1.1) {
            Ok(address) => Ok(Instruction::JumpGreaterThan(address)),
            Err(e) => Err(e),
        }
    } else {
        Err(ParserError::InstructionLengthError(2, toks.len()))
    }
}

fn parse_jump_equal_to(src: &str, v: &Vec<char>, line: u8, toks: &Vec<(usize, usize)>) -> (r:
    Result<Instruction, ParserError>)
    requires
        v@ == src@,
        ranges_ok(v@, toks@),
    ensures
        line_result_matches(r, jeq_spec(line, range_contents(v@, toks@))),
{
    if toks.len() == 2 {
        let t1 = toks[1];
        match parse_number(src, v, line, 1, t1.0, t1.1) {
            Ok(address) => Ok(Instruction::JumpEqual(address)),
            Err(e) => Err(e),
        }
    } else {
        Err(ParserError::InstructionLengthError(2, toks.len()))
    }
}

fn parse_jump(src: &str, v: &Vec<char>, line: u8, toks: &Vec<(usize, usize)>) -> (r: Result<
    Instruction,
    ParserError,
>)
    requires
        v@ == src@,
        ranges_ok(v@, toks@),
    ensures
        line_result_matches(r, jmp_spec(line, range_contents(v@, toks@))),
{
    if toks.len() == 2 {
        let t1 = toks[1];
        match parse_number(src, v, line, 1, t1.0, t1.1) {
            Ok(address) => Ok(Instruction::Jump(address)),
            Err(e) => Err(e),
        }
    } else {
        Err(ParserError::InstructionLengthError(2, toks.len()))
    }
}

fn parse_dump(src: &str, v: &Vec<char>, line: u8, toks: &Vec<(usize, usize)>) -> (r: Result<
    Instruction,
    ParserError,
>)
    requires
        v@ == src@,
        ranges_ok(v@, toks@),
    ensures
        line_result_matches(r, dump_spec(line, range_contents(v@, toks@))),
{
    if toks.len() == 2 {
        let t1 = toks[1];
        match parse_register(src, v, line, 1, t1.0, t1.1) {
            Ok(r1) => Ok(Instruction::Dump(r1)),
            Err(e) => Err(e),
        }
    } else {
        Err(ParserError::InstructionLengthError(2, toks.len()))
    }
}

fn parse_dump_mem(src: &str, v: &Vec<char>, line: u8, toks: &Vec<(usize, usize)>) -> (r: Result<
    Instruction,
    ParserError,
>)
    requires
        v@ == src@,
        ranges_ok(v@, toks@),
    ensures
        line_result_matches(r, dm_spec(line, range_contents(v@, toks@))),
{
    if toks.len() == 2 {
        let t1 = toks[1];
        match parse_register(src, v, line, 1, t1.0, t1.1) {
            Ok(r1) => Ok(Instruction::DumpMem(r1)),
            Err(e) => Err(e),
        }
    } else {
        Err(ParserError::InstructionLengthError(2, toks.len()))
    }
}

/// One non-blank, non-comment line's tokens, decoded by the opcode table.
fn parse_tokens(src: &str, v: &Vec<char>, line: u8, toks: &Vec<(usize, usize)>) -> (r: Result<
    Instruction,
    ParserError,
>)
    requires
        v@ == src@,
        ranges_ok(v@, toks@),
        toks@.len() >= 1,
    ensures
        line_result_matches(r, parse_tokens_spec(line, range_contents(v@, toks@))),
{
    let t0 = toks[0];
    if range_matches(v, t0.0, t0.1, "nop") {
        if toks.len() == 1 {
            Ok(Instruction::Nop)
        } else {
            Err(ParserError::InstructionLengthError(1, toks.len()))
        }
    } else if range_matches(v, t0.0, t0.1, "mov") {
        parse_move(src, v, line, toks)
    } else if range_matches(v, t0.0, t0.1, "cpy") {
        parse_cpy(src, v, line, toks)
    } else if range_matches(v, t0.0, t0.1, "sub") {
        parse_sub(src, v, line, toks)
    } else if range_matches(v, t0.0, t0.1, "add") {
        parse_add(src, v, line, toks)
    } else if range_matches(v, t0.0, t0.1, "lfa") {
        parse_load_from_address(src, v, line, toks)
    } else if range_matches(v, t0.0, t0.1, "lta") {
        parse_load_to_address(src, v, line, toks)
    } else if range_matches(v, t0.0, t0.1, "jlt") {
        parse_jump_less_than(src, v, line, toks)
    } else if range_matches(v, t0.0, t0.1, "jgt") {
        parse_jump_greater_than(src, v, line, toks)
    } else if range_matches(v, t0.0, t0.1, "jeq") {
        parse_jump_equal_to(src, v, line, toks)
    } else if range_matches(v, t0.0, t0.1, "jmp") {
        parse_jump(src, v, line, toks)
    } else if range_matches(v, t0.0, t0.1, "dump") {
        parse_dump(src, v, line, toks)
    } else if range_matches(v, t0.0, t0.1, "dm") {
        parse_dump_mem(src, v, line, toks)
    } else {
        Err(ParserError::UnknownKeyWord(line, 0, token_string(src, v, t0.0, t0.1)))
    }
}

/// Translates a source text into a 256-slot program, or fails with the
/// first error found scanning top to bottom, exactly as
/// `parse_program_spec` says.
pub fn parse_program(source: &str) -> (r: Result<[Instruction; 256], ParserError>)
    ensures
        (match r {
            Ok(prog) => parse_program_spec(source@) == Ok::<Seq<Instruction>, ParserErrorSpec>(
                prog@,
            ),
            Err(e) => parse_program_spec(source@) is Err && e@ == parse_program_spec(
                source@,
            )->Err_0,
        }),
{
    let v = chars_of(source);
    let n = v.len();
    let whole = trim_range(&v, 0, n);
    let lines = split_ranges(&v, whole.0, whole.1, '\n');
    let ghost linesc = range_contents(v@, lines@);
    proof {
        assert(v@.subrange(0, n as int) =~= v@);
        assert(linesc == split_at_char(trim_spec(source@), '\n'));
    }
    if lines.len() > 256 {
        return Err(ParserError::LengthError(lines.len()));
    }
    let mut program: [Instruction; 256] = [Instruction::Nop; 256];
    proof {
        assert(program@ =~= Seq::new(256, |k: int| Instruction::Nop));
    }
    let mut i: usize = 0;
    while i < lines.len()
        invariant
            v@ == source@,
            i <= lines@.len() <= 256,
            linesc == range_contents(v@, lines@),
            linesc.len() == lines@.len(),
            forall|k: int| 0 <= k < lines@.len() ==> ((#[trigger] lines@[k]).0 <= lines@[k].1
                && lines@[k].1 <= v@.len()),
            parse_program_spec(source@) == parse_lines_spec(linesc, i as nat, program@),
        decreases lines@.len() - i,
    {
        let (ls, le) = lines[i];
        let (a, b) = trim_range(&v, ls, le);
        proof {
            assert(linesc[i as int] == v@.subrange(ls as int, le as int));
            assert(v@.subrange(a as int, b as int) == trim_spec(linesc[i as int]));
        }
        if b > a && v[a] != '#' {
            let toks = split_ranges(&v, a, b, ' ');
            proof {
                let t = trim_spec(linesc[i as int]);
                assert(t[0] == v@.subrange(a as int, b as int)[0]);
                assert(v@.subrange(a as int, b as int)[0] == v@[a as int]);
                assert(range_contents(v@, toks@) == split_at_char(t, ' '));
            }
            match parse_tokens(source, &v, i as u8, &toks) {
                Ok(ins) => {
                    program[i] = ins;
                },
                Err(e) => {
                    return Err(e);
                },
            }
        } else {
            proof {
                let t = trim_spec(linesc[i as int]);
                if b > a {
                    assert(t[0] == v@.subrange(a as int, b as int)[0]);
                    assert(v@.subrange(a as int, b as int)[0] == v@[a as int]);
                }
            }
        }
        i = i + 1;
    }
    Ok(program)
}

} // verus!
