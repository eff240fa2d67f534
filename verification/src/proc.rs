//! The processor: machine state, single-step semantics, and the execution
//! loop, specified by a mathematical small-step model.

use vstd::prelude::*;
use crate::names::Instruction;
use crate::names::Register;

verus! {

broadcast use vstd::array::group_array_axioms;

/// The mathematical state of the machine: the four registers, the 256-cell
/// memory, the program, and the record of everything the dump instructions
/// have emitted, in order.
#[verifier::ext_equal]
pub struct MachineState {
    pub a: u8,
    pub b: u8,
    pub res: u8,
    pub rip: u8,
    pub mem: Seq<u8>,
    pub prog: Seq<Instruction>,
    pub out: Seq<u8>,
}

/// The value a register holds in state `s`.
pub open spec fn read_reg(s: MachineState, r: Register) -> u8 {
    match r {
        Register::A => s.a,
        Register::B => s.b,
        Register::Res => s.res,
        Register::Rip => s.rip,
    }
}

/// State `s` with register `r` set to `v`.
pub open spec fn write_reg(s: MachineState, r: Register, v: u8) -> MachineState {
    match r {
        Register::A => MachineState { a: v, ..s },
        Register::B => MachineState { b: v, ..s },
        Register::Res => MachineState { res: v, ..s },
        Register::Rip => MachineState { rip: v, ..s },
    }
}

/// One fetch-decode-execute step from `s`: the program counter first
/// advances past the fetched instruction, then the instruction's effect
/// applies, so jump targets and register reads see the advanced counter.
/// `Err` carries the state left behind when Add or Sub overflows: the
/// counter advanced, everything else untouched.
pub open spec fn step_spec(s: MachineState) -> Result<MachineState, MachineState>
    recommends
        s.rip < 255,
{
    let s1 = MachineState { rip: (s.rip + 1) as u8, ..s };
    match s.prog[s.rip as int] {
        Instruction::Nop => Ok(s1),
        Instruction::Move(r, v) => Ok(write_reg(s1, r, v)),
        Instruction::Cpy(r1, r2) => Ok(write_reg(s1, r1, read_reg(s1, r2))),
        Instruction::Sub(r1, r2) => if read_reg(s1, r2) <= read_reg(s1, r1) {
            Ok(MachineState { res: (read_reg(s1, r1) - read_reg(s1, r2)) as u8, ..s1 })
        } else {
            Err(s1)
        },
        Instruction::Add(r1, r2) => if read_reg(s1, r1) + read_reg(s1, r2) <= 255 {
            Ok(MachineState { res: (read_reg(s1, r1) + read_reg(s1, r2)) as u8, ..s1 })
        } else {
            Err(s1)
        },
        Instruction::LoadFromAddress(r, addr) => Ok(
            write_reg(s1, r, s1.mem[read_reg(s1, addr) as int]),
        ),
        Instruction::LoadToAddress(addr, r) => Ok(
            MachineState {
                mem: s1.mem.update(read_reg(s1, addr) as int, read_reg(s1, r)),
                ..s1
            },
        ),
        Instruction::JumpLessThan(t) => Ok(
            if s1.a < s1.b {
                MachineState { rip: t, ..s1 }
            } else {
                s1
            },
        ),
        Instruction::JumpGreaterThan(t) => Ok(
            if s1.a > s1.b {
                MachineState { rip: t, ..s1 }
            } else {
                s1
            },
        ),
        Instruction::JumpEqual(t) => Ok(
            if s1.a == s1.b {
                MachineState { rip: t, ..s1 }
            } else {
                s1
            },
        ),
        Instruction::Jump(t) => Ok(MachineState { rip: t, ..s1 }),
        Instruction::Dump(r) => Ok(MachineState { out: s1.out.push(read_reg(s1, r)), ..s1 }),
        Instruction::DumpMem(addr) => Ok(
            MachineState { out: s1.out.push(s1.mem[read_reg(s1, addr) as int]), ..s1 },
        ),
    }
}

/// The machine after `n` steps from `s`, stopping early at the boundary
/// address 255; `Err` carries the state at which arithmetic overflowed.
pub open spec fn run_n(s: MachineState, n: nat) -> Result<MachineState, MachineState>
    decreases n,
{
    if n == 0 {
        Ok(s)
    } else if s.rip >= 255 {
        Ok(s)
    } else {
        match step_spec(s) {
            Ok(s2) => run_n(s2, (n - 1) as nat),
            Err(e) => Err(e),
        }
    }
}

/// Whether the run from `s` is over within `n` steps, by reaching the
/// boundary address 255 or by an arithmetic overflow.
pub open spec fn halted_within(s: MachineState, n: nat) -> bool {
    match run_n(s, n) {
        Ok(t) => t.rip >= 255,
        Err(_) => true,
    }
}

/// Whether the run from `s` ever ends.
pub open spec fn halts(s: MachineState) -> bool {
    exists|n: nat| halted_within(s, n)
}

/// One more step at the end of a run is one step from the run's last state.
pub proof fn lemma_run_n_extend(s0: MachineState, n: nat)
    ensures
        run_n(s0, n + 1) == (match run_n(s0, n) {
            Ok(t) => if t.rip >= 255 {
                Ok::<MachineState, MachineState>(t)
            } else {
                step_spec(t)
            },
            Err(e) => Err::<MachineState, MachineState>(e),
        }),
    decreases n,
{
    reveal_with_fuel(run_n, 2);
    if n > 0 && s0.rip < 255 {
        match step_spec(s0) {
            Ok(s2) => lemma_run_n_extend(s2, (n - 1) as nat),
            Err(_) => (),
        }
    }
}

/// A run of `m + n` steps is a run of `m` steps followed by one of `n`.
pub proof fn lemma_run_n_decompose(s0: MachineState, m: nat, n: nat)
    ensures
        run_n(s0, m + n) == (match run_n(s0, m) {
            Ok(t) => run_n(t, n),
            Err(e) => Err::<MachineState, MachineState>(e),
        }),
    decreases m,
{
    if m > 0 && s0.rip < 255 {
        match step_spec(s0) {
            Ok(s2) => lemma_run_n_decompose(s2, (m - 1) as nat, n),
            Err(_) => (),
        }
    }
}

/// Whether every step of the `n`-step run from `s` moves the program
/// counter strictly upward, so no backward (or in-place) jump is taken.
pub open spec fn forward_run(s: MachineState, n: nat) -> bool
    decreases n,
{
    if n == 0 || s.rip >= 255 {
        true
    } else {
        &&& step_spec(s) is Ok
        &&& (step_spec(s)->Ok_0).rip > s.rip
        &&& forward_run(step_spec(s)->Ok_0, (n - 1) as nat)
    }
}

/// A run whose steps all move the counter strictly upward is over once the
/// counter's head start plus the step count reaches the boundary 255.
pub proof fn lemma_forward_run_halts(s: MachineState, n: nat)
    requires
        forward_run(s, n),
        s.rip + n >= 255,
    ensures
        halted_within(s, n),
    decreases n,
{
    if s.rip < 255 {
        let s2 = step_spec(s)->Ok_0;
        lemma_forward_run_halts(s2, (n - 1) as nat);
    }
}

/// Law: an execution that never takes a backward jump terminates, in at
/// most 255 steps: each step moves the program counter strictly upward, and
/// address 255 is the implicit halt boundary.
pub proof fn lemma_no_backward_jump_bounds_execution(s: MachineState)
    requires
        forward_run(s, 255),
    ensures
        halted_within(s, 255),
        halts(s),
{
    lemma_forward_run_halts(s, 255);
}

/// The error that stops execution: 8-bit addition overflowed or
/// subtraction underflowed.
#[derive(Clone, Copy, Debug, PartialEq, Eq, Structural)]
pub enum ExecutionError {
    IntegerOverflow,
}

/// The machine: four 8-bit registers, a 256-cell byte memory, the program,
/// and the record of dump output.
#[derive(Debug)]
pub struct Processor {
    /// The first general purpose register.
    pub register_a: u8,
    /// The second general purpose register.
    pub register_b: u8,
    /// The register that stores the result of arithmetic.
    pub register_result: u8,
    /// The current instruction location.
    pub rip: u8,
    /// The memory of the program.
    pub stack: [u8; 256],
    /// The program being executed.
    pub instructions: [Instruction; 256],
    /// The values the dump instructions have emitted, in execution order.
    pub output: Vec<u8>,
}

impl View for Processor {
    type V = MachineState;

    open spec fn view(&self) -> MachineState {
        MachineState {
            a: self.register_a,
            b: self.register_b,
            res: self.register_result,
            rip: self.rip,
            mem: self.stack@,
            prog: self.instructions@,
            out: self.output@,
        }
    }
}

impl Processor {
    /// A machine loaded with `program`, with zeroed registers, zeroed
    /// memory, and an empty output record.
    pub fn new(program: [Instruction; 256]) -> (p: Processor)
        ensures
            p@ == (MachineState {
                a: 0,
                b: 0,
                res: 0,
                rip: 0,
                mem: Seq::new(256, |i: int| 0u8),
                prog: program@,
                out: Seq::<u8>::empty(),
            }),
    {
        let p = Processor {
            register_a: 0,
            register_b: 0,
            register_result: 0,
            rip: 0,
            stack: [0; 256],
            instructions: program,
            output: Vec::new(),
        };
        proof {
            assert(p@.mem =~= Seq::new(256, |i: int| 0u8));
            assert(p@ =~= (MachineState {
                a: 0,
                b: 0,
                res: 0,
                rip: 0,
                mem: Seq::new(256, |i: int| 0u8),
                prog: program@,
                out: Seq::<u8>::empty(),
            }));
        }
        p
    }

    fn get_register(&self, register: Register) -> (v: u8)
        ensures
            v == read_reg(self@, register),
    {
        match register {
            Register::A => self.register_a,
            Register::B => self.register_b,
            Register::Res => self.register_result,
            Register::Rip => self.rip,
        }
    }

    fn set_register(&mut self, register: Register, val: u8)
        ensures
            final(self)@ == write_reg(old(self)@, register, val),
    {
        match register {
            Register::A => self.register_a = val,
            Register::B => self.register_b = val,
            Register::Res => self.register_result = val,
            Register::Rip => self.rip = val,
        }
        proof {
            assert(self@ =~= write_reg(old(self)@, register, val));
        }
    }

    fn mov(&mut self, r: Register, v: u8)
        ensures
            final(self)@ == write_reg(old(self)@, r, v),
    {
        self.set_register(r, v);
    }

    fn cpy(&mut self, r1: Register, r2: Register)
        ensures
            final(self)@ == write_reg(old(self)@, r1, read_reg(old(self)@, r2)),
    {
        let x = self.get_register(r2);
        self.set_register(r1, x);
    }

    fn sub(&mut self, r1: Register, r2: Register) -> (r: Result<(), ExecutionError>)
        ensures
            (match r {
                Ok(()) => read_reg(old(self)@, r2) <= read_reg(old(self)@, r1) && final(self)@
                    == (MachineState {
                    res: (read_reg(old(self)@, r1) - read_reg(old(self)@, r2)) as u8,
                    ..old(self)@
                }),
                Err(e) => e == ExecutionError::IntegerOverflow && read_reg(old(self)@, r2)
                    > read_reg(old(self)@, r1) && final(self)@ == old(self)@,
            }),
    {
        let val1 = self.get_register(r1);
        let val2 = self.get_register(r2);
        if val2 <= val1 {
            self.register_result = val1 - val2;
            proof {
                assert(self@ =~= (MachineState { res: (val1 - val2) as u8, ..old(self)@ }));
            }
            Ok(())
        } else {
            Err(ExecutionError::IntegerOverflow)
        }
    }

    fn add(&mut self, r1: Register, r2: Register) -> (r: Result<(), ExecutionError>)
        ensures
            (match r {
                Ok(()) => read_reg(old(self)@, r1) + read_reg(old(self)@, r2) <= 255
                    && final(self)@ == (MachineState {
                    res: (read_reg(old(self)@, r1) + read_reg(old(self)@, r2)) as u8,
                    ..old(self)@
                }),
                Err(e) => e == ExecutionError::IntegerOverflow && read_reg(old(self)@, r1)
                    + read_reg(old(self)@, r2) > 255 && final(self)@ == old(self)@,
            }),
    {
        let val1 = self.get_register(r1);
        let val2 = self.get_register(r2);
        if val2 <= 255 - val1 {
            self.register_result = val1 + val2;
            proof {
                assert(self@ =~= (MachineState { res: (val1 + val2) as u8, ..old(self)@ }));
            }
            Ok(())
        } else {
            Err(ExecutionError::IntegerOverflow)
        }
    }

    fn load_from_addr(&mut self, r: Register, addr: Register)
        ensures
            final(self)@ == write_reg(
                old(self)@,
                r,
                old(self)@.mem[read_reg(old(self)@, addr) as int],
            ),
    {
        let a = self.get_register(addr);
        let x = self.stack[a as usize];
        self.set_register(r, x);
    }

    fn load_to_addr(&mut self, addr: Register, r: Register)
        ensures
            final(self)@ == (MachineState {
                mem: old(self)@.mem.update(
                    read_reg(old(self)@, addr) as int,
                    read_reg(old(self)@, r),
                ),
                ..old(self)@
            }),
    {
        let a = self.get_register(addr);
        let x = self.get_register(r);
        self.stack[a as usize] = x;
        proof {
            assert(self@ =~= (MachineState {
                mem: old(self)@.mem.update(a as int, x),
                ..old(self)@
            }));
        }
    }

    fn jump_less_than(&mut self, addr: u8)
        ensures
            final(self)@ == (if old(self)@.a < old(self)@.b {
                MachineState { rip: addr, ..old(self)@ }
            } else {
                old(self)@
            }),
    {
        if self.register_a < self.register_b {
            self.rip = addr;
        }
        proof {
            assert(self@ =~= (if old(self)@.a < old(self)@.b {
                MachineState { rip: addr, ..old(self)@ }
            } else {
                old(self)@
            }));
        }
    }

    fn jump_more_than(&mut self, addr: u8)
        ensures
            final(self)@ == (if old(self)@.a > old(self)@.b {
                MachineState { rip: addr, ..old(self)@ }
            } else {
                old(self)@
            }),
    {
        if self.register_a > self.register_b {
            self.rip = addr;
        }
        proof {
            assert(self@ =~= (if old(self)@.a > old(self)@.b {
                MachineState { rip: addr, ..old(self)@ }
            } else {
                old(self)@
            }));
        }
    }

    fn jump_equal(&mut self, addr: u8)
        ensures
            final(self)@ == (if old(self)@.a == old(self)@.b {
                MachineState { rip: addr, ..old(self)@ }
            } else {
                old(self)@
            }),
    {
        if self.register_a == self.register_b {
            self.rip = addr;
        }
        proof {
            assert(self@ =~= (if old(self)@.a == old(self)@.b {
                MachineState { rip: addr, ..old(self)@ }
            } else {
                old(self)@
            }));
        }
    }

    fn jump(&mut self, addr: u8)
        ensures
            final(self)@ == (MachineState { rip: addr, ..old(self)@ }),
    {
        self.rip = addr;
        proof {
            assert(self@ =~= (MachineState { rip: addr, ..old(self)@ }));
        }
    }

    fn dump(&mut self, r: Register)
        ensures
            final(self)@ == (MachineState {
                out: old(self)@.out.push(read_reg(old(self)@, r)),
                ..old(self)@
            }),
    {
        let x = self.get_register(r);
        self.output.push(x);
        proof {
            assert(self@ =~= (MachineState { out: old(self)@.out.push(x), ..old(self)@ }));
        }
    }

    fn dump_mem(&mut self, r: Register)
        ensures
            final(self)@ == (MachineState {
                out: old(self)@.out.push(old(self)@.mem[read_reg(old(self)@, r) as int]),
                ..old(self)@
            }),
    {
        let a = self.get_register(r);
        let x = self.stack[a as usize];
        self.output.push(x);
        proof {
            assert(self@ =~= (MachineState { out: old(self)@.out.push(x), ..old(self)@ }));
        }
    }

    /// One fetch-decode-execute step, exactly as `step_spec` has it.
    pub fn step(&mut self) -> (r: Result<(), ExecutionError>)
        requires
            old(self)@.rip < 255,
        ensures
            (match r {
                Ok(()) => step_spec(old(self)@) == Ok::<MachineState, MachineState>(final(self)@),
                Err(e) => e == ExecutionError::IntegerOverflow && step_spec(old(self)@)
                    == Err::<MachineState, MachineState>(final(self)@),
            }),
    {
        let instruction = self.instructions[self.rip as usize];
        self.rip = self.rip + 1;
        proof {
            assert(self@ =~= (MachineState { rip: (old(self)@.rip + 1) as u8, ..old(self)@ }));
        }
        match instruction {
            Instruction::Nop => Ok(()),
            Instruction::Jump(addr) => {
                self.jump(addr);
                Ok(())
            },
            Instruction::JumpEqual(addr) => {
                self.jump_equal(addr);
                Ok(())
            },
            Instruction::JumpGreaterThan(addr) => {
                self.jump_more_than(addr);
                Ok(())
            },
            Instruction::JumpLessThan(addr) => {
                self.jump_less_than(addr);
                Ok(())
            },
            Instruction::LoadToAddress(addr, r) => {
                self.load_to_addr(addr, r);
                Ok(())
            },
            Instruction::LoadFromAddress(r, addr) => {
                self.load_from_addr(r, addr);
                Ok(())
            },
            Instruction::Add(r1, r2) => self.add(r1, r2),
            Instruction::Sub(r1, r2) => self.sub(r1, r2),
            Instruction::Move(r, v) => {
                self.mov(r, v);
                Ok(())
            },
            Instruction::Cpy(r1, r2) => {
                self.cpy(r1, r2);
                Ok(())
            },
            Instruction::Dump(r) => {
                self.dump(r);
                Ok(())
            },
            Instruction::DumpMem(r) => {
                self.dump_mem(r);
                Ok(())
            },
        }
    }

    /// Runs the program to its end: to the boundary address 255, or to the
    /// first arithmetic overflow. The machine's semantics admit programs
    /// that never halt, and a loop can only be verified against a bound, so
    /// this function asks its caller for a halting start state; a driver
    /// that accepts every program calls `step` directly instead.
    pub fn execute(&mut self) -> (r: Result<(), ExecutionError>)
        requires
            halts(old(self)@),
        ensures
            (match r {
                Ok(()) => final(self)@.rip == 255 && (exists|n: nat|
                    run_n(old(self)@, n) == Ok::<MachineState, MachineState>(final(self)@)),
                Err(e) => e == ExecutionError::IntegerOverflow && (exists|n: nat|
                    run_n(old(self)@, n) == Err::<MachineState, MachineState>(final(self)@)),
            }),
    {
        let ghost s0 = self@;
        let ghost fuel = choose|n: nat| halted_within(s0, n);
        let ghost mut steps: nat = 0;
        while self.rip < 255
            invariant
                s0 == old(self)@,
                run_n(s0, steps) == Ok::<MachineState, MachineState>(self@),
                halted_within(s0, fuel),
                steps <= fuel,
            decreases fuel - steps,
        {
            proof {
                if fuel <= steps {
                    lemma_run_n_decompose(s0, fuel, (steps - fuel) as nat);
                    assert(false);
                }
            }
            let res = self.step();
            proof {
                lemma_run_n_extend(s0, steps);
                steps = steps + 1;
            }
            if let Err(e) = res {
                proof {
                    assert(run_n(s0, steps) == Err::<MachineState, MachineState>(self@));
                }
                return Err(e);
            }
        }
        proof {
            assert(run_n(s0, steps) == Ok::<MachineState, MachineState>(self@));
        }
        Ok(())
    }
}

} // verus!
