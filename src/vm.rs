//! The execution engine: a fetch-decode-execute loop over a fixed program,
//! with an operand stack, a growable variable memory and a bump-allocated heap.
use vstd::prelude::*;

use crate::bytecode::{well_formed_program, ByteCode, Inst};

verus! {

/// The ways a run can fail.
#[derive(Clone, Copy, Debug, PartialEq, Eq, Structural)]
pub enum VmError {
    /// An instruction needed more operands than the stack held.
    StackUnderflow,
    /// The program counter named no instruction of the program.
    FetchOutOfRange,
    /// Division or remainder by zero.
    DivisionByZero,
    /// A result does not fit in a machine word, or an address or a length
    /// does not fit in this machine's index type.
    Overflow,
    /// A memory address or an allocation length below zero.
    NegativeOperand,
    /// The run used up its cycle budget without halting.
    StepLimit,
}

/// The abstract state of a machine: everything but its program.
pub ghost struct MachineState {
    pub stack: Seq<i64>,
    pub mem: Seq<i64>,
    pub heap: Seq<i64>,
    pub pc: int,
}

/// What one cycle of the machine leads to.
pub ghost enum Step {
    /// The cycle completed and the machine goes on from this state.
    Running(MachineState),
    /// A halt was executed; this is the final state.
    Halted(MachineState),
    /// The cycle failed; the machine is left as it was before the cycle.
    Faulted(VmError),
}

/// Coercion of a word to a truth value: exactly one is true, anything else false.
pub open spec fn truth(v: i64) -> bool {
    v == 1
}

/// The word for a truth value.
pub open spec fn word(b: bool) -> i64 {
    if b { 1 } else { 0 }
}

/// `n` zero words.
pub open spec fn zeros(n: nat) -> Seq<i64> {
    Seq::new(n, |_i: int| 0i64)
}

/// `m` extended with zero words to at least `len` words.
pub open spec fn grown(m: Seq<i64>, len: nat) -> Seq<i64> {
    if m.len() >= len {
        m
    } else {
        m + zeros((len - m.len()) as nat)
    }
}

/// A mathematical result as a word, or an overflow fault if it does not fit.
pub open spec fn fit(x: int) -> Result<i64, VmError> {
    if i64::MIN <= x <= i64::MAX {
        Ok(x as i64)
    } else {
        Err(VmError::Overflow)
    }
}

/// Opcodes that pop two operands and push one result.
pub open spec fn is_binary(op: ByteCode) -> bool {
    match op {
        ByteCode::ADD | ByteCode::SUB | ByteCode::MUL | ByteCode::DIV | ByteCode::MOD
        | ByteCode::AND | ByteCode::OR | ByteCode::EQ | ByteCode::NEQ | ByteCode::LE
        | ByteCode::LEQ | ByteCode::GE | ByteCode::GEQ => true,
        _ => false,
    }
}

/// The result of binary opcode `op` with left operand `b` (popped second) and
/// right operand `a` (popped first). Division and remainder truncate toward zero.
pub open spec fn binary_result(op: ByteCode, b: i64, a: i64) -> Result<i64, VmError>
    recommends
        is_binary(op),
{
    match op {
        ByteCode::ADD => fit(b + a),
        ByteCode::SUB => fit(b - a),
        ByteCode::MUL => fit(b * a),
        ByteCode::DIV => if a == 0 {
            Err(VmError::DivisionByZero)
        } else {
            match b.checked_div(a) {
                Some(q) => Ok(q),
                None => Err(VmError::Overflow),
            }
        },
        ByteCode::MOD => if a == 0 {
            Err(VmError::DivisionByZero)
        } else if a == -1 {
            Ok(0)
        } else {
            match b.checked_rem(a) {
                Some(q) => Ok(q),
                None => Err(VmError::Overflow),
            }
        },
        ByteCode::AND => Ok(word(truth(a) && truth(b))),
        ByteCode::OR => Ok(word(truth(a) || truth(b))),
        ByteCode::EQ => Ok(word(b == a)),
        ByteCode::NEQ => Ok(word(b != a)),
        ByteCode::LE => Ok(word(b < a)),
        ByteCode::LEQ => Ok(word(b <= a)),
        ByteCode::GE => Ok(word(b > a)),
        ByteCode::GEQ => Ok(word(b >= a)),
        // not a binary opcode
        _ => Ok(0),
    }
}

/// `s` with `v` replacing the top `k` stack words.
pub open spec fn replace_top(s: MachineState, k: nat, v: i64) -> MachineState {
    MachineState { stack: s.stack.subrange(0, s.stack.len() - k).push(v), ..s }
}

/// `s` with the top `k` stack words removed.
pub open spec fn drop_top(s: MachineState, k: nat) -> MachineState {
    MachineState { stack: s.stack.subrange(0, s.stack.len() - k), ..s }
}

/// The effect of executing `i` on `s`, whose program counter has already
/// been advanced past `i`.
pub open spec fn execute(i: Inst, s: MachineState) -> Step {
    let st = s.stack;
    let n = st.len();
    match i.inst {
        ByteCode::LOADC => Step::Running(MachineState { stack: st.push(i.operand()), ..s }),
        ByteCode::LOAD => if n < 1 {
            Step::Faulted(VmError::StackUnderflow)
        } else if st[n - 1] < 0 {
            Step::Faulted(VmError::NegativeOperand)
        } else if st[n - 1] >= usize::MAX {
            Step::Faulted(VmError::Overflow)
        } else {
            let a = st[n - 1] as int;
            let m = grown(s.mem, (a + 1) as nat);
            Step::Running(MachineState { mem: m, ..replace_top(s, 1, m[a]) })
        },
        ByteCode::STORE => if n < 1 {
            Step::Faulted(VmError::StackUnderflow)
        } else if st[n - 1] < 0 {
            Step::Faulted(VmError::NegativeOperand)
        } else if st[n - 1] >= usize::MAX {
            Step::Faulted(VmError::Overflow)
        } else if n < 2 {
            Step::Faulted(VmError::StackUnderflow)
        } else {
            let a = st[n - 1] as int;
            let m = grown(s.mem, (a + 1) as nat).update(a, st[n - 2]);
            Step::Running(MachineState { mem: m, ..drop_top(s, 1) })
        },
        ByteCode::POP => if n < 1 {
            Step::Faulted(VmError::StackUnderflow)
        } else {
            Step::Running(drop_top(s, 1))
        },
        ByteCode::NEW => if n < 1 {
            Step::Faulted(VmError::StackUnderflow)
        } else if st[n - 1] < 0 {
            Step::Faulted(VmError::NegativeOperand)
        } else if s.heap.len() + st[n - 1] > i64::MAX || s.heap.len() + st[n - 1] > usize::MAX {
            Step::Faulted(VmError::Overflow)
        } else {
            let base = s.heap.len();
            Step::Running(
                MachineState {
                    heap: s.heap + zeros(st[n - 1] as nat),
                    ..replace_top(s, 1, base as i64)
                },
            )
        },
        ByteCode::JUMP => if i.operand() < 0 || i.operand() > usize::MAX {
            Step::Faulted(VmError::FetchOutOfRange)
        } else {
            Step::Running(MachineState { pc: i.operand() as int, ..s })
        },
        ByteCode::JUMPZ => if n < 1 {
            Step::Faulted(VmError::StackUnderflow)
        } else if st[n - 1] != 0 {
            Step::Running(drop_top(s, 1))
        } else if i.operand() < 0 || i.operand() > usize::MAX {
            Step::Faulted(VmError::FetchOutOfRange)
        } else {
            Step::Running(MachineState { pc: i.operand() as int, ..drop_top(s, 1) })
        },
        ByteCode::HALT => Step::Halted(s),
        ByteCode::NEG => if n < 1 {
            Step::Faulted(VmError::StackUnderflow)
        } else if st[n - 1] == i64::MIN {
            Step::Faulted(VmError::Overflow)
        } else {
            Step::Running(replace_top(s, 1, (-st[n - 1]) as i64))
        },
        ByteCode::NOT => if n < 1 {
            Step::Faulted(VmError::StackUnderflow)
        } else {
            Step::Running(replace_top(s, 1, word(!truth(st[n - 1]))))
        },
        _ => if n < 2 {
            Step::Faulted(VmError::StackUnderflow)
        } else {
            match binary_result(i.inst, st[n - 2], st[n - 1]) {
                Ok(v) => Step::Running(replace_top(s, 2, v)),
                Err(e) => Step::Faulted(e),
            }
        },
    }
}

/// `s` with its program counter advanced by one.
pub open spec fn advanced(s: MachineState) -> MachineState {
    MachineState { pc: s.pc + 1, ..s }
}

/// One cycle: fetch the instruction at the program counter, advance the
/// counter, and execute the instruction.
pub open spec fn step_spec(prog: Seq<Inst>, s: MachineState) -> Step {
    if s.pc < 0 || s.pc >= prog.len() {
        Step::Faulted(VmError::FetchOutOfRange)
    } else {
        execute(prog[s.pc], advanced(s))
    }
}

/// The outcome of running `prog` from `s` for at most `fuel` cycles, and the
/// state it leaves: the halting state, or the state before the faulting cycle.
pub open spec fn run_spec(prog: Seq<Inst>, s: MachineState, fuel: nat) -> (
    Result<(), VmError>,
    MachineState,
)
    decreases fuel,
{
    if fuel == 0 {
        (Err(VmError::StepLimit), s)
    } else {
        match step_spec(prog, s) {
            Step::Running(t) => run_spec(prog, t, (fuel - 1) as nat),
            Step::Halted(t) => (Ok(()), t),
            Step::Faulted(e) => (Err(e), s),
        }
    }
}

/// The state of a freshly built machine.
pub open spec fn initial_state() -> MachineState {
    MachineState { stack: Seq::empty(), mem: Seq::empty(), heap: Seq::empty(), pc: 0 }
}

/// The virtual machine: a program and the state it runs on.
pub struct VirtualMachine {
    /// The operand stack; its last element is the top.
    pub stack: Vec<i64>,
    /// Variable memory, extended with zeros on access past its end.
    pub mem: Vec<i64>,
    /// The bump-allocated heap.
    pub heap: Vec<i64>,
    /// The program.
    pub inst: Vec<Inst>,
    /// The index of the next instruction to fetch.
    pub pc: usize,
}

impl View for VirtualMachine {
    type V = MachineState;

    open spec fn view(&self) -> MachineState {
        MachineState { stack: self.stack@, mem: self.mem@, heap: self.heap@, pc: self.pc as int }
    }
}

/// The outcome of one cycle as seen by the caller: `Ok(true)` after a halt,
/// `Ok(false)` when the machine goes on, `Err(e)` on a fault; and the state
/// after the cycle.
pub open spec fn step_matches(
    step: Step,
    r: Result<bool, VmError>,
    before: MachineState,
    after: MachineState,
) -> bool {
    match step {
        Step::Running(t) => r == Ok::<bool, VmError>(false) && after == t,
        Step::Halted(t) => r == Ok::<bool, VmError>(true) && after == t,
        Step::Faulted(e) => r == Err::<bool, VmError>(e) && after == before,
    }
}

impl VirtualMachine {
    /// A machine that will run `inst` from its first instruction, with an
    /// empty stack, memory and heap.
    pub fn new(inst: Vec<Inst>) -> (r: VirtualMachine)
        ensures
            r@ == initial_state(),
            r.inst@ == inst@,
    {
        VirtualMachine { stack: Vec::new(), mem: Vec::new(), heap: Vec::new(), inst, pc: 0 }
    }

    /// Pushes `data` onto the stack.
    fn push(&mut self, data: i64)
        ensures
            final(self)@ == (MachineState { stack: old(self)@.stack.push(data), ..old(self)@ }),
            final(self).inst@ == old(self).inst@,
    {
        self.stack.push(data);
    }

    /// The top of the stack, or an underflow if it is empty.
    fn top(&self) -> (r: Result<i64, VmError>)
        ensures
            self.stack@.len() == 0 ==> r == Err::<i64, VmError>(VmError::StackUnderflow),
            self.stack@.len() > 0 ==> r == Ok::<i64, VmError>(self.stack@.last()),
    {
        let n = self.stack.len();
        if n == 0 {
            Err(VmError::StackUnderflow)
        } else {
            Ok(self.stack[n - 1])
        }
    }

    /// Removes and returns the top of the stack; an empty stack underflows
    /// and is left as it is.
    fn pop(&mut self) -> (r: Result<i64, VmError>)
        ensures
            final(self).inst@ == old(self).inst@,
            old(self).stack@.len() == 0 ==> r == Err::<i64, VmError>(VmError::StackUnderflow)
                && final(self)@ == old(self)@,
            old(self).stack@.len() > 0 ==> r == Ok::<i64, VmError>(old(self).stack@.last())
                && final(self).stack@ == old(self).stack@.drop_last()
                && final(self).mem@ == old(self).mem@
                && final(self).heap@ == old(self).heap@
                && final(self).pc == old(self).pc,
    {
        let top = match self.top() {
            Ok(v) => v,
            Err(e) => return Err(e),
        };
        self.stack.pop();
        assert(self.stack@ =~= old(self).stack@.subrange(0, old(self).stack@.len() - 1));
        Ok(top)
    }

    /// The word for a truth value: 1 for true, 0 for false.
    pub fn bool_to_t(cond: bool) -> (r: i64)
        ensures
            r == word(cond),
    {
        match cond {
            true => 1,
            false => 0,
        }
    }

    /// The truth value of a word: true exactly when it is 1.
    pub fn t_to_bool(cond: i64) -> (r: bool)
        ensures
            r == truth(cond),
    {
        cond == 1
    }

    /// Runs the program for at most `max_steps` cycles: `Ok(())` once a halt
    /// is executed, the fault of the first failing cycle, or
    /// `Err(VmError::StepLimit)` when the budget runs out first.
    pub fn run_for(&mut self, max_steps: u64) -> (r: Result<(), VmError>)
        requires
            well_formed_program(old(self).inst@),
        ensures
            final(self).inst@ == old(self).inst@,
            (r, final(self)@) == run_spec(old(self).inst@, old(self)@, max_steps as nat),
    {
        let ghost prog = self.inst@;
        let ghost start = self@;
        let mut remaining: u64 = max_steps;
        while remaining > 0
            invariant
                self.inst@ == prog,
                prog == old(self).inst@,
                start == old(self)@,
                well_formed_program(prog),
                run_spec(prog, self@, remaining as nat) == run_spec(prog, start, max_steps as nat),
            decreases remaining,
        {
            let ghost before = self@;
            let r = self.step();
            match r {
                Ok(true) => return Ok(()),
                Ok(false) => {},
                Err(e) => return Err(e),
            }
            remaining = remaining - 1;
            assert(run_spec(prog, before, (remaining + 1) as nat) == run_spec(
                prog,
                self@,
                remaining as nat,
            ));
        }
        Err(VmError::StepLimit)
    }

    /// Runs the program from its current state until a halt or a fault. The
    /// run is bounded by `u64::MAX` cycles, after which it stops with
    /// `Err(VmError::StepLimit)`.
    pub fn run(&mut self) -> (r: Result<(), VmError>)
        requires
            well_formed_program(old(self).inst@),
        ensures
            final(self).inst@ == old(self).inst@,
            (r, final(self)@) == run_spec(old(self).inst@, old(self)@, u64::MAX as nat),
    {
        self.run_for(u64::MAX)
    }

    /// Runs one fetch-decode-execute cycle. A fault leaves the machine as it
    /// was before the cycle.
    pub fn step(&mut self) -> (r: Result<bool, VmError>)
        requires
            well_formed_program(old(self).inst@),
        ensures
            final(self).inst@ == old(self).inst@,
            step_matches(step_spec(old(self).inst@, old(self)@), r, old(self)@, final(self)@),
    {
        if self.pc >= self.inst.len() {
            return Err(VmError::FetchOutOfRange);
        }
        let ir = self.inst[self.pc];
        let mut next: usize = self.pc + 1;
        let n = self.stack.len();
        match ir.inst {
            ByteCode::LOADC => {
                let k = match ir.data {
                    Some(d) => d,
                    None => 0,
                };
                self.push(k);
            },
            ByteCode::LOAD => return self.exec_load(next),
            ByteCode::STORE => return self.exec_store(next),
            ByteCode::POP => {
                if let Err(e) = self.pop() {
                    return Err(e);
                }
            },
            ByteCode::NEW => return self.exec_new(next),
            ByteCode::JUMP => {
                let target = match ir.data {
                    Some(d) => d,
                    None => 0,
                };
                if target < 0 || target as u64 > usize::MAX as u64 {
                    return Err(VmError::FetchOutOfRange);
                }
                next = target as usize;
            },
            ByteCode::JUMPZ => {
                let target = match ir.data {
                    Some(d) => d,
                    None => 0,
                };
                let v = match self.top() {
                    Ok(v) => v,
                    Err(e) => return Err(e),
                };
                if v == 0 {
                    if target < 0 || target as u64 > usize::MAX as u64 {
                        return Err(VmError::FetchOutOfRange);
                    }
                    next = target as usize;
                }
                let _ = self.pop();
            },
            ByteCode::HALT => {
                self.pc = next;
                return Ok(true);
            },
            ByteCode::NEG => {
                let a = match self.top() {
                    Ok(v) => v,
                    Err(e) => return Err(e),
                };
                if a == i64::MIN {
                    return Err(VmError::Overflow);
                }
                let _ = self.pop();
                self.push(-a);
            },
            ByteCode::NOT => {
                let a = match self.top() {
                    Ok(v) => v,
                    Err(e) => return Err(e),
                };
                let res = !VirtualMachine::t_to_bool(a);
                let _ = self.pop();
                self.push(VirtualMachine::bool_to_t(res));
            },
            ByteCode::ADD | ByteCode::SUB | ByteCode::MUL | ByteCode::DIV | ByteCode::MOD
            | ByteCode::AND | ByteCode::OR | ByteCode::EQ | ByteCode::NEQ | ByteCode::LE
            | ByteCode::LEQ | ByteCode::GE | ByteCode::GEQ => {
                if n < 2 {
                    return Err(VmError::StackUnderflow);
                }
                let a = self.stack[n - 1];
                let b = self.stack[n - 2];
                let res = match VirtualMachine::binary(ir.inst, b, a) {
                    Ok(v) => v,
                    Err(e) => return Err(e),
                };
                let _ = self.pop();
                let _ = self.pop();
                self.push(res);
                assert(self.stack@ =~= old(self).stack@.subrange(0, n - 2).push(res));
            },
        }
        self.pc = next;
        Ok(false)
    }

    /// Executes the LOAD instruction at the program counter.
    fn exec_load(&mut self, next: usize) -> (r: Result<bool, VmError>)
        requires
            old(self).pc < old(self).inst@.len(),
            next == old(self).pc + 1,
            old(self).inst@[old(self).pc as int].inst == ByteCode::LOAD,
        ensures
            final(self).inst@ == old(self).inst@,
            step_matches(
                execute(old(self).inst@[old(self).pc as int], advanced(old(self)@)),
                r,
                old(self)@,
                final(self)@,
            ),
    {
        let a = match self.top() {
            Ok(v) => v,
            Err(e) => return Err(e),
        };
        if a < 0 {
            return Err(VmError::NegativeOperand);
        }
        if a as u64 >= usize::MAX as u64 {
            return Err(VmError::Overflow);
        }
        let addr = a as usize;
        grow(&mut self.mem, addr + 1);
        let v = self.mem[addr];
        let _ = self.pop();
        self.push(v);
        self.pc = next;
        Ok(false)
    }

    /// Executes the STORE instruction at the program counter.
    fn exec_store(&mut self, next: usize) -> (r: Result<bool, VmError>)
        requires
            old(self).pc < old(self).inst@.len(),
            next == old(self).pc + 1,
            old(self).inst@[old(self).pc as int].inst == ByteCode::STORE,
        ensures
            final(self).inst@ == old(self).inst@,
            step_matches(
                execute(old(self).inst@[old(self).pc as int], advanced(old(self)@)),
                r,
                old(self)@,
                final(self)@,
            ),
    {
        let n = self.stack.len();
        let a = match self.top() {
            Ok(v) => v,
            Err(e) => return Err(e),
        };
        if a < 0 {
            return Err(VmError::NegativeOperand);
        }
        if a as u64 >= usize::MAX as u64 {
            return Err(VmError::Overflow);
        }
        if n < 2 {
            return Err(VmError::StackUnderflow);
        }
        let addr = a as usize;
        let v = self.stack[n - 2];
        grow(&mut self.mem, addr + 1);
        self.mem.set(addr, v);
        let _ = self.pop();
        self.pc = next;
        Ok(false)
    }

    /// Executes the NEW instruction at the program counter.
    fn exec_new(&mut self, next: usize) -> (r: Result<bool, VmError>)
        requires
            old(self).pc < old(self).inst@.len(),
            next == old(self).pc + 1,
            old(self).inst@[old(self).pc as int].inst == ByteCode::NEW,
        ensures
            final(self).inst@ == old(self).inst@,
            step_matches(
                execute(old(self).inst@[old(self).pc as int], advanced(old(self)@)),
                r,
                old(self)@,
                final(self)@,
            ),
    {
        let length = match self.top() {
            Ok(v) => v,
            Err(e) => return Err(e),
        };
        if length < 0 {
            return Err(VmError::NegativeOperand);
        }
        let heap_top = self.heap.len();
        let fits_word = heap_top as u64 <= (i64::MAX - length) as u64;
        let fits_index = length as u64 <= (usize::MAX - heap_top) as u64;
        if !fits_word || !fits_index {
            return Err(VmError::Overflow);
        }
        grow(&mut self.heap, heap_top + length as usize);
        let _ = self.pop();
        self.push(heap_top as i64);
        self.pc = next;
        Ok(false)
    }

    /// The result of a binary opcode on left operand `b` and right operand `a`.
    fn binary(op: ByteCode, b: i64, a: i64) -> (r: Result<i64, VmError>)
        requires
            is_binary(op),
        ensures
            r == binary_result(op, b, a),
    {
        let res = match op {
            ByteCode::ADD => b.checked_add(a),
            ByteCode::SUB => b.checked_sub(a),
            ByteCode::MUL => b.checked_mul(a),
            ByteCode::DIV => {
                if a == 0 {
                    return Err(VmError::DivisionByZero);
                }
                b.checked_div(a)
            },
            ByteCode::MOD => {
                if a == 0 {
                    return Err(VmError::DivisionByZero);
                }
                if a == -1 {
                    return Ok(0);
                }
                b.checked_rem(a)
            },
            ByteCode::AND => Some(
                VirtualMachine::bool_to_t(
                    VirtualMachine::t_to_bool(a) && VirtualMachine::t_to_bool(b),
                ),
            ),
            ByteCode::OR => Some(
                VirtualMachine::bool_to_t(
                    VirtualMachine::t_to_bool(a) || VirtualMachine::t_to_bool(b),
                ),
            ),
            ByteCode::EQ => Some(VirtualMachine::bool_to_t(b == a)),
            ByteCode::NEQ => Some(VirtualMachine::bool_to_t(b != a)),
            ByteCode::LE => Some(VirtualMachine::bool_to_t(b < a)),
            ByteCode::LEQ => Some(VirtualMachine::bool_to_t(b <= a)),
            ByteCode::GE => Some(VirtualMachine::bool_to_t(b > a)),
            // GEQ, the last binary opcode
            _ => Some(VirtualMachine::bool_to_t(b >= a)),
        };
        match res {
            Some(v) => Ok(v),
            None => Err(VmError::Overflow),
        }
    }
}

/// Extends `v` with zeros to at least `len` words.
fn grow(v: &mut Vec<i64>, len: usize)
    ensures
        final(v)@ == grown(old(v)@, len as nat),
{
    let ghost start = v@;
    while v.len() < len
        invariant
            start.len() <= v.len(),
            start.len() < len ==> v.len() <= len,
            start.len() >= len ==> v.len() == start.len(),
            v@ == start + zeros((v.len() - start.len()) as nat),
        decreases len - v.len(),
    {
        v.push(0);
        assert(v@ =~= start + zeros((v.len() - start.len()) as nat));
    }
    proof {
        if start.len() >= len {
            assert(start + zeros(0) =~= start);
        }
    }
}

} // verus!
