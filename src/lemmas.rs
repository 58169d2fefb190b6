//! Facts about the machine's semantics, proved over the spec functions that
//! the engine's contracts are stated in.
use vstd::prelude::*;

use crate::bytecode::{ByteCode, Inst};
use crate::vm::{
    binary_result, execute, grown, initial_state, is_binary, run_spec, step_spec, zeros,
    MachineState, Step, VmError,
};

verus! {

/// The instruction with opcode `op` and no immediate operand.
pub open spec fn plain(op: ByteCode) -> Inst {
    Inst { inst: op, data: None }
}

/// The instruction with opcode `op` and immediate operand `k`.
pub open spec fn with_operand(op: ByteCode, k: i64) -> Inst {
    Inst { inst: op, data: Some(k) }
}

/// `s` with its stack replaced by `st`.
pub open spec fn with_stack(s: MachineState, st: Seq<i64>) -> MachineState {
    MachineState { stack: st, ..s }
}

/// Once a run halts within `k` cycles, any larger budget gives the same
/// outcome and final state: a program that halts without a fault is run to
/// success by `run`.
pub proof fn lemma_halting_run_is_stable(prog: Seq<Inst>, s: MachineState, k: nat, fuel: nat)
    requires
        run_spec(prog, s, k).0 is Ok,
        k <= fuel,
    ensures
        run_spec(prog, s, fuel) == run_spec(prog, s, k),
    decreases k,
{
    if k > 0 {
        match step_spec(prog, s) {
            Step::Running(t) => {
                lemma_halting_run_is_stable(prog, t, (k - 1) as nat, (fuel - 1) as nat);
            },
            _ => {},
        }
    }
}

/// `prog` goes from `s` to `t` in exactly `k` cycles, none of which halts
/// or faults.
pub open spec fn runs_to(prog: Seq<Inst>, s: MachineState, k: nat, t: MachineState) -> bool
    decreases k,
{
    if k == 0 {
        s == t
    } else {
        match step_spec(prog, s) {
            Step::Running(m) => runs_to(prog, m, (k - 1) as nat, t),
            _ => false,
        }
    }
}

/// A run that passes through `t` after `k` cycles goes on as a run from `t`
/// with the budget that is left.
pub proof fn lemma_run_passes_through(
    prog: Seq<Inst>,
    s: MachineState,
    k: nat,
    t: MachineState,
    fuel: nat,
)
    requires
        runs_to(prog, s, k, t),
        k <= fuel,
    ensures
        run_spec(prog, s, fuel) == run_spec(prog, t, (fuel - k) as nat),
    decreases k,
{
    if k > 0 {
        let m = step_spec(prog, s)->Running_0;
        lemma_run_passes_through(prog, m, (k - 1) as nat, t, (fuel - 1) as nat);
    }
}

/// A program that reaches a halt without a fault, within the budget, ends the
/// run with success in the state the halt leaves.
pub proof fn lemma_halting_program_succeeds(
    prog: Seq<Inst>,
    s: MachineState,
    k: nat,
    t: MachineState,
    fuel: nat,
)
    requires
        runs_to(prog, s, k, t),
        step_spec(prog, t) is Halted,
        k < fuel,
    ensures
        run_spec(prog, s, fuel) == (Ok::<(), VmError>(()), step_spec(prog, t)->Halted_0),
{
    lemma_run_passes_through(prog, s, k, t, fuel);
}

/// A program that runs off its end without a halt or a fault, within the
/// budget, ends the run with an out-of-range fetch and fetches nothing there.
pub proof fn lemma_running_off_the_end_faults(
    prog: Seq<Inst>,
    s: MachineState,
    k: nat,
    t: MachineState,
    fuel: nat,
)
    requires
        runs_to(prog, s, k, t),
        t.pc >= prog.len(),
        k < fuel,
    ensures
        run_spec(prog, s, fuel) == (Err::<(), VmError>(VmError::FetchOutOfRange), t),
{
    lemma_run_passes_through(prog, s, k, t, fuel);
}

/// Storing `v` at address `a` and loading address `a` back leaves `v` twice
/// on the stack, and memory holds `v` at `a` and zeros below it.
pub proof fn lemma_store_then_load_program(v: i64, a: i64, fuel: nat)
    requires
        0 <= a < usize::MAX,
        fuel >= 6,
    ensures
        ({
            let prog = seq![
                with_operand(ByteCode::LOADC, v),
                with_operand(ByteCode::LOADC, a),
                plain(ByteCode::STORE),
                with_operand(ByteCode::LOADC, a),
                plain(ByteCode::LOAD),
                plain(ByteCode::HALT),
            ];
            let (r, f) = run_spec(prog, initial_state(), fuel);
            &&& r is Ok
            &&& f.stack == seq![v, v]
            &&& f.mem.len() == a + 1
            &&& f.mem[a as int] == v
            &&& forall|i: int| 0 <= i < a ==> #[trigger] f.mem[i] == 0
        }),
{
    let prog = seq![
        with_operand(ByteCode::LOADC, v),
        with_operand(ByteCode::LOADC, a),
        plain(ByteCode::STORE),
        with_operand(ByteCode::LOADC, a),
        plain(ByteCode::LOAD),
        plain(ByteCode::HALT),
    ];
    let e = Seq::<i64>::empty();
    let m = grown(e, (a + 1) as nat).update(a as int, v);
    let s0 = initial_state();
    let s1 = MachineState { stack: seq![v], pc: 1, ..s0 };
    let s2 = MachineState { stack: seq![v, a], pc: 2, ..s0 };
    let s3 = MachineState { stack: seq![v], mem: m, pc: 3, ..s0 };
    let s4 = MachineState { stack: seq![v, a], mem: m, pc: 4, ..s0 };
    let s5 = MachineState { stack: seq![v, v], mem: m, pc: 5, ..s0 };
    assert(e.push(v) =~= seq![v]);
    assert(seq![v].push(a) =~= seq![v, a]);
    assert(seq![v, a].subrange(0, 1) =~= seq![v]);
    assert(seq![v].push(v) =~= seq![v, v]);
    assert(step_spec(prog, s0) == Step::Running(s1));
    assert(step_spec(prog, s1) == Step::Running(s2));
    assert(step_spec(prog, s2) == Step::Running(s3));
    assert(step_spec(prog, s3) == Step::Running(s4));
    assert(grown(m, (a + 1) as nat) == m);
    assert(step_spec(prog, s4) == Step::Running(s5));
    assert(runs_to(prog, s5, 0, s5));
    assert(runs_to(prog, s4, 1, s5));
    assert(runs_to(prog, s3, 2, s5));
    assert(runs_to(prog, s2, 3, s5));
    assert(runs_to(prog, s1, 4, s5));
    assert(runs_to(prog, s0, 5, s5));
    lemma_halting_program_succeeds(prog, s0, 5, s5, fuel);
}

/// A store keeps the value on the stack, so a second store writes it again;
/// a store below the end of memory does not shrink it.
pub proof fn lemma_store_twice_program(v: i64, a: i64, b: i64, fuel: nat)
    requires
        0 <= b < a < usize::MAX,
        fuel >= 6,
    ensures
        ({
            let prog = seq![
                with_operand(ByteCode::LOADC, v),
                with_operand(ByteCode::LOADC, a),
                plain(ByteCode::STORE),
                with_operand(ByteCode::LOADC, b),
                plain(ByteCode::STORE),
                plain(ByteCode::HALT),
            ];
            let (r, f) = run_spec(prog, initial_state(), fuel);
            &&& r is Ok
            &&& f.stack == seq![v]
            &&& f.mem.len() == a + 1
            &&& f.mem[a as int] == v
            &&& f.mem[b as int] == v
            &&& forall|i: int| 0 <= i <= a && i != a && i != b ==> #[trigger] f.mem[i] == 0
        }),
{
    let prog = seq![
        with_operand(ByteCode::LOADC, v),
        with_operand(ByteCode::LOADC, a),
        plain(ByteCode::STORE),
        with_operand(ByteCode::LOADC, b),
        plain(ByteCode::STORE),
        plain(ByteCode::HALT),
    ];
    let e = Seq::<i64>::empty();
    let m1 = grown(e, (a + 1) as nat).update(a as int, v);
    let m2 = m1.update(b as int, v);
    let s0 = initial_state();
    let s1 = MachineState { stack: seq![v], pc: 1, ..s0 };
    let s2 = MachineState { stack: seq![v, a], pc: 2, ..s0 };
    let s3 = MachineState { stack: seq![v], mem: m1, pc: 3, ..s0 };
    let s4 = MachineState { stack: seq![v, b], mem: m1, pc: 4, ..s0 };
    let s5 = MachineState { stack: seq![v], mem: m2, pc: 5, ..s0 };
    assert(e.push(v) =~= seq![v]);
    assert(seq![v].push(a) =~= seq![v, a]);
    assert(seq![v].push(b) =~= seq![v, b]);
    assert(seq![v, a].subrange(0, 1) =~= seq![v]);
    assert(seq![v, b].subrange(0, 1) =~= seq![v]);
    assert(step_spec(prog, s0) == Step::Running(s1));
    assert(step_spec(prog, s1) == Step::Running(s2));
    assert(step_spec(prog, s2) == Step::Running(s3));
    assert(step_spec(prog, s3) == Step::Running(s4));
    assert(grown(m1, (b + 1) as nat) == m1);
    assert(step_spec(prog, s4) == Step::Running(s5));
    assert(runs_to(prog, s5, 0, s5));
    assert(runs_to(prog, s4, 1, s5));
    assert(runs_to(prog, s3, 2, s5));
    assert(runs_to(prog, s2, 3, s5));
    assert(runs_to(prog, s1, 4, s5));
    assert(runs_to(prog, s0, 5, s5));
    lemma_halting_program_succeeds(prog, s0, 5, s5, fuel);
}

/// Two allocations push the heap length from before each, and leave exactly
/// the requested number of zero words on the heap.
pub proof fn lemma_allocate_twice_program(n1: i64, n2: i64, fuel: nat)
    requires
        0 <= n1,
        0 <= n2,
        n1 + n2 <= i64::MAX,
        n1 + n2 <= usize::MAX,
        fuel >= 5,
    ensures
        ({
            let prog = seq![
                with_operand(ByteCode::LOADC, n1),
                plain(ByteCode::NEW),
                with_operand(ByteCode::LOADC, n2),
                plain(ByteCode::NEW),
                plain(ByteCode::HALT),
            ];
            let (r, f) = run_spec(prog, initial_state(), fuel);
            &&& r is Ok
            &&& f.stack == seq![0, n1]
            &&& f.heap.len() == n1 + n2
            &&& forall|i: int| 0 <= i < n1 + n2 ==> #[trigger] f.heap[i] == 0
        }),
{
    let prog = seq![
        with_operand(ByteCode::LOADC, n1),
        plain(ByteCode::NEW),
        with_operand(ByteCode::LOADC, n2),
        plain(ByteCode::NEW),
        plain(ByteCode::HALT),
    ];
    let e = Seq::<i64>::empty();
    let h1 = e + zeros(n1 as nat);
    let h2 = h1 + zeros(n2 as nat);
    let s0 = initial_state();
    let s1 = MachineState { stack: seq![n1], pc: 1, ..s0 };
    let s2 = MachineState { stack: seq![0], heap: h1, pc: 2, ..s0 };
    let s3 = MachineState { stack: seq![0, n2], heap: h1, pc: 3, ..s0 };
    let s4 = MachineState { stack: seq![0, n1], heap: h2, pc: 4, ..s0 };
    assert(e.push(n1) =~= seq![n1]);
    assert(seq![n1].subrange(0, 0).push(0) =~= seq![0]);
    assert(seq![0].push(n2) =~= seq![0, n2]);
    assert(seq![0, n2].subrange(0, 1).push(n1) =~= seq![0, n1]);
    assert(step_spec(prog, s0) == Step::Running(s1));
    assert(step_spec(prog, s1) == Step::Running(s2));
    assert(step_spec(prog, s2) == Step::Running(s3));
    assert(step_spec(prog, s3) == Step::Running(s4));
    assert(runs_to(prog, s4, 0, s4));
    assert(runs_to(prog, s3, 1, s4));
    assert(runs_to(prog, s2, 2, s4));
    assert(runs_to(prog, s1, 3, s4));
    assert(runs_to(prog, s0, 4, s4));
    lemma_halting_program_succeeds(prog, s0, 4, s4, fuel);
}

/// Loading a constant and halting leaves exactly that constant on the stack.
pub proof fn lemma_load_constant_then_halt(k: i64, fuel: nat)
    requires
        fuel >= 2,
    ensures
        ({
            let prog = seq![with_operand(ByteCode::LOADC, k), plain(ByteCode::HALT)];
            run_spec(prog, initial_state(), fuel) == (
                Ok::<(), VmError>(()),
                MachineState { stack: seq![k], mem: Seq::empty(), heap: Seq::empty(), pc: 2 },
            )
        }),
{
    let prog = seq![with_operand(ByteCode::LOADC, k), plain(ByteCode::HALT)];
    let s1 = MachineState { stack: seq![k], mem: Seq::empty(), heap: Seq::empty(), pc: 1 };
    assert(Seq::<i64>::empty().push(k) =~= seq![k]);
    assert(step_spec(prog, initial_state()) == Step::Running(s1));
    assert(run_spec(prog, s1, (fuel - 1) as nat) == (
        Ok::<(), VmError>(()),
        MachineState { pc: 2, ..s1 },
    ));
}

/// Storing the value under the top address writes it to memory and keeps it
/// on the stack; loading from that address then pushes it again.
pub proof fn lemma_store_then_load(s: MachineState, st: Seq<i64>, v: i64, a: i64)
    requires
        0 <= a < usize::MAX,
    ensures
        ({
            let stored = execute(plain(ByteCode::STORE), with_stack(s, st.push(v).push(a)));
            &&& stored is Running
            &&& stored->Running_0.stack == st.push(v)
            &&& stored->Running_0.mem[a as int] == v
            &&& stored->Running_0.mem.len() > a
            &&& ({
                let t = stored->Running_0;
                let loaded = execute(plain(ByteCode::LOAD), with_stack(t, t.stack.push(a)));
                &&& loaded is Running
                &&& loaded->Running_0.stack == st.push(v).push(v)
                &&& loaded->Running_0.mem == t.mem
            })
        }),
{
    let s1 = with_stack(s, st.push(v).push(a));
    assert(s1.stack.subrange(0, s1.stack.len() - 1) =~= st.push(v));
    let t = execute(plain(ByteCode::STORE), s1)->Running_0;
    let s2 = with_stack(t, t.stack.push(a));
    assert(s2.stack.subrange(0, s2.stack.len() - 1) =~= st.push(v));
}

/// Allocation pushes the old heap length and grows the heap by exactly the
/// requested number of zero words.
pub proof fn lemma_allocate(s: MachineState, st: Seq<i64>, n: i64)
    requires
        0 <= n,
        s.heap.len() + n <= i64::MAX,
        s.heap.len() + n <= usize::MAX,
    ensures
        ({
            let r = execute(plain(ByteCode::NEW), with_stack(s, st.push(n)));
            &&& r is Running
            &&& r->Running_0.stack == st.push(s.heap.len() as i64)
            &&& r->Running_0.heap.len() == s.heap.len() + n
            &&& r->Running_0.heap.subrange(0, s.heap.len() as int) == s.heap
            &&& forall|i: int|
                s.heap.len() <= i < s.heap.len() + n ==> #[trigger] r->Running_0.heap[i] == 0
        }),
{
    let s1 = with_stack(s, st.push(n));
    assert(s1.stack.subrange(0, s1.stack.len() - 1) =~= st);
    let h = s.heap + zeros(n as nat);
    assert(h.subrange(0, s.heap.len() as int) =~= s.heap);
}

/// An unconditional jump sets the program counter to its target; a jump on
/// zero pops a value and jumps only when that value is zero.
pub proof fn lemma_jumps(s: MachineState, st: Seq<i64>, v: i64, t: i64)
    requires
        0 <= t <= usize::MAX,
    ensures
        execute(with_operand(ByteCode::JUMP, t), s) == Step::Running(
            MachineState { pc: t as int, ..s },
        ),
        v == 0 ==> execute(with_operand(ByteCode::JUMPZ, t), with_stack(s, st.push(v)))
            == Step::Running(MachineState { pc: t as int, ..with_stack(s, st) }),
        v != 0 ==> execute(with_operand(ByteCode::JUMPZ, t), with_stack(s, st.push(v)))
            == Step::Running(with_stack(s, st)),
{
    assert(st.push(v).subrange(0, st.len() as int) =~= st);
}

/// A binary opcode pops its two operands and pushes the result of the left
/// operand (popped second) with the right operand (popped first), or faults.
pub proof fn lemma_binary(s: MachineState, st: Seq<i64>, op: ByteCode, b: i64, a: i64)
    requires
        is_binary(op),
    ensures
        execute(plain(op), with_stack(s, st.push(b).push(a))) == match binary_result(op, b, a) {
            Ok(r) => Step::Running(with_stack(s, st.push(r))),
            Err(e) => Step::Faulted(e),
        },
{
    assert(st.push(b).push(a).subrange(0, st.len() as int) =~= st);
}

/// Pop removes the top word and nothing else.
pub proof fn lemma_pop(s: MachineState, st: Seq<i64>, x: i64)
    ensures
        execute(plain(ByteCode::POP), with_stack(s, st.push(x))) == Step::Running(
            with_stack(s, st),
        ),
{
    assert(st.push(x).subrange(0, st.len() as int) =~= st);
}

/// Division and remainder by zero fault with a division fault, and a run that
/// reaches such an instruction ends in that fault.
pub proof fn lemma_division_by_zero(prog: Seq<Inst>, s: MachineState, b: i64, fuel: nat)
    requires
        0 <= s.pc < prog.len(),
        prog[s.pc].inst == ByteCode::DIV || prog[s.pc].inst == ByteCode::MOD,
        s.stack.len() >= 2,
        s.stack.last() == 0,
        fuel > 0,
    ensures
        binary_result(ByteCode::DIV, b, 0) == Err::<i64, VmError>(VmError::DivisionByZero),
        binary_result(ByteCode::MOD, b, 0) == Err::<i64, VmError>(VmError::DivisionByZero),
        run_spec(prog, s, fuel) == (Err::<(), VmError>(VmError::DivisionByZero), s),
{
}

/// Fetching past the end of the program faults, and ends the run there.
pub proof fn lemma_fetch_out_of_range(prog: Seq<Inst>, s: MachineState, fuel: nat)
    requires
        s.pc >= prog.len(),
        fuel > 0,
    ensures
        step_spec(prog, s) == Step::Faulted(VmError::FetchOutOfRange),
        run_spec(prog, s, fuel) == (Err::<(), VmError>(VmError::FetchOutOfRange), s),
{
}

/// Negating the least word faults with an overflow.
pub proof fn lemma_negate_min(s: MachineState, st: Seq<i64>)
    ensures
        execute(plain(ByteCode::NEG), with_stack(s, st.push(i64::MIN))) == Step::Faulted(
            VmError::Overflow,
        ),
{
}

} // verus!
