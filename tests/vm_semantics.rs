use esta::bytecode::{is_well_formed_program, ByteCode, Inst};
use esta::vm::{VirtualMachine, VmError};

fn c(k: i64) -> Inst {
    Inst::new_data(ByteCode::LOADC, k)
}

fn op(code: ByteCode) -> Inst {
    Inst::new_inst(code)
}

fn run(prog: Vec<Inst>) -> (Result<(), VmError>, VirtualMachine) {
    let mut vm = VirtualMachine::new(prog);
    let r = vm.run();
    (r, vm)
}

fn binary(b: i64, a: i64, code: ByteCode) -> (Result<(), VmError>, VirtualMachine) {
    run(vec![c(b), c(a), op(code), op(ByteCode::HALT)])
}

#[test]
fn new_machine_is_empty() {
    let vm = VirtualMachine::new(vec![op(ByteCode::HALT)]);
    assert!(vm.stack.is_empty());
    assert!(vm.mem.is_empty());
    assert!(vm.heap.is_empty());
    assert_eq!(vm.pc, 0);
}

#[test]
fn load_constant_then_halt_leaves_constant() {
    for k in [i64::MIN, -7, 0, 42, i64::MAX] {
        let (r, vm) = run(vec![c(k), op(ByteCode::HALT)]);
        assert_eq!(r, Ok(()));
        assert_eq!(vm.stack, vec![k]);
        assert_eq!(vm.pc, 2);
    }
}

#[test]
fn store_keeps_value_and_load_reads_it_back() {
    let (r, vm) = run(vec![
        c(9),
        c(3),
        op(ByteCode::STORE),
        c(3),
        op(ByteCode::LOAD),
        op(ByteCode::HALT),
    ]);
    assert_eq!(r, Ok(()));
    assert_eq!(vm.stack, vec![9, 9]);
    assert_eq!(vm.mem, vec![0, 0, 0, 9]);
}

#[test]
fn load_past_end_reads_zero_and_extends_memory() {
    let (r, vm) = run(vec![c(2), op(ByteCode::LOAD), op(ByteCode::HALT)]);
    assert_eq!(r, Ok(()));
    assert_eq!(vm.stack, vec![0]);
    assert_eq!(vm.mem, vec![0, 0, 0]);
}

#[test]
fn negative_address_is_refused() {
    let (r, vm) = run(vec![c(5), c(-1), op(ByteCode::STORE), op(ByteCode::HALT)]);
    assert_eq!(r, Err(VmError::NegativeOperand));
    assert_eq!(vm.stack, vec![5, -1]);
    assert_eq!(vm.pc, 2);
    let (r, _) = run(vec![c(-3), op(ByteCode::LOAD), op(ByteCode::HALT)]);
    assert_eq!(r, Err(VmError::NegativeOperand));
}

#[test]
fn store_without_value_underflows() {
    let (r, vm) = run(vec![c(0), op(ByteCode::STORE), op(ByteCode::HALT)]);
    assert_eq!(r, Err(VmError::StackUnderflow));
    assert_eq!(vm.stack, vec![0]);
    assert!(vm.mem.is_empty());
}

#[test]
fn allocate_returns_old_heap_length() {
    let (r, vm) = run(vec![c(3), op(ByteCode::NEW), c(2), op(ByteCode::NEW), op(ByteCode::HALT)]);
    assert_eq!(r, Ok(()));
    assert_eq!(vm.stack, vec![0, 3]);
    assert_eq!(vm.heap, vec![0, 0, 0, 0, 0]);
}

#[test]
fn allocate_zero_and_negative() {
    let (r, vm) = run(vec![c(0), op(ByteCode::NEW), op(ByteCode::HALT)]);
    assert_eq!(r, Ok(()));
    assert_eq!(vm.stack, vec![0]);
    assert!(vm.heap.is_empty());
    let (r, _) = run(vec![c(-1), op(ByteCode::NEW), op(ByteCode::HALT)]);
    assert_eq!(r, Err(VmError::NegativeOperand));
}

#[test]
fn jump_on_zero_falls_through_on_nonzero() {
    let (r, vm) = run(vec![
        c(5),
        c(2),
        Inst::new_data(ByteCode::JUMPZ, 4),
        c(7),
        op(ByteCode::HALT),
    ]);
    assert_eq!(r, Ok(()));
    assert_eq!(vm.stack, vec![5, 7]);
}

#[test]
fn jump_on_zero_takes_only_zero() {
    let (r, vm) = run(vec![c(1), Inst::new_data(ByteCode::JUMPZ, 3), c(8), op(ByteCode::HALT)]);
    assert_eq!(r, Ok(()));
    assert_eq!(vm.stack, vec![8]);
}

#[test]
fn backward_jump_loops_until_counter_is_zero() {
    // mem[0] := 3; while mem[0] != 0 { mem[0] := mem[0] - 1 }
    let prog = vec![
        c(3),
        c(0),
        op(ByteCode::STORE),
        op(ByteCode::POP),
        c(0),
        op(ByteCode::LOAD),
        Inst::new_data(ByteCode::JUMPZ, 14),
        c(0),
        op(ByteCode::LOAD),
        c(1),
        op(ByteCode::SUB),
        c(0),
        op(ByteCode::STORE),
        Inst::new_data(ByteCode::JUMP, 3),
        op(ByteCode::HALT),
    ];
    let (r, vm) = run(prog);
    assert_eq!(r, Ok(()));
    assert_eq!(vm.mem, vec![0]);
    assert!(vm.stack.is_empty());
}

#[test]
fn jump_to_negative_target_faults() {
    let (r, _) = run(vec![Inst::new_data(ByteCode::JUMP, -1), op(ByteCode::HALT)]);
    assert_eq!(r, Err(VmError::FetchOutOfRange));
}

#[test]
fn operand_order_follows_source_order() {
    assert_eq!(binary(7, 2, ByteCode::SUB).1.stack, vec![5]);
    assert_eq!(binary(7, 2, ByteCode::DIV).1.stack, vec![3]);
    assert_eq!(binary(7, 2, ByteCode::MOD).1.stack, vec![1]);
    assert_eq!(binary(2, 2, ByteCode::DIV).1.stack, vec![1]);
    assert_eq!(binary(0, 1, ByteCode::LE).1.stack, vec![1]);
    assert_eq!(binary(1, 0, ByteCode::LE).1.stack, vec![0]);
    assert_eq!(binary(3, 3, ByteCode::LEQ).1.stack, vec![1]);
    assert_eq!(binary(4, 3, ByteCode::GE).1.stack, vec![1]);
    assert_eq!(binary(3, 4, ByteCode::GEQ).1.stack, vec![0]);
    assert_eq!(binary(-6, 4, ByteCode::MUL).1.stack, vec![-24]);
}

#[test]
fn division_truncates_toward_zero() {
    assert_eq!(binary(-7, 2, ByteCode::DIV).1.stack, vec![-3]);
    assert_eq!(binary(-7, 2, ByteCode::MOD).1.stack, vec![-1]);
    assert_eq!(binary(7, -2, ByteCode::MOD).1.stack, vec![1]);
}

#[test]
fn pop_removes_only_top() {
    let (r, vm) = run(vec![c(2), c(0), op(ByteCode::POP), op(ByteCode::HALT)]);
    assert_eq!(r, Ok(()));
    assert_eq!(vm.stack, vec![2]);
}

#[test]
fn division_and_modulo_by_zero_fault() {
    for code in [ByteCode::DIV, ByteCode::MOD] {
        let (r, vm) = binary(5, 0, code);
        assert_eq!(r, Err(VmError::DivisionByZero));
        assert_eq!(vm.stack, vec![5, 0]);
        assert_eq!(vm.pc, 2);
    }
}

#[test]
fn fetch_past_end_faults() {
    let (r, vm) = run(vec![c(1)]);
    assert_eq!(r, Err(VmError::FetchOutOfRange));
    assert_eq!(vm.stack, vec![1]);
    let (r, _) = run(vec![]);
    assert_eq!(r, Err(VmError::FetchOutOfRange));
}

#[test]
fn negating_minimum_overflows() {
    let (r, vm) = run(vec![c(i64::MIN), op(ByteCode::NEG), op(ByteCode::HALT)]);
    assert_eq!(r, Err(VmError::Overflow));
    assert_eq!(vm.stack, vec![i64::MIN]);
    let (r, vm) = run(vec![c(i64::MAX), op(ByteCode::NEG), op(ByteCode::HALT)]);
    assert_eq!(r, Ok(()));
    assert_eq!(vm.stack, vec![-i64::MAX]);
}

#[test]
fn arithmetic_overflow_faults() {
    assert_eq!(binary(i64::MAX, 1, ByteCode::ADD).0, Err(VmError::Overflow));
    assert_eq!(binary(i64::MIN, 1, ByteCode::SUB).0, Err(VmError::Overflow));
    assert_eq!(binary(i64::MAX, 2, ByteCode::MUL).0, Err(VmError::Overflow));
    assert_eq!(binary(i64::MIN, -1, ByteCode::DIV).0, Err(VmError::Overflow));
}

#[test]
fn empty_stack_underflows() {
    for code in [ByteCode::POP, ByteCode::LOAD, ByteCode::NEW, ByteCode::NEG, ByteCode::NOT] {
        let (r, _) = run(vec![op(code), op(ByteCode::HALT)]);
        assert_eq!(r, Err(VmError::StackUnderflow));
    }
    let (r, vm) = run(vec![c(1), op(ByteCode::ADD), op(ByteCode::HALT)]);
    assert_eq!(r, Err(VmError::StackUnderflow));
    assert_eq!(vm.stack, vec![1]);
}

#[test]
fn truth_is_exactly_one() {
    assert_eq!(VirtualMachine::t_to_bool(1), true);
    assert_eq!(VirtualMachine::t_to_bool(0), false);
    assert_eq!(VirtualMachine::t_to_bool(2), false);
    assert_eq!(VirtualMachine::t_to_bool(-1), false);
    assert_eq!(VirtualMachine::bool_to_t(true), 1);
    assert_eq!(VirtualMachine::bool_to_t(false), 0);
    assert_eq!(binary(2, 1, ByteCode::AND).1.stack, vec![0]);
    assert_eq!(binary(2, 0, ByteCode::OR).1.stack, vec![0]);
    assert_eq!(run(vec![c(2), op(ByteCode::NOT), op(ByteCode::HALT)]).1.stack, vec![1]);
}

#[test]
fn step_budget_stops_endless_loop() {
    let mut vm = VirtualMachine::new(vec![Inst::new_data(ByteCode::JUMP, 0)]);
    assert_eq!(vm.run_for(100), Err(VmError::StepLimit));
    assert_eq!(vm.pc, 0);
}

#[test]
fn single_steps_report_halt() {
    let mut vm = VirtualMachine::new(vec![c(4), op(ByteCode::HALT)]);
    assert_eq!(vm.step(), Ok(false));
    assert_eq!(vm.step(), Ok(true));
    assert_eq!(vm.stack, vec![4]);
}

#[test]
fn remainder_of_minimum_by_minus_one_is_zero() {
    let (r, vm) = binary(i64::MIN, -1, ByteCode::MOD);
    assert_eq!(r, Ok(()));
    assert_eq!(vm.stack, vec![0]);
    assert_eq!(binary(7, -1, ByteCode::MOD).1.stack, vec![0]);
}

#[test]
fn second_store_rewrites_kept_value_without_shrinking_memory() {
    let (r, vm) = run(vec![
        c(6),
        c(3),
        op(ByteCode::STORE),
        c(1),
        op(ByteCode::STORE),
        op(ByteCode::HALT),
    ]);
    assert_eq!(r, Ok(()));
    assert_eq!(vm.stack, vec![6]);
    assert_eq!(vm.mem, vec![0, 6, 0, 6]);
}

#[test]
fn well_formed_programs_carry_operands() {
    assert!(is_well_formed_program(&vec![]));
    assert!(is_well_formed_program(&vec![c(1), Inst::new_data(ByteCode::JUMP, 0)]));
    assert!(!is_well_formed_program(&vec![c(1), op(ByteCode::LOADC)]));
    assert!(!is_well_formed_program(&vec![op(ByteCode::JUMPZ), op(ByteCode::HALT)]));
    assert!(!is_well_formed_program(&vec![op(ByteCode::JUMP)]));
}
