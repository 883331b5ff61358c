use superopt::{
    execute_instruction, is_well_formed, simulate_program, BinOp, Instruction, Operand, Program,
    UnOp,
};

fn slot(index: i32) -> Operand {
    Operand { value: index, is_constant: false }
}

fn literal(value: i32) -> Operand {
    Operand { value, is_constant: true }
}

fn binary(op: BinOp, op1: Operand, op2: Operand) -> Instruction {
    Instruction::Binary { op, op1, op2 }
}

fn unary(op: UnOp, op1: Operand) -> Instruction {
    Instruction::Unary { op, op1 }
}

fn on_literals(op: BinOp, a: i32, b: i32) -> i32 {
    execute_instruction(&binary(op, literal(a), literal(b)), &vec![0, 0])
}

#[test]
fn turn_off_rightmost_one_bit() {
    let p: Program = vec![
        binary(BinOp::Sub, slot(0), literal(1)),
        binary(BinOp::And, slot(0), slot(2)),
    ];
    assert_eq!(simulate_program(&p, (6, 0)), 4);
    assert_eq!(simulate_program(&p, (0, 0)), 0);
    assert_eq!(simulate_program(&p, (12, 0)), 8);
    assert_eq!(simulate_program(&p, (6, 77)), 4);
    assert_eq!(simulate_program(&p, (12, -5)), 8);
}

#[test]
fn and_with_successor() {
    let p: Program = vec![
        binary(BinOp::Add, slot(0), literal(1)),
        binary(BinOp::And, slot(0), slot(2)),
    ];
    // 8 & 9 and 6 & 7 keep every bit of the input; 7 & 8 and 0 & 1 keep none.
    assert_eq!(simulate_program(&p, (8, 0)), 8);
    assert_eq!(simulate_program(&p, (6, 0)), 6);
    assert_eq!(simulate_program(&p, (7, 0)), 0);
    assert_eq!(simulate_program(&p, (0, 0)), 0);
    assert_eq!(simulate_program(&p, (5, 123)), 4);
}

#[test]
fn empty_program_returns_second_input() {
    let p: Program = vec![];
    assert_eq!(simulate_program(&p, (3, 4)), 4);
}

#[test]
fn repeated_runs_agree() {
    let p: Program = vec![
        binary(BinOp::Xor, slot(0), slot(1)),
        binary(BinOp::Shr, slot(2), literal(2)),
        unary(UnOp::Not, slot(3)),
    ];
    let first = simulate_program(&p, (1234, -99));
    let second = simulate_program(&p, (1234, -99));
    assert_eq!(first, second);
    assert_eq!(first, !((1234 ^ -99) >> 2));
}

#[test]
fn division_by_run_time_zero_is_zero() {
    let tape = vec![17, 0];
    assert_eq!(execute_instruction(&binary(BinOp::Div, slot(0), slot(1)), &tape), 0);
    assert_eq!(execute_instruction(&binary(BinOp::Div, slot(1), slot(1)), &tape), 0);
    assert_eq!(on_literals(BinOp::Div, 17, 0), 0);
    assert_eq!(on_literals(BinOp::Div, i32::MIN, 0), 0);
    let p: Program = vec![
        binary(BinOp::Sub, slot(0), slot(0)),
        binary(BinOp::Div, slot(1), slot(2)),
    ];
    assert_eq!(simulate_program(&p, (5, 9)), 0);
}

#[test]
fn division_truncates_toward_zero() {
    assert_eq!(on_literals(BinOp::Div, 7, 2), 3);
    assert_eq!(on_literals(BinOp::Div, -7, 2), -3);
    assert_eq!(on_literals(BinOp::Div, 7, -2), -3);
    assert_eq!(on_literals(BinOp::Div, -7, -2), 3);
    assert_eq!(on_literals(BinOp::Div, 0, 5), 0);
    assert_eq!(on_literals(BinOp::Div, i32::MAX, 1), i32::MAX);
    assert_eq!(on_literals(BinOp::Div, i32::MIN, 1), i32::MIN);
    assert_eq!(on_literals(BinOp::Div, i32::MIN, 2), -1073741824);
}

#[test]
fn division_overflow_wraps() {
    assert_eq!(on_literals(BinOp::Div, i32::MIN, -1), i32::MIN);
}

#[test]
fn addition_and_subtraction_wrap() {
    assert_eq!(on_literals(BinOp::Add, 2, 3), 5);
    assert_eq!(on_literals(BinOp::Add, i32::MAX, 1), i32::MIN);
    assert_eq!(on_literals(BinOp::Add, i32::MIN, -1), i32::MAX);
    assert_eq!(on_literals(BinOp::Add, i32::MAX, i32::MAX), -2);
    assert_eq!(on_literals(BinOp::Sub, 2, 3), -1);
    assert_eq!(on_literals(BinOp::Sub, i32::MIN, 1), i32::MAX);
    assert_eq!(on_literals(BinOp::Sub, i32::MAX, -1), i32::MIN);
    assert_eq!(on_literals(BinOp::Sub, 0, i32::MIN), i32::MIN);
}

#[test]
fn negation_wraps() {
    let tape = vec![0, 0];
    assert_eq!(execute_instruction(&unary(UnOp::Neg, literal(5)), &tape), -5);
    assert_eq!(execute_instruction(&unary(UnOp::Neg, literal(-5)), &tape), 5);
    assert_eq!(execute_instruction(&unary(UnOp::Neg, literal(0)), &tape), 0);
    assert_eq!(execute_instruction(&unary(UnOp::Neg, literal(i32::MIN)), &tape), i32::MIN);
    assert_eq!(execute_instruction(&unary(UnOp::Neg, literal(i32::MAX)), &tape), i32::MIN + 1);
}

#[test]
fn complement() {
    let tape = vec![0, 0];
    assert_eq!(execute_instruction(&unary(UnOp::Not, literal(0)), &tape), -1);
    assert_eq!(execute_instruction(&unary(UnOp::Not, literal(-1)), &tape), 0);
    assert_eq!(execute_instruction(&unary(UnOp::Not, literal(5)), &tape), -6);
    assert_eq!(execute_instruction(&unary(UnOp::Not, literal(i32::MIN)), &tape), i32::MAX);
}

#[test]
fn bitwise_opcodes() {
    assert_eq!(on_literals(BinOp::And, 12, 10), 8);
    assert_eq!(on_literals(BinOp::Or, 12, 10), 14);
    assert_eq!(on_literals(BinOp::Xor, 12, 10), 6);
    assert_eq!(on_literals(BinOp::And, -1, 0x5555), 0x5555);
    assert_eq!(on_literals(BinOp::Or, i32::MIN, 1), i32::MIN + 1);
    assert_eq!(on_literals(BinOp::Xor, -1, -1), 0);
}

#[test]
fn shift_right_keeps_the_sign() {
    assert_eq!(on_literals(BinOp::Shr, 8, 1), 4);
    assert_eq!(on_literals(BinOp::Shr, 8, 2), 2);
    assert_eq!(on_literals(BinOp::Shr, -8, 1), -4);
    assert_eq!(on_literals(BinOp::Shr, -1, 31), -1);
    assert_eq!(on_literals(BinOp::Shr, i32::MAX, 31), 0);
    assert_eq!(on_literals(BinOp::Shr, i32::MIN, 31), -1);
    assert_eq!(on_literals(BinOp::Shr, 5, 0), 5);
}

#[test]
fn shift_amount_is_taken_modulo_32() {
    assert_eq!(on_literals(BinOp::Shr, 8, 32), 8);
    assert_eq!(on_literals(BinOp::Shr, 8, 33), 4);
    assert_eq!(on_literals(BinOp::Shr, -8, 33), -4);
    assert_eq!(on_literals(BinOp::Shr, 8, -1), 0);
    assert_eq!(on_literals(BinOp::Shr, -8, -1), -1);
    assert_eq!(on_literals(BinOp::Shr, 1024, -31), 512);
}

#[test]
fn comparisons_are_signed() {
    assert_eq!(on_literals(BinOp::Ule, 1, 2), 1);
    assert_eq!(on_literals(BinOp::Ule, 2, 2), 1);
    assert_eq!(on_literals(BinOp::Ule, 3, 2), 0);
    assert_eq!(on_literals(BinOp::Ugt, 3, 2), 1);
    assert_eq!(on_literals(BinOp::Ugt, 2, 2), 0);
    assert_eq!(on_literals(BinOp::Uge, 2, 2), 1);
    assert_eq!(on_literals(BinOp::Uge, 1, 2), 0);
    // A negative operand is smaller than a positive one.
    assert_eq!(on_literals(BinOp::Ule, -1, 0), 1);
    assert_eq!(on_literals(BinOp::Ugt, -1, 0), 0);
    assert_eq!(on_literals(BinOp::Uge, -1, 0), 0);
    assert_eq!(on_literals(BinOp::Ugt, 0, i32::MIN), 1);
    assert_eq!(on_literals(BinOp::Uge, i32::MIN, i32::MAX), 0);
}

#[test]
fn operands_resolve_against_the_tape() {
    let tape = vec![10, 20, 30];
    assert_eq!(execute_instruction(&binary(BinOp::Add, slot(0), slot(2)), &tape), 40);
    assert_eq!(execute_instruction(&binary(BinOp::Sub, slot(2), slot(1)), &tape), 10);
    assert_eq!(execute_instruction(&binary(BinOp::Add, slot(1), literal(2)), &tape), 22);
    assert_eq!(execute_instruction(&binary(BinOp::Add, literal(2), literal(2)), &tape), 4);
    assert_eq!(execute_instruction(&unary(UnOp::Neg, slot(2)), &tape), -30);
}

#[test]
fn maximum_through_sign_mask() {
    // Neg(o0), Add(o1, o2), Shr(o3, 31), Div(o3, o4), Add(o1, o5)
    let p: Program = vec![
        unary(UnOp::Neg, slot(0)),
        binary(BinOp::Add, slot(1), slot(2)),
        binary(BinOp::Shr, slot(3), literal(31)),
        binary(BinOp::Div, slot(3), slot(4)),
        binary(BinOp::Add, slot(1), slot(5)),
    ];
    assert!(is_well_formed(&p));
    assert_eq!(simulate_program(&p, (5, 3)), 5);
    assert_eq!(simulate_program(&p, (3, 5)), 5);
    assert_eq!(simulate_program(&p, (7, 7)), 7);
    assert_eq!(simulate_program(&p, (0, 99)), 99);
    assert_eq!(simulate_program(&p, (99, 0)), 99);
}

#[test]
fn well_formedness_is_checked_slot_by_slot() {
    let good: Program = vec![
        binary(BinOp::Add, slot(0), slot(1)),
        binary(BinOp::Add, slot(2), literal(1000)),
    ];
    assert!(is_well_formed(&good));
    assert!(is_well_formed(&vec![]));
    // The first instruction can only read the two inputs.
    assert!(!is_well_formed(&vec![unary(UnOp::Neg, slot(2))]));
    assert!(!is_well_formed(&vec![binary(BinOp::Add, slot(0), slot(2))]));
    assert!(!is_well_formed(&vec![binary(BinOp::Add, slot(-1), slot(0))]));
    assert!(!is_well_formed(&vec![
        unary(UnOp::Neg, slot(1)),
        binary(BinOp::Add, slot(2), slot(3)),
    ]));
    // Literals stand anywhere, whatever their value.
    assert!(is_well_formed(&vec![binary(BinOp::Add, literal(-1), literal(50))]));
}
