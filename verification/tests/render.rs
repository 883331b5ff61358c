use superopt::{
    show_instruction, show_operand, show_program, BinOp, Instruction, Operand, Program, UnOp,
};

fn slot(index: i32) -> Operand {
    Operand { value: index, is_constant: false }
}

fn literal(value: i32) -> Operand {
    Operand { value, is_constant: true }
}

#[test]
fn literals_read_as_decimal() {
    assert_eq!(show_operand(&literal(0)), "0");
    assert_eq!(show_operand(&literal(1)), "1");
    assert_eq!(show_operand(&literal(9)), "9");
    assert_eq!(show_operand(&literal(10)), "10");
    assert_eq!(show_operand(&literal(31)), "31");
    assert_eq!(show_operand(&literal(1234567890)), "1234567890");
    assert_eq!(show_operand(&literal(-5)), "-5");
    assert_eq!(show_operand(&literal(-100)), "-100");
    assert_eq!(show_operand(&literal(i32::MAX)), "2147483647");
    assert_eq!(show_operand(&literal(i32::MIN)), "-2147483648");
}

#[test]
fn slots_read_as_o_and_index() {
    assert_eq!(show_operand(&slot(0)), "o0");
    assert_eq!(show_operand(&slot(1)), "o1");
    assert_eq!(show_operand(&slot(12)), "o12");
    assert_eq!(show_operand(&slot(-3)), "o-3");
}

#[test]
fn operand_text_matches_std_formatting() {
    for value in [0, 7, -7, 40, 99, 100, 101, -2000000000, 1000000000, i32::MAX, i32::MIN] {
        assert_eq!(show_operand(&literal(value)), format!("{}", value));
        assert_eq!(show_operand(&slot(value)), format!("o{}", value));
    }
}

#[test]
fn instructions_read_as_name_and_operands() {
    let sub = Instruction::Binary { op: BinOp::Sub, op1: slot(0), op2: literal(1) };
    assert_eq!(show_instruction(&sub), "Sub(o0, 1)");
    let and = Instruction::Binary { op: BinOp::And, op1: slot(0), op2: slot(2) };
    assert_eq!(show_instruction(&and), "And(o0, o2)");
    let neg = Instruction::Unary { op: UnOp::Neg, op1: slot(3) };
    assert_eq!(show_instruction(&neg), "Neg(o3)");
    let not = Instruction::Unary { op: UnOp::Not, op1: literal(-4) };
    assert_eq!(show_instruction(&not), "Not(-4)");
}

#[test]
fn opcode_names_match_debug_names() {
    for op in BinOp::all() {
        let inst = Instruction::Binary { op, op1: slot(1), op2: literal(31) };
        assert_eq!(show_instruction(&inst), format!("{:?}(o1, 31)", op));
    }
    for op in UnOp::all() {
        let inst = Instruction::Unary { op, op1: slot(0) };
        assert_eq!(show_instruction(&inst), format!("{:?}(o0)", op));
    }
}

#[test]
fn programs_read_line_by_line() {
    let program: Program = vec![
        Instruction::Binary { op: BinOp::Sub, op1: slot(0), op2: literal(1) },
        Instruction::Binary { op: BinOp::And, op1: slot(0), op2: slot(2) },
        Instruction::Unary { op: UnOp::Not, op1: slot(3) },
    ];
    assert_eq!(show_program(&program), vec!["Sub(o0, 1)", "And(o0, o2)", "Not(o3)"]);
    assert!(show_program(&vec![]).is_empty());
}
