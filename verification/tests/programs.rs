use superopt::{
    generate_programs, is_well_formed, show_instruction, simulate_program, BinOp, Instruction,
    Operand,
};

#[test]
fn catalog_holds_four_programs() {
    let programs = generate_programs();
    assert_eq!(programs.len(), 4);
    let lengths: Vec<usize> = programs.iter().map(|p| p.len()).collect();
    assert_eq!(lengths, vec![2, 2, 4, 5]);
    for program in &programs {
        assert!(is_well_formed(program));
    }
}

#[test]
fn catalog_listing() {
    let listing: Vec<Vec<String>> = generate_programs()
        .iter()
        .map(|program| program.iter().map(show_instruction).collect())
        .collect();
    assert_eq!(listing[0], vec!["Sub(o0, 1)", "And(o0, o2)"]);
    assert_eq!(listing[1], vec!["Add(o0, 1)", "And(o0, o2)"]);
    assert_eq!(listing[2], vec!["Or(o0, o1)", "Xor(o0, o1)", "Shr(o3, 1)", "Sub(o2, o4)"]);
    assert_eq!(
        listing[3],
        vec!["Xor(o0, o1)", "Uge(o0, o1)", "Neg(o3)", "And(o2, o4)", "Xor(o5, o1)"]
    );
}

#[test]
fn first_program_turns_off_rightmost_one() {
    let programs = generate_programs();
    assert_eq!(
        programs[0],
        vec![
            Instruction::Binary {
                op: BinOp::Sub,
                op1: Operand { value: 0, is_constant: false },
                op2: Operand { value: 1, is_constant: true },
            },
            Instruction::Binary {
                op: BinOp::And,
                op1: Operand { value: 0, is_constant: false },
                op2: Operand { value: 2, is_constant: false },
            },
        ]
    );
    for x in 0..200 {
        assert_eq!(simulate_program(&programs[0], (x, 0)), x & (x - 1));
    }
}

#[test]
fn third_program_is_ceiling_average() {
    let programs = generate_programs();
    for x in 0..40 {
        for y in 0..40 {
            assert_eq!(simulate_program(&programs[2], (x, y)), (x + y + 1) / 2);
        }
    }
    assert_eq!(simulate_program(&programs[2], (i32::MAX, i32::MAX)), i32::MAX);
    assert_eq!(simulate_program(&programs[2], (i32::MAX, i32::MAX - 1)), i32::MAX);
}

#[test]
fn fourth_program_is_maximum() {
    let programs = generate_programs();
    for x in -20..20 {
        for y in -20..20 {
            assert_eq!(simulate_program(&programs[3], (x, y)), x.max(y));
        }
    }
    assert_eq!(simulate_program(&programs[3], (i32::MIN, i32::MAX)), i32::MAX);
    assert_eq!(simulate_program(&programs[3], (i32::MAX, i32::MIN)), i32::MAX);
}
