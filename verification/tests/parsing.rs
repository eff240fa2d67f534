use asmvm::Instruction;
use asmvm::ParserError;
use asmvm::Register;
use asmvm::parse_program;

#[test]
fn empty_source_is_all_nop() {
    let prog = parse_program("").unwrap();
    assert_eq!(prog.len(), 256);
    for ins in prog.iter() {
        assert_eq!(*ins, Instruction::Nop);
    }
}

#[test]
fn every_opcode_decodes() {
    let src = "mov a 2\ncpy b a\nsub a b\nadd a b\nlfa a b\nlta a b\njlt 1\njgt 2\njeq 3\njmp 4\ndump a\ndm b\nnop";
    let prog = parse_program(src).unwrap();
    assert_eq!(prog[0], Instruction::Move(Register::A, 2));
    assert_eq!(prog[1], Instruction::Cpy(Register::B, Register::A));
    assert_eq!(prog[2], Instruction::Sub(Register::A, Register::B));
    assert_eq!(prog[3], Instruction::Add(Register::A, Register::B));
    assert_eq!(prog[4], Instruction::LoadFromAddress(Register::A, Register::B));
    assert_eq!(prog[5], Instruction::LoadToAddress(Register::A, Register::B));
    assert_eq!(prog[6], Instruction::JumpLessThan(1));
    assert_eq!(prog[7], Instruction::JumpGreaterThan(2));
    assert_eq!(prog[8], Instruction::JumpEqual(3));
    assert_eq!(prog[9], Instruction::Jump(4));
    assert_eq!(prog[10], Instruction::Dump(Register::A));
    assert_eq!(prog[11], Instruction::DumpMem(Register::B));
    assert_eq!(prog[12], Instruction::Nop);
    assert_eq!(prog[13], Instruction::Nop);
}

#[test]
fn register_spellings_decode() {
    let prog = parse_program("cpy rip result").unwrap();
    assert_eq!(prog[0], Instruction::Cpy(Register::Rip, Register::Res));
}

#[test]
fn unknown_keyword_names_line_and_token() {
    let e = parse_program("foo a b").unwrap_err();
    assert_eq!(e, ParserError::UnknownKeyWord(0, 0, String::from("foo")));
}

#[test]
fn unknown_keyword_on_later_line() {
    let e = parse_program("nop\nnop\nblah").unwrap_err();
    assert_eq!(e, ParserError::UnknownKeyWord(2, 0, String::from("blah")));
}

#[test]
fn missing_operand_is_length_error() {
    let e = parse_program("mov a").unwrap_err();
    assert_eq!(e, ParserError::InstructionLengthError(3, 2));
}

#[test]
fn extra_operand_is_length_error() {
    let e = parse_program("jmp 1 2").unwrap_err();
    assert_eq!(e, ParserError::InstructionLengthError(2, 3));
}

#[test]
fn bare_jump_is_length_error() {
    let e = parse_program("jmp").unwrap_err();
    assert_eq!(e, ParserError::InstructionLengthError(2, 1));
}

#[test]
fn nop_takes_no_operands() {
    let e = parse_program("nop a").unwrap_err();
    assert_eq!(e, ParserError::InstructionLengthError(1, 2));
}

#[test]
fn bad_register_is_invalid_argument() {
    let e = parse_program("mov x 5").unwrap_err();
    assert_eq!(e, ParserError::InvalidArgument(0, 2, String::from("x")));
}

#[test]
fn bad_second_register_reports_its_column() {
    let e = parse_program("cpy a q").unwrap_err();
    assert_eq!(e, ParserError::InvalidArgument(0, 2, String::from("q")));
    let e = parse_program("cpy q a").unwrap_err();
    assert_eq!(e, ParserError::InvalidArgument(0, 1, String::from("q")));
}

#[test]
fn out_of_range_number_is_invalid_argument() {
    let e = parse_program("mov a 256").unwrap_err();
    assert_eq!(e, ParserError::InvalidArgument(0, 3, String::from("256")));
}

#[test]
fn non_numeric_operand_is_invalid_argument() {
    let e = parse_program("jmp here").unwrap_err();
    assert_eq!(e, ParserError::InvalidArgument(0, 1, String::from("here")));
}

#[test]
fn negative_number_is_invalid_argument() {
    let e = parse_program("mov a -1").unwrap_err();
    assert_eq!(e, ParserError::InvalidArgument(0, 3, String::from("-1")));
}

#[test]
fn number_edges_decode() {
    let prog = parse_program("mov a 0\nmov b 255\nmov a +7\nmov b 007").unwrap();
    assert_eq!(prog[0], Instruction::Move(Register::A, 0));
    assert_eq!(prog[1], Instruction::Move(Register::B, 255));
    assert_eq!(prog[2], Instruction::Move(Register::A, 7));
    assert_eq!(prog[3], Instruction::Move(Register::B, 7));
}

#[test]
fn bare_plus_is_invalid_argument() {
    let e = parse_program("mov a +").unwrap_err();
    assert_eq!(e, ParserError::InvalidArgument(0, 3, String::from("+")));
}

#[test]
fn double_space_makes_an_empty_token() {
    let e = parse_program("mov  a 1").unwrap_err();
    assert_eq!(e, ParserError::InstructionLengthError(3, 4));
}

#[test]
fn comments_and_blank_lines_leave_nop_slots() {
    let prog = parse_program("# a comment\n\nmov a 1").unwrap();
    assert_eq!(prog[0], Instruction::Nop);
    assert_eq!(prog[1], Instruction::Nop);
    assert_eq!(prog[2], Instruction::Move(Register::A, 1));
}

#[test]
fn lines_are_trimmed_before_decoding() {
    let prog = parse_program("  mov a 1  \n\t# indented comment").unwrap();
    assert_eq!(prog[0], Instruction::Move(Register::A, 1));
    assert_eq!(prog[1], Instruction::Nop);
}

#[test]
fn leading_blank_lines_shift_addresses() {
    let prog = parse_program("\n\nmov a 1").unwrap();
    assert_eq!(prog[0], Instruction::Move(Register::A, 1));
}

#[test]
fn opcodes_are_case_sensitive() {
    let e = parse_program("MOV a 1").unwrap_err();
    assert_eq!(e, ParserError::UnknownKeyWord(0, 0, String::from("MOV")));
}

#[test]
fn exactly_256_lines_are_accepted() {
    let src = vec!["nop"; 256].join("\n");
    let prog = parse_program(&src).unwrap();
    assert_eq!(prog[255], Instruction::Nop);
}

#[test]
fn line_257_is_a_length_error() {
    let src = vec!["nop"; 257].join("\n");
    let e = parse_program(&src).unwrap_err();
    assert_eq!(e, ParserError::LengthError(257));
}

#[test]
fn load_to_address_takes_address_first() {
    let prog = parse_program("lta a b").unwrap();
    assert_eq!(prog[0], Instruction::LoadToAddress(Register::A, Register::B));
}
