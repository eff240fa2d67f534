use asmvm::ExecutionError;
use asmvm::Instruction;
use asmvm::Processor;
use asmvm::parse_program;

fn load(src: &str) -> Processor {
    Processor::new(parse_program(src).unwrap())
}

#[test]
fn new_processor_is_zeroed() {
    let p = load("nop");
    assert_eq!(p.register_a, 0);
    assert_eq!(p.register_b, 0);
    assert_eq!(p.register_result, 0);
    assert_eq!(p.rip, 0);
    assert!(p.stack.iter().all(|&c| c == 0));
    assert!(p.output.is_empty());
    assert_eq!(p.instructions[0], Instruction::Nop);
}

#[test]
fn add_round_trip() {
    let mut p = load("mov a 2\nmov b 3\nadd a b");
    assert_eq!(p.execute(), Ok(()));
    assert_eq!(p.register_result, 5);
    assert_eq!(p.register_a, 2);
    assert_eq!(p.register_b, 3);
    assert_eq!(p.rip, 255);
}

#[test]
fn sub_stores_difference_in_result() {
    let mut p = load("mov a 10\nmov b 4\nsub a b");
    assert_eq!(p.execute(), Ok(()));
    assert_eq!(p.register_result, 6);
    assert_eq!(p.register_a, 10);
    assert_eq!(p.register_b, 4);
}

#[test]
fn sub_underflow_fails_and_leaves_result() {
    let mut p = load("mov a 5\nmov b 10\nsub a b");
    assert_eq!(p.execute(), Err(ExecutionError::IntegerOverflow));
    assert_eq!(p.register_result, 0);
    assert_eq!(p.rip, 3);
}

#[test]
fn add_overflow_fails() {
    let mut p = load("mov a 200\nmov b 100\nadd a b");
    assert_eq!(p.execute(), Err(ExecutionError::IntegerOverflow));
    assert_eq!(p.register_result, 0);
}

#[test]
fn add_at_the_limit_succeeds() {
    let mut p = load("mov a 200\nmov b 55\nadd a b");
    assert_eq!(p.execute(), Ok(()));
    assert_eq!(p.register_result, 255);
}

#[test]
fn infinite_loop_never_reaches_the_boundary() {
    let mut p = load("mov a 1\njmp 0");
    for _ in 0..1000 {
        assert_ne!(p.rip, 255);
        assert_eq!(p.step(), Ok(()));
    }
    assert!(p.rip <= 1);
    assert_eq!(p.register_a, 1);
}

#[test]
fn empty_program_halts_within_255_steps() {
    let mut p = load("");
    for _ in 0..255 {
        assert_ne!(p.rip, 255);
        assert_eq!(p.step(), Ok(()));
    }
    assert_eq!(p.rip, 255);
}

#[test]
fn memory_round_trip_through_register_address() {
    let mut p = load("mov a 200\nlta a a\nlfa b a");
    assert_eq!(p.execute(), Ok(()));
    assert_eq!(p.stack[200], 200);
    assert_eq!(p.register_b, 200);
}

#[test]
fn store_and_load_distinct_registers() {
    let mut p = load("mov a 3\nmov b 77\nlta a b\nmov b 0\nlfa result a");
    assert_eq!(p.execute(), Ok(()));
    assert_eq!(p.stack[3], 77);
    assert_eq!(p.register_result, 77);
}

#[test]
fn cpy_copies_between_registers() {
    let mut p = load("mov a 7\ncpy b a");
    assert_eq!(p.execute(), Ok(()));
    assert_eq!(p.register_b, 7);
}

#[test]
fn jump_less_than_taken() {
    let mut p = load("mov a 1\nmov b 2\njlt 5\nmov a 99");
    assert_eq!(p.execute(), Ok(()));
    assert_eq!(p.register_a, 1);
}

#[test]
fn jump_less_than_not_taken() {
    let mut p = load("mov a 2\nmov b 1\njlt 5\nmov a 99");
    assert_eq!(p.execute(), Ok(()));
    assert_eq!(p.register_a, 99);
}

#[test]
fn jump_greater_than_taken() {
    let mut p = load("mov a 2\nmov b 1\njgt 5\nmov a 99");
    assert_eq!(p.execute(), Ok(()));
    assert_eq!(p.register_a, 2);
}

#[test]
fn jump_equal_taken() {
    let mut p = load("mov a 4\nmov b 4\njeq 5\nmov a 99");
    assert_eq!(p.execute(), Ok(()));
    assert_eq!(p.register_a, 4);
}

#[test]
fn jump_equal_not_taken() {
    let mut p = load("mov a 4\nmov b 5\njeq 5\nmov a 99");
    assert_eq!(p.execute(), Ok(()));
    assert_eq!(p.register_a, 99);
}

#[test]
fn unconditional_jump_skips() {
    let mut p = load("jmp 2\nmov a 99\nmov b 1");
    assert_eq!(p.execute(), Ok(()));
    assert_eq!(p.register_a, 0);
    assert_eq!(p.register_b, 1);
}

#[test]
fn jump_to_boundary_halts_without_executing_it() {
    let mut p = load("mov a 1\njmp 255");
    assert_eq!(p.execute(), Ok(()));
    assert_eq!(p.rip, 255);
    assert_eq!(p.register_a, 1);
}

#[test]
fn mov_to_rip_acts_as_a_jump() {
    let mut p = load("mov rip 255\nmov a 99");
    assert_eq!(p.execute(), Ok(()));
    assert_eq!(p.rip, 255);
    assert_eq!(p.register_a, 0);
}

#[test]
fn arithmetic_sees_the_advanced_counter() {
    let mut p = load("add rip rip");
    assert_eq!(p.execute(), Ok(()));
    assert_eq!(p.register_result, 2);
}

#[test]
fn dump_records_values_in_order() {
    let mut p = load("mov a 9\ndump a\nmov b 3\nlta b a\ndm b");
    assert_eq!(p.execute(), Ok(()));
    assert_eq!(p.output, vec![9, 9]);
}

#[test]
fn dump_memory_of_untouched_cell_is_zero() {
    let mut p = load("mov a 42\ndm a");
    assert_eq!(p.execute(), Ok(()));
    assert_eq!(p.output, vec![0]);
}

#[test]
fn backward_loop_with_exit_condition_halts() {
    // a counts down from 3 to 0 by repeated sub; jgt loops while a > b.
    let src = "mov a 3\nmov b 1\nsub a b\ncpy a result\nmov b 0\njgt 1";
    let mut p = load(src);
    assert_eq!(p.execute(), Ok(()));
    assert_eq!(p.register_a, 0);
    assert_eq!(p.rip, 255);
}
