use synacore::machine::{Machine, RunState, REGISTER_OFFSET};
use synacore::parse::{
    ADD, AND, CALL, EQ, GT, HALT, IN, JF, JMP, JT, MOD, MULT, NOOP, NOT, OR, OUT, POP, PUSH, RET,
    RMEM, SET, WMEM,
};

const R0: u16 = REGISTER_OFFSET;
const R1: u16 = REGISTER_OFFSET + 1;

fn run_to_end(program: Vec<u16>) -> Machine {
    let mut machine = Machine::new(program);
    machine.run();
    machine
}

#[test]
fn add_wraps_modulo_32768() {
    let machine = run_to_end(vec![SET, R1, 32767, ADD, R0, R1, 2, HALT]);
    assert_eq!(machine.registers()[0], 1);
}

#[test]
fn mult_wraps_modulo_32768() {
    let machine = run_to_end(vec![MULT, R0, 200, 200, HALT]);
    assert_eq!(machine.registers()[0], 7232);
}

#[test]
fn and_or_not_are_bitwise_on_fifteen_bits() {
    let machine = run_to_end(vec![AND, R0, 12, 10, OR, R1, 12, 10, NOT, REGISTER_OFFSET + 2, 0, HALT]);
    assert_eq!(machine.registers()[0], 8);
    assert_eq!(machine.registers()[1], 14);
    assert_eq!(machine.registers()[2], 32767);

    let machine = run_to_end(vec![NOT, R0, 21845, HALT]);
    assert_eq!(machine.registers()[0], 10922);
}

#[test]
fn mod_and_comparisons() {
    let machine = run_to_end(vec![
        MOD, R0, 7, 3, EQ, R1, 5, 5, GT, REGISTER_OFFSET + 2, 4, 5, GT, REGISTER_OFFSET + 3, 5, 4, HALT,
    ]);
    assert_eq!(machine.registers()[..4], [1, 1, 0, 1]);
}

#[test]
fn mod_by_zero_is_an_error() {
    let mut machine = Machine::new(vec![MOD, R0, 7, 0, HALT]);
    assert!(matches!(machine.run(), RunState::Error(_)));
}

#[test]
fn ret_on_empty_stack_halts() {
    let mut machine = Machine::new(vec![RET]);
    assert_eq!(*machine.run(), RunState::Halt);
}

#[test]
fn pop_on_empty_stack_is_an_error() {
    let mut machine = Machine::new(vec![POP, R0]);
    assert!(matches!(machine.run(), RunState::Error(_)));
}

#[test]
fn set_to_a_non_register_is_an_error() {
    let mut machine = Machine::new(vec![SET, 5, 61]);
    assert!(matches!(machine.run(), RunState::Error(_)));
    assert_eq!(machine.memory()[5], 0);
}

#[test]
fn unknown_opcode_is_an_error_and_absorbs() {
    let mut machine = Machine::new(vec![22]);
    assert!(matches!(machine.run_once(), RunState::Error(_)));
    assert!(matches!(machine.run_once(), RunState::Error(_)));
}

#[test]
fn truncated_instruction_is_an_error() {
    let mut machine = Machine::new(vec![JMP, 32767]);
    // jumps to the last general-purpose cell, which holds a zero: halt
    assert_eq!(*machine.run(), RunState::Halt);

    // register 7 holds the opcode of `set`, which needs two more words
    let mut machine = Machine::new(vec![RMEM, R0, 8, SET, REGISTER_OFFSET + 7, SET, JMP, R0, 32775]);
    assert!(matches!(machine.run(), RunState::Error(_)));
}

#[test]
fn output_that_is_no_character_is_an_error() {
    let mut machine = Machine::new(vec![RMEM, R0, 5, OUT, R0, 55296]);
    assert!(matches!(machine.run(), RunState::Error(_)));
}

#[test]
fn output_is_flushed_before_halt() {
    let mut machine = Machine::new(vec![OUT, 'A' as u16, HALT]);
    assert_eq!(*machine.run(), RunState::BufferedOutput(String::from("A")));
    assert_eq!(*machine.run(), RunState::Halt);
    assert_eq!(*machine.run(), RunState::Halt);
}

#[test]
fn flush_output_buffer_hands_over_pending_text() {
    let mut machine = Machine::new(vec![OUT, 'o' as u16, OUT, 'k' as u16, HALT]);
    assert_eq!(*machine.run_once(), RunState::Continue);
    assert_eq!(*machine.run_once(), RunState::Continue);
    assert_eq!(machine.flush_output_buffer(), "ok");
    assert_eq!(machine.flush_output_buffer(), "");
    assert_eq!(*machine.run(), RunState::Halt);
}

#[test]
fn input_is_awaited_then_consumed() {
    let mut machine = Machine::new(vec![IN, R0, IN, R1, OUT, R1, OUT, R0, HALT]);
    assert_eq!(*machine.run(), RunState::InputNeeded);
    assert_eq!(*machine.run(), RunState::InputNeeded);
    machine.push_input("a");
    assert_eq!(*machine.run(), RunState::InputNeeded);
    assert_eq!(machine.registers()[0], 'a' as u16);
    machine.push_input("b");
    assert_eq!(*machine.run(), RunState::BufferedOutput(String::from("ba")));
    assert_eq!(*machine.run(), RunState::Halt);
}

#[test]
fn stack_call_and_jumps() {
    let program = vec![
        PUSH, 7, // 0
        CALL, 9, // 2
        POP, R1, // 4
        HALT, // 6
        NOOP, NOOP, // 7
        POP, R0, // 9: the return address
        PUSH, R0, // 11
        JT, 0, 20, // 13: not taken
        JF, 0, 20, // 16: taken
        HALT, // 19
        RET, // 20
    ];
    let machine = run_to_end(program);
    assert_eq!(machine.registers()[0], 4);
    assert_eq!(machine.registers()[1], 7);
}

#[test]
fn memory_reads_and_writes() {
    let machine = run_to_end(vec![WMEM, 100, 42, RMEM, R0, 100, HALT]);
    assert_eq!(machine.memory()[100], 42);
    assert_eq!(machine.registers()[0], 42);
}

#[test]
fn new_machine_is_zero_filled() {
    let machine = Machine::new(vec![HALT, 5]);
    assert_eq!(machine.memory().len(), 32776);
    assert_eq!(machine.memory()[..3], [HALT, 5, 0]);
    assert_eq!(machine.registers(), [0; 8]);
}

#[test]
fn decode_failure_names_position_and_word() {
    let mut machine = Machine::new(vec![RMEM, R0, 8, SET, REGISTER_OFFSET + 7, SET, JMP, R0, 32775]);
    let expected = RunState::Error(String::from("could not parse instruction at 32775: 1"));
    assert_eq!(*machine.run(), expected);
    assert_eq!(*machine.run_once(), expected);
    assert_eq!(machine.flush_output_buffer(), "");
    assert_eq!(*machine.run_once(), expected);

    let mut machine = Machine::new(vec![RMEM, R0, 5, JMP, R0, 40000]);
    assert_eq!(
        *machine.run(),
        RunState::Error(String::from("could not parse instruction at 40000"))
    );
}
