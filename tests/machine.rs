use synacore::machine::{Machine, RunState, REGISTER_OFFSET};
use synacore::parse::{ADD, HALT, NOOP, OUT, SET};

#[test]
fn test_simple_program() {
    let program = vec![
        // Add contents of register 1 (0) and 4, store the result in register 0
        ADD, REGISTER_OFFSET, REGISTER_OFFSET + 1, 4,
        // Print the value contained in register 0 (4)
        OUT, REGISTER_OFFSET,
    ];

    let mut machine = Machine::new(program);

    let run_state = machine.run();

    let expected = RunState::BufferedOutput(format!("{}", char::from_u32(4).unwrap()));
    assert_eq!(*run_state, expected);

    assert_eq!(machine.memory()[32768], 4);
}

#[test]
fn test_print_a() {
    let program = vec![
        // Set register 1 to 61
        SET, REGISTER_OFFSET + 1, 61,
        // Add contents of register 1 (61) and 4, store the result in register 0
        ADD, REGISTER_OFFSET, REGISTER_OFFSET + 1, 4,
        // Print the value contained in register 0 (65)
        OUT, REGISTER_OFFSET,
    ];

    let mut machine = Machine::new(program);

    let run_state = machine.run();

    let expected = RunState::BufferedOutput(String::from("A"));
    assert_eq!(*run_state, expected);

    assert_eq!(machine.memory()[32768], 65);
}

#[test]
fn test_print_hello_world() {
    let program = vec![
        OUT, 'H' as u16,
        OUT, 'e' as u16,
        OUT, 'l' as u16,
        OUT, 'l' as u16,
        OUT, 'o' as u16,
        OUT, ' ' as u16,
        OUT, 'W' as u16,
        OUT, 'o' as u16,
        OUT, 'r' as u16,
        OUT, 'l' as u16,
        OUT, 'd' as u16,
    ];

    let mut machine = Machine::new(program);

    let run_state = machine.run();

    let expected = RunState::BufferedOutput(String::from("Hello World"));
    assert_eq!(*run_state, expected);
}

#[test]
fn test_print_multiple() {
    let program = vec![
        OUT, 'H' as u16,
        OUT, 'e' as u16,
        OUT, 'l' as u16,
        OUT, 'l' as u16,
        OUT, 'o' as u16,
        NOOP,
        OUT, 'W' as u16,
        OUT, 'o' as u16,
        OUT, 'r' as u16,
        OUT, 'l' as u16,
        OUT, 'd' as u16,
    ];

    let mut machine = Machine::new(program);

    let run_state = machine.run();

    let expected = RunState::BufferedOutput(String::from("Hello"));
    assert_eq!(*run_state, expected);

    let run_state = machine.run();

    let expected = RunState::BufferedOutput(String::from("World"));
    assert_eq!(*run_state, expected);
}

#[test]
fn test_halt() {
    let program = vec![
        // Set register 0 to 65
        SET, REGISTER_OFFSET, 65,
        // Print the value contained in register 0 (65)
        OUT, REGISTER_OFFSET,
        // Halt
        HALT,
        // Add 1 to contents of register 0. This should not be executed
        ADD, REGISTER_OFFSET, REGISTER_OFFSET, 1,
        // Print the value contained in register 0 (66). This should not be executed
        OUT, REGISTER_OFFSET,
    ];

    let mut machine = Machine::new(program);

    let run_state = machine.run();

    let expected = RunState::BufferedOutput(String::from("A"));
    assert_eq!(*run_state, expected);

    assert_eq!(machine.memory()[32768], 65);
}

#[test]
fn test_set() {
    // Set register 0
    let program = vec![SET, REGISTER_OFFSET, 61];
    let mut machine = Machine::new(program);
    machine.run();
    assert_eq!(machine.registers(), [61, 0, 0, 0, 0, 0, 0, 0]);
    assert_eq!(machine.memory()[32768], 61);

    // Set register 1
    let program = vec![SET, REGISTER_OFFSET + 1, 61];
    let mut machine = Machine::new(program);
    machine.run();
    assert_eq!(machine.registers(), [0, 61, 0, 0, 0, 0, 0, 0]);
    assert_eq!(machine.memory()[32768 + 1], 61);

    // Set register 2
    let program = vec![SET, REGISTER_OFFSET + 2, 61];
    let mut machine = Machine::new(program);
    machine.run();
    assert_eq!(machine.registers(), [0, 0, 61, 0, 0, 0, 0, 0]);
    assert_eq!(machine.memory()[32768 + 2], 61);

    // Set register 3
    let program = vec![SET, REGISTER_OFFSET + 3, 61];
    let mut machine = Machine::new(program);
    machine.run();
    assert_eq!(machine.registers(), [0, 0, 0, 61, 0, 0, 0, 0]);
    assert_eq!(machine.memory()[32768 + 3], 61);

    // Set register 4
    let program = vec![SET, REGISTER_OFFSET + 4, 61];
    let mut machine = Machine::new(program);
    machine.run();
    assert_eq!(machine.registers(), [0, 0, 0, 0, 61, 0, 0, 0]);
    assert_eq!(machine.memory()[32768 + 4], 61);

    // Set register 5
    let program = vec![SET, REGISTER_OFFSET + 5, 61];
    let mut machine = Machine::new(program);
    machine.run();
    assert_eq!(machine.registers(), [0, 0, 0, 0, 0, 61, 0, 0]);
    assert_eq!(machine.memory()[32768 + 5], 61);

    // Set register 6
    let program = vec![SET, REGISTER_OFFSET + 6, 61];
    let mut machine = Machine::new(program);
    machine.run();
    assert_eq!(machine.registers(), [0, 0, 0, 0, 0, 0, 61, 0]);
    assert_eq!(machine.memory()[32768 + 6], 61);

    // Set register 7
    let program = vec![SET, REGISTER_OFFSET + 7, 61];
    let mut machine = Machine::new(program);
    machine.run();
    assert_eq!(machine.registers(), [0, 0, 0, 0, 0, 0, 0, 61]);
    assert_eq!(machine.memory()[32768 + 7], 61);

    // Attempt to set an invalid register 8
    let program = vec![SET, REGISTER_OFFSET + 8, 61];
    let mut machine = Machine::new(program);
    machine.run();
    assert_eq!(machine.registers(), [0, 0, 0, 0, 0, 0, 0, 0]);
    assert_eq!(machine.memory().get(32768 + 8), None);

    // Attempt to set an invalid register -1
    let program = vec![SET, REGISTER_OFFSET - 1, 61];
    let mut machine = Machine::new(program);
    machine.run();
    assert_eq!(machine.registers(), [0, 0, 0, 0, 0, 0, 0, 0]);
    assert_eq!(machine.memory().get(32768 + 8), None);
}
