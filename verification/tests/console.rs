use brainfuck::console::Console;
use brainfuck::interpreter::Operation;
use brainfuck::memory::{EvalError, Memory};

#[test]
fn new_console_has_consumed_and_written_nothing() {
    let console = Console::new(b"abc".to_vec());
    assert_eq!(console.input, b"abc".to_vec());
    assert_eq!(console.position, 0);
    assert!(console.output.is_empty());
}

#[test]
fn read_line_keeps_the_first_byte_of_each_line() {
    let mut console = Console::new(b"ab\ncd\n".to_vec());
    assert_eq!(console.read_line(), Some(b'a'));
    assert_eq!(console.position, 3);
    assert_eq!(console.read_line(), Some(b'c'));
    assert_eq!(console.position, 6);
    assert_eq!(console.read_line(), None);
    assert_eq!(console.position, 6);
}

#[test]
fn read_line_takes_a_last_line_without_newline() {
    let mut console = Console::new(b"x\nyz".to_vec());
    assert_eq!(console.read_line(), Some(b'x'));
    assert_eq!(console.read_line(), Some(b'y'));
    assert_eq!(console.position, 4);
    assert_eq!(console.read_line(), None);
}

#[test]
fn read_line_of_an_empty_line_gives_the_newline() {
    let mut console = Console::new(b"\nq\n".to_vec());
    assert_eq!(console.read_line(), Some(10));
    assert_eq!(console.position, 1);
    assert_eq!(console.read_line(), Some(b'q'));
}

#[test]
fn emit_appends_in_order() {
    let mut console = Console::new(Vec::new());
    console.emit(1);
    console.emit(2);
    console.emit(255);
    assert_eq!(console.output, vec![1, 2, 255]);
    assert_eq!(console.position, 0);
}

#[test]
fn print_writes_the_low_eight_bits() {
    let mut memory = Memory::new(2);
    let mut console = Console::new(Vec::new());
    memory.write(321);
    Operation::print(&memory, &mut console);
    memory.write(256);
    Operation::print(&memory, &mut console);
    memory.write(255);
    Operation::print(&memory, &mut console);
    assert_eq!(console.output, vec![65, 0, 255]);
    assert_eq!(memory.read(), 255);
}

#[test]
fn scan_stores_the_first_byte_of_a_line() {
    let mut memory = Memory::new(2);
    let mut console = Console::new(b"hello\nworld\n".to_vec());
    assert_eq!(Operation::scan(&mut memory, &mut console), Ok(()));
    assert_eq!(memory.data, vec![104, 0]);
    memory.pointer = 1;
    assert_eq!(Operation::scan(&mut memory, &mut console), Ok(()));
    assert_eq!(memory.data, vec![104, 119]);
    assert_eq!(console.position, 12);
}

#[test]
fn scan_without_input_is_refused_and_stores_nothing() {
    let mut memory = Memory::new(2);
    memory.write(77);
    let mut console = Console::new(Vec::new());
    assert_eq!(Operation::scan(&mut memory, &mut console), Err(EvalError::InputExhausted));
    assert_eq!(memory.data, vec![77, 0]);
    assert_eq!(console.position, 0);
}
