use brainfuck::interpreter::Operation;
use brainfuck::memory::{EvalError, Memory};

#[test]
fn new_memory_is_zeroed_with_cursor_at_start() {
    let memory = Memory::new(30000);
    assert_eq!(memory.pointer, 0);
    assert_eq!(memory.data.len(), 30000);
    assert!(memory.data.iter().all(|&v| v == 0));
}

#[test]
fn new_memory_of_no_cells_is_empty() {
    let memory = Memory::new(0);
    assert_eq!(memory.pointer, 0);
    assert!(memory.data.is_empty());
}

#[test]
fn written_value_is_read_back() {
    let mut memory = Memory::new(4);
    memory.write(12345);
    assert_eq!(memory.read(), 12345);
    assert_eq!(memory.data, vec![12345, 0, 0, 0]);
    memory.pointer = 2;
    assert_eq!(memory.read(), 0);
    memory.write(7);
    assert_eq!(memory.read(), 7);
    assert_eq!(memory.data, vec![12345, 0, 7, 0]);
}

#[test]
fn increment_wraps_at_the_largest_value() {
    let mut memory = Memory::new(2);
    memory.write(65535);
    Operation::inc_value(&mut memory);
    assert_eq!(memory.read(), 0);
    assert_eq!(memory.pointer, 0);
}

#[test]
fn decrement_wraps_at_zero() {
    let mut memory = Memory::new(2);
    Operation::dec_value(&mut memory);
    assert_eq!(memory.read(), 65535);
    assert_eq!(memory.data, vec![65535, 0]);
}

#[test]
fn increment_and_decrement_move_by_one() {
    let mut memory = Memory::new(3);
    memory.pointer = 1;
    Operation::inc_value(&mut memory);
    Operation::inc_value(&mut memory);
    Operation::inc_value(&mut memory);
    assert_eq!(memory.data, vec![0, 3, 0]);
    Operation::dec_value(&mut memory);
    assert_eq!(memory.data, vec![0, 2, 0]);
}

#[test]
fn move_left_at_first_cell_is_refused() {
    let mut memory = Memory::new(3);
    memory.write(9);
    assert_eq!(Operation::dec_pointer(&mut memory), Err(EvalError::OutOfBounds));
    assert_eq!(memory.pointer, 0);
    assert_eq!(memory.data, vec![9, 0, 0]);
}

#[test]
fn move_right_at_last_cell_is_refused() {
    let mut memory = Memory::new(3);
    assert_eq!(Operation::inc_pointer(&mut memory), Ok(()));
    assert_eq!(Operation::inc_pointer(&mut memory), Ok(()));
    assert_eq!(memory.pointer, 2);
    memory.write(5);
    assert_eq!(Operation::inc_pointer(&mut memory), Err(EvalError::OutOfBounds));
    assert_eq!(memory.pointer, 2);
    assert_eq!(memory.data, vec![0, 0, 5]);
}

#[test]
fn moves_inside_the_tape_succeed() {
    let mut memory = Memory::new(3);
    assert_eq!(Operation::inc_pointer(&mut memory), Ok(()));
    assert_eq!(memory.pointer, 1);
    assert_eq!(Operation::dec_pointer(&mut memory), Ok(()));
    assert_eq!(memory.pointer, 0);
}

#[test]
fn move_right_on_empty_tape_is_refused() {
    let mut memory = Memory::new(0);
    assert_eq!(Operation::inc_pointer(&mut memory), Err(EvalError::OutOfBounds));
    assert_eq!(memory.pointer, 0);
}
