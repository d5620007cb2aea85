//! Single instructions and small programs, one opcode family at a time.

use karma_vm::machine::{ExecStatus, NodeMachine, OutEvent, VmFault};

fn run_plain(code: Vec<u8>) -> (NodeMachine, ExecStatus) {
    let mut m = NodeMachine::new(code);
    let status = m.execute(1_000_000);
    assert_ne!(status, ExecStatus::Running);
    (m, status)
}

#[test]
fn push_word_literal() {
    let (m, status) = run_plain(vec![0x10, 0x12, 0x34, 0x56, 0x78]);
    assert_eq!(status, ExecStatus::Completed);
    assert_eq!(m.stack, vec![0x12345678]);
    assert_eq!(m.pc, 5);
}

#[test]
fn push_byte_literal() {
    let (m, status) = run_plain(vec![0x14, 0x07, 0x15, 0xFF]);
    assert_eq!(status, ExecStatus::Completed);
    assert_eq!(m.stack, vec![7, 255]);
}

#[test]
fn drop_discards_top() {
    let (m, status) = run_plain(vec![0x14, 0x07, 0x12]);
    assert_eq!(status, ExecStatus::Completed);
    assert_eq!(m.stack, Vec::<u32>::new());
}

#[test]
fn drop_on_empty_stack_faults() {
    let (_, status) = run_plain(vec![0x12]);
    assert_eq!(status, ExecStatus::Fault(VmFault::StackUnderflow));
}

#[test]
fn push_pc_relative_address() {
    let (m, status) = run_plain(vec![0x26, 0x13, 0x00, 0x00, 0x00, 0x0B]);
    assert_eq!(status, ExecStatus::Completed);
    // The address instruction sits at offset 1, so it pushes 1 + 11.
    assert_eq!(m.stack, vec![12]);
}

#[test]
fn wrapping_add() {
    let (m, status) = run_plain(vec![
        0x10, 0xFF, 0xFF, 0xFF, 0xFF, 0x10, 0x00, 0x00, 0x00, 0x01, 0x30,
    ]);
    assert_eq!(status, ExecStatus::Completed);
    assert_eq!(m.stack, vec![0]);
}

#[test]
fn wrapping_sub() {
    let (m, status) = run_plain(vec![
        0x10, 0x00, 0x00, 0x00, 0x00, 0x10, 0x00, 0x00, 0x00, 0x01, 0x32,
    ]);
    assert_eq!(status, ExecStatus::Completed);
    assert_eq!(m.stack, vec![0xFFFF_FFFF]);
}

#[test]
fn wrapping_mul() {
    let (m, status) = run_plain(vec![
        0x10, 0x80, 0x00, 0x00, 0x01, 0x10, 0x00, 0x00, 0x00, 0x02, 0x34,
    ]);
    assert_eq!(status, ExecStatus::Completed);
    assert_eq!(m.stack, vec![2]);
}

#[test]
fn integer_division() {
    let (m, status) = run_plain(vec![
        0x10, 0x00, 0x00, 0x00, 0x07, 0x10, 0x00, 0x00, 0x00, 0x02, 0x36,
    ]);
    assert_eq!(status, ExecStatus::Completed);
    assert_eq!(m.stack, vec![3]);
}

#[test]
fn division_by_zero_faults() {
    let (m, status) = run_plain(vec![
        0x10, 0x00, 0x00, 0x00, 0x07, 0x10, 0x00, 0x00, 0x00, 0x00, 0x36,
    ]);
    assert_eq!(status, ExecStatus::Fault(VmFault::DivideByZero));
    // The fault leaves the machine as it was before the instruction.
    assert_eq!(m.stack, vec![7, 0]);
    assert_eq!(m.pc, 10);
}

#[test]
fn duplicate_arithmetic_opcodes() {
    let (m, status) = run_plain(vec![
        0x10, 0x00, 0x00, 0x00, 0x05, 0x10, 0x00, 0x00, 0x00, 0x03, 0x38,
    ]);
    assert_eq!(status, ExecStatus::Completed);
    assert_eq!(m.stack, vec![8]);
    let (m2, status2) = run_plain(vec![
        0x10, 0x00, 0x00, 0x00, 0x05, 0x10, 0x00, 0x00, 0x00, 0x03, 0x39,
    ]);
    assert_eq!(status2, ExecStatus::Completed);
    assert_eq!(m2.stack, vec![2]);
}

#[test]
fn integer_comparisons() {
    // 2 < 3, 3 <= 3, 4 > 5, 4 >= 4, 2 == 2, 2 != 2.
    let cases: Vec<(u32, u32, u8, u32)> = vec![
        (2, 3, 0x54, 1),
        (3, 3, 0x55, 1),
        (4, 5, 0x56, 0),
        (4, 4, 0x57, 1),
        (2, 2, 0x52, 1),
        (2, 2, 0x53, 0),
    ];
    for (a, b, op, expected) in cases {
        let mut code = vec![0x10];
        code.extend_from_slice(&a.to_be_bytes());
        code.push(0x10);
        code.extend_from_slice(&b.to_be_bytes());
        code.push(op);
        let (m, status) = run_plain(code);
        assert_eq!(status, ExecStatus::Completed);
        assert_eq!(m.stack, vec![expected]);
    }
}

#[test]
fn logical_and_or() {
    let (m, status) = run_plain(vec![0x14, 0x01, 0x14, 0x00, 0x58]);
    assert_eq!(status, ExecStatus::Completed);
    assert_eq!(m.stack, vec![0]);
    let (m2, status2) = run_plain(vec![0x14, 0x01, 0x14, 0x00, 0x59]);
    assert_eq!(status2, ExecStatus::Completed);
    assert_eq!(m2.stack, vec![1]);
}

#[test]
fn boolean_equality_normalizes_to_one() {
    // 2 is not the word for true, so 2 and 1 compare unequal as booleans.
    let (m, status) = run_plain(vec![0x14, 0x02, 0x14, 0x01, 0x62]);
    assert_eq!(status, ExecStatus::Completed);
    assert_eq!(m.stack, vec![0]);
    let (m2, status2) = run_plain(vec![0x14, 0x02, 0x14, 0x01, 0x63]);
    assert_eq!(status2, ExecStatus::Completed);
    assert_eq!(m2.stack, vec![1]);
}

#[test]
fn branch_if_nonzero_taken() {
    // Branch over a push; only the second push runs.
    let (m, status) = run_plain(vec![
        0x14, 0x01, 0x50, 0x00, 0x00, 0x00, 0x0C, 0x14, 0x11, 0x14, 0x22, 0x26, 0x14, 0x33,
    ]);
    assert_eq!(status, ExecStatus::Completed);
    assert_eq!(m.stack, vec![0x33]);
}

#[test]
fn branch_if_nonzero_untaken_advances_past_operand() {
    let (m, status) = run_plain(vec![0x14, 0x00, 0x50, 0x00, 0x00, 0x00, 0x09, 0x14, 0x11]);
    assert_eq!(status, ExecStatus::Completed);
    assert_eq!(m.stack, vec![0x11]);
}

#[test]
fn unconditional_jump_lands_on_target() {
    let (m, status) = run_plain(vec![0x5A, 0x00, 0x00, 0x00, 0x07, 0x14, 0x11, 0x14, 0x22]);
    assert_eq!(status, ExecStatus::Completed);
    assert_eq!(m.stack, vec![0x22]);
}

#[test]
fn jump_to_address_zero_faults() {
    let (_, status) = run_plain(vec![0x5A, 0x00, 0x00, 0x00, 0x00]);
    assert_eq!(status, ExecStatus::Fault(VmFault::JumpTargetZero));
}

#[test]
fn return_with_value_on_single_word_halts() {
    let (m, status) = run_plain(vec![0x10, 0x00, 0x00, 0x00, 0x05, 0x5B]);
    assert_eq!(status, ExecStatus::Completed);
    assert_eq!(m.stack, vec![5]);
}

#[test]
fn return_on_empty_stack_halts() {
    let (m, status) = run_plain(vec![0x64, 0x14, 0x07]);
    assert_eq!(status, ExecStatus::Completed);
    assert_eq!(m.stack, Vec::<u32>::new());
}

#[test]
fn reserve_zero_fills_memory() {
    let (m, status) = run_plain(vec![0x20, 0x00, 0x00, 0x00, 0x03]);
    assert_eq!(status, ExecStatus::Completed);
    assert_eq!(m.memory, vec![0; 7]);
    let (m2, status2) = run_plain(vec![0x28, 0x00, 0x00, 0x00, 0x05]);
    assert_eq!(status2, ExecStatus::Completed);
    assert_eq!(m2.memory, vec![0; 6]);
}

#[test]
fn reserve_never_shrinks_memory() {
    let (m, status) = run_plain(vec![
        0x20, 0x00, 0x00, 0x00, 0x08, 0x20, 0x00, 0x00, 0x00, 0x00,
    ]);
    assert_eq!(status, ExecStatus::Completed);
    assert_eq!(m.memory.len(), 12);
}

#[test]
fn store_and_load_byte() {
    let (m, status) = run_plain(vec![
        0x28, 0x00, 0x00, 0x00, 0x05, 0x10, 0x00, 0x00, 0x01, 0xCD, 0x2A, 0x00, 0x00, 0x00, 0x05,
        0x29, 0x00, 0x00, 0x00, 0x05,
    ]);
    assert_eq!(status, ExecStatus::Completed);
    // Only the low byte of the stored word lands in memory.
    assert_eq!(m.memory[5], 0xCD);
    assert_eq!(m.stack, vec![0xCD]);
}

#[test]
fn load_from_unallocated_memory_faults() {
    let (_, status) = run_plain(vec![0x22, 0x00, 0x00, 0x00, 0x00]);
    assert_eq!(status, ExecStatus::Fault(VmFault::MemoryOutOfBounds));
}

#[test]
fn truncated_operand_faults() {
    let (_, status) = run_plain(vec![0x10, 0x00, 0x00]);
    assert_eq!(status, ExecStatus::Fault(VmFault::OperandOutOfBounds));
}

#[test]
fn pop_from_empty_stack_faults() {
    let (_, status) = run_plain(vec![0x30]);
    assert_eq!(status, ExecStatus::Fault(VmFault::StackUnderflow));
}

#[test]
fn array_reserve_store_and_load() {
    // An array of two 4-byte elements at address 0; store 7 at index 1 and
    // load it back.
    let (m, status) = run_plain(vec![
        0x80, 0x00, 0x00, 0x00, 0x00, 0x04, 0x00, 0x00, 0x00, 0x02, 0x10, 0x00, 0x00, 0x00, 0x07,
        0x10, 0x00, 0x00, 0x00, 0x01, 0x87, 0x00, 0x00, 0x00, 0x00, 0x10, 0x00, 0x00, 0x00, 0x01,
        0x82, 0x00, 0x00, 0x00, 0x00,
    ]);
    assert_eq!(status, ExecStatus::Completed);
    assert_eq!(m.memory.len(), 8);
    assert_eq!(m.stack, vec![7]);
    assert_eq!(&m.memory[4..8], &[0, 0, 0, 7]);
}

#[test]
fn byte_array_store_and_load() {
    let (m, status) = run_plain(vec![
        0x80, 0x00, 0x00, 0x00, 0x00, 0x01, 0x00, 0x00, 0x00, 0x04, 0x10, 0x00, 0x00, 0x00, 0x61,
        0x10, 0x00, 0x00, 0x00, 0x03, 0x89, 0x00, 0x00, 0x00, 0x00, 0x10, 0x00, 0x00, 0x00, 0x03,
        0x84, 0x00, 0x00, 0x00, 0x00,
    ]);
    assert_eq!(status, ExecStatus::Completed);
    assert_eq!(m.memory.len(), 4);
    assert_eq!(m.stack, vec![0x61]);
}

#[test]
fn array_access_outside_allocation_faults() {
    let (_, status) = run_plain(vec![
        0x80, 0x00, 0x00, 0x00, 0x00, 0x04, 0x00, 0x00, 0x00, 0x01, 0x10, 0x00, 0x00, 0x00, 0x01,
        0x82, 0x00, 0x00, 0x00, 0x00,
    ]);
    assert_eq!(status, ExecStatus::Fault(VmFault::MemoryOutOfBounds));
}

#[test]
fn print_records_events_in_program_order() {
    let (m, status) = run_plain(vec![
        0x14, 0x41, 0x93, 0x14, 0x01, 0x92, 0x14, 0x00, 0x92, 0x10, 0x00, 0x00, 0x00, 0x2A, 0x90,
    ]);
    assert_eq!(status, ExecStatus::Completed);
    assert_eq!(
        m.output,
        vec![
            OutEvent::Char(0x41),
            OutEvent::Bool(true),
            OutEvent::Bool(false),
            OutEvent::Int(42),
        ]
    );
}

#[test]
fn reserved_opcodes_do_nothing() {
    let (m, status) = run_plain(vec![0x26, 0x27, 0x14, 0x05]);
    assert_eq!(status, ExecStatus::Completed);
    assert_eq!(m.stack, vec![5]);
    assert_eq!(m.memory, Vec::<u8>::new());
}

#[test]
fn fuel_runs_out_while_runnable() {
    // An infinite loop: the jump at offset 1 targets itself forever.
    let mut m = NodeMachine::new(vec![0x26, 0x5A, 0x00, 0x00, 0x00, 0x01]);
    let status = m.execute(1000);
    assert_eq!(status, ExecStatus::Running);
}

#[test]
fn empty_program_completes_at_once() {
    let (m, status) = run_plain(vec![]);
    assert_eq!(status, ExecStatus::Completed);
    assert_eq!(m.pc, 0);
    assert_eq!(m.stack, Vec::<u32>::new());
    assert_eq!(m.output, Vec::<OutEvent>::new());
}
