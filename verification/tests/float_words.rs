//! Word-level float behaviour: bit-pattern round trips and the float
//! instruction family driven from the host's float domain.

use karma_vm::machine::{ExecStatus, NodeMachine, OutEvent};
use karma_vm::words::{word_from_be_bytes, word_to_be_bytes};

#[test]
fn float_reinterpretation_roundtrip_is_bitwise() {
    // Reinterpreting a word as a float and back yields the word, bit for
    // bit, including NaN and infinity patterns.
    let words: [u32; 10] = [
        0x0000_0000,
        0x8000_0000,
        0x3FC0_0000,
        0x4000_0000,
        0x7F80_0000,
        0xFF80_0000,
        0x7FC0_0000,
        0x7F80_0001,
        0xDEAD_BEEF,
        0x0000_0001,
    ];
    for w in words {
        let f = f32::from_be_bytes(w.to_be_bytes());
        assert_eq!(u32::from_be_bytes(f.to_be_bytes()), w);
        assert_eq!(f32::from_bits(w).to_bits(), w);
    }
}

#[test]
fn big_endian_word_codec_roundtrip() {
    assert_eq!(word_from_be_bytes(0x12, 0x34, 0x56, 0x78), 0x1234_5678);
    assert_eq!(word_to_be_bytes(0x1234_5678), (0x12, 0x34, 0x56, 0x78));
    assert_eq!(word_from_be_bytes(0xFF, 0x00, 0xFF, 0x00), 0xFF00_FF00);
    let (b0, b1, b2, b3) = word_to_be_bytes(0xDEAD_BEEF);
    assert_eq!(word_from_be_bytes(b0, b1, b2, b3), 0xDEAD_BEEF);
}

fn run_with_floats(code: Vec<u8>) -> (NodeMachine, ExecStatus) {
    let mut m = NodeMachine::new(code);
    loop {
        match m.execute(1_000_000) {
            ExecStatus::Running => continue,
            ExecStatus::FloatValue { op, a, b } => {
                let x = f32::from_bits(a);
                let y = f32::from_bits(b);
                let r = match op {
                    0x31 => x + y,
                    0x33 => x - y,
                    0x35 => x * y,
                    _ => x / y,
                };
                m.resume_float_value(r.to_bits());
            }
            ExecStatus::FloatTest { op, a, b } => {
                let x = f32::from_bits(a);
                let y = f32::from_bits(b);
                let t = match op {
                    0x5C => x == y,
                    0x5D => x != y,
                    0x5E => x < y,
                    0x5F => x <= y,
                    0x60 => x > y,
                    _ => x >= y,
                };
                m.resume_float_test(t);
            }
            status => return (m, status),
        }
    }
}

fn float_program(a: f32, b: f32, op: u8) -> Vec<u8> {
    let mut code = vec![0x11];
    code.extend_from_slice(&a.to_be_bytes());
    code.push(0x11);
    code.extend_from_slice(&b.to_be_bytes());
    code.push(op);
    code
}

#[test]
fn float_addition() {
    let (m, status) = run_with_floats(float_program(1.5, 2.25, 0x31));
    assert_eq!(status, ExecStatus::Completed);
    assert_eq!(m.stack, vec![3.75f32.to_bits()]);
}

#[test]
fn float_subtraction() {
    let (m, status) = run_with_floats(float_program(1.0, 0.75, 0x33));
    assert_eq!(status, ExecStatus::Completed);
    assert_eq!(m.stack, vec![0.25f32.to_bits()]);
}

#[test]
fn float_division_by_zero_gives_infinity() {
    let (m, status) = run_with_floats(float_program(1.0, 0.0, 0x37));
    assert_eq!(status, ExecStatus::Completed);
    assert_eq!(m.stack, vec![f32::INFINITY.to_bits()]);
}

#[test]
fn float_comparisons() {
    let cases: [(f32, f32, u8, u32); 6] = [
        (1.5, 2.0, 0x5E, 1),
        (2.0, 2.0, 0x5C, 1),
        (2.0, 2.0, 0x5D, 0),
        (1.5, 2.0, 0x5F, 1),
        (1.5, 2.0, 0x60, 0),
        (2.0, 2.0, 0x61, 1),
    ];
    for (a, b, op, expected) in cases {
        let (m, status) = run_with_floats(float_program(a, b, op));
        assert_eq!(status, ExecStatus::Completed);
        assert_eq!(m.stack, vec![expected]);
    }
}

#[test]
fn float_comparison_with_nan_is_false() {
    let (m, status) = run_with_floats(float_program(f32::NAN, 1.0, 0x5E));
    assert_eq!(status, ExecStatus::Completed);
    assert_eq!(m.stack, vec![0]);
    let (m2, status2) = run_with_floats(float_program(f32::NAN, f32::NAN, 0x5D));
    assert_eq!(status2, ExecStatus::Completed);
    assert_eq!(m2.stack, vec![1]);
}

#[test]
fn float_instruction_reports_its_operands() {
    let mut m = NodeMachine::new(float_program(1.5, 2.0, 0x35));
    match m.execute(1_000_000) {
        ExecStatus::FloatValue { op, a, b } => {
            assert_eq!(op, 0x35);
            assert_eq!(a, 1.5f32.to_bits());
            assert_eq!(b, 2.0f32.to_bits());
        }
        other => panic!("expected a float pause, got {:?}", other),
    }
    // The pause leaves the machine unchanged: the operands are still there.
    assert_eq!(m.stack, vec![1.5f32.to_bits(), 2.0f32.to_bits()]);
    assert_eq!(m.pc, 10);
    m.resume_float_value(3.0f32.to_bits());
    assert_eq!(m.stack, vec![3.0f32.to_bits()]);
    assert_eq!(m.pc, 11);
    assert_eq!(m.execute(1_000_000), ExecStatus::Completed);
    assert_eq!(m.output, Vec::<OutEvent>::new());
}
