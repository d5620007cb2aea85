//! The bytecode interpreter: a single node's stack machine.
//!
//! A `NodeMachine` owns one immutable bytecode image, a program counter, an
//! operand stack of untyped 32-bit words, and a flat byte-addressable linear
//! memory that grows on demand.  Its behaviour is given by the transition
//! function [`step_spec`]: one instruction per step, with the program counter
//! advanced past the opcode and its big-endian operand.  The executable
//! [`NodeMachine::step`] is proved to follow that function exactly.
//!
//! Floating-point instructions reinterpret their operands' bit patterns as
//! IEEE-754 single-precision values.  Floating-point arithmetic cannot be
//! carried out in verified code, so on such an instruction the machine pauses
//! and hands the operand bit patterns to its caller; the caller computes the
//! result in the float domain and hands it back through
//! [`NodeMachine::resume_float_value`] or [`NodeMachine::resume_float_test`],
//! whose contracts hold for every result the caller may supply.
//!
//! Printing instructions do not write anywhere: they append the printed value
//! to the machine's output record, which the host renders after the run.

use vstd::prelude::*;

use crate::words::byte_of_word;
use crate::words::word_of_bytes;

verus! {

broadcast use vstd::std_specs::vec::axiom_spec_len;

/// One recorded print: the value and the type the printing opcode gave it.
#[derive(Clone, Copy, Debug, PartialEq, Eq, Structural)]
pub enum OutEvent {
    /// A word to be printed as a signed 32-bit decimal.
    Int(u32),
    /// A word to be printed as the IEEE-754 single-precision value it encodes.
    Float(u32),
    /// A word to be printed as `true` (non-zero) or `false` (zero).
    Bool(bool),
    /// A low byte to be printed as one character.
    Char(u8),
}

/// A condition on which the machine stops instead of completing a step.
#[derive(Clone, Copy, Debug, PartialEq, Eq, Structural)]
pub enum VmFault {
    /// A pop was asked of a stack that does not hold enough words.
    StackUnderflow,
    /// An instruction's operand would run past the end of the bytecode.
    OperandOutOfBounds,
    /// A load or store lies outside the allocated memory, or an allocation
    /// does not fit in the address space.
    MemoryOutOfBounds,
    /// An integer division by zero.
    DivideByZero,
    /// A jump or return whose target is address zero, which the encoding
    /// cannot express.
    JumpTargetZero,
}

/// What one call of [`NodeMachine::step`] did.
#[derive(Clone, Copy, Debug, PartialEq, Eq, Structural)]
pub enum StepResult {
    /// The instruction completed and the machine advanced.
    Continue,
    /// A float arithmetic instruction waits for the bit pattern of its
    /// result, to be computed from the operand bit patterns `a` and `b`.
    FloatValue { op: u8, a: u32, b: u32 },
    /// A float comparison instruction waits for its boolean outcome, to be
    /// computed from the operand bit patterns `a` and `b`.
    FloatTest { op: u8, a: u32, b: u32 },
    /// The opcode is not part of the instruction set; the machine is halted.
    UnknownOpcode(u8),
    /// A fatal condition; the machine state is as before the instruction.
    Fault(VmFault),
}

/// What a bounded run of [`NodeMachine::execute`] ended on.
#[derive(Clone, Copy, Debug, PartialEq, Eq, Structural)]
pub enum ExecStatus {
    /// The program counter ran past the end of the bytecode: a normal halt.
    Completed,
    /// The step budget was used up while the machine could still run.
    Running,
    /// As [`StepResult::FloatValue`]: the caller computes the result's bit
    /// pattern and resumes.
    FloatValue { op: u8, a: u32, b: u32 },
    /// As [`StepResult::FloatTest`]: the caller computes the boolean outcome
    /// and resumes.
    FloatTest { op: u8, a: u32, b: u32 },
    /// An unrecognized opcode: the machine halted cleanly.
    UnknownOpcode(u8),
    /// A fatal condition stopped the run.
    Fault(VmFault),
}

/// The mathematical state of a node machine.
#[verifier::ext_equal]
pub struct VmState {
    /// The immutable bytecode image.
    pub code: Seq<u8>,
    /// The byte offset of the next instruction.
    pub pc: nat,
    /// The operand stack; the last element is the top.
    pub stack: Seq<u32>,
    /// The linear memory.
    pub memory: Seq<u8>,
    /// Every value printed so far, in program order.
    pub output: Seq<OutEvent>,
}

/// A single stack-based interpreter instance.
#[derive(Debug)]
pub struct NodeMachine {
    /// The immutable bytecode image loaded at construction.
    pub byte_code: Vec<u8>,
    /// The byte offset of the next instruction to fetch.
    pub pc: usize,
    /// The operand stack; the last element is the top.
    pub stack: Vec<u32>,
    /// The linear memory, initially empty, grown by allocation instructions.
    pub memory: Vec<u8>,
    /// Every value printed so far, in program order.
    pub output: Vec<OutEvent>,
}

impl View for NodeMachine {
    type V = VmState;

    open spec fn view(&self) -> VmState {
        VmState {
            code: self.byte_code@,
            pc: self.pc as nat,
            stack: self.stack@,
            memory: self.memory@,
            output: self.output@,
        }
    }
}

/// The state of a machine freshly constructed on a bytecode image.
pub open spec fn fresh_state(code: Seq<u8>) -> VmState {
    VmState {
        code,
        pc: 0,
        stack: Seq::<u32>::empty(),
        memory: Seq::<u8>::empty(),
        output: Seq::<OutEvent>::empty(),
    }
}

/// The machine can fetch another instruction.
pub open spec fn runnable(s: VmState) -> bool {
    s.pc < s.code.len()
}

/// The word encoding of a boolean: 1 for true, 0 for false.
pub open spec fn bool_word(b: bool) -> u32 {
    if b {
        1
    } else {
        0
    }
}

/// Wrap-around 32-bit addition.
pub open spec fn wrap_add(a: u32, b: u32) -> u32 {
    ((a + b) % 0x1_0000_0000) as u32
}

/// Wrap-around 32-bit subtraction.
pub open spec fn wrap_sub(a: u32, b: u32) -> u32 {
    ((a + 0x1_0000_0000 - b) % 0x1_0000_0000) as u32
}

/// Wrap-around 32-bit multiplication.
pub open spec fn wrap_mul(a: u32, b: u32) -> u32 {
    ((a * b) % 0x1_0000_0000) as u32
}

/// Unsigned 32-bit division.
pub open spec fn word_div(a: u32, b: u32) -> u32
    recommends
        b != 0,
{
    (a as int / b as int) as u32
}

/// The memory grown with zero bytes until it is `target` bytes long; a memory
/// already that long is unchanged.
pub open spec fn mem_grown(m: Seq<u8>, target: int) -> Seq<u8> {
    if target <= m.len() {
        m
    } else {
        m + Seq::new((target - m.len()) as nat, |i: int| 0u8)
    }
}

/// The big-endian word held at byte offset `a` of `m`.
pub open spec fn word_at(m: Seq<u8>, a: int) -> u32
    recommends
        0 <= a,
        a + 4 <= m.len(),
{
    word_of_bytes(m[a], m[a + 1], m[a + 2], m[a + 3])
}

/// The memory with the word `w` stored big-endian at byte offset `a`.
pub open spec fn with_word(m: Seq<u8>, a: int, w: u32) -> Seq<u8>
    recommends
        0 <= a,
        a + 4 <= m.len(),
{
    m.update(a, byte_of_word(w, 0)).update(a + 1, byte_of_word(w, 1)).update(
        a + 2,
        byte_of_word(w, 2),
    ).update(a + 3, byte_of_word(w, 3))
}

/// The instructions that pop two words and push one computed in the integer,
/// boolean or comparison domain.
pub open spec fn is_int_binop(op: u8) -> bool {
    op == 0x30 || op == 0x32 || op == 0x34 || op == 0x36 || op == 0x38 || op == 0x39 || (0x52 <= op
        && op <= 0x59) || op == 0x62 || op == 0x63
}

/// The float instructions whose result is a new bit pattern.
pub open spec fn is_float_value_op(op: u8) -> bool {
    op == 0x31 || op == 0x33 || op == 0x35 || op == 0x37
}

/// The float instructions whose result is a boolean.
pub open spec fn is_float_test_op(op: u8) -> bool {
    0x5C <= op && op <= 0x61
}

/// The memory-reserving instructions for a single value.
pub open spec fn is_reserve_op(op: u8) -> bool {
    op == 0x20 || op == 0x21 || op == 0x28 || op == 0x2C
}

/// How many bytes a reserve instruction allocates at its address.
pub open spec fn reserve_size(op: u8) -> int {
    if op == 0x20 || op == 0x21 {
        4
    } else {
        1
    }
}

/// The printing instructions.
pub open spec fn is_print_op(op: u8) -> bool {
    0x90 <= op && op <= 0x93
}

/// The output record a printing instruction appends for the popped word.
pub open spec fn print_event(op: u8, a: u32) -> OutEvent
    recommends
        is_print_op(op),
{
    if op == 0x90 {
        OutEvent::Int(a)
    } else if op == 0x91 {
        OutEvent::Float(a)
    } else if op == 0x92 {
        OutEvent::Bool(a != 0)
    } else {
        OutEvent::Char((a % 0x100) as u8)
    }
}

/// What an integer-domain binary instruction pushes for operands `a` (below)
/// and `b` (top), or nothing on a division by zero.
pub open spec fn int_binop_value(op: u8, a: u32, b: u32) -> Option<u32>
    recommends
        is_int_binop(op),
{
    if op == 0x30 || op == 0x38 {
        Some(wrap_add(a, b))
    } else if op == 0x32 || op == 0x39 {
        Some(wrap_sub(a, b))
    } else if op == 0x34 {
        Some(wrap_mul(a, b))
    } else if op == 0x36 {
        if b == 0 {
            None
        } else {
            Some(word_div(a, b))
        }
    } else if op == 0x52 {
        Some(bool_word(a == b))
    } else if op == 0x53 {
        Some(bool_word(a != b))
    } else if op == 0x54 {
        Some(bool_word(a < b))
    } else if op == 0x55 {
        Some(bool_word(a <= b))
    } else if op == 0x56 {
        Some(bool_word(a > b))
    } else if op == 0x57 {
        Some(bool_word(a >= b))
    } else if op == 0x58 {
        Some(bool_word(a != 0 && b != 0))
    } else if op == 0x59 {
        Some(bool_word(a != 0 || b != 0))
    } else if op == 0x62 {
        Some(bool_word((a == 1) == (b == 1)))
    } else {
        Some(bool_word((a == 1) != (b == 1)))
    }
}

/// The state with the same memory and output but a new program counter and
/// stack.
pub open spec fn at(s: VmState, pc: int, stack: Seq<u32>) -> VmState {
    VmState { pc: pc as nat, stack, ..s }
}

/// The pair of an unchanged state and a fault.
pub open spec fn faulted(s: VmState, f: VmFault) -> (VmState, StepResult) {
    (s, StepResult::Fault(f))
}

/// The operand word of the instruction at `s.pc`, read big-endian starting
/// `k` bytes past the opcode byte.
pub open spec fn operand(s: VmState, k: int) -> u32
    recommends
        s.pc + k + 4 <= s.code.len(),
{
    word_at(s.code, s.pc + k)
}

/// One instruction of the transition function: from a state whose program
/// counter is in bounds to the next state and what the step did.  A fault or
/// an unknown opcode leaves the state unchanged; a float instruction leaves
/// the state unchanged and reports the operands it waits on.
pub open spec fn step_spec(s: VmState) -> (VmState, StepResult)
    recommends
        runnable(s),
{
    let op = s.code[s.pc as int];
    let top = s.stack.last();
    let n = s.stack.len();
    if op == 0x10 || op == 0x11 {
        // Push a 4-byte literal (integer or float bit pattern).
        if s.pc + 5 <= s.code.len() {
            (at(s, s.pc as int + 5, s.stack.push(operand(s, 1))), StepResult::Continue)
        } else {
            faulted(s, VmFault::OperandOutOfBounds)
        }
    } else if op == 0x12 {
        // Discard the top of the stack.
        if n == 0 {
            faulted(s, VmFault::StackUnderflow)
        } else {
            (at(s, s.pc as int + 1, s.stack.drop_last()), StepResult::Continue)
        }
    } else if op == 0x13 {
        // Push a code address relative to the current program counter.
        if s.pc + 5 <= s.code.len() {
            let base = (s.pc % 0x1_0000_0000) as u32;
            (at(s, s.pc as int + 5, s.stack.push(wrap_add(base, operand(s, 1)))), StepResult::Continue)
        } else {
            faulted(s, VmFault::OperandOutOfBounds)
        }
    } else if op == 0x14 || op == 0x15 {
        // Push a 1-byte literal, zero-extended.
        if s.pc + 2 <= s.code.len() {
            (at(s, s.pc as int + 2, s.stack.push(s.code[s.pc as int + 1] as u32)), StepResult::Continue)
        } else {
            faulted(s, VmFault::OperandOutOfBounds)
        }
    } else if is_reserve_op(op) {
        // Grow the memory to hold a value at the given address.
        if s.pc + 5 <= s.code.len() {
            let target = operand(s, 1) + reserve_size(op);
            if target <= usize::MAX {
                (
                    VmState { pc: (s.pc + 5) as nat, memory: mem_grown(s.memory, target), ..s },
                    StepResult::Continue,
                )
            } else {
                faulted(s, VmFault::MemoryOutOfBounds)
            }
        } else {
            faulted(s, VmFault::OperandOutOfBounds)
        }
    } else if op == 0x22 || op == 0x23 {
        // Load the word at the given address and push it.
        if s.pc + 5 <= s.code.len() {
            let addr = operand(s, 1) as int;
            if addr + 4 <= s.memory.len() {
                (at(s, s.pc as int + 5, s.stack.push(word_at(s.memory, addr))), StepResult::Continue)
            } else {
                faulted(s, VmFault::MemoryOutOfBounds)
            }
        } else {
            faulted(s, VmFault::OperandOutOfBounds)
        }
    } else if op == 0x24 || op == 0x25 {
        // Pop a word and store it at the given address.
        if s.pc + 5 <= s.code.len() {
            let addr = operand(s, 1) as int;
            if n == 0 {
                faulted(s, VmFault::StackUnderflow)
            } else if addr + 4 <= s.memory.len() {
                (
                    VmState {
                        pc: (s.pc + 5) as nat,
                        stack: s.stack.drop_last(),
                        memory: with_word(s.memory, addr, top),
                        ..s
                    },
                    StepResult::Continue,
                )
            } else {
                faulted(s, VmFault::MemoryOutOfBounds)
            }
        } else {
            faulted(s, VmFault::OperandOutOfBounds)
        }
    } else if op == 0x26 || op == 0x27 {
        // Reserved; does nothing.
        (at(s, s.pc as int + 1, s.stack), StepResult::Continue)
    } else if op == 0x29 || op == 0x2D {
        // Load the byte at the given address, zero-extend and push it.
        if s.pc + 5 <= s.code.len() {
            let addr = operand(s, 1) as int;
            if addr < s.memory.len() {
                (at(s, s.pc as int + 5, s.stack.push(s.memory[addr] as u32)), StepResult::Continue)
            } else {
                faulted(s, VmFault::MemoryOutOfBounds)
            }
        } else {
            faulted(s, VmFault::OperandOutOfBounds)
        }
    } else if op == 0x2A || op == 0x2E {
        // Pop a word and store its low byte at the given address.
        if s.pc + 5 <= s.code.len() {
            let addr = operand(s, 1) as int;
            if n == 0 {
                faulted(s, VmFault::StackUnderflow)
            } else if addr < s.memory.len() {
                (
                    VmState {
                        pc: (s.pc + 5) as nat,
                        stack: s.stack.drop_last(),
                        memory: s.memory.update(addr, (top % 0x100) as u8),
                        ..s
                    },
                    StepResult::Continue,
                )
            } else {
                faulted(s, VmFault::MemoryOutOfBounds)
            }
        } else {
            faulted(s, VmFault::OperandOutOfBounds)
        }
    } else if is_int_binop(op) {
        // Pop two words and push the integer-domain result.
        if n < 2 {
            faulted(s, VmFault::StackUnderflow)
        } else {
            match int_binop_value(op, s.stack[n - 2], top) {
                Some(v) => (
                    at(s, s.pc as int + 1, s.stack.drop_last().drop_last().push(v)),
                    StepResult::Continue,
                ),
                None => faulted(s, VmFault::DivideByZero),
            }
        }
    } else if is_float_value_op(op) {
        // Wait for the caller to compute the float result's bit pattern.
        if n < 2 {
            faulted(s, VmFault::StackUnderflow)
        } else {
            (s, StepResult::FloatValue { op, a: s.stack[n - 2], b: top })
        }
    } else if is_float_test_op(op) {
        // Wait for the caller to compute the float comparison's outcome.
        if n < 2 {
            faulted(s, VmFault::StackUnderflow)
        } else {
            (s, StepResult::FloatTest { op, a: s.stack[n - 2], b: top })
        }
    } else if op == 0x50 || op == 0x51 {
        // Pop a word; jump to the operand address when it is non-zero (0x50)
        // or zero (0x51), else skip the operand.
        if s.pc + 5 <= s.code.len() {
            let t = operand(s, 1);
            if n == 0 {
                faulted(s, VmFault::StackUnderflow)
            } else {
                let taken = if op == 0x50 {
                    top != 0
                } else {
                    top == 0
                };
                if !taken {
                    (at(s, s.pc as int + 5, s.stack.drop_last()), StepResult::Continue)
                } else if t == 0 {
                    faulted(s, VmFault::JumpTargetZero)
                } else {
                    (at(s, t as int, s.stack.drop_last()), StepResult::Continue)
                }
            }
        } else {
            faulted(s, VmFault::OperandOutOfBounds)
        }
    } else if op == 0x5A {
        // Unconditional jump to the operand address.
        if s.pc + 5 <= s.code.len() {
            let t = operand(s, 1);
            if t == 0 {
                faulted(s, VmFault::JumpTargetZero)
            } else {
                (at(s, t as int, s.stack), StepResult::Continue)
            }
        } else {
            faulted(s, VmFault::OperandOutOfBounds)
        }
    } else if op == 0x5B {
        // Return with a value: pop it, pop the return address, jump there and
        // push the value back; with no return address on the stack, halt.
        if n == 0 {
            faulted(s, VmFault::StackUnderflow)
        } else if n == 1 {
            (VmState { pc: s.code.len(), ..s }, StepResult::Continue)
        } else {
            let raddr = s.stack[n - 2];
            if raddr == 0 {
                faulted(s, VmFault::JumpTargetZero)
            } else {
                (
                    at(s, raddr as int, s.stack.drop_last().drop_last().push(top)),
                    StepResult::Continue,
                )
            }
        }
    } else if op == 0x64 {
        // Return without a value: pop the return address and jump there; with
        // an empty stack, halt.
        if n == 0 {
            (VmState { pc: s.code.len(), ..s }, StepResult::Continue)
        } else if top == 0 {
            faulted(s, VmFault::JumpTargetZero)
        } else {
            (at(s, top as int, s.stack.drop_last()), StepResult::Continue)
        }
    } else if op == 0x80 {
        // Grow the memory to hold `count` elements of `elem` bytes each,
        // starting at the operand address.
        if s.pc + 10 <= s.code.len() {
            let target = operand(s, 1) + s.code[s.pc as int + 5] * word_at(s.code, s.pc as int + 6);
            if target <= usize::MAX {
                (
                    VmState { pc: (s.pc + 10) as nat, memory: mem_grown(s.memory, target), ..s },
                    StepResult::Continue,
                )
            } else {
                faulted(s, VmFault::MemoryOutOfBounds)
            }
        } else {
            faulted(s, VmFault::OperandOutOfBounds)
        }
    } else if op == 0x82 || op == 0x83 || op == 0x84 || op == 0x85 {
        // Pop an index and push the element at the operand address; word
        // elements have stride 4, byte elements stride 1.
        if s.pc + 5 <= s.code.len() {
            if n == 0 {
                faulted(s, VmFault::StackUnderflow)
            } else {
                let wide = op == 0x82 || op == 0x83;
                let ea = if wide {
                    operand(s, 1) + 4 * top
                } else {
                    operand(s, 1) + top
                };
                let width: int = if wide {
                    4
                } else {
                    1
                };
                if ea + width <= s.memory.len() {
                    let v = if wide {
                        word_at(s.memory, ea)
                    } else {
                        s.memory[ea] as u32
                    };
                    (at(s, s.pc as int + 5, s.stack.drop_last().push(v)), StepResult::Continue)
                } else {
                    faulted(s, VmFault::MemoryOutOfBounds)
                }
            }
        } else {
            faulted(s, VmFault::OperandOutOfBounds)
        }
    } else if op == 0x87 || op == 0x88 || op == 0x89 || op == 0x8A {
        // Pop an index, pop a value, and store the value as the element at
        // the operand address; strides as for the element loads.
        if s.pc + 5 <= s.code.len() {
            if n < 2 {
                faulted(s, VmFault::StackUnderflow)
            } else {
                let data = s.stack[n - 2];
                let wide = op == 0x87 || op == 0x88;
                let ea = if wide {
                    operand(s, 1) + 4 * top
                } else {
                    operand(s, 1) + top
                };
                let width: int = if wide {
                    4
                } else {
                    1
                };
                if ea + width <= s.memory.len() {
                    let stored = if wide {
                        with_word(s.memory, ea, data)
                    } else {
                        s.memory.update(ea, (data % 0x100) as u8)
                    };
                    (
                        VmState {
                            pc: (s.pc + 5) as nat,
                            stack: s.stack.drop_last().drop_last(),
                            memory: stored,
                            ..s
                        },
                        StepResult::Continue,
                    )
                } else {
                    faulted(s, VmFault::MemoryOutOfBounds)
                }
            }
        } else {
            faulted(s, VmFault::OperandOutOfBounds)
        }
    } else if is_print_op(op) {
        // Pop a word and record it on the output.
        if n == 0 {
            faulted(s, VmFault::StackUnderflow)
        } else {
            (
                VmState {
                    pc: (s.pc + 1) as nat,
                    stack: s.stack.drop_last(),
                    output: s.output.push(print_event(op, top)),
                    ..s
                },
                StepResult::Continue,
            )
        }
    } else {
        (s, StepResult::UnknownOpcode(op))
    }
}


/// Grows `mem` with zero bytes until it is `target` bytes long.
fn grow(mem: &mut Vec<u8>, target: usize)
    ensures
        final(mem)@ == mem_grown(old(mem)@, target as int),
{
    while mem.len() < target
        invariant
            mem@ == mem_grown(old(mem)@, mem@.len() as int),
            mem@.len() >= old(mem)@.len(),
            old(mem)@.len() < target ==> mem@.len() <= target,
            old(mem)@.len() >= target ==> mem@.len() == old(mem)@.len(),
        decreases target - mem@.len(),
    {
        mem.push(0);
        proof {
            assert(mem@ =~= mem_grown(old(mem)@, mem@.len() as int));
        }
    }
    proof {
        assert(mem@ =~= mem_grown(old(mem)@, target as int));
    }
}

/// Reads the big-endian word at byte offset `a` of `bytes`.
fn load_word(bytes: &Vec<u8>, a: usize) -> (w: u32)
    requires
        a + 4 <= bytes.len(),
    ensures
        w == word_at(bytes@, a as int),
{
    crate::words::word_from_be_bytes(bytes[a], bytes[a + 1], bytes[a + 2], bytes[a + 3])
}

/// Stores the word `w` big-endian at byte offset `a` of `mem`.
fn store_word(mem: &mut Vec<u8>, a: usize, w: u32)
    requires
        a + 4 <= old(mem).len(),
    ensures
        final(mem)@ == with_word(old(mem)@, a as int, w),
{
    let bs = crate::words::word_to_be_bytes(w);
    mem[a] = bs.0;
    mem[a + 1] = bs.1;
    mem[a + 2] = bs.2;
    mem[a + 3] = bs.3;
}

/// Wrap-around 32-bit addition, computed without overflow.
fn wrap_add_exec(a: u32, b: u32) -> (r: u32)
    ensures
        r == wrap_add(a, b),
{
    let s: u64 = a as u64 + b as u64;
    (s % 0x1_0000_0000) as u32
}

/// Wrap-around 32-bit subtraction, computed without underflow.
fn wrap_sub_exec(a: u32, b: u32) -> (r: u32)
    ensures
        r == wrap_sub(a, b),
{
    let d: u64 = a as u64 + 0x1_0000_0000 - b as u64;
    (d % 0x1_0000_0000) as u32
}

/// Wrap-around 32-bit multiplication, computed without overflow.
fn wrap_mul_exec(a: u32, b: u32) -> (r: u32)
    ensures
        r == wrap_mul(a, b),
{
    proof {
        assert((a as u64) * (b as u64) == a * b && a * b >= 0) by (nonlinear_arith);
        assert(a * b <= 0xFFFF_FFFFu64 * 0xFFFF_FFFFu64) by (nonlinear_arith)
            requires
                a <= 0xFFFF_FFFFu32 && b <= 0xFFFF_FFFFu32,
        ;
    }
    let p: u64 = a as u64 * b as u64;
    (p % 0x1_0000_0000) as u32
}

/// What an integer-domain binary instruction pushes, or `None` on a division
/// by zero.
fn eval_int_binop(op: u8, a: u32, b: u32) -> (r: Option<u32>)
    requires
        is_int_binop(op),
    ensures
        r == int_binop_value(op, a, b),
{
    match op {
        0x30 | 0x38 => Some(wrap_add_exec(a, b)),
        0x32 | 0x39 => Some(wrap_sub_exec(a, b)),
        0x34 => Some(wrap_mul_exec(a, b)),
        0x36 => if b == 0 {
            None
        } else {
            Some(a / b)
        },
        0x52 => Some(if a == b { 1 } else { 0 }),
        0x53 => Some(if a != b { 1 } else { 0 }),
        0x54 => Some(if a < b { 1 } else { 0 }),
        0x55 => Some(if a <= b { 1 } else { 0 }),
        0x56 => Some(if a > b { 1 } else { 0 }),
        0x57 => Some(if a >= b { 1 } else { 0 }),
        0x58 => Some(if a != 0 && b != 0 { 1 } else { 0 }),
        0x59 => Some(if a != 0 || b != 0 { 1 } else { 0 }),
        0x62 => Some(if (a == 1) == (b == 1) { 1 } else { 0 }),
        _ => Some(if (a == 1) != (b == 1) { 1 } else { 0 }),
    }
}

impl NodeMachine {
    /// A fresh machine on a bytecode image: the program counter at zero, the
    /// stack, memory and output empty.
    pub fn new(byte_code: Vec<u8>) -> (m: NodeMachine)
        ensures
            m@ == fresh_state(byte_code@),
    {
        NodeMachine { byte_code, pc: 0, stack: Vec::new(), memory: Vec::new(), output: Vec::new() }
    }
}


impl NodeMachine {
    /// The opcode at the current program counter.
    ///
    /// Used by the instruction handlers below; each handler requires that the
    /// opcode belongs to its family and is proved to realize [`step_spec`] on
    /// it exactly.
    /// The bytecode image fits the address space.
    proof fn code_len_bound(&self)
        ensures
            self@.code.len() <= usize::MAX,
    {
        assert(self.byte_code@.len() == vstd::std_specs::vec::spec_vec_len(&self.byte_code));
    }

    fn current_op(&self) -> (op: u8)
        requires
            runnable(self@),
        ensures
            op == self@.code[self@.pc as int],
    {
        self.byte_code[self.pc]
    }

    /// Push a 4-byte literal (0x10 integer, 0x11 float bit pattern).
    fn op_push_literal(&mut self) -> (r: StepResult)
        requires
            runnable(old(self)@),
            old(self)@.code[old(self)@.pc as int] == 0x10 || old(self)@.code[old(self)@.pc as int]
                == 0x11,
        ensures
            final(self)@ == step_spec(old(self)@).0,
            r == step_spec(old(self)@).1,
    {
        if self.byte_code.len() - self.pc >= 5 {
            let w = load_word(&self.byte_code, self.pc + 1);
            self.stack.push(w);
            self.pc = self.pc + 5;
            proof {
                assert(self@ =~= step_spec(old(self)@).0);
            }
            StepResult::Continue
        } else {
            StepResult::Fault(VmFault::OperandOutOfBounds)
        }
    }

    /// Discard the top of the stack (0x12); an empty stack is an underflow.
    fn op_drop(&mut self) -> (r: StepResult)
        requires
            runnable(old(self)@),
            old(self)@.code[old(self)@.pc as int] == 0x12,
        ensures
            final(self)@ == step_spec(old(self)@).0,
            r == step_spec(old(self)@).1,
    {
        proof {
            self.code_len_bound();
        }
        if self.stack.len() == 0 {
            return StepResult::Fault(VmFault::StackUnderflow);
        }
        let _discarded = self.stack.pop();
        self.pc = self.pc + 1;
        proof {
            assert(self@ =~= step_spec(old(self)@).0);
        }
        StepResult::Continue
    }

    /// Push a code address relative to the current program counter (0x13).
    fn op_push_addr(&mut self) -> (r: StepResult)
        requires
            runnable(old(self)@),
            old(self)@.code[old(self)@.pc as int] == 0x13,
        ensures
            final(self)@ == step_spec(old(self)@).0,
            r == step_spec(old(self)@).1,
    {
        if self.byte_code.len() - self.pc >= 5 {
            let base = (self.pc as u64 % 0x1_0000_0000) as u32;
            let w = load_word(&self.byte_code, self.pc + 1);
            self.stack.push(wrap_add_exec(base, w));
            self.pc = self.pc + 5;
            proof {
                assert(self@ =~= step_spec(old(self)@).0);
            }
            StepResult::Continue
        } else {
            StepResult::Fault(VmFault::OperandOutOfBounds)
        }
    }

    /// Push a 1-byte literal, zero-extended (0x14 bool, 0x15 char).
    fn op_push_byte(&mut self) -> (r: StepResult)
        requires
            runnable(old(self)@),
            old(self)@.code[old(self)@.pc as int] == 0x14 || old(self)@.code[old(self)@.pc as int]
                == 0x15,
        ensures
            final(self)@ == step_spec(old(self)@).0,
            r == step_spec(old(self)@).1,
    {
        if self.byte_code.len() - self.pc >= 2 {
            let data = self.byte_code[self.pc + 1] as u32;
            self.stack.push(data);
            self.pc = self.pc + 2;
            proof {
                assert(self@ =~= step_spec(old(self)@).0);
            }
            StepResult::Continue
        } else {
            StepResult::Fault(VmFault::OperandOutOfBounds)
        }
    }

    /// A reserved instruction that does nothing (0x26, 0x27).
    fn op_nop(&mut self) -> (r: StepResult)
        requires
            runnable(old(self)@),
            old(self)@.code[old(self)@.pc as int] == 0x26 || old(self)@.code[old(self)@.pc as int]
                == 0x27,
        ensures
            final(self)@ == step_spec(old(self)@).0,
            r == step_spec(old(self)@).1,
    {
        proof {
            self.code_len_bound();
        }
        self.pc = self.pc + 1;
        proof {
            assert(self@ =~= step_spec(old(self)@).0);
        }
        StepResult::Continue
    }

    /// Pop a word and record it on the output (0x90 to 0x93).
    fn op_print(&mut self) -> (r: StepResult)
        requires
            runnable(old(self)@),
            is_print_op(old(self)@.code[old(self)@.pc as int]),
        ensures
            final(self)@ == step_spec(old(self)@).0,
            r == step_spec(old(self)@).1,
    {
        proof {
            self.code_len_bound();
        }
        let op = self.current_op();
        let n = self.stack.len();
        if n == 0 {
            return StepResult::Fault(VmFault::StackUnderflow);
        }
        let a = self.stack[n - 1];
        let _discarded = self.stack.pop();
        let e = if op == 0x90 {
            OutEvent::Int(a)
        } else if op == 0x91 {
            OutEvent::Float(a)
        } else if op == 0x92 {
            OutEvent::Bool(a != 0)
        } else {
            OutEvent::Char((a % 0x100) as u8)
        };
        self.output.push(e);
        self.pc = self.pc + 1;
        proof {
            assert(self@ =~= step_spec(old(self)@).0);
        }
        StepResult::Continue
    }
}


impl NodeMachine {
    /// Grow the memory to hold one value at the operand address (0x20, 0x21,
    /// 0x28, 0x2C).
    fn op_reserve(&mut self) -> (r: StepResult)
        requires
            runnable(old(self)@),
            is_reserve_op(old(self)@.code[old(self)@.pc as int]),
        ensures
            final(self)@ == step_spec(old(self)@).0,
            r == step_spec(old(self)@).1,
    {
        let op = self.current_op();
        if self.byte_code.len() - self.pc >= 5 {
            let addr = load_word(&self.byte_code, self.pc + 1);
            let size: u64 = if op == 0x20 || op == 0x21 {
                4
            } else {
                1
            };
            let target: u64 = addr as u64 + size;
            if target <= usize::MAX as u64 {
                grow(&mut self.memory, target as usize);
                self.pc = self.pc + 5;
                proof {
                    assert(self@ =~= step_spec(old(self)@).0);
                }
                StepResult::Continue
            } else {
                StepResult::Fault(VmFault::MemoryOutOfBounds)
            }
        } else {
            StepResult::Fault(VmFault::OperandOutOfBounds)
        }
    }

    /// Load the word at the operand address and push it (0x22, 0x23).
    fn op_load_word(&mut self) -> (r: StepResult)
        requires
            runnable(old(self)@),
            old(self)@.code[old(self)@.pc as int] == 0x22 || old(self)@.code[old(self)@.pc as int]
                == 0x23,
        ensures
            final(self)@ == step_spec(old(self)@).0,
            r == step_spec(old(self)@).1,
    {
        if self.byte_code.len() - self.pc >= 5 {
            let addr = load_word(&self.byte_code, self.pc + 1);
            if addr as u64 + 4 <= self.memory.len() as u64 {
                let w = load_word(&self.memory, addr as usize);
                self.stack.push(w);
                self.pc = self.pc + 5;
                proof {
                    assert(self@ =~= step_spec(old(self)@).0);
                }
                StepResult::Continue
            } else {
                StepResult::Fault(VmFault::MemoryOutOfBounds)
            }
        } else {
            StepResult::Fault(VmFault::OperandOutOfBounds)
        }
    }

    /// Pop a word and store it at the operand address (0x24, 0x25).
    fn op_store_word(&mut self) -> (r: StepResult)
        requires
            runnable(old(self)@),
            old(self)@.code[old(self)@.pc as int] == 0x24 || old(self)@.code[old(self)@.pc as int]
                == 0x25,
        ensures
            final(self)@ == step_spec(old(self)@).0,
            r == step_spec(old(self)@).1,
    {
        if self.byte_code.len() - self.pc >= 5 {
            let addr = load_word(&self.byte_code, self.pc + 1);
            let n = self.stack.len();
            if n == 0 {
                StepResult::Fault(VmFault::StackUnderflow)
            } else if addr as u64 + 4 <= self.memory.len() as u64 {
                let data = self.stack[n - 1];
                let _discarded = self.stack.pop();
                store_word(&mut self.memory, addr as usize, data);
                self.pc = self.pc + 5;
                proof {
                    assert(self@ =~= step_spec(old(self)@).0);
                }
                StepResult::Continue
            } else {
                StepResult::Fault(VmFault::MemoryOutOfBounds)
            }
        } else {
            StepResult::Fault(VmFault::OperandOutOfBounds)
        }
    }

    /// Load the byte at the operand address, zero-extend and push it (0x29,
    /// 0x2D).
    fn op_load_byte(&mut self) -> (r: StepResult)
        requires
            runnable(old(self)@),
            old(self)@.code[old(self)@.pc as int] == 0x29 || old(self)@.code[old(self)@.pc as int]
                == 0x2D,
        ensures
            final(self)@ == step_spec(old(self)@).0,
            r == step_spec(old(self)@).1,
    {
        if self.byte_code.len() - self.pc >= 5 {
            let addr = load_word(&self.byte_code, self.pc + 1);
            if (addr as u64) < self.memory.len() as u64 {
                let data = self.memory[addr as usize] as u32;
                self.stack.push(data);
                self.pc = self.pc + 5;
                proof {
                    assert(self@ =~= step_spec(old(self)@).0);
                }
                StepResult::Continue
            } else {
                StepResult::Fault(VmFault::MemoryOutOfBounds)
            }
        } else {
            StepResult::Fault(VmFault::OperandOutOfBounds)
        }
    }

    /// Pop a word and store its low byte at the operand address (0x2A, 0x2E).
    fn op_store_byte(&mut self) -> (r: StepResult)
        requires
            runnable(old(self)@),
            old(self)@.code[old(self)@.pc as int] == 0x2A || old(self)@.code[old(self)@.pc as int]
                == 0x2E,
        ensures
            final(self)@ == step_spec(old(self)@).0,
            r == step_spec(old(self)@).1,
    {
        if self.byte_code.len() - self.pc >= 5 {
            let addr = load_word(&self.byte_code, self.pc + 1);
            let n = self.stack.len();
            if n == 0 {
                StepResult::Fault(VmFault::StackUnderflow)
            } else if (addr as u64) < self.memory.len() as u64 {
                let data = self.stack[n - 1];
                let _discarded = self.stack.pop();
                self.memory[addr as usize] = (data % 0x100) as u8;
                self.pc = self.pc + 5;
                proof {
                    assert(self@ =~= step_spec(old(self)@).0);
                }
                StepResult::Continue
            } else {
                StepResult::Fault(VmFault::MemoryOutOfBounds)
            }
        } else {
            StepResult::Fault(VmFault::OperandOutOfBounds)
        }
    }

    /// Grow the memory for an array of `count` elements of `elem` bytes at
    /// the operand address (0x80).
    fn op_array_reserve(&mut self) -> (r: StepResult)
        requires
            runnable(old(self)@),
            old(self)@.code[old(self)@.pc as int] == 0x80,
        ensures
            final(self)@ == step_spec(old(self)@).0,
            r == step_spec(old(self)@).1,
    {
        if self.byte_code.len() - self.pc >= 10 {
            let addr = load_word(&self.byte_code, self.pc + 1);
            let elem = self.byte_code[self.pc + 5] as u64;
            let count = load_word(&self.byte_code, self.pc + 6) as u64;
            proof {
                assert(elem * count <= 0xFF * 0xFFFF_FFFF) by (nonlinear_arith)
                    requires
                        elem <= 0xFF && count <= 0xFFFF_FFFF,
                ;
            }
            let target: u64 = addr as u64 + elem * count;
            if target <= usize::MAX as u64 {
                grow(&mut self.memory, target as usize);
                self.pc = self.pc + 10;
                proof {
                    assert(self@ =~= step_spec(old(self)@).0);
                }
                StepResult::Continue
            } else {
                StepResult::Fault(VmFault::MemoryOutOfBounds)
            }
        } else {
            StepResult::Fault(VmFault::OperandOutOfBounds)
        }
    }

    /// Pop an index and push the element at the operand address (0x82, 0x83
    /// with 4-byte stride; 0x84, 0x85 with 1-byte stride).
    fn op_array_load(&mut self) -> (r: StepResult)
        requires
            runnable(old(self)@),
            old(self)@.code[old(self)@.pc as int] == 0x82 || old(self)@.code[old(self)@.pc as int]
                == 0x83 || old(self)@.code[old(self)@.pc as int] == 0x84
                || old(self)@.code[old(self)@.pc as int] == 0x85,
        ensures
            final(self)@ == step_spec(old(self)@).0,
            r == step_spec(old(self)@).1,
    {
        let op = self.current_op();
        if self.byte_code.len() - self.pc >= 5 {
            let addr = load_word(&self.byte_code, self.pc + 1);
            let n = self.stack.len();
            if n == 0 {
                StepResult::Fault(VmFault::StackUnderflow)
            } else {
                let idx = self.stack[n - 1];
                let wide = op == 0x82 || op == 0x83;
                let stride: u64 = if wide {
                    4
                } else {
                    1
                };
                let ea: u64 = addr as u64 + stride * idx as u64;
                if ea + stride <= self.memory.len() as u64 {
                    let v = if wide {
                        load_word(&self.memory, ea as usize)
                    } else {
                        self.memory[ea as usize] as u32
                    };
                    let _discarded = self.stack.pop();
                    self.stack.push(v);
                    self.pc = self.pc + 5;
                    proof {
                        assert(self@ =~= step_spec(old(self)@).0);
                    }
                    StepResult::Continue
                } else {
                    StepResult::Fault(VmFault::MemoryOutOfBounds)
                }
            }
        } else {
            StepResult::Fault(VmFault::OperandOutOfBounds)
        }
    }

    /// Pop an index, pop a value, and store it as the element at the operand
    /// address (0x87, 0x88 with 4-byte stride; 0x89, 0x8A with 1-byte
    /// stride).
    fn op_array_store(&mut self) -> (r: StepResult)
        requires
            runnable(old(self)@),
            old(self)@.code[old(self)@.pc as int] == 0x87 || old(self)@.code[old(self)@.pc as int]
                == 0x88 || old(self)@.code[old(self)@.pc as int] == 0x89
                || old(self)@.code[old(self)@.pc as int] == 0x8A,
        ensures
            final(self)@ == step_spec(old(self)@).0,
            r == step_spec(old(self)@).1,
    {
        let op = self.current_op();
        if self.byte_code.len() - self.pc >= 5 {
            let addr = load_word(&self.byte_code, self.pc + 1);
            let n = self.stack.len();
            if n < 2 {
                StepResult::Fault(VmFault::StackUnderflow)
            } else {
                let idx = self.stack[n - 1];
                let data = self.stack[n - 2];
                let wide = op == 0x87 || op == 0x88;
                let stride: u64 = if wide {
                    4
                } else {
                    1
                };
                let ea: u64 = addr as u64 + stride * idx as u64;
                if ea + stride <= self.memory.len() as u64 {
                    let _discarded = self.stack.pop();
                    let _discarded2 = self.stack.pop();
                    if wide {
                        store_word(&mut self.memory, ea as usize, data);
                    } else {
                        self.memory[ea as usize] = (data % 0x100) as u8;
                    }
                    self.pc = self.pc + 5;
                    proof {
                        assert(self@ =~= step_spec(old(self)@).0);
                    }
                    StepResult::Continue
                } else {
                    StepResult::Fault(VmFault::MemoryOutOfBounds)
                }
            }
        } else {
            StepResult::Fault(VmFault::OperandOutOfBounds)
        }
    }
}


/// A float arithmetic instruction is fetched and has its two operands: the
/// machine waits for the result's bit pattern.
pub open spec fn float_value_pending(s: VmState) -> bool {
    runnable(s) && is_float_value_op(s.code[s.pc as int]) && s.stack.len() >= 2
}

/// A float comparison instruction is fetched and has its two operands: the
/// machine waits for the boolean outcome.
pub open spec fn float_test_pending(s: VmState) -> bool {
    runnable(s) && is_float_test_op(s.code[s.pc as int]) && s.stack.len() >= 2
}

/// The state after a paused float instruction resumes with the result word
/// `w`: both operands popped, `w` pushed, the program counter advanced.
pub open spec fn float_resume(s: VmState, w: u32) -> VmState
    recommends
        s.stack.len() >= 2,
{
    VmState { pc: (s.pc + 1) as nat, stack: s.stack.drop_last().drop_last().push(w), ..s }
}

impl NodeMachine {
    /// Pop two words and push the integer-domain result (arithmetic,
    /// comparison, boolean instructions).
    fn op_int_binop(&mut self) -> (r: StepResult)
        requires
            runnable(old(self)@),
            is_int_binop(old(self)@.code[old(self)@.pc as int]),
        ensures
            final(self)@ == step_spec(old(self)@).0,
            r == step_spec(old(self)@).1,
    {
        proof {
            self.code_len_bound();
        }
        let op = self.current_op();
        let n = self.stack.len();
        if n < 2 {
            return StepResult::Fault(VmFault::StackUnderflow);
        }
        let b = self.stack[n - 1];
        let a = self.stack[n - 2];
        match eval_int_binop(op, a, b) {
            None => StepResult::Fault(VmFault::DivideByZero),
            Some(v) => {
                let _discarded = self.stack.pop();
                let _discarded2 = self.stack.pop();
                self.stack.push(v);
                self.pc = self.pc + 1;
                proof {
                    assert(self@ =~= step_spec(old(self)@).0);
                }
                StepResult::Continue
            },
        }
    }

    /// Fetch a float instruction's operands and pause for the caller to
    /// compute in the float domain.
    fn op_float(&mut self) -> (r: StepResult)
        requires
            runnable(old(self)@),
            is_float_value_op(old(self)@.code[old(self)@.pc as int]) || is_float_test_op(
                old(self)@.code[old(self)@.pc as int],
            ),
        ensures
            final(self)@ == step_spec(old(self)@).0,
            r == step_spec(old(self)@).1,
    {
        let op = self.current_op();
        let n = self.stack.len();
        if n < 2 {
            return StepResult::Fault(VmFault::StackUnderflow);
        }
        let b = self.stack[n - 1];
        let a = self.stack[n - 2];
        if op == 0x31 || op == 0x33 || op == 0x35 || op == 0x37 {
            StepResult::FloatValue { op, a, b }
        } else {
            StepResult::FloatTest { op, a, b }
        }
    }

    /// Pop a word and branch on it (0x50 branches when non-zero, 0x51 when
    /// zero).
    fn op_branch(&mut self) -> (r: StepResult)
        requires
            runnable(old(self)@),
            old(self)@.code[old(self)@.pc as int] == 0x50 || old(self)@.code[old(self)@.pc as int]
                == 0x51,
        ensures
            final(self)@ == step_spec(old(self)@).0,
            r == step_spec(old(self)@).1,
    {
        let op = self.current_op();
        if self.byte_code.len() - self.pc >= 5 {
            let t = load_word(&self.byte_code, self.pc + 1);
            let n = self.stack.len();
            if n == 0 {
                return StepResult::Fault(VmFault::StackUnderflow);
            }
            let top = self.stack[n - 1];
            let taken = if op == 0x50 {
                top != 0
            } else {
                top == 0
            };
            if taken && t == 0 {
                return StepResult::Fault(VmFault::JumpTargetZero);
            }
            let _discarded = self.stack.pop();
            if taken {
                self.pc = t as usize;
            } else {
                self.pc = self.pc + 5;
            }
            proof {
                assert(self@ =~= step_spec(old(self)@).0);
            }
            StepResult::Continue
        } else {
            StepResult::Fault(VmFault::OperandOutOfBounds)
        }
    }

    /// Unconditional jump to the operand address (0x5A).
    fn op_jump(&mut self) -> (r: StepResult)
        requires
            runnable(old(self)@),
            old(self)@.code[old(self)@.pc as int] == 0x5A,
        ensures
            final(self)@ == step_spec(old(self)@).0,
            r == step_spec(old(self)@).1,
    {
        if self.byte_code.len() - self.pc >= 5 {
            let t = load_word(&self.byte_code, self.pc + 1);
            if t == 0 {
                return StepResult::Fault(VmFault::JumpTargetZero);
            }
            self.pc = t as usize;
            proof {
                assert(self@ =~= step_spec(old(self)@).0);
            }
            StepResult::Continue
        } else {
            StepResult::Fault(VmFault::OperandOutOfBounds)
        }
    }

    /// Return with a value (0x5B): pop it, pop the return address, jump
    /// there and push the value back; halt when no return address is left.
    fn op_return_value(&mut self) -> (r: StepResult)
        requires
            runnable(old(self)@),
            old(self)@.code[old(self)@.pc as int] == 0x5B,
        ensures
            final(self)@ == step_spec(old(self)@).0,
            r == step_spec(old(self)@).1,
    {
        let n = self.stack.len();
        if n == 0 {
            return StepResult::Fault(VmFault::StackUnderflow);
        }
        if n == 1 {
            self.pc = self.byte_code.len();
            proof {
                assert(self@ =~= step_spec(old(self)@).0);
            }
            return StepResult::Continue;
        }
        let ret = self.stack[n - 1];
        let raddr = self.stack[n - 2];
        if raddr == 0 {
            return StepResult::Fault(VmFault::JumpTargetZero);
        }
        let _discarded = self.stack.pop();
        let _discarded2 = self.stack.pop();
        self.stack.push(ret);
        self.pc = raddr as usize;
        proof {
            assert(self@ =~= step_spec(old(self)@).0);
        }
        StepResult::Continue
    }

    /// Return without a value (0x64): pop the return address and jump there;
    /// halt when the stack is empty.
    fn op_return(&mut self) -> (r: StepResult)
        requires
            runnable(old(self)@),
            old(self)@.code[old(self)@.pc as int] == 0x64,
        ensures
            final(self)@ == step_spec(old(self)@).0,
            r == step_spec(old(self)@).1,
    {
        let n = self.stack.len();
        if n == 0 {
            self.pc = self.byte_code.len();
            proof {
                assert(self@ =~= step_spec(old(self)@).0);
            }
            return StepResult::Continue;
        }
        let raddr = self.stack[n - 1];
        if raddr == 0 {
            return StepResult::Fault(VmFault::JumpTargetZero);
        }
        let _discarded = self.stack.pop();
        self.pc = raddr as usize;
        proof {
            assert(self@ =~= step_spec(old(self)@).0);
        }
        StepResult::Continue
    }

    /// Fetch, decode and execute the instruction at the program counter: one
    /// step of the transition function.
    pub fn step(&mut self) -> (r: StepResult)
        requires
            runnable(old(self)@),
        ensures
            final(self)@ == step_spec(old(self)@).0,
            r == step_spec(old(self)@).1,
            r matches StepResult::FloatValue { .. } ==> final(self)@ == old(self)@
                && float_value_pending(final(self)@),
            r matches StepResult::FloatTest { .. } ==> final(self)@ == old(self)@
                && float_test_pending(final(self)@),
    {
        let op = self.current_op();
        match op {
            0x10 | 0x11 => self.op_push_literal(),
            0x12 => self.op_drop(),
            0x13 => self.op_push_addr(),
            0x14 | 0x15 => self.op_push_byte(),
            0x20 | 0x21 | 0x28 | 0x2C => self.op_reserve(),
            0x22 | 0x23 => self.op_load_word(),
            0x24 | 0x25 => self.op_store_word(),
            0x26 | 0x27 => self.op_nop(),
            0x29 | 0x2D => self.op_load_byte(),
            0x2A | 0x2E => self.op_store_byte(),
            0x30 | 0x32 | 0x34 | 0x36 | 0x38 | 0x39 => self.op_int_binop(),
            0x31 | 0x33 | 0x35 | 0x37 => self.op_float(),
            0x50 | 0x51 => self.op_branch(),
            0x52 | 0x53 | 0x54 | 0x55 | 0x56 | 0x57 | 0x58 | 0x59 => self.op_int_binop(),
            0x5A => self.op_jump(),
            0x5B => self.op_return_value(),
            0x5C | 0x5D | 0x5E | 0x5F | 0x60 | 0x61 => self.op_float(),
            0x62 | 0x63 => self.op_int_binop(),
            0x64 => self.op_return(),
            0x80 => self.op_array_reserve(),
            0x82 | 0x83 | 0x84 | 0x85 => self.op_array_load(),
            0x87 | 0x88 | 0x89 | 0x8A => self.op_array_store(),
            0x90 | 0x91 | 0x92 | 0x93 => self.op_print(),
            _ => StepResult::UnknownOpcode(op),
        }
    }

    /// Resume a paused float arithmetic instruction with the bit pattern `w`
    /// of its result.
    pub fn resume_float_value(&mut self, w: u32)
        requires
            float_value_pending(old(self)@),
        ensures
            final(self)@ == float_resume(old(self)@, w),
    {
        proof {
            self.code_len_bound();
        }
        let _discarded = self.stack.pop();
        let _discarded2 = self.stack.pop();
        self.stack.push(w);
        self.pc = self.pc + 1;
        proof {
            assert(self@ =~= float_resume(old(self)@, w));
        }
    }

    /// Resume a paused float comparison instruction with its boolean outcome
    /// `t`, pushed as a word.
    pub fn resume_float_test(&mut self, t: bool)
        requires
            float_test_pending(old(self)@),
        ensures
            final(self)@ == float_resume(old(self)@, bool_word(t)),
    {
        proof {
            self.code_len_bound();
        }
        let _discarded = self.stack.pop();
        let _discarded2 = self.stack.pop();
        self.stack.push(if t { 1 } else { 0 });
        self.pc = self.pc + 1;
        proof {
            assert(self@ =~= float_resume(old(self)@, bool_word(t)));
        }
    }
}


/// The machine `s1` is reached from `s0` by exactly `n` completed
/// instructions.
pub open spec fn steps_to(s0: VmState, s1: VmState, n: nat) -> bool
    decreases n,
{
    if n == 0 {
        s0 == s1
    } else {
        &&& runnable(s0)
        &&& step_spec(s0).1 == StepResult::Continue
        &&& steps_to(step_spec(s0).0, s1, (n - 1) as nat)
    }
}

/// Facts every step preserves: the bytecode never changes, the output only
/// grows, and a step that does not complete leaves the state unchanged.
pub proof fn lemma_step_frame(s: VmState)
    requires
        runnable(s),
    ensures
        step_spec(s).0.code == s.code,
        s.output.is_prefix_of(step_spec(s).0.output),
        !(step_spec(s).1 matches StepResult::Continue) ==> step_spec(s).0 == s,
{
    let s2 = step_spec(s).0;
    assert(s2.output.len() >= s.output.len() && forall|i: int|
        0 <= i < s.output.len() ==> s2.output[i] == s.output[i]);
    assert(s.output =~= s2.output.subrange(0, s.output.len() as int));
}

/// A run of `n` completed instructions followed by one more is a run of
/// `n + 1`.
proof fn lemma_steps_to_extend(s0: VmState, s1: VmState, n: nat)
    requires
        steps_to(s0, s1, n),
        runnable(s1),
        step_spec(s1).1 == StepResult::Continue,
    ensures
        steps_to(s0, step_spec(s1).0, n + 1),
    decreases n,
{
    reveal_with_fuel(steps_to, 2);
    if n > 0 {
        lemma_steps_to_extend(step_spec(s0).0, s1, (n - 1) as nat);
    }
}

/// A prefix of a prefix is a prefix.
proof fn lemma_prefix_trans(a: Seq<OutEvent>, b: Seq<OutEvent>, c: Seq<OutEvent>)
    requires
        a.is_prefix_of(b),
        b.is_prefix_of(c),
    ensures
        a.is_prefix_of(c),
{
    assert(a =~= c.subrange(0, a.len() as int));
}

impl NodeMachine {
    /// Run up to `fuel` instructions from the current state.
    ///
    /// The run stops early on a normal halt (the program counter leaves the
    /// bytecode), on an unknown opcode, on a fault, or on a float
    /// instruction; a float stop names the operand bit patterns, and the
    /// caller computes in the float domain and resumes through
    /// [`NodeMachine::resume_float_value`] or
    /// [`NodeMachine::resume_float_test`].  The final state is reached from
    /// the starting state by completed instructions alone, and the output
    /// record only ever grows.
    #[verifier::loop_isolation(false)]
    pub fn execute(&mut self, fuel: u64) -> (r: ExecStatus)
        ensures
            exists|n: nat| n <= fuel && #[trigger] steps_to(old(self)@, final(self)@, n),
            final(self)@.code == old(self)@.code,
            old(self)@.output.is_prefix_of(final(self)@.output),
            match r {
                ExecStatus::Completed => !runnable(final(self)@),
                ExecStatus::Running => runnable(final(self)@) && steps_to(
                    old(self)@,
                    final(self)@,
                    fuel as nat,
                ),
                ExecStatus::FloatValue { op, a, b } => float_value_pending(final(self)@)
                    && step_spec(final(self)@).1 == (StepResult::FloatValue { op, a, b }),
                ExecStatus::FloatTest { op, a, b } => float_test_pending(final(self)@)
                    && step_spec(final(self)@).1 == (StepResult::FloatTest { op, a, b }),
                ExecStatus::UnknownOpcode(op) => runnable(final(self)@) && step_spec(
                    final(self)@,
                ).1 == StepResult::UnknownOpcode(op),
                ExecStatus::Fault(f) => runnable(final(self)@) && step_spec(final(self)@).1
                    == StepResult::Fault(f),
            },
    {
        let ghost s0 = self@;
        let mut i: u64 = 0;
        while i < fuel
            invariant
                i <= fuel,
                steps_to(s0, self@, i as nat),
                self@.code == s0.code,
                s0.output.is_prefix_of(self@.output),
            decreases fuel - i,
        {
            if self.pc >= self.byte_code.len() {
                return ExecStatus::Completed;
            }
            let ghost pre = self@;
            let res = self.step();
            proof {
                lemma_step_frame(pre);
            }
            match res {
                StepResult::Continue => {
                    proof {
                        lemma_steps_to_extend(s0, pre, i as nat);
                        lemma_prefix_trans(s0.output, pre.output, self@.output);
                    }
                    i = i + 1;
                },
                StepResult::FloatValue { op, a, b } => {
                    return ExecStatus::FloatValue { op, a, b };
                },
                StepResult::FloatTest { op, a, b } => {
                    return ExecStatus::FloatTest { op, a, b };
                },
                StepResult::UnknownOpcode(op) => {
                    return ExecStatus::UnknownOpcode(op);
                },
                StepResult::Fault(f) => {
                    return ExecStatus::Fault(f);
                },
            }
        }
        if self.pc >= self.byte_code.len() {
            ExecStatus::Completed
        } else {
            ExecStatus::Running
        }
    }
}


/// The instructions that redirect or consume the program counter: branches,
/// the unconditional jump, and the two returns.
pub open spec fn is_control_op(op: u8) -> bool {
    op == 0x50 || op == 0x51 || op == 0x5A || op == 0x5B || op == 0x64
}

/// The instructions that grow the memory: the single-value reserves and the
/// array reserve.
pub open spec fn is_alloc_op(op: u8) -> bool {
    is_reserve_op(op) || op == 0x80
}

/// How many operand bytes follow an opcode byte.
pub open spec fn operand_len(op: u8) -> nat {
    if op == 0x80 {
        9
    } else if op == 0x14 || op == 0x15 {
        1
    } else if op == 0x10 || op == 0x11 || op == 0x13 || is_reserve_op(op) || (0x22 <= op && op
        <= 0x25) || op == 0x29 || op == 0x2A || op == 0x2D || op == 0x2E || op == 0x50 || op == 0x51
        || op == 0x5A || (0x82 <= op && op <= 0x8A && op != 0x86) {
        4
    } else {
        0
    }
}

/// The byte length an allocation instruction asks the memory to reach.
pub open spec fn alloc_target(s: VmState) -> int
    recommends
        runnable(s),
        is_alloc_op(s.code[s.pc as int]),
        s.pc + 1 + operand_len(s.code[s.pc as int]) <= s.code.len(),
{
    let op = s.code[s.pc as int];
    if is_reserve_op(op) {
        operand(s, 1) + reserve_size(op)
    } else {
        operand(s, 1) + s.code[s.pc as int + 5] * word_at(s.code, s.pc as int + 6)
    }
}

/// Every instruction outside the control-flow family that completes its step
/// advances the program counter by exactly one byte for the opcode plus the
/// length of its operand.
pub proof fn lemma_pc_advance(s: VmState)
    requires
        runnable(s),
        step_spec(s).1 == StepResult::Continue,
        !is_control_op(s.code[s.pc as int]),
    ensures
        step_spec(s).0.pc == s.pc + 1 + operand_len(s.code[s.pc as int]),
{
}

/// An untaken conditional branch advances the program counter by exactly one
/// byte for the opcode plus its 4-byte operand, like any other instruction.
pub proof fn lemma_untaken_branch_pc_advance(s: VmState)
    requires
        runnable(s),
        s.code[s.pc as int] == 0x50 || s.code[s.pc as int] == 0x51,
        step_spec(s).1 == StepResult::Continue,
        s.stack.len() > 0,
        (s.code[s.pc as int] == 0x50) == (s.stack.last() == 0),
    ensures
        step_spec(s).0.pc == s.pc + 1 + operand_len(s.code[s.pc as int]),
{
}

/// Every binary arithmetic or comparison instruction in the integer domain
/// that completes pops its two operands and pushes their result: the stack
/// depth decreases by exactly one, the new top is the operation applied to
/// the popped words, the rest of the stack, the memory, the code and the
/// output are unchanged, and the program counter advances by one byte.
/// (Completion excludes the fatal division by zero, on which nothing
/// changes.)
pub proof fn lemma_binop_stack_depth(s: VmState)
    requires
        runnable(s),
        is_int_binop(s.code[s.pc as int]),
        step_spec(s).1 == StepResult::Continue,
    ensures
        s.stack.len() >= 2,
        step_spec(s).0.stack.len() == s.stack.len() - 1,
        Some(step_spec(s).0.stack.last()) == int_binop_value(
            s.code[s.pc as int],
            s.stack[s.stack.len() - 2],
            s.stack.last(),
        ),
        step_spec(s).0.stack.drop_last() == s.stack.drop_last().drop_last(),
        step_spec(s).0.memory == s.memory,
        step_spec(s).0.code == s.code,
        step_spec(s).0.output == s.output,
        step_spec(s).0.pc == s.pc + 1,
{
    assert(step_spec(s).0.stack.drop_last() =~= s.stack.drop_last().drop_last());
}

/// A resumed float instruction pops its two operands and pushes the word
/// the float domain supplied, whatever that word is: the stack depth
/// decreases by exactly one, the new top is the supplied word, the rest of
/// the stack, the memory, the code and the output are unchanged, and the
/// program counter advances one byte past the opcode.
pub proof fn lemma_float_resume_frame(s: VmState, w: u32)
    requires
        s.stack.len() >= 2,
    ensures
        float_resume(s, w).pc == s.pc + 1,
        float_resume(s, w).stack.len() == s.stack.len() - 1,
        float_resume(s, w).stack.last() == w,
        float_resume(s, w).stack.drop_last() == s.stack.drop_last().drop_last(),
        float_resume(s, w).memory == s.memory,
        float_resume(s, w).code == s.code,
        float_resume(s, w).output == s.output,
{
    assert(float_resume(s, w).stack.drop_last() =~= s.stack.drop_last().drop_last());
}

/// After an allocation instruction for address `a` and size `n`, the memory
/// is at least `a + n` bytes long, its old contents are unchanged, and every
/// newly created byte is zero.
pub proof fn lemma_alloc_grows_zeroed(s: VmState)
    requires
        runnable(s),
        is_alloc_op(s.code[s.pc as int]),
        step_spec(s).1 == StepResult::Continue,
    ensures
        step_spec(s).0.memory.len() >= alloc_target(s),
        step_spec(s).0.memory.len() >= s.memory.len(),
        forall|i: int| 0 <= i < s.memory.len() ==> step_spec(s).0.memory[i] == s.memory[i],
        forall|i: int|
            s.memory.len() <= i < step_spec(s).0.memory.len() ==> step_spec(s).0.memory[i] == 0,
{
}

/// An unconditional jump with target `t` puts the program counter exactly at
/// `t`, whatever the stack holds.
pub proof fn lemma_jump_lands_on_target(s: VmState, t: u32)
    requires
        runnable(s),
        s.code[s.pc as int] == 0x5A,
        s.pc + 5 <= s.code.len(),
        word_at(s.code, s.pc as int + 1) == t,
        t != 0,
    ensures
        step_spec(s).1 == StepResult::Continue,
        step_spec(s).0.pc == t,
        step_spec(s).0.stack == s.stack,
{
}

/// A 4-byte immediate operand equals its bytes shifted into place and or-ed
/// together, most significant first.
pub proof fn lemma_operand_shift_or(s: VmState)
    requires
        0 <= s.pc,
        s.pc + 5 <= s.code.len(),
    ensures
        operand(s, 1) == (((s.code[s.pc as int + 1] as u32) << 24) | ((s.code[s.pc as int + 2]
            as u32) << 16) | ((s.code[s.pc as int + 3] as u32) << 8) | (s.code[s.pc as int + 4]
            as u32)),
{
    crate::words::lemma_word_of_bytes_shift_or(
        s.code[s.pc as int + 1],
        s.code[s.pc as int + 2],
        s.code[s.pc as int + 3],
        s.code[s.pc as int + 4],
    );
}


} // verus!
