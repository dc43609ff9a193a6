//! The interpreter. One call of [`VM::step`] executes one instruction. What
//! only the host can do (memory at absolute addresses, floating point, input
//! and output) is handed out as a [`HostCall`]; the host performs it and gives
//! its result to [`VM::resume`].

use vstd::prelude::*;
use crate::encoding::{
    le_bytes, le_value, lemma_le_bytes_mod, lemma_le_value_bound,
    lemma_radix_pow_values, radix_pow,
};
use crate::isa::{Arith, ByteCodes, ErrorCodes, Interrupts, Operation, VirtualAddress, Width};
use crate::program::{operand_at, Program};
use crate::stack::Stack;

verus! {

/// Why the machine refused to execute an instruction.
#[derive(Clone, Copy, Debug, PartialEq, Eq, Structural)]
pub enum Fault {
    /// The byte at the program counter encodes no instruction.
    InvalidOpcode(u8),
    /// The byte names no interrupt.
    InvalidInterrupt(u8),
    /// An operand or a static lies outside the image.
    CodeOutOfBounds,
    /// The operand stack has no room for the result.
    StackOverflow,
    /// The operand stack holds fewer bytes than the instruction takes.
    StackUnderflow,
    /// An integer division or remainder by zero.
    DivisionByZero,
    /// A jump target that no program counter can hold.
    AddressOutOfRange,
    /// The host answered a call with a reply of the wrong kind or size.
    UnexpectedReply,
}

/// Work that the machine asks of its host.
#[allow(inconsistent_fields)]
#[derive(Clone, Copy, Debug, PartialEq, Eq, Structural)]
pub enum HostCall {
    /// Compute `first op second` on the floats with these bit patterns,
    /// where `second` was topmost on the stack; reply with the bit pattern
    /// of the result.
    Float { op: Arith, width: Width, first: u64, second: u64 },
    /// Read `count` bytes at `address`; reply with them.
    Load { address: u64, count: u64 },
    /// Write the `count` bytes of the outbox to `address`.
    Store { address: u64, count: u64 },
    /// Copy `count` bytes from `src` to `dest`.
    Move { dest: u64, src: u64, count: u64 },
    /// Allocate `size` bytes; reply with the address, or zero.
    Malloc { size: u64 },
    /// Resize the allocation at `address`; reply with the address, or zero.
    Realloc { address: u64, size: u64 },
    /// Release the allocation at `address`.
    Free { address: u64 },
    /// Print `value` as an unsigned decimal number.
    PrintNumber { value: u64 },
    /// Print the character with this code.
    PrintChar { value: u8 },
    /// Print `count` bytes at `address`, as text or as a list of numbers.
    PrintMemory { address: u64, count: u64, text: bool },
    /// Print the `count` bytes of the outbox, as text or as a list of numbers.
    PrintData { count: u64, text: bool },
    /// Read exactly `count` bytes of input; reply with them.
    ReadBytes { count: u64 },
    /// Read all input; reply with it.
    ReadAll,
}

/// What the host hands back after a call.
#[derive(Clone, Copy, Debug)]
pub enum HostReply<'a> {
    Done,
    Value(u64),
    Bytes(&'a [u8]),
    ReadFailed { unexpected_eof: bool },
}

/// How a step ended.
#[derive(Clone, Copy, Debug, PartialEq, Eq, Structural)]
pub enum Outcome {
    /// The instruction is done; the next one can be executed.
    Continue,
    /// The program asked to stop with this code.
    Exit(ErrorCodes),
    /// The program counter is past the image; the code is the error register.
    Finished(ErrorCodes),
    /// The host has to act before the next step.
    Host(HostCall),
    /// The instruction was refused and nothing has changed.
    Fault(Fault),
}

/// The state of the machine as contracts see it.
#[verifier::ext_equal]
pub struct Machine {
    /// The operand stack, the most recently pushed byte first.
    pub stack: Seq<u8>,
    /// The size of the operand stack.
    pub capacity: nat,
    /// The error register.
    pub error: ErrorCodes,
    /// The bytes handed to the host with the last call that carries data.
    pub outbox: Seq<u8>,
    /// The program counter.
    pub pc: int,
}

/// The state after a step, and how the step ended.
#[verifier::ext_equal]
pub struct Stepped {
    pub machine: Machine,
    pub outcome: Outcome,
}

/// The number held in `count` bytes of the stack, `offset` bytes below the top.
pub open spec fn stack_value(stack: Seq<u8>, offset: int, count: int) -> nat {
    le_value(stack.subrange(offset, offset + count))
}

/// The instruction is refused with `fault`, and the machine stays as it is.
pub open spec fn refused(m: Machine, fault: Fault) -> Stepped {
    Stepped { machine: m, outcome: Outcome::Fault(fault) }
}

/// The machine goes on at `pc` with the stack `stack`.
pub open spec fn proceed(m: Machine, pc: int, stack: Seq<u8>) -> Stepped {
    Stepped { machine: Machine { pc, stack, ..m }, outcome: Outcome::Continue }
}

/// The machine hands `call` to the host, having taken `used` bytes off the stack.
pub open spec fn ask(m: Machine, pc: int, used: int, call: HostCall) -> Stepped {
    Stepped {
        machine: Machine { pc, stack: m.stack.subrange(used, m.stack.len() as int), ..m },
        outcome: Outcome::Host(call),
    }
}

/// As [`ask`], with `data` put in the outbox.
pub open spec fn ask_with(
    m: Machine,
    pc: int,
    used: int,
    data: Seq<u8>,
    call: HostCall,
) -> Stepped {
    Stepped {
        machine: Machine {
            pc,
            stack: m.stack.subrange(used, m.stack.len() as int),
            outbox: data,
            ..m
        },
        outcome: Outcome::Host(call),
    }
}

/// The signed number that `value` stands for in two's complement of `width` bytes.
pub open spec fn signed(value: nat, width: nat) -> int {
    if 2 * value >= radix_pow(width) {
        value - radix_pow(width)
    } else {
        value as int
    }
}

/// The absolute value.
pub open spec fn magnitude(value: int) -> nat {
    if value < 0 {
        (-value) as nat
    } else {
        value as nat
    }
}

/// Division that rounds toward zero.
pub open spec fn trunc_div(a: int, b: int) -> int {
    let q = (magnitude(a) / magnitude(b)) as int;
    if (a < 0) != (b < 0) {
        -q
    } else {
        q
    }
}

/// The remainder of the division that rounds toward zero.
pub open spec fn trunc_rem(a: int, b: int) -> int {
    let r = (magnitude(a) % magnitude(b)) as int;
    if a < 0 {
        -r
    } else {
        r
    }
}

/// The result of a wrapping integer operation, as an unsigned number of `width` bytes.
/// `first` is the first operand and `second` the second: the difference is
/// `first - second`, the quotient `first / second`.
pub open spec fn int_arith(op: Arith, width: nat, first: nat, second: nat) -> nat {
    let exact: int = match op {
        Arith::Add => (first + second) as int,
        Arith::Sub => first - second,
        Arith::Mul => (first * second) as int,
        Arith::Div => trunc_div(signed(first, width), signed(second, width)),
        Arith::Mod => trunc_rem(signed(first, width), signed(second, width)),
    };
    (exact % (radix_pow(width) as int)) as nat
}

/// The signed 32-bit number that four bytes stand for.
pub open spec fn signed32(value: nat) -> i32 {
    if value >= 0x8000_0000 {
        (value - 0x1_0000_0000) as i32
    } else {
        value as i32
    }
}

/// The unsigned number with the same four bytes as `code`.
pub open spec fn unsigned32(code: i32) -> nat {
    if code < 0 {
        (code + 0x1_0000_0000) as nat
    } else {
        code as nat
    }
}

/// Integer arithmetic: takes two numbers of the width off the stack, the
/// second operand first, which is the topmost, and the first operand after
/// it, and pushes the result. A division or a remainder by zero is refused.
pub open spec fn spec_int_arith(m: Machine, op: Arith, width: Width) -> Stepped {
    let n = width.spec_bytes() as int;
    if m.stack.len() < 2 * n {
        refused(m, Fault::StackUnderflow)
    } else {
        let second = stack_value(m.stack, 0, n);
        let first = stack_value(m.stack, n, n);
        if (op is Div || op is Mod) && second == 0 {
            refused(m, Fault::DivisionByZero)
        } else {
            proceed(
                m,
                m.pc + 1,
                le_bytes(int_arith(op, n as nat, first, second), n as nat) + m.stack.subrange(
                    2 * n,
                    m.stack.len() as int,
                ),
            )
        }
    }
}

/// Float arithmetic: takes two bit patterns of the width off the stack,
/// the second operand first, which is the topmost, and the first operand
/// after it, and asks the host for the result.
pub open spec fn spec_float_arith(m: Machine, op: Arith, width: Width) -> Stepped {
    let n = width.spec_bytes() as int;
    if m.stack.len() < 2 * n {
        refused(m, Fault::StackUnderflow)
    } else {
        ask(
            m,
            m.pc + 1,
            2 * n,
            HostCall::Float {
                op,
                width,
                first: stack_value(m.stack, n, n) as u64,
                second: stack_value(m.stack, 0, n) as u64,
            },
        )
    }
}

/// Pushes `count` bytes of the image from `address` on and goes on at `pc`.
pub open spec fn spec_push_static(
    code: Seq<u8>,
    m: Machine,
    pc: int,
    address: int,
    count: int,
) -> Stepped {
    if address + count > code.len() {
        refused(m, Fault::CodeOutOfBounds)
    } else if m.stack.len() + count > m.capacity {
        refused(m, Fault::StackOverflow)
    } else {
        proceed(m, pc, code.subrange(address, address + count) + m.stack)
    }
}

/// `LoadStaticN addr`: pushes N bytes of the image from `addr` on.
pub open spec fn spec_load_static(code: Seq<u8>, m: Machine, width: Width) -> Stepped {
    match operand_at(code, m.pc + 1, 8) {
        None => refused(m, Fault::CodeOutOfBounds),
        Some(address) => spec_push_static(code, m, m.pc + 9, address as int, width.spec_bytes() as int),
    }
}

/// `LoadStaticBytes addr count`: pushes `count` bytes of the image from `addr` on.
pub open spec fn spec_load_static_bytes(code: Seq<u8>, m: Machine) -> Stepped {
    match (operand_at(code, m.pc + 1, 8), operand_at(code, m.pc + 9, 8)) {
        (Some(address), Some(count)) => spec_push_static(code, m, m.pc + 17, address as int, count as int),
        _ => refused(m, Fault::CodeOutOfBounds),
    }
}

/// `LoadConstN value`: pushes the N bytes that follow the opcode.
pub open spec fn spec_load_const(code: Seq<u8>, m: Machine, width: Width) -> Stepped {
    let n = width.spec_bytes() as int;
    spec_push_static(code, m, m.pc + 1 + n, m.pc + 1, n)
}

/// `LoadConstBytes count bytes…`: pushes the `count` bytes that follow the count.
pub open spec fn spec_load_const_bytes(code: Seq<u8>, m: Machine) -> Stepped {
    match operand_at(code, m.pc + 1, 8) {
        None => refused(m, Fault::CodeOutOfBounds),
        Some(count) => spec_push_static(code, m, m.pc + 9 + count, m.pc + 9, count as int),
    }
}

/// `LoadN`: takes an address off the stack and asks the host for the N bytes there.
pub open spec fn spec_load(m: Machine, width: Width) -> Stepped {
    if m.stack.len() < 8 {
        refused(m, Fault::StackUnderflow)
    } else {
        ask(
            m,
            m.pc + 1,
            8,
            HostCall::Load {
                address: stack_value(m.stack, 0, 8) as u64,
                count: width.spec_bytes() as u64,
            },
        )
    }
}

/// `LoadBytes`: takes an address and then a count off the stack and asks
/// the host for that many bytes at the address.
pub open spec fn spec_load_bytes(m: Machine) -> Stepped {
    if m.stack.len() < 16 {
        refused(m, Fault::StackUnderflow)
    } else {
        ask(
            m,
            m.pc + 1,
            16,
            HostCall::Load {
                address: stack_value(m.stack, 0, 8) as u64,
                count: stack_value(m.stack, 8, 8) as u64,
            },
        )
    }
}

/// `VirtualConstToReal vaddr`: pushes the host address of the byte `vaddr` of the image.
pub open spec fn spec_virtual_const_to_real(code: Seq<u8>, base: int, m: Machine) -> Stepped {
    match operand_at(code, m.pc + 1, 8) {
        None => refused(m, Fault::CodeOutOfBounds),
        Some(vaddress) => if m.stack.len() + 8 > m.capacity {
            refused(m, Fault::StackOverflow)
        } else {
            proceed(m, m.pc + 9, le_bytes((base + vaddress) as nat, 8) + m.stack)
        },
    }
}

/// `VirtualToReal`: replaces the offset on top of the stack by the host
/// address of that byte of the image.
pub open spec fn spec_virtual_to_real(base: int, m: Machine) -> Stepped {
    if m.stack.len() < 8 {
        refused(m, Fault::StackUnderflow)
    } else {
        proceed(
            m,
            m.pc + 1,
            le_bytes((base + stack_value(m.stack, 0, 8)) as nat, 8) + m.stack.subrange(
                8,
                m.stack.len() as int,
            ),
        )
    }
}

/// `StoreN`: takes an address and then N bytes of data off the stack and
/// asks the host to write the data to the address.
pub open spec fn spec_store(m: Machine, width: Width) -> Stepped {
    let n = width.spec_bytes() as int;
    if m.stack.len() < 8 + n {
        refused(m, Fault::StackUnderflow)
    } else {
        ask_with(
            m,
            m.pc + 1,
            8 + n,
            m.stack.subrange(8, 8 + n),
            HostCall::Store { address: stack_value(m.stack, 0, 8) as u64, count: n as u64 },
        )
    }
}

/// `StoreBytes`: takes an address, a count and then that many bytes of data
/// off the stack and asks the host to write the data to the address.
pub open spec fn spec_store_bytes(m: Machine) -> Stepped {
    if m.stack.len() < 16 {
        refused(m, Fault::StackUnderflow)
    } else {
        let count = stack_value(m.stack, 8, 8) as int;
        if m.stack.len() < 16 + count {
            refused(m, Fault::StackUnderflow)
        } else {
            ask_with(
                m,
                m.pc + 1,
                16 + count,
                m.stack.subrange(16, 16 + count),
                HostCall::Store { address: stack_value(m.stack, 0, 8) as u64, count: count as u64 },
            )
        }
    }
}

/// `MemmoveN`: takes the destination and then the source off the stack and
/// asks the host to copy N bytes.
pub open spec fn spec_memmove(m: Machine, width: Width) -> Stepped {
    if m.stack.len() < 16 {
        refused(m, Fault::StackUnderflow)
    } else {
        ask(
            m,
            m.pc + 1,
            16,
            HostCall::Move {
                dest: stack_value(m.stack, 0, 8) as u64,
                src: stack_value(m.stack, 8, 8) as u64,
                count: width.spec_bytes() as u64,
            },
        )
    }
}

/// `MemmoveBytes`: takes the destination, the source and then the count off
/// the stack and asks the host to copy that many bytes.
pub open spec fn spec_memmove_bytes(m: Machine) -> Stepped {
    if m.stack.len() < 24 {
        refused(m, Fault::StackUnderflow)
    } else {
        ask(
            m,
            m.pc + 1,
            24,
            HostCall::Move {
                dest: stack_value(m.stack, 0, 8) as u64,
                src: stack_value(m.stack, 8, 8) as u64,
                count: stack_value(m.stack, 16, 8) as u64,
            },
        )
    }
}

/// Pushes a copy of the `count` bytes that lie under the `used` topmost ones,
/// which are taken off first.
pub open spec fn spec_copy_top(m: Machine, used: int, count: int) -> Stepped {
    let rest = m.stack.subrange(used, m.stack.len() as int);
    if rest.len() < count {
        refused(m, Fault::StackUnderflow)
    } else if rest.len() + count > m.capacity {
        refused(m, Fault::StackOverflow)
    } else {
        proceed(m, m.pc + 1, rest.subrange(0, count) + rest)
    }
}

/// `DuplicateN`: pushes a copy of the N topmost bytes.
pub open spec fn spec_duplicate(m: Machine, width: Width) -> Stepped {
    spec_copy_top(m, 0, width.spec_bytes() as int)
}

/// `DuplicateBytes`: takes a count off the stack and pushes a copy of that
/// many bytes under it.
pub open spec fn spec_duplicate_bytes(m: Machine) -> Stepped {
    if m.stack.len() < 8 {
        refused(m, Fault::StackUnderflow)
    } else {
        spec_copy_top(m, 8, stack_value(m.stack, 0, 8) as int)
    }
}

/// `Malloc`: takes a size off the stack and asks the host for memory.
pub open spec fn spec_malloc(m: Machine) -> Stepped {
    if m.stack.len() < 8 {
        refused(m, Fault::StackUnderflow)
    } else {
        ask(m, m.pc + 1, 8, HostCall::Malloc { size: stack_value(m.stack, 0, 8) as u64 })
    }
}

/// `Realloc`: takes an address and then a size off the stack and asks the
/// host to resize the allocation.
pub open spec fn spec_realloc(m: Machine) -> Stepped {
    if m.stack.len() < 16 {
        refused(m, Fault::StackUnderflow)
    } else {
        ask(
            m,
            m.pc + 1,
            16,
            HostCall::Realloc {
                address: stack_value(m.stack, 0, 8) as u64,
                size: stack_value(m.stack, 8, 8) as u64,
            },
        )
    }
}

/// `Free`: takes an address off the stack and asks the host to release it.
pub open spec fn spec_free(m: Machine) -> Stepped {
    if m.stack.len() < 8 {
        refused(m, Fault::StackUnderflow)
    } else {
        ask(m, m.pc + 1, 8, HostCall::Free { address: stack_value(m.stack, 0, 8) as u64 })
    }
}

/// What an interrupt does once its code is known: `used` bytes of the
/// stack are spent already, and the program goes on at `pc`.
pub open spec fn spec_interrupt(
    code: Seq<u8>,
    m: Machine,
    pc: int,
    used: int,
    interrupt: Interrupts,
) -> Stepped {
    let left = m.stack.len() - used;
    match interrupt {
        Interrupts::Print1 => spec_print_number(m, pc, used, 1),
        Interrupts::Print2 => spec_print_number(m, pc, used, 2),
        Interrupts::Print4 => spec_print_number(m, pc, used, 4),
        Interrupts::Print8 => spec_print_number(m, pc, used, 8),
        Interrupts::PrintBytes => spec_print_memory(m, pc, used, false),
        Interrupts::PrintChar => if left < 1 {
            refused(m, Fault::StackUnderflow)
        } else {
            ask(m, pc, used + 1, HostCall::PrintChar { value: stack_value(m.stack, used, 1) as u8 })
        },
        Interrupts::PrintString => spec_print_memory(m, pc, used, true),
        Interrupts::PrintStaticBytes => spec_print_static(code, m, pc, used, false),
        Interrupts::PrintStaticString => spec_print_static(code, m, pc, used, true),
        Interrupts::ReadBytes => if left < 8 {
            refused(m, Fault::StackUnderflow)
        } else {
            ask(m, pc, used + 8, HostCall::ReadBytes { count: stack_value(m.stack, used, 8) as u64 })
        },
        Interrupts::ReadAll => ask(m, pc, used, HostCall::ReadAll),
    }
}

/// Takes a number of `count` bytes off the stack and asks the host to print it.
pub open spec fn spec_print_number(m: Machine, pc: int, used: int, count: int) -> Stepped {
    if m.stack.len() - used < count {
        refused(m, Fault::StackUnderflow)
    } else {
        ask(
            m,
            pc,
            used + count,
            HostCall::PrintNumber { value: stack_value(m.stack, used, count) as u64 },
        )
    }
}

/// Takes a count and then an address off the stack and asks the host to
/// print that many bytes at the address.
pub open spec fn spec_print_memory(m: Machine, pc: int, used: int, text: bool) -> Stepped {
    if m.stack.len() - used < 16 {
        refused(m, Fault::StackUnderflow)
    } else {
        ask(
            m,
            pc,
            used + 16,
            HostCall::PrintMemory {
                address: stack_value(m.stack, used + 8, 8) as u64,
                count: stack_value(m.stack, used, 8) as u64,
                text,
            },
        )
    }
}

/// Takes a count and then an offset off the stack, puts that many bytes
/// of the image from the offset on in the outbox, and asks the host to print them.
pub open spec fn spec_print_static(
    code: Seq<u8>,
    m: Machine,
    pc: int,
    used: int,
    text: bool,
) -> Stepped {
    if m.stack.len() - used < 16 {
        refused(m, Fault::StackUnderflow)
    } else {
        let count = stack_value(m.stack, used, 8) as int;
        let vaddress = stack_value(m.stack, used + 8, 8) as int;
        if vaddress + count > code.len() {
            refused(m, Fault::CodeOutOfBounds)
        } else {
            ask_with(
                m,
                pc,
                used + 16,
                code.subrange(vaddress, vaddress + count),
                HostCall::PrintData { count: count as u64, text },
            )
        }
    }
}

/// `Intr`: takes the code of an interrupt off the stack and executes it.
pub open spec fn spec_intr(code: Seq<u8>, m: Machine) -> Stepped {
    if m.stack.len() < 1 {
        refused(m, Fault::StackUnderflow)
    } else {
        let byte = stack_value(m.stack, 0, 1) as u8;
        match Interrupts::spec_from_byte(byte) {
            None => refused(m, Fault::InvalidInterrupt(byte)),
            Some(interrupt) => spec_interrupt(code, m, m.pc + 1, 1, interrupt),
        }
    }
}

/// `IntrConst code`: executes the interrupt whose code follows the opcode.
pub open spec fn spec_intr_const(code: Seq<u8>, m: Machine) -> Stepped {
    match operand_at(code, m.pc + 1, 1) {
        None => refused(m, Fault::CodeOutOfBounds),
        Some(value) => match Interrupts::spec_from_byte(value as u8) {
            None => refused(m, Fault::InvalidInterrupt(value as u8)),
            Some(interrupt) => spec_interrupt(code, m, m.pc + 2, 0, interrupt),
        },
    }
}

/// `ReadError`: pushes the error register as four bytes.
pub open spec fn spec_read_error(m: Machine) -> Stepped {
    if m.stack.len() + 4 > m.capacity {
        refused(m, Fault::StackOverflow)
    } else {
        proceed(m, m.pc + 1, le_bytes(unsigned32(m.error.spec_code()), 4) + m.stack)
    }
}

/// `SetErrorConst code`: sets the error register to the four bytes that follow the opcode.
pub open spec fn spec_set_error_const(code: Seq<u8>, m: Machine) -> Stepped {
    match operand_at(code, m.pc + 1, 4) {
        None => refused(m, Fault::CodeOutOfBounds),
        Some(value) => Stepped {
            machine: Machine { pc: m.pc + 5, error: ErrorCodes::spec_from_code(signed32(value)), ..m },
            outcome: Outcome::Continue,
        },
    }
}

/// `SetError`: takes four bytes off the stack and sets the error register to them.
pub open spec fn spec_set_error(m: Machine) -> Stepped {
    if m.stack.len() < 4 {
        refused(m, Fault::StackUnderflow)
    } else {
        Stepped {
            machine: Machine {
                pc: m.pc + 1,
                stack: m.stack.subrange(4, m.stack.len() as int),
                error: ErrorCodes::spec_from_code(signed32(stack_value(m.stack, 0, 4))),
                ..m
            },
            outcome: Outcome::Continue,
        }
    }
}

/// `Exit`: takes four bytes off the stack and stops with them as the code.
pub open spec fn spec_exit(m: Machine) -> Stepped {
    if m.stack.len() < 4 {
        refused(m, Fault::StackUnderflow)
    } else {
        Stepped {
            machine: Machine { pc: m.pc + 1, stack: m.stack.subrange(4, m.stack.len() as int), ..m },
            outcome: Outcome::Exit(ErrorCodes::spec_from_code(signed32(stack_value(m.stack, 0, 4)))),
        }
    }
}

/// Where a jump finds its target and what it costs: the target, the program
/// counter if the jump is not taken, and the bytes of the stack that the
/// target took.
pub open spec fn spec_target(
    code: Seq<u8>,
    m: Machine,
    constant: bool,
) -> Result<(nat, int, int), Fault> {
    if constant {
        match operand_at(code, m.pc + 1, 8) {
            None => Err(Fault::CodeOutOfBounds),
            Some(target) => Ok((target, m.pc + 9, 0)),
        }
    } else if m.stack.len() < 8 {
        Err(Fault::StackUnderflow)
    } else {
        Ok((stack_value(m.stack, 0, 8), m.pc + 1, 8))
    }
}

/// A jump that is taken if `taken` holds, after `count` more bytes of the
/// stack, which hold the condition, are spent.
pub open spec fn spec_branch(
    code: Seq<u8>,
    m: Machine,
    constant: bool,
    count: int,
    taken: bool,
) -> Stepped {
    match spec_target(code, m, constant) {
        Err(fault) => refused(m, fault),
        Ok((target, next, used)) => if target > usize::MAX {
            refused(m, Fault::AddressOutOfRange)
        } else {
            proceed(
                m,
                if taken {
                    target as int
                } else {
                    next
                },
                m.stack.subrange(used + count, m.stack.len() as int),
            )
        },
    }
}

/// A conditional jump: finds its target, then takes the condition of the
/// width off the stack, and jumps if the condition is zero, or is not,
/// as `on_zero` says.
pub open spec fn spec_jump_if(
    code: Seq<u8>,
    m: Machine,
    on_zero: bool,
    constant: bool,
    width: Width,
) -> Stepped {
    let n = width.spec_bytes() as int;
    match spec_target(code, m, constant) {
        Err(fault) => refused(m, fault),
        Ok((target, next, used)) => if m.stack.len() < used + n {
            refused(m, Fault::StackUnderflow)
        } else {
            spec_branch(code, m, constant, n, (stack_value(m.stack, used, n) == 0) == on_zero)
        },
    }
}

/// A jump that is taken if the error register holds an error, or holds
/// none, as `on_error` says.
pub open spec fn spec_jump_on_error(
    code: Seq<u8>,
    m: Machine,
    on_error: bool,
    constant: bool,
) -> Stepped {
    spec_branch(code, m, constant, 0, (m.error != ErrorCodes::NoError) == on_error)
}

/// `Call addr`: pushes the offset of the next instruction and goes on at `addr`.
pub open spec fn spec_call(code: Seq<u8>, m: Machine) -> Stepped {
    match operand_at(code, m.pc + 1, 8) {
        None => refused(m, Fault::CodeOutOfBounds),
        Some(target) => if target > usize::MAX {
            refused(m, Fault::AddressOutOfRange)
        } else if m.stack.len() + 8 > m.capacity {
            refused(m, Fault::StackOverflow)
        } else {
            proceed(m, target as int, le_bytes((m.pc + 9) as nat, 8) + m.stack)
        },
    }
}

/// What the instruction at the program counter does, the counter being inside the image.
pub open spec fn spec_execute(
    code: Seq<u8>,
    base: int,
    m: Machine,
    operation: Operation,
) -> Stepped {
    match operation {
        Operation::IntArith(op, width) => spec_int_arith(m, op, width),
        Operation::FloatArith(op, width) => spec_float_arith(m, op, width),
        Operation::LoadStatic(width) => spec_load_static(code, m, width),
        Operation::LoadStaticBytes => spec_load_static_bytes(code, m),
        Operation::LoadConst(width) => spec_load_const(code, m, width),
        Operation::LoadConstBytes => spec_load_const_bytes(code, m),
        Operation::Load(width) => spec_load(m, width),
        Operation::LoadBytes => spec_load_bytes(m),
        Operation::VirtualConstToReal => spec_virtual_const_to_real(code, base, m),
        Operation::VirtualToReal => spec_virtual_to_real(base, m),
        Operation::Store(width) => spec_store(m, width),
        Operation::StoreBytes => spec_store_bytes(m),
        Operation::Memmove(width) => spec_memmove(m, width),
        Operation::MemmoveBytes => spec_memmove_bytes(m),
        Operation::Duplicate(width) => spec_duplicate(m, width),
        Operation::DuplicateBytes => spec_duplicate_bytes(m),
        Operation::Malloc => spec_malloc(m),
        Operation::Realloc => spec_realloc(m),
        Operation::Free => spec_free(m),
        Operation::Intr => spec_intr(code, m),
        Operation::IntrConst => spec_intr_const(code, m),
        Operation::ReadError => spec_read_error(m),
        Operation::SetErrorConst => spec_set_error_const(code, m),
        Operation::SetError => spec_set_error(m),
        Operation::Exit => spec_exit(m),
        Operation::JumpConst => spec_branch(code, m, true, 0, true),
        Operation::Jump => spec_branch(code, m, false, 0, true),
        Operation::JumpIf { on_zero, constant, width } => spec_jump_if(code, m, on_zero, constant, width),
        Operation::JumpOnError { on_error, constant } => spec_jump_on_error(code, m, on_error, constant),
        Operation::Call => spec_call(code, m),
        Operation::Nop => proceed(m, m.pc + 1, m.stack),
    }
}

/// One step of the machine on the image `code`, loaded at host address `base`.
pub open spec fn spec_step(code: Seq<u8>, base: int, m: Machine) -> Stepped {
    if m.pc < 0 || m.pc >= code.len() {
        Stepped { machine: m, outcome: Outcome::Finished(m.error) }
    } else {
        match ByteCodes::spec_from_byte(code[m.pc]) {
            None => refused(m, Fault::InvalidOpcode(code[m.pc])),
            Some(instruction) => spec_execute(code, base, m, instruction.spec_operation()),
        }
    }
}

/// Up to `budget` steps, ending with the first that does not say `Continue`.
pub open spec fn spec_run(code: Seq<u8>, base: int, m: Machine, budget: nat) -> Stepped
    decreases budget,
{
    if budget == 0 {
        Stepped { machine: m, outcome: Outcome::Continue }
    } else {
        let after = spec_step(code, base, m);
        if after.outcome is Continue {
            spec_run(code, base, after.machine, (budget - 1) as nat)
        } else {
            after
        }
    }
}

/// Pushes `bytes` if there is room for them.
pub open spec fn spec_accept(m: Machine, bytes: Seq<u8>) -> Stepped {
    if m.stack.len() + bytes.len() > m.capacity {
        refused(m, Fault::StackOverflow)
    } else {
        proceed(m, m.pc, bytes + m.stack)
    }
}

/// The machine after the host has answered `call` with `reply`.
pub open spec fn spec_resume(m: Machine, call: HostCall, reply: HostReply<'_>) -> Stepped {
    match (call, reply) {
        (HostCall::Float { width, .. }, HostReply::Value(value)) => spec_accept(
            m,
            le_bytes(value as nat, width.spec_bytes()),
        ),
        (HostCall::Malloc { .. }, HostReply::Value(value)) => spec_accept(m, le_bytes(value as nat, 8)),
        (HostCall::Realloc { .. }, HostReply::Value(value)) => spec_accept(m, le_bytes(value as nat, 8)),
        (HostCall::Load { count, .. }, HostReply::Bytes(bytes)) => if bytes@.len() != count {
            refused(m, Fault::UnexpectedReply)
        } else {
            spec_accept(m, bytes@)
        },
        (HostCall::ReadBytes { count }, HostReply::Bytes(bytes)) => if bytes@.len() != count {
            refused(m, Fault::UnexpectedReply)
        } else {
            spec_accept(m, bytes@)
        },
        (HostCall::ReadBytes { .. }, HostReply::ReadFailed { unexpected_eof }) => Stepped {
            machine: Machine {
                error: if unexpected_eof {
                    ErrorCodes::UnexpectedEOF
                } else {
                    ErrorCodes::GenericError
                },
                ..m
            },
            outcome: Outcome::Continue,
        },
        (HostCall::ReadAll, HostReply::Bytes(bytes)) => spec_accept(
            m,
            le_bytes(bytes@.len(), 8) + bytes@,
        ),
        (HostCall::ReadAll, HostReply::ReadFailed { .. }) => Stepped {
            machine: Machine { error: ErrorCodes::GenericError, ..m },
            outcome: Outcome::Continue,
        },
        (HostCall::Store { .. }, HostReply::Done) => proceed(m, m.pc, m.stack),
        (HostCall::Move { .. }, HostReply::Done) => proceed(m, m.pc, m.stack),
        (HostCall::Free { .. }, HostReply::Done) => proceed(m, m.pc, m.stack),
        (HostCall::PrintNumber { .. }, HostReply::Done) => proceed(m, m.pc, m.stack),
        (HostCall::PrintChar { .. }, HostReply::Done) => proceed(m, m.pc, m.stack),
        (HostCall::PrintMemory { .. }, HostReply::Done) => proceed(m, m.pc, m.stack),
        (HostCall::PrintData { .. }, HostReply::Done) => proceed(m, m.pc, m.stack),
        _ => refused(m, Fault::UnexpectedReply),
    }
}


/// The operand stack, the error register and the outbox.
pub struct VM {
    /// Operation stack. Stores the operands and results of operations.
    opstack: Stack,
    /// Stores the last error code.
    error_code: ErrorCodes,
    /// Bytes for the host: what a store writes, what a static print shows.
    outbox: Vec<u8>,
}

/// The size of the operand stack where none is asked for.
pub const DEFAULT_OPSTACK_SIZE: usize = 1024;

/// The state that a step starts from.
pub open spec fn before(vm: VM, program: Program<'_>) -> Machine {
    vm.machine(program.counter())
}

/// The machine and the program are as `expected` says, and the image is untouched.
pub open spec fn step_meets(
    vm: VM,
    program: Program<'_>,
    old_program: Program<'_>,
    outcome: Outcome,
    expected: Stepped,
) -> bool {
    &&& vm.wf()
    &&& program.image() == old_program.image()
    &&& program.origin() == old_program.origin()
    &&& vm.machine(program.counter()) == expected.machine
    &&& outcome == expected.outcome
}

/// The wrapping integer operation `op` on two unsigned numbers of `width` bytes.
fn compute(op: Arith, width: Width, first: u64, second: u64) -> (result: u64)
    requires
        first < radix_pow(width.spec_bytes()),
        second < radix_pow(width.spec_bytes()),
        (op is Div || op is Mod) ==> second != 0,
    ensures
        result == int_arith(op, width.spec_bytes(), first as nat, second as nat),
{
    proof {
        lemma_radix_pow_values();
    }
    let p: u128 = match width {
        Width::W1 => 0x100,
        Width::W2 => 0x1_0000,
        Width::W4 => 0x1_0000_0000,
        Width::W8 => 0x1_0000_0000_0000_0000,
    };
    assert(p == radix_pow(width.spec_bytes()));
    let x: u128 = first as u128;
    let y: u128 = second as u128;
    let half: u128 = p / 2;
    let x_negative = x >= half;
    let y_negative = y >= half;
    let ghost sx = signed(first as nat, width.spec_bytes());
    let ghost sy = signed(second as nat, width.spec_bytes());
    let wide: u128 = match op {
        Arith::Add => (x + y) % p,
        Arith::Sub => {
            proof {
                vstd::arithmetic::div_mod::lemma_mod_add_multiples_vanish(x - y, p as int);
            }
            (x + p - y) % p
        },
        Arith::Mul => {
            assert(x * y <= 0xFFFF_FFFF_FFFF_FFFF * 0xFFFF_FFFF_FFFF_FFFF) by (nonlinear_arith)
                requires
                    x <= 0xFFFF_FFFF_FFFF_FFFF,
                    y <= 0xFFFF_FFFF_FFFF_FFFF,
            ;
            (x * y) % p
        },
        Arith::Div => {
            let mx: u128 = if x_negative { p - x } else { x };
            let my: u128 = if y_negative { p - y } else { y };
            assert(mx == magnitude(sx) && my == magnitude(sy));
            let q: u128 = mx / my;
            assert(q <= mx) by (nonlinear_arith)
                requires
                    q == mx / my,
                    my > 0,
            ;
            if x_negative != y_negative {
                proof {
                    vstd::arithmetic::div_mod::lemma_mod_add_multiples_vanish(-(q as int), p as int);
                }
                (p - q) % p
            } else {
                q % p
            }
        },
        Arith::Mod => {
            let mx: u128 = if x_negative { p - x } else { x };
            let my: u128 = if y_negative { p - y } else { y };
            assert(mx == magnitude(sx) && my == magnitude(sy));
            let r: u128 = mx % my;
            if x_negative {
                proof {
                    vstd::arithmetic::div_mod::lemma_mod_add_multiples_vanish(-(r as int), p as int);
                }
                (p - r) % p
            } else {
                r % p
            }
        },
    };
    wide as u64
}

/// The signed number with the same four bytes as `value`.
fn to_signed32(value: u64) -> (code: i32)
    requires
        value < 0x1_0000_0000,
    ensures
        code == signed32(value as nat),
{
    if value >= 0x8000_0000 {
        (value as i64 - 0x1_0000_0000) as i32
    } else {
        value as i32
    }
}

/// The unsigned number with the same four bytes as `code`.
fn to_unsigned32(code: i32) -> (value: u64)
    ensures
        value == unsigned32(code),
{
    if code < 0 {
        (code as i64 + 0x1_0000_0000) as u64
    } else {
        code as u64
    }
}

/// Moves the program counter `by` bytes on.
fn advance(program: &mut Program<'_>, by: usize)
    requires
        0 <= old(program).counter(),
        old(program).counter() + by <= old(program).image().len(),
    ensures
        final(program).image() == old(program).image(),
        final(program).origin() == old(program).origin(),
        final(program).counter() == old(program).counter() + by,
{
    let size = program.len();
    let at = program.position();
    program.jump_to(VirtualAddress(at.0 + by));
}

impl VM {
    /// The stack is well formed and the error register holds a well-formed code.
    pub closed spec fn wf(&self) -> bool {
        self.opstack.wf() && self.error_code.wf()
    }

    /// The operand stack, the most recently pushed byte first.
    pub closed spec fn stack(&self) -> Seq<u8> {
        self.opstack@
    }

    /// The size of the operand stack.
    pub closed spec fn capacity(&self) -> nat {
        self.opstack.capacity()
    }

    /// The error register.
    pub closed spec fn error(&self) -> ErrorCodes {
        self.error_code
    }

    /// The bytes for the host.
    pub closed spec fn data(&self) -> Seq<u8> {
        self.outbox@
    }

    /// The state of this machine with the program counter at `pc`.
    pub open spec fn machine(&self, pc: int) -> Machine {
        Machine {
            stack: self.stack(),
            capacity: self.capacity(),
            error: self.error(),
            outbox: self.data(),
            pc,
        }
    }

    /// Instantiate a new VM with a given stack size.
    pub fn new(opstack_size: Option<usize>) -> (vm: Self)
        ensures
            vm.wf(),
            vm.machine(0) == (Machine {
                stack: Seq::empty(),
                capacity: match opstack_size {
                    Some(size) => size as nat,
                    None => DEFAULT_OPSTACK_SIZE as nat,
                },
                error: ErrorCodes::NoError,
                outbox: Seq::empty(),
                pc: 0,
            }),
    {
        let size = match opstack_size {
            Some(size) => size,
            None => DEFAULT_OPSTACK_SIZE,
        };
        Self { opstack: Stack::new(size), error_code: ErrorCodes::NoError, outbox: Vec::new() }
    }

    /// The error register.
    pub fn error_code(&self) -> (error: ErrorCodes)
        ensures
            error == self.machine(0).error,
    {
        self.error_code
    }

    /// The bytes that go with the last host call that carries data.
    pub fn outbox(&self) -> (bytes: &Vec<u8>)
        ensures
            bytes@ == self.machine(0).outbox,
    {
        &self.outbox
    }

    /// A copy of the operand stack, the most recently pushed byte first.
    pub fn stack_bytes(&self) -> (bytes: Vec<u8>)
        requires
            self.wf(),
        ensures
            bytes@ == self.machine(0).stack,
    {
        let n = self.opstack.len();
        let bytes = self.opstack.read_bytes(0, n);
        assert(self.opstack@.subrange(0, n as int) =~= self.opstack@);
        bytes
    }

    fn int_arith(
        &mut self,
        program: &mut Program<'_>,
        op: Arith,
        width: Width,
    ) -> (outcome: Outcome)
        requires
            old(self).wf(),
            0 <= old(program).counter() < old(program).image().len(),
        ensures
            step_meets(
                *final(self),
                *final(program),
                *old(program),
                outcome,
                spec_int_arith(before(*old(self), *old(program)), op, width),
            ),
    {
        let n = width.bytes();
        if self.opstack.len() < 2 * n {
            return Outcome::Fault(Fault::StackUnderflow);
        }
        let second = self.opstack.read(0, n);
        let first = self.opstack.read(n, n);
        if (matches!(op, Arith::Div) || matches!(op, Arith::Mod)) && second == 0 {
            return Outcome::Fault(Fault::DivisionByZero);
        }
        proof {
            lemma_le_value_bound(self.opstack@.subrange(0, n as int));
            lemma_le_value_bound(self.opstack@.subrange(n as int, n + n));
        }
        let result = compute(op, width, first, second);
        self.opstack.discard(2 * n);
        self.opstack.push_value(result, n);
        advance(program, 1);
        Outcome::Continue
    }

    /// Takes `used` bytes off the stack, moves the counter `by` bytes on and
    /// hands `call` to the host.
    fn hand_out(
        &mut self,
        program: &mut Program<'_>,
        by: usize,
        used: usize,
        call: HostCall,
    ) -> (outcome: Outcome)
        requires
            old(self).wf(),
            used <= before(*old(self), *old(program)).stack.len(),
            0 <= old(program).counter(),
            old(program).counter() + by <= old(program).image().len(),
        ensures
            step_meets(
                *final(self),
                *final(program),
                *old(program),
                outcome,
                ask(
                    before(*old(self), *old(program)),
                    old(program).counter() + by,
                    used as int,
                    call,
                ),
            ),
    {
        self.opstack.discard(used);
        advance(program, by);
        Outcome::Host(call)
    }

    /// As `hand_out`, after putting `count` bytes of the stack from `from` on in the outbox.
    fn hand_out_stack(
        &mut self,
        program: &mut Program<'_>,
        from: usize,
        count: usize,
        call: HostCall,
    ) -> (outcome: Outcome)
        requires
            old(self).wf(),
            from + count <= before(*old(self), *old(program)).stack.len(),
            0 <= old(program).counter() < old(program).image().len(),
        ensures
            step_meets(
                *final(self),
                *final(program),
                *old(program),
                outcome,
                ask_with(
                    before(*old(self), *old(program)),
                    old(program).counter() + 1,
                    from + count,
                    before(*old(self), *old(program)).stack.subrange(from as int, from + count),
                    call,
                ),
            ),
    {
        let held = self.opstack.len();
        self.outbox = self.opstack.read_bytes(from, count);
        self.opstack.discard(from + count);
        advance(program, 1);
        Outcome::Host(call)
    }

    fn float_arith(
        &mut self,
        program: &mut Program<'_>,
        op: Arith,
        width: Width,
    ) -> (outcome: Outcome)
        requires
            old(self).wf(),
            0 <= old(program).counter() < old(program).image().len(),
        ensures
            step_meets(
                *final(self),
                *final(program),
                *old(program),
                outcome,
                spec_float_arith(before(*old(self), *old(program)), op, width),
            ),
    {
        let n = width.bytes();
        if self.opstack.len() < 2 * n {
            return Outcome::Fault(Fault::StackUnderflow);
        }
        let second = self.opstack.read(0, n);
        let first = self.opstack.read(n, n);
        self.hand_out(program, 1, 2 * n, HostCall::Float { op, width, first, second })
    }

    /// Pushes `count` bytes of the image from `address` on and moves the counter `by` bytes on.
    fn push_static(
        &mut self,
        program: &mut Program<'_>,
        by: u64,
        address: u64,
        count: u64,
    ) -> (outcome: Outcome)
        requires
            old(self).wf(),
            0 <= old(program).counter(),
            address + count <= old(program).image().len() ==> old(program).counter() + by <= old(
                program,
            ).image().len(),
        ensures
            step_meets(
                *final(self),
                *final(program),
                *old(program),
                outcome,
                spec_push_static(
                    old(program).image(),
                    before(*old(self), *old(program)),
                    old(program).counter() + by,
                    address as int,
                    count as int,
                ),
            ),
    {
        let size = program.len() as u64;
        if address > size || count > size - address {
            return Outcome::Fault(Fault::CodeOutOfBounds);
        }
        if count > self.opstack.room() as u64 {
            return Outcome::Fault(Fault::StackOverflow);
        }
        let bytes = program.get_static_bytes(VirtualAddress(address as usize), count as usize);
        self.opstack.push_bytes(bytes);
        advance(program, by as usize);
        Outcome::Continue
    }

    fn load_static(&mut self, program: &mut Program<'_>, width: Width) -> (outcome: Outcome)
        requires
            old(self).wf(),
            0 <= old(program).counter() < old(program).image().len(),
        ensures
            step_meets(
                *final(self),
                *final(program),
                *old(program),
                outcome,
                spec_load_static(old(program).image(), before(*old(self), *old(program)), width),
            ),
    {
        match program.operand(1, 8) {
            None => Outcome::Fault(Fault::CodeOutOfBounds),
            Some(address) => self.push_static(program, 9, address, width.bytes() as u64),
        }
    }

    fn load_static_bytes(&mut self, program: &mut Program<'_>) -> (outcome: Outcome)
        requires
            old(self).wf(),
            0 <= old(program).counter() < old(program).image().len(),
        ensures
            step_meets(
                *final(self),
                *final(program),
                *old(program),
                outcome,
                spec_load_static_bytes(old(program).image(), before(*old(self), *old(program))),
            ),
    {
        match program.operand(1, 8) {
            None => Outcome::Fault(Fault::CodeOutOfBounds),
            Some(address) => match program.operand(9, 8) {
                None => Outcome::Fault(Fault::CodeOutOfBounds),
                Some(count) => self.push_static(program, 17, address, count),
            },
        }
    }

    fn load_const(&mut self, program: &mut Program<'_>, width: Width) -> (outcome: Outcome)
        requires
            old(self).wf(),
            0 <= old(program).counter() < old(program).image().len(),
        ensures
            step_meets(
                *final(self),
                *final(program),
                *old(program),
                outcome,
                spec_load_const(old(program).image(), before(*old(self), *old(program)), width),
            ),
    {
        let n = width.bytes() as u64;
        let size = program.len();
        let at = program.position().0 as u64;
        self.push_static(program, 1 + n, at + 1, n)
    }

    fn load_const_bytes(&mut self, program: &mut Program<'_>) -> (outcome: Outcome)
        requires
            old(self).wf(),
            0 <= old(program).counter() < old(program).image().len(),
        ensures
            step_meets(
                *final(self),
                *final(program),
                *old(program),
                outcome,
                spec_load_const_bytes(old(program).image(), before(*old(self), *old(program))),
            ),
    {
        let size = program.len();
        let at = program.position().0 as u64;
        match program.operand(1, 8) {
            None => Outcome::Fault(Fault::CodeOutOfBounds),
            Some(count) => {
                if count > size as u64 - (at + 9) {
                    Outcome::Fault(Fault::CodeOutOfBounds)
                } else {
                    self.push_static(program, 9 + count, at + 9, count)
                }
            },
        }
    }

    fn load(&mut self, program: &mut Program<'_>, width: Width) -> (outcome: Outcome)
        requires
            old(self).wf(),
            0 <= old(program).counter() < old(program).image().len(),
        ensures
            step_meets(
                *final(self),
                *final(program),
                *old(program),
                outcome,
                spec_load(before(*old(self), *old(program)), width),
            ),
    {
        if self.opstack.len() < 8 {
            return Outcome::Fault(Fault::StackUnderflow);
        }
        let address = self.opstack.read(0, 8);
        self.hand_out(program, 1, 8, HostCall::Load { address, count: width.bytes() as u64 })
    }

    fn load_bytes(&mut self, program: &mut Program<'_>) -> (outcome: Outcome)
        requires
            old(self).wf(),
            0 <= old(program).counter() < old(program).image().len(),
        ensures
            step_meets(
                *final(self),
                *final(program),
                *old(program),
                outcome,
                spec_load_bytes(before(*old(self), *old(program))),
            ),
    {
        if self.opstack.len() < 16 {
            return Outcome::Fault(Fault::StackUnderflow);
        }
        let address = self.opstack.read(0, 8);
        let count = self.opstack.read(8, 8);
        self.hand_out(program, 1, 16, HostCall::Load { address, count })
    }

    /// Replaces the `used` topmost bytes by the host address of `vaddress`
    /// and moves the counter `by` bytes on.
    fn push_real(&mut self, program: &mut Program<'_>, by: usize, used: usize, vaddress: u64)
        requires
            old(self).wf(),
            used <= before(*old(self), *old(program)).stack.len(),
            before(*old(self), *old(program)).stack.len() - used + 8 <= before(
                *old(self),
                *old(program),
            ).capacity,
            0 <= old(program).counter(),
            old(program).counter() + by <= old(program).image().len(),
        ensures
            step_meets(
                *final(self),
                *final(program),
                *old(program),
                Outcome::Continue,
                proceed(
                    before(*old(self), *old(program)),
                    old(program).counter() + by,
                    le_bytes((old(program).origin() + vaddress) as nat, 8) + before(
                        *old(self),
                        *old(program),
                    ).stack.subrange(used as int, before(*old(self), *old(program)).stack.len() as int),
                ),
            ),
    {
        let base = program.base() as u64;
        let host: u128 = (base as u128 + vaddress as u128) % 0x1_0000_0000_0000_0000;
        proof {
            lemma_radix_pow_values();
            lemma_le_bytes_mod((base + vaddress) as nat, 8);
        }
        self.opstack.discard(used);
        self.opstack.push_value(host as u64, 8);
        advance(program, by);
    }

    fn virtual_const_to_real(&mut self, program: &mut Program<'_>) -> (outcome: Outcome)
        requires
            old(self).wf(),
            0 <= old(program).counter() < old(program).image().len(),
        ensures
            step_meets(
                *final(self),
                *final(program),
                *old(program),
                outcome,
                spec_virtual_const_to_real(
                    old(program).image(),
                    old(program).origin(),
                    before(*old(self), *old(program)),
                ),
            ),
    {
        match program.operand(1, 8) {
            None => Outcome::Fault(Fault::CodeOutOfBounds),
            Some(vaddress) => {
                if self.opstack.room() < 8 {
                    Outcome::Fault(Fault::StackOverflow)
                } else {
                    assert(self.opstack@.subrange(0, self.opstack@.len() as int) =~= self.opstack@);
                    self.push_real(program, 9, 0, vaddress);
                    Outcome::Continue
                }
            },
        }
    }

    fn virtual_to_real(&mut self, program: &mut Program<'_>) -> (outcome: Outcome)
        requires
            old(self).wf(),
            0 <= old(program).counter() < old(program).image().len(),
        ensures
            step_meets(
                *final(self),
                *final(program),
                *old(program),
                outcome,
                spec_virtual_to_real(old(program).origin(), before(*old(self), *old(program))),
            ),
    {
        if self.opstack.len() < 8 {
            return Outcome::Fault(Fault::StackUnderflow);
        }
        let vaddress = self.opstack.read(0, 8);
        proof {
            self.opstack.lemma_len();
        }
        self.push_real(program, 1, 8, vaddress);
        Outcome::Continue
    }

    fn store(&mut self, program: &mut Program<'_>, width: Width) -> (outcome: Outcome)
        requires
            old(self).wf(),
            0 <= old(program).counter() < old(program).image().len(),
        ensures
            step_meets(
                *final(self),
                *final(program),
                *old(program),
                outcome,
                spec_store(before(*old(self), *old(program)), width),
            ),
    {
        let n = width.bytes();
        if self.opstack.len() < 8 + n {
            return Outcome::Fault(Fault::StackUnderflow);
        }
        let address = self.opstack.read(0, 8);
        self.hand_out_stack(program, 8, n, HostCall::Store { address, count: n as u64 })
    }

    fn store_bytes(&mut self, program: &mut Program<'_>) -> (outcome: Outcome)
        requires
            old(self).wf(),
            0 <= old(program).counter() < old(program).image().len(),
        ensures
            step_meets(
                *final(self),
                *final(program),
                *old(program),
                outcome,
                spec_store_bytes(before(*old(self), *old(program))),
            ),
    {
        let held = self.opstack.len();
        if held < 16 {
            return Outcome::Fault(Fault::StackUnderflow);
        }
        let address = self.opstack.read(0, 8);
        let count = self.opstack.read(8, 8);
        if count > (held - 16) as u64 {
            return Outcome::Fault(Fault::StackUnderflow);
        }
        self.hand_out_stack(program, 16, count as usize, HostCall::Store { address, count })
    }

    fn memmove(&mut self, program: &mut Program<'_>, width: Width) -> (outcome: Outcome)
        requires
            old(self).wf(),
            0 <= old(program).counter() < old(program).image().len(),
        ensures
            step_meets(
                *final(self),
                *final(program),
                *old(program),
                outcome,
                spec_memmove(before(*old(self), *old(program)), width),
            ),
    {
        if self.opstack.len() < 16 {
            return Outcome::Fault(Fault::StackUnderflow);
        }
        let dest = self.opstack.read(0, 8);
        let src = self.opstack.read(8, 8);
        self.hand_out(program, 1, 16, HostCall::Move { dest, src, count: width.bytes() as u64 })
    }

    fn memmove_bytes(&mut self, program: &mut Program<'_>) -> (outcome: Outcome)
        requires
            old(self).wf(),
            0 <= old(program).counter() < old(program).image().len(),
        ensures
            step_meets(
                *final(self),
                *final(program),
                *old(program),
                outcome,
                spec_memmove_bytes(before(*old(self), *old(program))),
            ),
    {
        if self.opstack.len() < 24 {
            return Outcome::Fault(Fault::StackUnderflow);
        }
        let dest = self.opstack.read(0, 8);
        let src = self.opstack.read(8, 8);
        let count = self.opstack.read(16, 8);
        self.hand_out(program, 1, 24, HostCall::Move { dest, src, count })
    }

    fn copy_top(&mut self, program: &mut Program<'_>, used: usize, count: u64) -> (outcome: Outcome)
        requires
            old(self).wf(),
            used <= before(*old(self), *old(program)).stack.len(),
            0 <= old(program).counter() < old(program).image().len(),
        ensures
            step_meets(
                *final(self),
                *final(program),
                *old(program),
                outcome,
                spec_copy_top(before(*old(self), *old(program)), used as int, count as int),
            ),
    {
        let size = self.opstack.size();
        let held = self.opstack.len() - used;
        let room = self.opstack.room();
        if count > held as u64 {
            return Outcome::Fault(Fault::StackUnderflow);
        }
        if count > (room + used) as u64 {
            return Outcome::Fault(Fault::StackOverflow);
        }
        let bytes = self.opstack.read_bytes(used, count as usize);
        self.opstack.discard(used);
        self.opstack.push_bytes(bytes.as_slice());
        advance(program, 1);
        proof {
            let rest = old(self).opstack@.subrange(used as int, old(self).opstack@.len() as int);
            assert(rest.subrange(0, count as int) =~= bytes@);
        }
        Outcome::Continue
    }

    fn duplicate_bytes(&mut self, program: &mut Program<'_>) -> (outcome: Outcome)
        requires
            old(self).wf(),
            0 <= old(program).counter() < old(program).image().len(),
        ensures
            step_meets(
                *final(self),
                *final(program),
                *old(program),
                outcome,
                spec_duplicate_bytes(before(*old(self), *old(program))),
            ),
    {
        if self.opstack.len() < 8 {
            return Outcome::Fault(Fault::StackUnderflow);
        }
        let count = self.opstack.read(0, 8);
        self.copy_top(program, 8, count)
    }

    fn malloc(&mut self, program: &mut Program<'_>) -> (outcome: Outcome)
        requires
            old(self).wf(),
            0 <= old(program).counter() < old(program).image().len(),
        ensures
            step_meets(
                *final(self),
                *final(program),
                *old(program),
                outcome,
                spec_malloc(before(*old(self), *old(program))),
            ),
    {
        if self.opstack.len() < 8 {
            return Outcome::Fault(Fault::StackUnderflow);
        }
        let size = self.opstack.read(0, 8);
        self.hand_out(program, 1, 8, HostCall::Malloc { size })
    }

    fn realloc(&mut self, program: &mut Program<'_>) -> (outcome: Outcome)
        requires
            old(self).wf(),
            0 <= old(program).counter() < old(program).image().len(),
        ensures
            step_meets(
                *final(self),
                *final(program),
                *old(program),
                outcome,
                spec_realloc(before(*old(self), *old(program))),
            ),
    {
        if self.opstack.len() < 16 {
            return Outcome::Fault(Fault::StackUnderflow);
        }
        let address = self.opstack.read(0, 8);
        let size = self.opstack.read(8, 8);
        self.hand_out(program, 1, 16, HostCall::Realloc { address, size })
    }

    fn free(&mut self, program: &mut Program<'_>) -> (outcome: Outcome)
        requires
            old(self).wf(),
            0 <= old(program).counter() < old(program).image().len(),
        ensures
            step_meets(
                *final(self),
                *final(program),
                *old(program),
                outcome,
                spec_free(before(*old(self), *old(program))),
            ),
    {
        if self.opstack.len() < 8 {
            return Outcome::Fault(Fault::StackUnderflow);
        }
        let address = self.opstack.read(0, 8);
        self.hand_out(program, 1, 8, HostCall::Free { address })
    }

    fn print_number(
        &mut self,
        program: &mut Program<'_>,
        by: usize,
        used: usize,
        count: usize,
    ) -> (outcome: Outcome)
        requires
            old(self).wf(),
            count <= 8,
            used <= 1,
            used <= before(*old(self), *old(program)).stack.len(),
            0 <= old(program).counter(),
            old(program).counter() + by <= old(program).image().len(),
        ensures
            step_meets(
                *final(self),
                *final(program),
                *old(program),
                outcome,
                spec_print_number(
                    before(*old(self), *old(program)),
                    old(program).counter() + by,
                    used as int,
                    count as int,
                ),
            ),
    {
        if self.opstack.len() - used < count {
            return Outcome::Fault(Fault::StackUnderflow);
        }
        let value = self.opstack.read(used, count);
        self.hand_out(program, by, used + count, HostCall::PrintNumber { value })
    }

    fn print_memory(
        &mut self,
        program: &mut Program<'_>,
        by: usize,
        used: usize,
        text: bool,
    ) -> (outcome: Outcome)
        requires
            old(self).wf(),
            used <= 1,
            used <= before(*old(self), *old(program)).stack.len(),
            0 <= old(program).counter(),
            old(program).counter() + by <= old(program).image().len(),
        ensures
            step_meets(
                *final(self),
                *final(program),
                *old(program),
                outcome,
                spec_print_memory(
                    before(*old(self), *old(program)),
                    old(program).counter() + by,
                    used as int,
                    text,
                ),
            ),
    {
        if self.opstack.len() - used < 16 {
            return Outcome::Fault(Fault::StackUnderflow);
        }
        let count = self.opstack.read(used, 8);
        let address = self.opstack.read(used + 8, 8);
        self.hand_out(program, by, used + 16, HostCall::PrintMemory { address, count, text })
    }

    fn print_static(
        &mut self,
        program: &mut Program<'_>,
        by: usize,
        used: usize,
        text: bool,
    ) -> (outcome: Outcome)
        requires
            old(self).wf(),
            used <= 1,
            used <= before(*old(self), *old(program)).stack.len(),
            0 <= old(program).counter(),
            old(program).counter() + by <= old(program).image().len(),
        ensures
            step_meets(
                *final(self),
                *final(program),
                *old(program),
                outcome,
                spec_print_static(
                    old(program).image(),
                    before(*old(self), *old(program)),
                    old(program).counter() + by,
                    used as int,
                    text,
                ),
            ),
    {
        if self.opstack.len() - used < 16 {
            return Outcome::Fault(Fault::StackUnderflow);
        }
        let count = self.opstack.read(used, 8);
        let vaddress = self.opstack.read(used + 8, 8);
        let size = program.len() as u64;
        if vaddress > size || count > size - vaddress {
            return Outcome::Fault(Fault::CodeOutOfBounds);
        }
        let data = program.get_static_bytes(VirtualAddress(vaddress as usize), count as usize);
        self.outbox = vstd::slice::slice_to_vec(data);
        self.opstack.discard(used + 16);
        advance(program, by);
        Outcome::Host(HostCall::PrintData { count, text })
    }

    /// Executes the interrupt `intr_code`. The `used` topmost bytes of the
    /// stack are spent already; the program goes on `by` bytes after the counter.
    fn handle_interrupt(
        &mut self,
        intr_code: Interrupts,
        program: &mut Program<'_>,
        by: usize,
        used: usize,
    ) -> (outcome: Outcome)
        requires
            old(self).wf(),
            used <= 1,
            used <= before(*old(self), *old(program)).stack.len(),
            0 <= old(program).counter(),
            old(program).counter() + by <= old(program).image().len(),
        ensures
            step_meets(
                *final(self),
                *final(program),
                *old(program),
                outcome,
                spec_interrupt(
                    old(program).image(),
                    before(*old(self), *old(program)),
                    old(program).counter() + by,
                    used as int,
                    intr_code,
                ),
            ),
    {
        match intr_code {
            Interrupts::Print1 => self.print_number(program, by, used, 1),
            Interrupts::Print2 => self.print_number(program, by, used, 2),
            Interrupts::Print4 => self.print_number(program, by, used, 4),
            Interrupts::Print8 => self.print_number(program, by, used, 8),
            Interrupts::PrintBytes => self.print_memory(program, by, used, false),
            Interrupts::PrintChar => {
                if self.opstack.len() - used < 1 {
                    Outcome::Fault(Fault::StackUnderflow)
                } else {
                    let value = self.opstack.read(used, 1);
                    proof {
                        lemma_le_value_bound(self.opstack@.subrange(used as int, used + 1));
                        lemma_radix_pow_values();
                    }
                    self.hand_out(program, by, used + 1, HostCall::PrintChar { value: value as u8 })
                }
            },
            Interrupts::PrintString => self.print_memory(program, by, used, true),
            Interrupts::PrintStaticBytes => self.print_static(program, by, used, false),
            Interrupts::PrintStaticString => self.print_static(program, by, used, true),
            Interrupts::ReadBytes => {
                if self.opstack.len() - used < 8 {
                    Outcome::Fault(Fault::StackUnderflow)
                } else {
                    let count = self.opstack.read(used, 8);
                    self.hand_out(program, by, used + 8, HostCall::ReadBytes { count })
                }
            },
            Interrupts::ReadAll => self.hand_out(program, by, used, HostCall::ReadAll),
        }
    }

    fn intr(&mut self, program: &mut Program<'_>) -> (outcome: Outcome)
        requires
            old(self).wf(),
            0 <= old(program).counter() < old(program).image().len(),
        ensures
            step_meets(
                *final(self),
                *final(program),
                *old(program),
                outcome,
                spec_intr(old(program).image(), before(*old(self), *old(program))),
            ),
    {
        if self.opstack.len() < 1 {
            return Outcome::Fault(Fault::StackUnderflow);
        }
        let value = self.opstack.read(0, 1);
        proof {
            lemma_le_value_bound(self.opstack@.subrange(0, 1));
            lemma_radix_pow_values();
        }
        match Interrupts::from_byte(value as u8) {
            None => Outcome::Fault(Fault::InvalidInterrupt(value as u8)),
            Some(code) => self.handle_interrupt(code, program, 1, 1),
        }
    }

    fn intr_const(&mut self, program: &mut Program<'_>) -> (outcome: Outcome)
        requires
            old(self).wf(),
            0 <= old(program).counter() < old(program).image().len(),
        ensures
            step_meets(
                *final(self),
                *final(program),
                *old(program),
                outcome,
                spec_intr_const(old(program).image(), before(*old(self), *old(program))),
            ),
    {
        match program.operand(1, 1) {
            None => Outcome::Fault(Fault::CodeOutOfBounds),
            Some(value) => {
                proof {
                    lemma_le_value_bound(
                        program.image().subrange(program.counter() + 1, program.counter() + 2),
                    );
                    lemma_radix_pow_values();
                }
                match Interrupts::from_byte(value as u8) {
                    None => Outcome::Fault(Fault::InvalidInterrupt(value as u8)),
                    Some(code) => self.handle_interrupt(code, program, 2, 0),
                }
            },
        }
    }

    fn read_error(&mut self, program: &mut Program<'_>) -> (outcome: Outcome)
        requires
            old(self).wf(),
            0 <= old(program).counter() < old(program).image().len(),
        ensures
            step_meets(
                *final(self),
                *final(program),
                *old(program),
                outcome,
                spec_read_error(before(*old(self), *old(program))),
            ),
    {
        if self.opstack.room() < 4 {
            return Outcome::Fault(Fault::StackOverflow);
        }
        self.opstack.push_value(to_unsigned32(self.error_code.code()), 4);
        advance(program, 1);
        Outcome::Continue
    }

    fn set_error_const(&mut self, program: &mut Program<'_>) -> (outcome: Outcome)
        requires
            old(self).wf(),
            0 <= old(program).counter() < old(program).image().len(),
        ensures
            step_meets(
                *final(self),
                *final(program),
                *old(program),
                outcome,
                spec_set_error_const(old(program).image(), before(*old(self), *old(program))),
            ),
    {
        match program.operand(1, 4) {
            None => Outcome::Fault(Fault::CodeOutOfBounds),
            Some(value) => {
                proof {
                    lemma_le_value_bound(
                        program.image().subrange(program.counter() + 1, program.counter() + 5),
                    );
                    lemma_radix_pow_values();
                }
                self.error_code = ErrorCodes::from_code(to_signed32(value));
                advance(program, 5);
                Outcome::Continue
            },
        }
    }

    /// Takes four bytes off the stack and reads them as an error code.
    fn pop_error(&mut self) -> (error: ErrorCodes)
        requires
            old(self).wf(),
            4 <= old(self).machine(0).stack.len(),
        ensures
            final(self).wf(),
            error.wf(),
            error == ErrorCodes::spec_from_code(signed32(stack_value(old(self).machine(0).stack, 0, 4))),
            final(self).machine(0) == (Machine {
                stack: old(self).machine(0).stack.subrange(4, old(self).machine(0).stack.len() as int),
                ..old(self).machine(0)
            }),
    {
        let value = self.opstack.read(0, 4);
        proof {
            lemma_le_value_bound(self.opstack@.subrange(0, 4));
            lemma_radix_pow_values();
        }
        self.opstack.discard(4);
        ErrorCodes::from_code(to_signed32(value))
    }

    fn set_error(&mut self, program: &mut Program<'_>) -> (outcome: Outcome)
        requires
            old(self).wf(),
            0 <= old(program).counter() < old(program).image().len(),
        ensures
            step_meets(
                *final(self),
                *final(program),
                *old(program),
                outcome,
                spec_set_error(before(*old(self), *old(program))),
            ),
    {
        if self.opstack.len() < 4 {
            return Outcome::Fault(Fault::StackUnderflow);
        }
        let error = self.pop_error();
        self.error_code = error;
        advance(program, 1);
        Outcome::Continue
    }

    fn exit(&mut self, program: &mut Program<'_>) -> (outcome: Outcome)
        requires
            old(self).wf(),
            0 <= old(program).counter() < old(program).image().len(),
        ensures
            step_meets(
                *final(self),
                *final(program),
                *old(program),
                outcome,
                spec_exit(before(*old(self), *old(program))),
            ),
    {
        if self.opstack.len() < 4 {
            return Outcome::Fault(Fault::StackUnderflow);
        }
        let error = self.pop_error();
        advance(program, 1);
        Outcome::Exit(error)
    }

    /// Finds the target of a jump without changing anything.
    fn target(
        &self,
        program: &Program<'_>,
        constant: bool,
    ) -> (found: Result<(u64, usize, usize), Fault>)
        requires
            self.wf(),
            0 <= program.counter() < program.image().len(),
        ensures
            match spec_target(program.image(), before(*self, *program), constant) {
                Ok((target, next, used)) => found is Ok && found->Ok_0.0 == target && found->Ok_0.1
                    == next && found->Ok_0.2 == used && 0 <= used <= 8 && used <= before(
                    *self,
                    *program,
                ).stack.len(),
                Err(fault) => found == Err::<(u64, usize, usize), Fault>(fault),
            },
    {
        let at = program.position().0;
        let size = program.len();
        if constant {
            match program.operand(1, 8) {
                None => Err(Fault::CodeOutOfBounds),
                Some(target) => Ok((target, at + 9, 0)),
            }
        } else if self.opstack.len() < 8 {
            Err(Fault::StackUnderflow)
        } else {
            let target = self.opstack.read(0, 8);
            Ok((target, at + 1, 8))
        }
    }

    fn branch(
        &mut self,
        program: &mut Program<'_>,
        constant: bool,
        count: usize,
        taken: bool,
    ) -> (outcome: Outcome)
        requires
            old(self).wf(),
            0 <= old(program).counter() < old(program).image().len(),
            count <= 8,
            match spec_target(old(program).image(), before(*old(self), *old(program)), constant) {
                Ok((target, next, used)) => used + count <= before(*old(self), *old(program)).stack.len(),
                Err(fault) => true,
            },
        ensures
            step_meets(
                *final(self),
                *final(program),
                *old(program),
                outcome,
                spec_branch(
                    old(program).image(),
                    before(*old(self), *old(program)),
                    constant,
                    count as int,
                    taken,
                ),
            ),
    {
        match self.target(program, constant) {
            Err(fault) => Outcome::Fault(fault),
            Ok((target, next, used)) => {
                if target > usize::MAX as u64 {
                    Outcome::Fault(Fault::AddressOutOfRange)
                } else {
                    self.opstack.discard(used + count);
                    if taken {
                        program.jump_to(VirtualAddress(target as usize));
                    } else {
                        program.jump_to(VirtualAddress(next));
                    }
                    Outcome::Continue
                }
            },
        }
    }

    fn jump_if(
        &mut self,
        program: &mut Program<'_>,
        on_zero: bool,
        constant: bool,
        width: Width,
    ) -> (outcome: Outcome)
        requires
            old(self).wf(),
            0 <= old(program).counter() < old(program).image().len(),
        ensures
            step_meets(
                *final(self),
                *final(program),
                *old(program),
                outcome,
                spec_jump_if(
                    old(program).image(),
                    before(*old(self), *old(program)),
                    on_zero,
                    constant,
                    width,
                ),
            ),
    {
        let n = width.bytes();
        match self.target(program, constant) {
            Err(fault) => Outcome::Fault(fault),
            Ok((target, next, used)) => {
                if self.opstack.len() < used + n {
                    Outcome::Fault(Fault::StackUnderflow)
                } else {
                    let condition = self.opstack.read(used, n);
                    self.branch(program, constant, n, (condition == 0) == on_zero)
                }
            },
        }
    }

    fn jump_on_error(
        &mut self,
        program: &mut Program<'_>,
        on_error: bool,
        constant: bool,
    ) -> (outcome: Outcome)
        requires
            old(self).wf(),
            0 <= old(program).counter() < old(program).image().len(),
        ensures
            step_meets(
                *final(self),
                *final(program),
                *old(program),
                outcome,
                spec_jump_on_error(
                    old(program).image(),
                    before(*old(self), *old(program)),
                    on_error,
                    constant,
                ),
            ),
    {
        let failed = !matches!(self.error_code, ErrorCodes::NoError);
        self.branch(program, constant, 0, failed == on_error)
    }

    fn call(&mut self, program: &mut Program<'_>) -> (outcome: Outcome)
        requires
            old(self).wf(),
            0 <= old(program).counter() < old(program).image().len(),
        ensures
            step_meets(
                *final(self),
                *final(program),
                *old(program),
                outcome,
                spec_call(old(program).image(), before(*old(self), *old(program))),
            ),
    {
        let at = program.position().0;
        let size = program.len();
        match program.operand(1, 8) {
            None => Outcome::Fault(Fault::CodeOutOfBounds),
            Some(target) => {
                if target > usize::MAX as u64 {
                    Outcome::Fault(Fault::AddressOutOfRange)
                } else if self.opstack.room() < 8 {
                    Outcome::Fault(Fault::StackOverflow)
                } else {
                    self.opstack.push_value((at + 9) as u64, 8);
                    program.jump_to(VirtualAddress(target as usize));
                    Outcome::Continue
                }
            },
        }
    }

    /// Executes the instruction at the program counter.
    ///
    /// A fault leaves the machine and the program as they were. Operands of
    /// arithmetic are taken from the stack second operand first: the result
    /// is `first op second`, where `second` was the topmost.
    pub fn step(&mut self, program: &mut Program<'_>) -> (outcome: Outcome)
        requires
            old(self).wf(),
        ensures
            step_meets(
                *final(self),
                *final(program),
                *old(program),
                outcome,
                spec_step(
                    old(program).image(),
                    old(program).origin(),
                    before(*old(self), *old(program)),
                ),
            ),
    {
        let at = program.position().0;
        if at >= program.len() {
            return Outcome::Finished(self.error_code);
        }
        let byte = program.get_static1(VirtualAddress(at));
        let instruction = match ByteCodes::from_byte(byte) {
            None => {
                return Outcome::Fault(Fault::InvalidOpcode(byte));
            },
            Some(instruction) => instruction,
        };
        match instruction.operation() {
            Operation::IntArith(op, width) => self.int_arith(program, op, width),
            Operation::FloatArith(op, width) => self.float_arith(program, op, width),
            Operation::LoadStatic(width) => self.load_static(program, width),
            Operation::LoadStaticBytes => self.load_static_bytes(program),
            Operation::LoadConst(width) => self.load_const(program, width),
            Operation::LoadConstBytes => self.load_const_bytes(program),
            Operation::Load(width) => self.load(program, width),
            Operation::LoadBytes => self.load_bytes(program),
            Operation::VirtualConstToReal => self.virtual_const_to_real(program),
            Operation::VirtualToReal => self.virtual_to_real(program),
            Operation::Store(width) => self.store(program, width),
            Operation::StoreBytes => self.store_bytes(program),
            Operation::Memmove(width) => self.memmove(program, width),
            Operation::MemmoveBytes => self.memmove_bytes(program),
            Operation::Duplicate(width) => self.copy_top(program, 0, width.bytes() as u64),
            Operation::DuplicateBytes => self.duplicate_bytes(program),
            Operation::Malloc => self.malloc(program),
            Operation::Realloc => self.realloc(program),
            Operation::Free => self.free(program),
            Operation::Intr => self.intr(program),
            Operation::IntrConst => self.intr_const(program),
            Operation::ReadError => self.read_error(program),
            Operation::SetErrorConst => self.set_error_const(program),
            Operation::SetError => self.set_error(program),
            Operation::Exit => self.exit(program),
            Operation::JumpConst => self.branch(program, true, 0, true),
            Operation::Jump => self.branch(program, false, 0, true),
            Operation::JumpIf { on_zero, constant, width } => self.jump_if(
                program,
                on_zero,
                constant,
                width,
            ),
            Operation::JumpOnError { on_error, constant } => self.jump_on_error(
                program,
                on_error,
                constant,
            ),
            Operation::Call => self.call(program),
            Operation::Nop => {
                advance(program, 1);
                Outcome::Continue
            },
        }
    }

    /// Executes instructions until one ends otherwise than with `Continue`,
    /// and at most `budget` of them. `Continue` comes back only when the
    /// budget is used up.
    pub fn run(&mut self, program: &mut Program<'_>, budget: usize) -> (outcome: Outcome)
        requires
            old(self).wf(),
        ensures
            step_meets(
                *final(self),
                *final(program),
                *old(program),
                outcome,
                spec_run(
                    old(program).image(),
                    old(program).origin(),
                    before(*old(self), *old(program)),
                    budget as nat,
                ),
            ),
    {
        let mut left: usize = budget;
        while left > 0
            invariant
                self.wf(),
                program.image() == old(program).image(),
                program.origin() == old(program).origin(),
                spec_run(program.image(), program.origin(), before(*self, *program), left as nat)
                    == spec_run(
                    old(program).image(),
                    old(program).origin(),
                    before(*old(self), *old(program)),
                    budget as nat,
                ),
            decreases left,
        {
            let outcome = self.step(program);
            if !matches!(outcome, Outcome::Continue) {
                return outcome;
            }
            left = left - 1;
        }
        Outcome::Continue
    }

    /// Pushes `bytes` if there is room for them.
    fn accept(&mut self, bytes: &[u8]) -> (outcome: Outcome)
        requires
            old(self).wf(),
        ensures
            final(self).wf(),
            forall|pc: int|
                (Stepped { machine: #[trigger] final(self).machine(pc), outcome }) == spec_accept(
                    old(self).machine(pc),
                    bytes@,
                ),
    {
        if bytes.len() > self.opstack.room() {
            Outcome::Fault(Fault::StackOverflow)
        } else {
            self.opstack.push_bytes(bytes);
            Outcome::Continue
        }
    }

    /// Takes the host's answer to `call`, the call that the last step or
    /// resumption handed out.
    pub fn resume(&mut self, call: HostCall, reply: HostReply<'_>) -> (outcome: Outcome)
        requires
            old(self).wf(),
        ensures
            final(self).wf(),
            forall|pc: int|
                (Stepped { machine: #[trigger] final(self).machine(pc), outcome }) == spec_resume(
                    old(self).machine(pc),
                    call,
                    reply,
                ),
    {
        match (call, reply) {
            (HostCall::Float { width, .. }, HostReply::Value(value)) => {
                let bytes = crate::encoding::encode_le(value, width.bytes());
                self.accept(bytes.as_slice())
            },
            (HostCall::Malloc { .. }, HostReply::Value(value)) => {
                let bytes = crate::encoding::encode_le(value, 8);
                self.accept(bytes.as_slice())
            },
            (HostCall::Realloc { .. }, HostReply::Value(value)) => {
                let bytes = crate::encoding::encode_le(value, 8);
                self.accept(bytes.as_slice())
            },
            (HostCall::Load { count, .. }, HostReply::Bytes(bytes)) => {
                if bytes.len() as u64 != count {
                    Outcome::Fault(Fault::UnexpectedReply)
                } else {
                    self.accept(bytes)
                }
            },
            (HostCall::ReadBytes { count }, HostReply::Bytes(bytes)) => {
                if bytes.len() as u64 != count {
                    Outcome::Fault(Fault::UnexpectedReply)
                } else {
                    self.accept(bytes)
                }
            },
            (HostCall::ReadBytes { .. }, HostReply::ReadFailed { unexpected_eof }) => {
                self.error_code = if unexpected_eof {
                    ErrorCodes::UnexpectedEOF
                } else {
                    ErrorCodes::GenericError
                };
                Outcome::Continue
            },
            (HostCall::ReadAll, HostReply::Bytes(bytes)) => {
                let mut all = crate::encoding::encode_le(bytes.len() as u64, 8);
                let mut copy = vstd::slice::slice_to_vec(bytes);
                all.append(&mut copy);
                self.accept(all.as_slice())
            },
            (HostCall::ReadAll, HostReply::ReadFailed { .. }) => {
                self.error_code = ErrorCodes::GenericError;
                Outcome::Continue
            },
            (HostCall::Store { .. }, HostReply::Done) => Outcome::Continue,
            (HostCall::Move { .. }, HostReply::Done) => Outcome::Continue,
            (HostCall::Free { .. }, HostReply::Done) => Outcome::Continue,
            (HostCall::PrintNumber { .. }, HostReply::Done) => Outcome::Continue,
            (HostCall::PrintChar { .. }, HostReply::Done) => Outcome::Continue,
            (HostCall::PrintMemory { .. }, HostReply::Done) => Outcome::Continue,
            (HostCall::PrintData { .. }, HostReply::Done) => Outcome::Continue,
            _ => Outcome::Fault(Fault::UnexpectedReply),
        }
    }
}

} // verus!
