use hivm::exec::{Fault, HostCall, HostReply, Outcome, VM, DEFAULT_OPSTACK_SIZE};
use hivm::isa::{Arith, ByteCodes, ErrorCodes, Width};
use hivm::program::Program;

/// Bytecode: a header that jumps to offset 9, then `body`.
fn image(body: &[u8]) -> Vec<u8> {
    let mut code = vec![ByteCodes::JumpConst.to_byte(), 9, 0, 0, 0, 0, 0, 0, 0];
    code.extend_from_slice(body);
    code
}

fn op(code: ByteCodes) -> u8 {
    code.to_byte()
}

/// Executes `steps` instructions after the header; all of them must say `Continue`.
fn after(vm: &mut VM, program: &mut Program, steps: usize) {
    assert_eq!(vm.step(program), Outcome::Continue);
    for _ in 0..steps {
        assert_eq!(vm.step(program), Outcome::Continue);
    }
}

/// Pushes `first`, then `second`, executes `code` and gives back the stack.
fn binary(code: ByteCodes, width: usize, first: u64, second: u64) -> Vec<u8> {
    let push = match width {
        1 => ByteCodes::LoadConst1,
        2 => ByteCodes::LoadConst2,
        4 => ByteCodes::LoadConst4,
        _ => ByteCodes::LoadConst8,
    };
    let mut vm = VM::new(Some(64));
    let mut body = vec![op(push)];
    body.extend_from_slice(&first.to_le_bytes()[..width]);
    body.push(op(push));
    body.extend_from_slice(&second.to_le_bytes()[..width]);
    body.push(op(code));
    let code = image(&body);
    let mut program = Program::new(&code);
    after(&mut vm, &mut program, 3);
    vm.stack_bytes()
}

#[test]
fn a_new_machine() {
    let vm = VM::new(None);
    assert_eq!(DEFAULT_OPSTACK_SIZE, 1024);
    assert_eq!(vm.error_code(), ErrorCodes::NoError);
    assert_eq!(vm.stack_bytes(), Vec::<u8>::new());
    assert_eq!(vm.outbox(), &Vec::<u8>::new());
}

#[test]
fn the_topmost_operand_is_the_second() {
    assert_eq!(binary(ByteCodes::AddInt1, 1, 10, 3), vec![13]);
    assert_eq!(binary(ByteCodes::SubInt1, 1, 10, 3), vec![7]);
    assert_eq!(binary(ByteCodes::SubInt1, 1, 3, 10), vec![0xF9]);
    assert_eq!(binary(ByteCodes::MulInt1, 1, 10, 3), vec![30]);
    assert_eq!(binary(ByteCodes::DivInt1, 1, 10, 3), vec![3]);
    assert_eq!(binary(ByteCodes::DivInt1, 1, 3, 10), vec![0]);
    assert_eq!(binary(ByteCodes::ModInt1, 1, 10, 3), vec![1]);
    assert_eq!(binary(ByteCodes::ModInt1, 1, 3, 10), vec![3]);
    assert_eq!(binary(ByteCodes::SubInt4, 4, 5, 3), vec![2, 0, 0, 0]);
    assert_eq!(binary(ByteCodes::SubInt8, 8, 5, 3), vec![2, 0, 0, 0, 0, 0, 0, 0]);
    assert_eq!(binary(ByteCodes::DivInt2, 2, 1000, 7), vec![142, 0]);
    assert_eq!(binary(ByteCodes::ModInt2, 2, 1000, 7), vec![6, 0]);
}

#[test]
fn five_minus_three_is_two() {
    let code = image(&[
        op(ByteCodes::LoadConst4),
        5,
        0,
        0,
        0,
        op(ByteCodes::LoadConst4),
        3,
        0,
        0,
        0,
        op(ByteCodes::SubInt4),
        op(ByteCodes::Exit),
    ]);
    let mut vm = VM::new(None);
    let mut program = Program::new(&code);
    assert_eq!(vm.run(&mut program, 100), Outcome::Exit(ErrorCodes::User(2)));
}

#[test]
fn integer_arithmetic_wraps() {
    assert_eq!(binary(ByteCodes::AddInt1, 1, 0x02, 0xFF), vec![0x01]);
    assert_eq!(binary(ByteCodes::MulInt1, 1, 16, 16), vec![0]);
    assert_eq!(binary(ByteCodes::AddInt2, 2, 1, 0xFFFF), vec![0, 0]);
    assert_eq!(binary(ByteCodes::SubInt4, 4, 0, 1), vec![0xFF, 0xFF, 0xFF, 0xFF]);
    assert_eq!(binary(ByteCodes::AddInt8, 8, u64::MAX, 2), vec![1, 0, 0, 0, 0, 0, 0, 0]);
    assert_eq!(
        binary(ByteCodes::MulInt8, 8, u64::MAX, u64::MAX),
        vec![1, 0, 0, 0, 0, 0, 0, 0]
    );
    assert_eq!(
        binary(ByteCodes::MulInt4, 4, 0x10000, 0x10001),
        vec![0, 0, 1, 0]
    );
}

#[test]
fn division_is_signed_and_rounds_toward_zero() {
    // -7 / 2 = -3, -7 % 2 = -1
    assert_eq!(binary(ByteCodes::DivInt1, 1, 0xF9, 2), vec![0xFD]);
    assert_eq!(binary(ByteCodes::ModInt1, 1, 0xF9, 2), vec![0xFF]);
    // 7 / -2 = -3, 7 % -2 = 1
    assert_eq!(binary(ByteCodes::DivInt1, 1, 7, 0xFE), vec![0xFD]);
    assert_eq!(binary(ByteCodes::ModInt1, 1, 7, 0xFE), vec![1]);
    // -7 / -2 = 3, -7 % -2 = -1
    assert_eq!(binary(ByteCodes::DivInt1, 1, 0xF9, 0xFE), vec![3]);
    assert_eq!(binary(ByteCodes::ModInt1, 1, 0xF9, 0xFE), vec![0xFF]);
    // The smallest number divided by -1 wraps to itself, with remainder 0.
    assert_eq!(binary(ByteCodes::DivInt1, 1, 0x80, 0xFF), vec![0x80]);
    assert_eq!(binary(ByteCodes::ModInt1, 1, 0x80, 0xFF), vec![0]);
    assert_eq!(
        binary(ByteCodes::DivInt8, 8, 0x8000_0000_0000_0000, u64::MAX),
        vec![0, 0, 0, 0, 0, 0, 0, 0x80]
    );
    // 100 / -2 = -50
    assert_eq!(binary(ByteCodes::DivInt2, 2, 0x0064, 0xFFFE), vec![0xCE, 0xFF]);
    assert_eq!(binary(ByteCodes::DivInt4, 4, 100, 7), vec![14, 0, 0, 0]);
    assert_eq!(binary(ByteCodes::ModInt4, 4, 100, 7), vec![2, 0, 0, 0]);
}

#[test]
fn division_by_zero_is_a_fault() {
    for divide in [ByteCodes::DivInt1, ByteCodes::ModInt1] {
        let code = image(&[op(ByteCodes::LoadConst1), 5, op(ByteCodes::LoadConst1), 0, op(divide)]);
        let mut vm = VM::new(Some(16));
        let mut program = Program::new(&code);
        after(&mut vm, &mut program, 2);
        assert_eq!(vm.step(&mut program), Outcome::Fault(Fault::DivisionByZero));
        assert_eq!(vm.stack_bytes(), vec![0, 5]);
        assert_eq!(program.position().0, 13);
        // Zero divided by five is no fault.
        let code = image(&[op(ByteCodes::LoadConst1), 0, op(ByteCodes::LoadConst1), 5, op(divide)]);
        let mut vm = VM::new(Some(16));
        let mut program = Program::new(&code);
        after(&mut vm, &mut program, 3);
        assert_eq!(vm.stack_bytes(), vec![0]);
    }
}

#[test]
fn float_arithmetic_is_handed_to_the_host() {
    let mut body = vec![op(ByteCodes::LoadConst4)];
    body.extend_from_slice(&2.5f32.to_bits().to_le_bytes());
    body.push(op(ByteCodes::LoadConst4));
    body.extend_from_slice(&1.5f32.to_bits().to_le_bytes());
    body.push(op(ByteCodes::MulFloat4));
    let code = image(&body);
    let mut vm = VM::new(Some(16));
    let mut program = Program::new(&code);
    after(&mut vm, &mut program, 2);
    // The topmost operand is the second.
    let call = HostCall::Float {
        op: Arith::Mul,
        width: Width::W4,
        first: 2.5f32.to_bits() as u64,
        second: 1.5f32.to_bits() as u64,
    };
    assert_eq!(vm.step(&mut program), Outcome::Host(call));
    assert_eq!(vm.stack_bytes(), Vec::<u8>::new());
    let product = (1.5f32 * 2.5f32).to_bits();
    assert_eq!(vm.resume(call, HostReply::Value(product as u64)), Outcome::Continue);
    assert_eq!(vm.stack_bytes(), product.to_le_bytes().to_vec());
}

#[test]
fn statics_are_loaded_from_the_image() {
    let mut body = vec![op(ByteCodes::LoadStatic2)];
    body.extend_from_slice(&1u64.to_le_bytes());
    body.push(op(ByteCodes::LoadStaticBytes));
    body.extend_from_slice(&0u64.to_le_bytes());
    body.extend_from_slice(&3u64.to_le_bytes());
    let code = image(&body);
    let mut vm = VM::new(Some(16));
    let mut program = Program::new(&code);
    after(&mut vm, &mut program, 1);
    assert_eq!(vm.stack_bytes(), vec![9, 0]);
    assert_eq!(program.position().0, 18);
    after_one(&mut vm, &mut program);
    assert_eq!(vm.stack_bytes(), vec![71, 9, 0, 9, 0]);
    assert_eq!(program.position().0, 35);
}

fn after_one(vm: &mut VM, program: &mut Program) {
    assert_eq!(vm.step(program), Outcome::Continue);
}

#[test]
fn a_static_outside_the_image_is_a_fault() {
    let mut body = vec![op(ByteCodes::LoadStatic4)];
    body.extend_from_slice(&15u64.to_le_bytes());
    let code = image(&body);
    let mut vm = VM::new(Some(16));
    let mut program = Program::new(&code);
    after(&mut vm, &mut program, 0);
    assert_eq!(vm.step(&mut program), Outcome::Fault(Fault::CodeOutOfBounds));
    assert_eq!(program.position().0, 9);
}

#[test]
fn constant_bytes_are_pushed_first_byte_topmost() {
    let mut body = vec![op(ByteCodes::LoadConstBytes)];
    body.extend_from_slice(&3u64.to_le_bytes());
    body.extend_from_slice(&[7, 8, 9]);
    body.push(op(ByteCodes::Nop));
    let code = image(&body);
    let mut vm = VM::new(Some(16));
    let mut program = Program::new(&code);
    after(&mut vm, &mut program, 1);
    assert_eq!(vm.stack_bytes(), vec![7, 8, 9]);
    assert_eq!(program.position().0, 21);
    after_one(&mut vm, &mut program);
    assert_eq!(vm.step(&mut program), Outcome::Finished(ErrorCodes::NoError));
}

#[test]
fn an_operand_that_is_cut_off_is_a_fault() {
    let code = image(&[op(ByteCodes::LoadConst4), 1, 2]);
    let mut vm = VM::new(Some(16));
    let mut program = Program::new(&code);
    after(&mut vm, &mut program, 0);
    assert_eq!(vm.step(&mut program), Outcome::Fault(Fault::CodeOutOfBounds));
}

#[test]
fn a_full_stack_is_a_fault() {
    let code = image(&[op(ByteCodes::LoadConst2), 1, 2, op(ByteCodes::LoadConst2), 3, 4]);
    let mut vm = VM::new(Some(3));
    let mut program = Program::new(&code);
    after(&mut vm, &mut program, 1);
    assert_eq!(vm.step(&mut program), Outcome::Fault(Fault::StackOverflow));
    assert_eq!(vm.stack_bytes(), vec![1, 2]);
}

#[test]
fn an_unknown_opcode_is_a_fault() {
    let code = image(&[200]);
    let mut vm = VM::new(Some(16));
    let mut program = Program::new(&code);
    after(&mut vm, &mut program, 0);
    assert_eq!(vm.step(&mut program), Outcome::Fault(Fault::InvalidOpcode(200)));
}

#[test]
fn duplicate_copies_the_top() {
    let code = image(&[
        op(ByteCodes::LoadConst2),
        1,
        2,
        op(ByteCodes::Duplicate2),
        op(ByteCodes::Duplicate1),
        op(ByteCodes::LoadConst8),
        3,
        0,
        0,
        0,
        0,
        0,
        0,
        0,
        op(ByteCodes::DuplicateBytes),
    ]);
    let mut vm = VM::new(Some(32));
    let mut program = Program::new(&code);
    after(&mut vm, &mut program, 2);
    assert_eq!(vm.stack_bytes(), vec![1, 2, 1, 2]);
    after_one(&mut vm, &mut program);
    assert_eq!(vm.stack_bytes(), vec![1, 1, 2, 1, 2]);
    after_one(&mut vm, &mut program);
    after_one(&mut vm, &mut program);
    assert_eq!(vm.stack_bytes(), vec![1, 1, 2, 1, 1, 2, 1, 2]);
}

#[test]
fn virtual_addresses_are_moved_by_the_base() {
    let mut body = vec![op(ByteCodes::VirtualConstToReal)];
    body.extend_from_slice(&9u64.to_le_bytes());
    body.push(op(ByteCodes::LoadConst8));
    body.extend_from_slice(&u64::MAX.to_le_bytes());
    body.push(op(ByteCodes::VirtualToReal));
    let code = image(&body);
    let mut vm = VM::new(Some(32));
    let mut program = Program::with_base(&code, 0x1000);
    after(&mut vm, &mut program, 1);
    assert_eq!(vm.stack_bytes(), 0x1009u64.to_le_bytes().to_vec());
    after(&mut vm, &mut program, 1);
    // The sum wraps.
    assert_eq!(&vm.stack_bytes()[..8], &0x0FFFu64.to_le_bytes());
}

#[test]
fn memory_is_the_hosts() {
    let mut body = vec![op(ByteCodes::LoadConst8)];
    body.extend_from_slice(&0x5000u64.to_le_bytes());
    body.push(op(ByteCodes::Load2));
    let code = image(&body);
    let mut vm = VM::new(Some(32));
    let mut program = Program::new(&code);
    after(&mut vm, &mut program, 1);
    let call = HostCall::Load { address: 0x5000, count: 2 };
    assert_eq!(vm.step(&mut program), Outcome::Host(call));
    assert_eq!(vm.stack_bytes(), Vec::<u8>::new());
    assert_eq!(vm.resume(call, HostReply::Bytes(&[1])), Outcome::Fault(Fault::UnexpectedReply));
    assert_eq!(vm.resume(call, HostReply::Done), Outcome::Fault(Fault::UnexpectedReply));
    assert_eq!(vm.resume(call, HostReply::Bytes(&[0xAA, 0xBB])), Outcome::Continue);
    assert_eq!(vm.stack_bytes(), vec![0xAA, 0xBB]);
}

#[test]
fn load_bytes_takes_the_address_and_then_the_count() {
    let mut body = vec![op(ByteCodes::LoadConst8)];
    body.extend_from_slice(&3u64.to_le_bytes());
    body.push(op(ByteCodes::LoadConst8));
    body.extend_from_slice(&0x5000u64.to_le_bytes());
    body.push(op(ByteCodes::LoadBytes));
    let code = image(&body);
    let mut vm = VM::new(Some(32));
    let mut program = Program::new(&code);
    after(&mut vm, &mut program, 2);
    let call = HostCall::Load { address: 0x5000, count: 3 };
    assert_eq!(vm.step(&mut program), Outcome::Host(call));
    assert_eq!(vm.resume(call, HostReply::Bytes(&[1, 2, 3])), Outcome::Continue);
    assert_eq!(vm.stack_bytes(), vec![1, 2, 3]);
}

#[test]
fn a_store_puts_its_data_in_the_outbox() {
    let mut body = vec![op(ByteCodes::LoadConst4), 1, 2, 3, 4, op(ByteCodes::LoadConst8)];
    body.extend_from_slice(&0x6000u64.to_le_bytes());
    body.push(op(ByteCodes::Store4));
    let code = image(&body);
    let mut vm = VM::new(Some(32));
    let mut program = Program::new(&code);
    after(&mut vm, &mut program, 2);
    let call = HostCall::Store { address: 0x6000, count: 4 };
    assert_eq!(vm.step(&mut program), Outcome::Host(call));
    assert_eq!(vm.outbox(), &vec![1, 2, 3, 4]);
    assert_eq!(vm.stack_bytes(), Vec::<u8>::new());
    assert_eq!(vm.resume(call, HostReply::Done), Outcome::Continue);
}

#[test]
fn store_bytes_takes_the_address_the_count_and_the_data() {
    let mut body = vec![op(ByteCodes::LoadConst2), 7, 8, op(ByteCodes::LoadConst8)];
    body.extend_from_slice(&2u64.to_le_bytes());
    body.push(op(ByteCodes::LoadConst8));
    body.extend_from_slice(&0x6000u64.to_le_bytes());
    body.push(op(ByteCodes::StoreBytes));
    let code = image(&body);
    let mut vm = VM::new(Some(32));
    let mut program = Program::new(&code);
    after(&mut vm, &mut program, 3);
    assert_eq!(
        vm.step(&mut program),
        Outcome::Host(HostCall::Store { address: 0x6000, count: 2 })
    );
    assert_eq!(vm.outbox(), &vec![7, 8]);
}

#[test]
fn memmove_takes_the_destination_first() {
    let mut body = vec![op(ByteCodes::LoadConst8)];
    body.extend_from_slice(&5u64.to_le_bytes());
    body.push(op(ByteCodes::LoadConst8));
    body.extend_from_slice(&0x7000u64.to_le_bytes());
    body.push(op(ByteCodes::LoadConst8));
    body.extend_from_slice(&0x8000u64.to_le_bytes());
    body.push(op(ByteCodes::MemmoveBytes));
    let code = image(&body);
    let mut vm = VM::new(Some(32));
    let mut program = Program::new(&code);
    after(&mut vm, &mut program, 3);
    assert_eq!(
        vm.step(&mut program),
        Outcome::Host(HostCall::Move { dest: 0x8000, src: 0x7000, count: 5 })
    );

    let mut body = vec![op(ByteCodes::LoadConst8)];
    body.extend_from_slice(&0x7000u64.to_le_bytes());
    body.push(op(ByteCodes::LoadConst8));
    body.extend_from_slice(&0x8000u64.to_le_bytes());
    body.push(op(ByteCodes::Memmove4));
    let code = image(&body);
    let mut vm = VM::new(Some(32));
    let mut program = Program::new(&code);
    after(&mut vm, &mut program, 2);
    assert_eq!(
        vm.step(&mut program),
        Outcome::Host(HostCall::Move { dest: 0x8000, src: 0x7000, count: 4 })
    );
}

#[test]
fn allocation_is_the_hosts() {
    let mut body = vec![op(ByteCodes::LoadConst8)];
    body.extend_from_slice(&64u64.to_le_bytes());
    body.push(op(ByteCodes::Malloc));
    body.push(op(ByteCodes::LoadConst8));
    body.extend_from_slice(&128u64.to_le_bytes());
    body.push(op(ByteCodes::LoadConst8));
    body.extend_from_slice(&0x9000u64.to_le_bytes());
    body.push(op(ByteCodes::Realloc));
    body.push(op(ByteCodes::Free));
    let code = image(&body);
    let mut vm = VM::new(Some(32));
    let mut program = Program::new(&code);
    after(&mut vm, &mut program, 1);
    let call = HostCall::Malloc { size: 64 };
    assert_eq!(vm.step(&mut program), Outcome::Host(call));
    // A failed allocation is answered with zero.
    assert_eq!(vm.resume(call, HostReply::Value(0)), Outcome::Continue);
    assert_eq!(vm.stack_bytes(), vec![0; 8]);
    after_one(&mut vm, &mut program);
    after_one(&mut vm, &mut program);
    let call = HostCall::Realloc { address: 0x9000, size: 128 };
    assert_eq!(vm.step(&mut program), Outcome::Host(call));
    assert_eq!(vm.resume(call, HostReply::Value(0xA000)), Outcome::Continue);
    assert_eq!(&vm.stack_bytes()[..8], &0xA000u64.to_le_bytes());
    let call = HostCall::Free { address: 0xA000 };
    assert_eq!(vm.step(&mut program), Outcome::Host(call));
    assert_eq!(vm.resume(call, HostReply::Done), Outcome::Continue);
    assert_eq!(vm.stack_bytes(), vec![0; 8]);
}

#[test]
fn the_error_register() {
    let code = image(&[
        op(ByteCodes::SetErrorConst),
        0xFE,
        0xFF,
        0xFF,
        0xFF,
        op(ByteCodes::ReadError),
        op(ByteCodes::LoadConst4),
        5,
        0,
        0,
        0,
        op(ByteCodes::SetError),
    ]);
    let mut vm = VM::new(Some(32));
    let mut program = Program::new(&code);
    after(&mut vm, &mut program, 1);
    assert_eq!(vm.error_code(), ErrorCodes::UnexpectedEOF);
    after_one(&mut vm, &mut program);
    assert_eq!(vm.stack_bytes(), vec![0xFE, 0xFF, 0xFF, 0xFF]);
    after(&mut vm, &mut program, 1);
    assert_eq!(vm.error_code(), ErrorCodes::User(5));
    assert_eq!(vm.stack_bytes(), vec![0xFE, 0xFF, 0xFF, 0xFF]);
    assert_eq!(vm.step(&mut program), Outcome::Finished(ErrorCodes::User(5)));
}

#[test]
fn exit_takes_four_bytes() {
    let code = image(&[op(ByteCodes::LoadConst4), 0xFF, 0xFF, 0xFF, 0xFF, op(ByteCodes::Exit)]);
    let mut vm = VM::new(Some(32));
    let mut program = Program::new(&code);
    after(&mut vm, &mut program, 1);
    assert_eq!(vm.step(&mut program), Outcome::Exit(ErrorCodes::GenericError));
}

fn jump_image(code: ByteCodes, condition: &[u8], constant: bool) -> Vec<u8> {
    // 9: push condition; then the jump to `target`; then `nop`; target: `nop nop`.
    let mut body = vec![];
    if !condition.is_empty() {
        body.push(op(match condition.len() {
            1 => ByteCodes::LoadConst1,
            2 => ByteCodes::LoadConst2,
            4 => ByteCodes::LoadConst4,
            _ => ByteCodes::LoadConst8,
        }));
        body.extend_from_slice(condition);
    }
    let before = 9 + body.len() as u64;
    let target = before + if constant { 9 } else { 10 } + 1;
    if constant {
        body.push(op(code));
        body.extend_from_slice(&target.to_le_bytes());
    } else {
        body.push(op(ByteCodes::LoadConst8));
        body.extend_from_slice(&target.to_le_bytes());
        body.push(op(code));
    }
    body.push(op(ByteCodes::Nop));
    body.push(op(ByteCodes::Nop));
    body.push(op(ByteCodes::Nop));
    image(&body)
}

/// Where the program counter is after the jump, relative to the place
/// just behind the jump: 1 if the jump was taken, 0 if not.
fn jumped(code: ByteCodes, condition: &[u8], constant: bool) -> usize {
    let code = jump_image(code, condition, constant);
    let mut vm = VM::new(Some(32));
    let mut program = Program::new(&code);
    let pushes = if condition.is_empty() { 0 } else { 1 } + if constant { 0 } else { 1 };
    after(&mut vm, &mut program, pushes + 1);
    assert_eq!(vm.stack_bytes(), Vec::<u8>::new());
    let behind = 9
        + if condition.is_empty() { 0 } else { 1 + condition.len() }
        + if constant { 9 } else { 10 };
    program.position().0 - behind
}

#[test]
fn unconditional_jumps() {
    assert_eq!(jumped(ByteCodes::JumpConst, &[], true), 1);
    assert_eq!(jumped(ByteCodes::Jump, &[], false), 1);
}

#[test]
fn conditional_jumps() {
    assert_eq!(jumped(ByteCodes::JumpZeroConst1, &[0], true), 1);
    assert_eq!(jumped(ByteCodes::JumpZeroConst1, &[1], true), 0);
    assert_eq!(jumped(ByteCodes::JumpNotZeroConst1, &[0], true), 0);
    assert_eq!(jumped(ByteCodes::JumpNotZeroConst1, &[1], true), 1);
    assert_eq!(jumped(ByteCodes::JumpZeroConst2, &[0, 0], true), 1);
    assert_eq!(jumped(ByteCodes::JumpZeroConst2, &[0, 1], true), 0);
    assert_eq!(jumped(ByteCodes::JumpNotZeroConst4, &[0, 0, 0, 1], true), 1);
    assert_eq!(jumped(ByteCodes::JumpZeroConst8, &[0; 8], true), 1);
    assert_eq!(jumped(ByteCodes::JumpZero1, &[0], false), 1);
    assert_eq!(jumped(ByteCodes::JumpZero1, &[9], false), 0);
    assert_eq!(jumped(ByteCodes::JumpNotZero2, &[0, 0], false), 0);
    assert_eq!(jumped(ByteCodes::JumpNotZero2, &[1, 0], false), 1);
    assert_eq!(jumped(ByteCodes::JumpZero4, &[0; 4], false), 1);
    assert_eq!(jumped(ByteCodes::JumpNotZero8, &[0, 0, 0, 0, 0, 0, 0, 1], false), 1);
}

#[test]
fn jumps_on_the_error_register() {
    assert_eq!(jumped(ByteCodes::JumpErrorConst, &[], true), 0);
    assert_eq!(jumped(ByteCodes::JumpNoErrorConst, &[], true), 1);
    assert_eq!(jumped(ByteCodes::JumpError, &[], false), 0);
    assert_eq!(jumped(ByteCodes::JumpNoError, &[], false), 1);

    let mut body = vec![op(ByteCodes::SetErrorConst), 1, 0, 0, 0, op(ByteCodes::JumpErrorConst)];
    body.extend_from_slice(&100u64.to_le_bytes());
    let code = image(&body);
    let mut vm = VM::new(Some(32));
    let mut program = Program::new(&code);
    after(&mut vm, &mut program, 2);
    assert_eq!(program.position().0, 100);
    assert_eq!(vm.step(&mut program), Outcome::Finished(ErrorCodes::EOF));
}

#[test]
fn a_call_pushes_where_to_return() {
    let mut body = vec![op(ByteCodes::Call)];
    body.extend_from_slice(&19u64.to_le_bytes());
    body.push(op(ByteCodes::Nop));
    // 19:
    body.push(op(ByteCodes::Jump));
    let code = image(&body);
    let mut vm = VM::new(Some(32));
    let mut program = Program::new(&code);
    after(&mut vm, &mut program, 1);
    assert_eq!(program.position().0, 19);
    assert_eq!(vm.stack_bytes(), 18u64.to_le_bytes().to_vec());
    after_one(&mut vm, &mut program);
    assert_eq!(program.position().0, 18);
    assert_eq!(vm.stack_bytes(), Vec::<u8>::new());
}

fn interrupt(code: u8, pushes: &[u64], tail: &[u8]) -> (Outcome, VM) {
    let mut body = vec![];
    for value in pushes {
        body.push(op(ByteCodes::LoadConst8));
        body.extend_from_slice(&value.to_le_bytes());
    }
    body.extend_from_slice(tail);
    body.push(op(ByteCodes::IntrConst));
    body.push(code);
    let code = image(&body);
    let mut vm = VM::new(Some(64));
    let mut program = Program::new(&code);
    let steps = pushes.len() + if tail.is_empty() { 0 } else { 1 };
    after(&mut vm, &mut program, steps);
    let outcome = vm.step(&mut program);
    assert_eq!(program.position().0, code.len());
    (outcome, vm)
}

#[test]
fn the_print_interrupts() {
    let (outcome, _) = interrupt(0, &[], &[op(ByteCodes::LoadConst1), 200]);
    assert_eq!(outcome, Outcome::Host(HostCall::PrintNumber { value: 200 }));
    let (outcome, _) = interrupt(1, &[], &[op(ByteCodes::LoadConst2), 1, 1]);
    assert_eq!(outcome, Outcome::Host(HostCall::PrintNumber { value: 257 }));
    let (outcome, _) = interrupt(2, &[], &[op(ByteCodes::LoadConst4), 0, 0, 1, 0]);
    assert_eq!(outcome, Outcome::Host(HostCall::PrintNumber { value: 65536 }));
    let (outcome, vm) = interrupt(3, &[u64::MAX], &[]);
    assert_eq!(outcome, Outcome::Host(HostCall::PrintNumber { value: u64::MAX }));
    assert_eq!(vm.stack_bytes(), Vec::<u8>::new());
    let (outcome, _) = interrupt(5, &[], &[op(ByteCodes::LoadConst1), b'x']);
    assert_eq!(outcome, Outcome::Host(HostCall::PrintChar { value: b'x' }));
    // The count is taken first, then the address.
    let (outcome, _) = interrupt(4, &[0x5000, 3], &[]);
    assert_eq!(
        outcome,
        Outcome::Host(HostCall::PrintMemory { address: 0x5000, count: 3, text: false })
    );
    let (outcome, _) = interrupt(6, &[0x5000, 3], &[]);
    assert_eq!(
        outcome,
        Outcome::Host(HostCall::PrintMemory { address: 0x5000, count: 3, text: true })
    );
}

#[test]
fn static_data_is_printed_from_the_outbox() {
    let (outcome, vm) = interrupt(7, &[0, 3], &[]);
    assert_eq!(outcome, Outcome::Host(HostCall::PrintData { count: 3, text: false }));
    assert_eq!(vm.outbox(), &vec![71, 9, 0]);
    let (outcome, vm) = interrupt(8, &[9, 1], &[]);
    assert_eq!(outcome, Outcome::Host(HostCall::PrintData { count: 1, text: true }));
    assert_eq!(vm.outbox(), &vec![38]);
}

#[test]
fn static_data_outside_the_image_is_a_fault() {
    let mut body = vec![];
    for value in [1000u64, 3] {
        body.push(op(ByteCodes::LoadConst8));
        body.extend_from_slice(&value.to_le_bytes());
    }
    body.push(op(ByteCodes::IntrConst));
    body.push(8);
    let code = image(&body);
    let mut vm = VM::new(Some(64));
    let mut program = Program::new(&code);
    after(&mut vm, &mut program, 2);
    assert_eq!(vm.step(&mut program), Outcome::Fault(Fault::CodeOutOfBounds));
    assert_eq!(vm.stack_bytes().len(), 16);
}

#[test]
fn an_unknown_interrupt_is_a_fault() {
    let code = image(&[op(ByteCodes::IntrConst), 11]);
    let mut vm = VM::new(Some(64));
    let mut program = Program::new(&code);
    after(&mut vm, &mut program, 0);
    assert_eq!(vm.step(&mut program), Outcome::Fault(Fault::InvalidInterrupt(11)));
}

#[test]
fn an_interrupt_from_the_stack() {
    let code = image(&[
        op(ByteCodes::LoadConst1),
        65,
        op(ByteCodes::LoadConst1),
        5,
        op(ByteCodes::Intr),
    ]);
    let mut vm = VM::new(Some(64));
    let mut program = Program::new(&code);
    after(&mut vm, &mut program, 2);
    assert_eq!(vm.step(&mut program), Outcome::Host(HostCall::PrintChar { value: 65 }));
    assert_eq!(vm.stack_bytes(), Vec::<u8>::new());
    assert_eq!(program.position().0, 14);
}

#[test]
fn reading_bytes() {
    let (outcome, mut vm) = interrupt(9, &[3], &[]);
    let call = HostCall::ReadBytes { count: 3 };
    assert_eq!(outcome, Outcome::Host(call));
    assert_eq!(vm.resume(call, HostReply::Bytes(b"ab")), Outcome::Fault(Fault::UnexpectedReply));
    assert_eq!(vm.resume(call, HostReply::Bytes(b"abc")), Outcome::Continue);
    assert_eq!(vm.stack_bytes(), b"abc".to_vec());
    assert_eq!(vm.error_code(), ErrorCodes::NoError);

    let (_, mut vm) = interrupt(9, &[3], &[]);
    assert_eq!(
        vm.resume(call, HostReply::ReadFailed { unexpected_eof: true }),
        Outcome::Continue
    );
    assert_eq!(vm.error_code(), ErrorCodes::UnexpectedEOF);
    assert_eq!(vm.stack_bytes(), Vec::<u8>::new());

    let (_, mut vm) = interrupt(9, &[3], &[]);
    assert_eq!(
        vm.resume(call, HostReply::ReadFailed { unexpected_eof: false }),
        Outcome::Continue
    );
    assert_eq!(vm.error_code(), ErrorCodes::GenericError);
}

#[test]
fn reading_all_input() {
    let (outcome, mut vm) = interrupt(10, &[], &[]);
    assert_eq!(outcome, Outcome::Host(HostCall::ReadAll));
    assert_eq!(vm.resume(HostCall::ReadAll, HostReply::Bytes(b"hey")), Outcome::Continue);
    // The count is on top, the bytes are under it.
    assert_eq!(vm.stack_bytes(), vec![3, 0, 0, 0, 0, 0, 0, 0, b'h', b'e', b'y']);

    let (_, mut vm) = interrupt(10, &[], &[]);
    assert_eq!(
        vm.resume(HostCall::ReadAll, HostReply::ReadFailed { unexpected_eof: true }),
        Outcome::Continue
    );
    assert_eq!(vm.error_code(), ErrorCodes::GenericError);
}

#[test]
fn run_stops_at_the_first_step_that_does_not_continue() {
    let code = image(&[
        op(ByteCodes::Nop),
        op(ByteCodes::Nop),
        op(ByteCodes::LoadConst4),
        3,
        0,
        0,
        0,
        op(ByteCodes::Exit),
        op(ByteCodes::Nop),
    ]);
    let mut vm = VM::new(Some(16));
    let mut program = Program::new(&code);
    assert_eq!(vm.run(&mut program, 2), Outcome::Continue);
    assert_eq!(program.position().0, 10);
    assert_eq!(vm.run(&mut program, 0), Outcome::Continue);
    assert_eq!(vm.run(&mut program, 100), Outcome::Exit(ErrorCodes::User(3)));
    assert_eq!(program.position().0, 17);
    let mut vm = VM::new(Some(16));
    let mut program = Program::new(&code);
    assert_eq!(vm.run(&mut program, 5), Outcome::Exit(ErrorCodes::User(3)));
}

#[test]
fn a_loop_that_counts_down() {
    // 9: loadconst1 3
    // 11: loadconst1 1; subi1; dup1; jnzconst1 11
    let code = image(&[
        op(ByteCodes::LoadConst1),
        3,
        // 11:
        op(ByteCodes::LoadConst1),
        1,
        op(ByteCodes::SubInt1),
        op(ByteCodes::Duplicate1),
        op(ByteCodes::JumpNotZeroConst1),
        11,
        0,
        0,
        0,
        0,
        0,
        0,
        0,
        op(ByteCodes::LoadConst1),
        0,
        op(ByteCodes::LoadConst2),
        0,
        0,
        op(ByteCodes::Exit),
    ]);
    let mut vm = VM::new(Some(16));
    let mut program = Program::new(&code);
    assert_eq!(vm.run(&mut program, 1000), Outcome::Exit(ErrorCodes::NoError));
    assert_eq!(vm.stack_bytes(), Vec::<u8>::new());
}
