use hivm::isa::{
    Arith, ByteCodes, ErrorCodes, Interrupts, OperandKind, Operation, VirtualAddress, Width,
    ADDRESS_SIZE, ERROR_CODE_SIZE, INSTRUCTION_SIZE, INTERRUPT_SIZE, OPCODE_COUNT,
};

#[test]
fn the_reserved_name() {
    assert_eq!(hivm::isa::LIBRARY_ENV_VARIABLE, "HIVM_ASM_LIB");
}

#[test]
fn sizes_of_the_encodings() {
    assert_eq!(INSTRUCTION_SIZE, 1);
    assert_eq!(ADDRESS_SIZE, 8);
    assert_eq!(INTERRUPT_SIZE, 1);
    assert_eq!(ERROR_CODE_SIZE, 4);
}

#[test]
fn opcodes_are_numbered_in_their_order() {
    assert_eq!(ByteCodes::AddInt1.to_byte(), 0);
    assert_eq!(ByteCodes::ModInt8.to_byte(), 19);
    assert_eq!(ByteCodes::AddFloat4.to_byte(), 20);
    assert_eq!(ByteCodes::LoadStatic1.to_byte(), 30);
    assert_eq!(ByteCodes::LoadConst1.to_byte(), 35);
    assert_eq!(ByteCodes::LoadConstBytes.to_byte(), 39);
    assert_eq!(ByteCodes::IntrConst.to_byte(), 66);
    assert_eq!(ByteCodes::Exit.to_byte(), 70);
    assert_eq!(ByteCodes::JumpConst.to_byte(), 71);
    assert_eq!(ByteCodes::Jump.to_byte(), 72);
    assert_eq!(ByteCodes::Call.to_byte(), 93);
    assert_eq!(ByteCodes::Nop.to_byte(), 94);
    assert_eq!(OPCODE_COUNT, 95);
}

#[test]
fn every_byte_below_the_count_is_an_opcode() {
    for byte in 0..=255u8 {
        match ByteCodes::from_byte(byte) {
            Some(code) => {
                assert!(byte < OPCODE_COUNT);
                assert_eq!(code.to_byte(), byte);
            }
            None => assert!(byte >= OPCODE_COUNT),
        }
    }
}

#[test]
fn every_mnemonic_names_its_opcode() {
    for byte in 0..OPCODE_COUNT {
        let code = ByteCodes::from_byte(byte).unwrap();
        assert_eq!(ByteCodes::from_string(code.mnemonic()), Some(code));
    }
}

#[test]
fn mnemonics() {
    assert_eq!(ByteCodes::from_string("addi1"), Some(ByteCodes::AddInt1));
    assert_eq!(ByteCodes::from_string("loadstaticn"), Some(ByteCodes::LoadStaticBytes));
    assert_eq!(ByteCodes::from_string("loadconstn"), Some(ByteCodes::LoadConstBytes));
    assert_eq!(ByteCodes::from_string("vconsttr"), Some(ByteCodes::VirtualConstToReal));
    assert_eq!(ByteCodes::from_string("jnzconst4"), Some(ByteCodes::JumpNotZeroConst4));
    assert_eq!(ByteCodes::from_string("jnoerr"), Some(ByteCodes::JumpNoError));
    assert_eq!(ByteCodes::from_string("nop"), Some(ByteCodes::Nop));
    assert_eq!(ByteCodes::from_string("Nop"), None);
    assert_eq!(ByteCodes::from_string("ret"), None);
    assert_eq!(ByteCodes::from_string(""), None);
    assert_eq!(ByteCodes::Exit.mnemonic(), "exit");
    assert_eq!(ByteCodes::DuplicateBytes.mnemonic(), "dupn");
}

#[test]
fn what_opcodes_do() {
    assert_eq!(ByteCodes::SubInt2.operation(), Operation::IntArith(Arith::Sub, Width::W2));
    assert_eq!(ByteCodes::ModFloat8.operation(), Operation::FloatArith(Arith::Mod, Width::W8));
    assert_eq!(ByteCodes::LoadConst4.operation(), Operation::LoadConst(Width::W4));
    assert_eq!(ByteCodes::Memmove1.operation(), Operation::Memmove(Width::W1));
    assert_eq!(
        ByteCodes::JumpZeroConst2.operation(),
        Operation::JumpIf { on_zero: true, constant: true, width: Width::W2 }
    );
    assert_eq!(
        ByteCodes::JumpNotZero8.operation(),
        Operation::JumpIf { on_zero: false, constant: false, width: Width::W8 }
    );
    assert_eq!(
        ByteCodes::JumpErrorConst.operation(),
        Operation::JumpOnError { on_error: true, constant: true }
    );
    assert_eq!(
        ByteCodes::JumpNoError.operation(),
        Operation::JumpOnError { on_error: false, constant: false }
    );
    assert_eq!(ByteCodes::Call.operation(), Operation::Call);
}

#[test]
fn what_follows_an_opcode() {
    assert_eq!(ByteCodes::AddInt1.operand_kind(), OperandKind::Nothing);
    assert_eq!(ByteCodes::LoadStatic4.operand_kind(), OperandKind::Address);
    assert_eq!(ByteCodes::LoadStaticBytes.operand_kind(), OperandKind::AddressAndCount);
    assert_eq!(ByteCodes::LoadConst2.operand_kind(), OperandKind::Number(Width::W2));
    assert_eq!(ByteCodes::LoadConstBytes.operand_kind(), OperandKind::Bytes);
    assert_eq!(ByteCodes::IntrConst.operand_kind(), OperandKind::Number(Width::W1));
    assert_eq!(ByteCodes::SetErrorConst.operand_kind(), OperandKind::Number(Width::W4));
    assert_eq!(ByteCodes::JumpConst.operand_kind(), OperandKind::Address);
    assert_eq!(ByteCodes::JumpZeroConst8.operand_kind(), OperandKind::Address);
    assert_eq!(ByteCodes::JumpZero8.operand_kind(), OperandKind::Nothing);
    assert_eq!(ByteCodes::Call.operand_kind(), OperandKind::Address);
    assert_eq!(ByteCodes::VirtualConstToReal.operand_kind(), OperandKind::Address);
}

#[test]
fn widths() {
    assert_eq!(Width::W1.bytes(), 1);
    assert_eq!(Width::W2.bytes(), 2);
    assert_eq!(Width::W4.bytes(), 4);
    assert_eq!(Width::W8.bytes(), 8);
}

#[test]
fn interrupts_are_numbered_in_their_order() {
    assert_eq!(Interrupts::from_byte(0), Some(Interrupts::Print1));
    assert_eq!(Interrupts::from_byte(3), Some(Interrupts::Print8));
    assert_eq!(Interrupts::from_byte(4), Some(Interrupts::PrintBytes));
    assert_eq!(Interrupts::from_byte(5), Some(Interrupts::PrintChar));
    assert_eq!(Interrupts::from_byte(6), Some(Interrupts::PrintString));
    assert_eq!(Interrupts::from_byte(7), Some(Interrupts::PrintStaticBytes));
    assert_eq!(Interrupts::from_byte(8), Some(Interrupts::PrintStaticString));
    assert_eq!(Interrupts::from_byte(9), Some(Interrupts::ReadBytes));
    assert_eq!(Interrupts::from_byte(10), Some(Interrupts::ReadAll));
    assert_eq!(Interrupts::from_byte(11), None);
    for byte in 0..11u8 {
        assert_eq!(Interrupts::from_byte(byte).unwrap().to_byte(), byte);
    }
}

#[test]
fn error_codes() {
    assert_eq!(ErrorCodes::from_code(-2), ErrorCodes::UnexpectedEOF);
    assert_eq!(ErrorCodes::from_code(-1), ErrorCodes::GenericError);
    assert_eq!(ErrorCodes::from_code(0), ErrorCodes::NoError);
    assert_eq!(ErrorCodes::from_code(1), ErrorCodes::EOF);
    assert_eq!(ErrorCodes::from_code(2), ErrorCodes::User(2));
    assert_eq!(ErrorCodes::from_code(-3), ErrorCodes::User(-3));
    assert_eq!(ErrorCodes::from_code(i32::MIN), ErrorCodes::User(i32::MIN));
    for code in [-2, -1, 0, 1, 2, 77, -1000, i32::MAX] {
        assert_eq!(ErrorCodes::from_code(code).code(), code);
    }
}

#[test]
fn an_address_is_eight_bytes_least_significant_first() {
    assert_eq!(VirtualAddress(0x0102).to_le_bytes(), vec![2, 1, 0, 0, 0, 0, 0, 0]);
    assert_eq!(VirtualAddress(0).to_le_bytes(), vec![0; 8]);
    assert_eq!(VirtualAddress::default().0, 0);
}
