//! The instruction set shared by the assembler and the machine: opcodes,
//! interrupt codes, error codes and the sizes of their encodings.

use vstd::prelude::*;
use crate::encoding::{encode_le, le_bytes};
use crate::text::str_eq;

verus! {

/// The name of the environment variable that is reserved for the
/// directories in which libraries are looked for.
pub const LIBRARY_ENV_VARIABLE: &'static str = "HIVM_ASM_LIB";

/// An address in host memory.
pub type Address = usize;

/// Bytes taken by an address operand.
pub const ADDRESS_SIZE: usize = 8;

/// Bytes taken by an opcode.
pub const INSTRUCTION_SIZE: usize = 1;

/// Bytes taken by an interrupt code.
pub const INTERRUPT_SIZE: usize = 1;

/// Bytes taken by an error code.
pub const ERROR_CODE_SIZE: usize = 4;

/// A byte offset into the bytecode image.
#[derive(Clone, Copy, Debug, Default, PartialEq, Eq, Structural)]
pub struct VirtualAddress(pub Address);

impl VirtualAddress {
    /// The eight-byte little-endian encoding of the address.
    pub fn to_le_bytes(self) -> (bytes: Vec<u8>)
        ensures
            bytes@ == le_bytes(self.0 as nat, 8),
    {
        encode_le(self.0 as u64, ADDRESS_SIZE)
    }
}

/// The width of a machine word on the operand stack.
#[derive(Clone, Copy, Debug, PartialEq, Eq, Structural)]
pub enum Width {
    W1,
    W2,
    W4,
    W8,
}

impl Width {
    /// The number of bytes of a width.
    pub open spec fn spec_bytes(self) -> nat {
        match self {
            Width::W1 => 1,
            Width::W2 => 2,
            Width::W4 => 4,
            Width::W8 => 8,
        }
    }

    /// The number of bytes of this width.
    #[verifier::when_used_as_spec(spec_bytes_usize)]
    pub fn bytes(self) -> (n: usize)
        ensures
            n == self.spec_bytes(),
    {
        match self {
            Width::W1 => 1,
            Width::W2 => 2,
            Width::W4 => 4,
            Width::W8 => 8,
        }
    }

    /// The number of bytes of a width, as executable code counts them.
    pub open spec fn spec_bytes_usize(self) -> usize {
        self.spec_bytes() as usize
    }
}

/// The five arithmetic operations, on integers and on floats.
#[derive(Clone, Copy, Debug, PartialEq, Eq, Structural)]
pub enum Arith {
    Add,
    Sub,
    Mul,
    Div,
    Mod,
}

/// What an opcode does, with its width where it has one.
#[derive(Clone, Copy, Debug, PartialEq, Eq, Structural)]
pub enum Operation {
    IntArith(Arith, Width),
    FloatArith(Arith, Width),
    LoadStatic(Width),
    LoadStaticBytes,
    LoadConst(Width),
    LoadConstBytes,
    Load(Width),
    LoadBytes,
    VirtualConstToReal,
    VirtualToReal,
    Store(Width),
    StoreBytes,
    Memmove(Width),
    MemmoveBytes,
    Duplicate(Width),
    DuplicateBytes,
    Malloc,
    Realloc,
    Free,
    Intr,
    IntrConst,
    ReadError,
    SetErrorConst,
    SetError,
    Exit,
    JumpConst,
    Jump,
    JumpIf { on_zero: bool, constant: bool, width: Width },
    JumpOnError { on_error: bool, constant: bool },
    Call,
    Nop,
}

/// What follows an opcode in the instruction stream.
#[derive(Clone, Copy, Debug, PartialEq, Eq, Structural)]
pub enum OperandKind {
    Nothing,
    Address,
    Number(Width),
    AddressAndCount,
    Bytes,
}

/// The machine's instructions. Each is encoded as one byte, in the order given here.
#[derive(Clone, Copy, Debug, PartialEq, Eq, Structural)]
pub enum ByteCodes {
    AddInt1,
    AddInt2,
    AddInt4,
    AddInt8,
    SubInt1,
    SubInt2,
    SubInt4,
    SubInt8,
    MulInt1,
    MulInt2,
    MulInt4,
    MulInt8,
    DivInt1,
    DivInt2,
    DivInt4,
    DivInt8,
    ModInt1,
    ModInt2,
    ModInt4,
    ModInt8,
    AddFloat4,
    AddFloat8,
    SubFloat4,
    SubFloat8,
    MulFloat4,
    MulFloat8,
    DivFloat4,
    DivFloat8,
    ModFloat4,
    ModFloat8,
    LoadStatic1,
    LoadStatic2,
    LoadStatic4,
    LoadStatic8,
    LoadStaticBytes,
    LoadConst1,
    LoadConst2,
    LoadConst4,
    LoadConst8,
    LoadConstBytes,
    Load1,
    Load2,
    Load4,
    Load8,
    LoadBytes,
    VirtualConstToReal,
    VirtualToReal,
    Store1,
    Store2,
    Store4,
    Store8,
    StoreBytes,
    Memmove1,
    Memmove2,
    Memmove4,
    Memmove8,
    MemmoveBytes,
    Duplicate1,
    Duplicate2,
    Duplicate4,
    Duplicate8,
    DuplicateBytes,
    Malloc,
    Realloc,
    Free,
    Intr,
    IntrConst,
    ReadError,
    SetErrorConst,
    SetError,
    Exit,
    JumpConst,
    Jump,
    JumpNotZeroConst1,
    JumpNotZeroConst2,
    JumpNotZeroConst4,
    JumpNotZeroConst8,
    JumpNotZero1,
    JumpNotZero2,
    JumpNotZero4,
    JumpNotZero8,
    JumpZeroConst1,
    JumpZeroConst2,
    JumpZeroConst4,
    JumpZeroConst8,
    JumpZero1,
    JumpZero2,
    JumpZero4,
    JumpZero8,
    JumpErrorConst,
    JumpError,
    JumpNoErrorConst,
    JumpNoError,
    Call,
    Nop,
}

impl ByteCodes {
    /// The byte that encodes a code.
    pub open spec fn spec_to_byte(self) -> u8 {
        match self {
            ByteCodes::AddInt1 => 0,
            ByteCodes::AddInt2 => 1,
            ByteCodes::AddInt4 => 2,
            ByteCodes::AddInt8 => 3,
            ByteCodes::SubInt1 => 4,
            ByteCodes::SubInt2 => 5,
            ByteCodes::SubInt4 => 6,
            ByteCodes::SubInt8 => 7,
            ByteCodes::MulInt1 => 8,
            ByteCodes::MulInt2 => 9,
            ByteCodes::MulInt4 => 10,
            ByteCodes::MulInt8 => 11,
            ByteCodes::DivInt1 => 12,
            ByteCodes::DivInt2 => 13,
            ByteCodes::DivInt4 => 14,
            ByteCodes::DivInt8 => 15,
            ByteCodes::ModInt1 => 16,
            ByteCodes::ModInt2 => 17,
            ByteCodes::ModInt4 => 18,
            ByteCodes::ModInt8 => 19,
            ByteCodes::AddFloat4 => 20,
            ByteCodes::AddFloat8 => 21,
            ByteCodes::SubFloat4 => 22,
            ByteCodes::SubFloat8 => 23,
            ByteCodes::MulFloat4 => 24,
            ByteCodes::MulFloat8 => 25,
            ByteCodes::DivFloat4 => 26,
            ByteCodes::DivFloat8 => 27,
            ByteCodes::ModFloat4 => 28,
            ByteCodes::ModFloat8 => 29,
            ByteCodes::LoadStatic1 => 30,
            ByteCodes::LoadStatic2 => 31,
            ByteCodes::LoadStatic4 => 32,
            ByteCodes::LoadStatic8 => 33,
            ByteCodes::LoadStaticBytes => 34,
            ByteCodes::LoadConst1 => 35,
            ByteCodes::LoadConst2 => 36,
            ByteCodes::LoadConst4 => 37,
            ByteCodes::LoadConst8 => 38,
            ByteCodes::LoadConstBytes => 39,
            ByteCodes::Load1 => 40,
            ByteCodes::Load2 => 41,
            ByteCodes::Load4 => 42,
            ByteCodes::Load8 => 43,
            ByteCodes::LoadBytes => 44,
            ByteCodes::VirtualConstToReal => 45,
            ByteCodes::VirtualToReal => 46,
            ByteCodes::Store1 => 47,
            ByteCodes::Store2 => 48,
            ByteCodes::Store4 => 49,
            ByteCodes::Store8 => 50,
            ByteCodes::StoreBytes => 51,
            ByteCodes::Memmove1 => 52,
            ByteCodes::Memmove2 => 53,
            ByteCodes::Memmove4 => 54,
            ByteCodes::Memmove8 => 55,
            ByteCodes::MemmoveBytes => 56,
            ByteCodes::Duplicate1 => 57,
            ByteCodes::Duplicate2 => 58,
            ByteCodes::Duplicate4 => 59,
            ByteCodes::Duplicate8 => 60,
            ByteCodes::DuplicateBytes => 61,
            ByteCodes::Malloc => 62,
            ByteCodes::Realloc => 63,
            ByteCodes::Free => 64,
            ByteCodes::Intr => 65,
            ByteCodes::IntrConst => 66,
            ByteCodes::ReadError => 67,
            ByteCodes::SetErrorConst => 68,
            ByteCodes::SetError => 69,
            ByteCodes::Exit => 70,
            ByteCodes::JumpConst => 71,
            ByteCodes::Jump => 72,
            ByteCodes::JumpNotZeroConst1 => 73,
            ByteCodes::JumpNotZeroConst2 => 74,
            ByteCodes::JumpNotZeroConst4 => 75,
            ByteCodes::JumpNotZeroConst8 => 76,
            ByteCodes::JumpNotZero1 => 77,
            ByteCodes::JumpNotZero2 => 78,
            ByteCodes::JumpNotZero4 => 79,
            ByteCodes::JumpNotZero8 => 80,
            ByteCodes::JumpZeroConst1 => 81,
            ByteCodes::JumpZeroConst2 => 82,
            ByteCodes::JumpZeroConst4 => 83,
            ByteCodes::JumpZeroConst8 => 84,
            ByteCodes::JumpZero1 => 85,
            ByteCodes::JumpZero2 => 86,
            ByteCodes::JumpZero4 => 87,
            ByteCodes::JumpZero8 => 88,
            ByteCodes::JumpErrorConst => 89,
            ByteCodes::JumpError => 90,
            ByteCodes::JumpNoErrorConst => 91,
            ByteCodes::JumpNoError => 92,
            ByteCodes::Call => 93,
            ByteCodes::Nop => 94,
        }
    }

    /// The byte that encodes this instruction.
    pub fn to_byte(self) -> (byte: u8)
        ensures
            byte == self.spec_to_byte(),
            byte < OPCODE_COUNT,
    {
        match self {
            ByteCodes::AddInt1 => 0,
            ByteCodes::AddInt2 => 1,
            ByteCodes::AddInt4 => 2,
            ByteCodes::AddInt8 => 3,
            ByteCodes::SubInt1 => 4,
            ByteCodes::SubInt2 => 5,
            ByteCodes::SubInt4 => 6,
            ByteCodes::SubInt8 => 7,
            ByteCodes::MulInt1 => 8,
            ByteCodes::MulInt2 => 9,
            ByteCodes::MulInt4 => 10,
            ByteCodes::MulInt8 => 11,
            ByteCodes::DivInt1 => 12,
            ByteCodes::DivInt2 => 13,
            ByteCodes::DivInt4 => 14,
            ByteCodes::DivInt8 => 15,
            ByteCodes::ModInt1 => 16,
            ByteCodes::ModInt2 => 17,
            ByteCodes::ModInt4 => 18,
            ByteCodes::ModInt8 => 19,
            ByteCodes::AddFloat4 => 20,
            ByteCodes::AddFloat8 => 21,
            ByteCodes::SubFloat4 => 22,
            ByteCodes::SubFloat8 => 23,
            ByteCodes::MulFloat4 => 24,
            ByteCodes::MulFloat8 => 25,
            ByteCodes::DivFloat4 => 26,
            ByteCodes::DivFloat8 => 27,
            ByteCodes::ModFloat4 => 28,
            ByteCodes::ModFloat8 => 29,
            ByteCodes::LoadStatic1 => 30,
            ByteCodes::LoadStatic2 => 31,
            ByteCodes::LoadStatic4 => 32,
            ByteCodes::LoadStatic8 => 33,
            ByteCodes::LoadStaticBytes => 34,
            ByteCodes::LoadConst1 => 35,
            ByteCodes::LoadConst2 => 36,
            ByteCodes::LoadConst4 => 37,
            ByteCodes::LoadConst8 => 38,
            ByteCodes::LoadConstBytes => 39,
            ByteCodes::Load1 => 40,
            ByteCodes::Load2 => 41,
            ByteCodes::Load4 => 42,
            ByteCodes::Load8 => 43,
            ByteCodes::LoadBytes => 44,
            ByteCodes::VirtualConstToReal => 45,
            ByteCodes::VirtualToReal => 46,
            ByteCodes::Store1 => 47,
            ByteCodes::Store2 => 48,
            ByteCodes::Store4 => 49,
            ByteCodes::Store8 => 50,
            ByteCodes::StoreBytes => 51,
            ByteCodes::Memmove1 => 52,
            ByteCodes::Memmove2 => 53,
            ByteCodes::Memmove4 => 54,
            ByteCodes::Memmove8 => 55,
            ByteCodes::MemmoveBytes => 56,
            ByteCodes::Duplicate1 => 57,
            ByteCodes::Duplicate2 => 58,
            ByteCodes::Duplicate4 => 59,
            ByteCodes::Duplicate8 => 60,
            ByteCodes::DuplicateBytes => 61,
            ByteCodes::Malloc => 62,
            ByteCodes::Realloc => 63,
            ByteCodes::Free => 64,
            ByteCodes::Intr => 65,
            ByteCodes::IntrConst => 66,
            ByteCodes::ReadError => 67,
            ByteCodes::SetErrorConst => 68,
            ByteCodes::SetError => 69,
            ByteCodes::Exit => 70,
            ByteCodes::JumpConst => 71,
            ByteCodes::Jump => 72,
            ByteCodes::JumpNotZeroConst1 => 73,
            ByteCodes::JumpNotZeroConst2 => 74,
            ByteCodes::JumpNotZeroConst4 => 75,
            ByteCodes::JumpNotZeroConst8 => 76,
            ByteCodes::JumpNotZero1 => 77,
            ByteCodes::JumpNotZero2 => 78,
            ByteCodes::JumpNotZero4 => 79,
            ByteCodes::JumpNotZero8 => 80,
            ByteCodes::JumpZeroConst1 => 81,
            ByteCodes::JumpZeroConst2 => 82,
            ByteCodes::JumpZeroConst4 => 83,
            ByteCodes::JumpZeroConst8 => 84,
            ByteCodes::JumpZero1 => 85,
            ByteCodes::JumpZero2 => 86,
            ByteCodes::JumpZero4 => 87,
            ByteCodes::JumpZero8 => 88,
            ByteCodes::JumpErrorConst => 89,
            ByteCodes::JumpError => 90,
            ByteCodes::JumpNoErrorConst => 91,
            ByteCodes::JumpNoError => 92,
            ByteCodes::Call => 93,
            ByteCodes::Nop => 94,
        }
    }

    /// The code that a byte encodes.
    pub open spec fn spec_from_byte(byte: u8) -> Option<ByteCodes> {
        match byte {
            0u8 => Some(ByteCodes::AddInt1),
            1u8 => Some(ByteCodes::AddInt2),
            2u8 => Some(ByteCodes::AddInt4),
            3u8 => Some(ByteCodes::AddInt8),
            4u8 => Some(ByteCodes::SubInt1),
            5u8 => Some(ByteCodes::SubInt2),
            6u8 => Some(ByteCodes::SubInt4),
            7u8 => Some(ByteCodes::SubInt8),
            8u8 => Some(ByteCodes::MulInt1),
            9u8 => Some(ByteCodes::MulInt2),
            10u8 => Some(ByteCodes::MulInt4),
            11u8 => Some(ByteCodes::MulInt8),
            12u8 => Some(ByteCodes::DivInt1),
            13u8 => Some(ByteCodes::DivInt2),
            14u8 => Some(ByteCodes::DivInt4),
            15u8 => Some(ByteCodes::DivInt8),
            16u8 => Some(ByteCodes::ModInt1),
            17u8 => Some(ByteCodes::ModInt2),
            18u8 => Some(ByteCodes::ModInt4),
            19u8 => Some(ByteCodes::ModInt8),
            20u8 => Some(ByteCodes::AddFloat4),
            21u8 => Some(ByteCodes::AddFloat8),
            22u8 => Some(ByteCodes::SubFloat4),
            23u8 => Some(ByteCodes::SubFloat8),
            24u8 => Some(ByteCodes::MulFloat4),
            25u8 => Some(ByteCodes::MulFloat8),
            26u8 => Some(ByteCodes::DivFloat4),
            27u8 => Some(ByteCodes::DivFloat8),
            28u8 => Some(ByteCodes::ModFloat4),
            29u8 => Some(ByteCodes::ModFloat8),
            30u8 => Some(ByteCodes::LoadStatic1),
            31u8 => Some(ByteCodes::LoadStatic2),
            32u8 => Some(ByteCodes::LoadStatic4),
            33u8 => Some(ByteCodes::LoadStatic8),
            34u8 => Some(ByteCodes::LoadStaticBytes),
            35u8 => Some(ByteCodes::LoadConst1),
            36u8 => Some(ByteCodes::LoadConst2),
            37u8 => Some(ByteCodes::LoadConst4),
            38u8 => Some(ByteCodes::LoadConst8),
            39u8 => Some(ByteCodes::LoadConstBytes),
            40u8 => Some(ByteCodes::Load1),
            41u8 => Some(ByteCodes::Load2),
            42u8 => Some(ByteCodes::Load4),
            43u8 => Some(ByteCodes::Load8),
            44u8 => Some(ByteCodes::LoadBytes),
            45u8 => Some(ByteCodes::VirtualConstToReal),
            46u8 => Some(ByteCodes::VirtualToReal),
            47u8 => Some(ByteCodes::Store1),
            48u8 => Some(ByteCodes::Store2),
            49u8 => Some(ByteCodes::Store4),
            50u8 => Some(ByteCodes::Store8),
            51u8 => Some(ByteCodes::StoreBytes),
            52u8 => Some(ByteCodes::Memmove1),
            53u8 => Some(ByteCodes::Memmove2),
            54u8 => Some(ByteCodes::Memmove4),
            55u8 => Some(ByteCodes::Memmove8),
            56u8 => Some(ByteCodes::MemmoveBytes),
            57u8 => Some(ByteCodes::Duplicate1),
            58u8 => Some(ByteCodes::Duplicate2),
            59u8 => Some(ByteCodes::Duplicate4),
            60u8 => Some(ByteCodes::Duplicate8),
            61u8 => Some(ByteCodes::DuplicateBytes),
            62u8 => Some(ByteCodes::Malloc),
            63u8 => Some(ByteCodes::Realloc),
            64u8 => Some(ByteCodes::Free),
            65u8 => Some(ByteCodes::Intr),
            66u8 => Some(ByteCodes::IntrConst),
            67u8 => Some(ByteCodes::ReadError),
            68u8 => Some(ByteCodes::SetErrorConst),
            69u8 => Some(ByteCodes::SetError),
            70u8 => Some(ByteCodes::Exit),
            71u8 => Some(ByteCodes::JumpConst),
            72u8 => Some(ByteCodes::Jump),
            73u8 => Some(ByteCodes::JumpNotZeroConst1),
            74u8 => Some(ByteCodes::JumpNotZeroConst2),
            75u8 => Some(ByteCodes::JumpNotZeroConst4),
            76u8 => Some(ByteCodes::JumpNotZeroConst8),
            77u8 => Some(ByteCodes::JumpNotZero1),
            78u8 => Some(ByteCodes::JumpNotZero2),
            79u8 => Some(ByteCodes::JumpNotZero4),
            80u8 => Some(ByteCodes::JumpNotZero8),
            81u8 => Some(ByteCodes::JumpZeroConst1),
            82u8 => Some(ByteCodes::JumpZeroConst2),
            83u8 => Some(ByteCodes::JumpZeroConst4),
            84u8 => Some(ByteCodes::JumpZeroConst8),
            85u8 => Some(ByteCodes::JumpZero1),
            86u8 => Some(ByteCodes::JumpZero2),
            87u8 => Some(ByteCodes::JumpZero4),
            88u8 => Some(ByteCodes::JumpZero8),
            89u8 => Some(ByteCodes::JumpErrorConst),
            90u8 => Some(ByteCodes::JumpError),
            91u8 => Some(ByteCodes::JumpNoErrorConst),
            92u8 => Some(ByteCodes::JumpNoError),
            93u8 => Some(ByteCodes::Call),
            94u8 => Some(ByteCodes::Nop),
            _ => None,
        }
    }

    /// The instruction that a byte encodes, if it encodes one.
    pub fn from_byte(byte: u8) -> (code: Option<ByteCodes>)
        ensures
            code == Self::spec_from_byte(byte),
            code is Some <==> byte < OPCODE_COUNT,
            code is Some ==> code->0.spec_to_byte() == byte,
    {
        match byte {
            0u8 => Some(ByteCodes::AddInt1),
            1u8 => Some(ByteCodes::AddInt2),
            2u8 => Some(ByteCodes::AddInt4),
            3u8 => Some(ByteCodes::AddInt8),
            4u8 => Some(ByteCodes::SubInt1),
            5u8 => Some(ByteCodes::SubInt2),
            6u8 => Some(ByteCodes::SubInt4),
            7u8 => Some(ByteCodes::SubInt8),
            8u8 => Some(ByteCodes::MulInt1),
            9u8 => Some(ByteCodes::MulInt2),
            10u8 => Some(ByteCodes::MulInt4),
            11u8 => Some(ByteCodes::MulInt8),
            12u8 => Some(ByteCodes::DivInt1),
            13u8 => Some(ByteCodes::DivInt2),
            14u8 => Some(ByteCodes::DivInt4),
            15u8 => Some(ByteCodes::DivInt8),
            16u8 => Some(ByteCodes::ModInt1),
            17u8 => Some(ByteCodes::ModInt2),
            18u8 => Some(ByteCodes::ModInt4),
            19u8 => Some(ByteCodes::ModInt8),
            20u8 => Some(ByteCodes::AddFloat4),
            21u8 => Some(ByteCodes::AddFloat8),
            22u8 => Some(ByteCodes::SubFloat4),
            23u8 => Some(ByteCodes::SubFloat8),
            24u8 => Some(ByteCodes::MulFloat4),
            25u8 => Some(ByteCodes::MulFloat8),
            26u8 => Some(ByteCodes::DivFloat4),
            27u8 => Some(ByteCodes::DivFloat8),
            28u8 => Some(ByteCodes::ModFloat4),
            29u8 => Some(ByteCodes::ModFloat8),
            30u8 => Some(ByteCodes::LoadStatic1),
            31u8 => Some(ByteCodes::LoadStatic2),
            32u8 => Some(ByteCodes::LoadStatic4),
            33u8 => Some(ByteCodes::LoadStatic8),
            34u8 => Some(ByteCodes::LoadStaticBytes),
            35u8 => Some(ByteCodes::LoadConst1),
            36u8 => Some(ByteCodes::LoadConst2),
            37u8 => Some(ByteCodes::LoadConst4),
            38u8 => Some(ByteCodes::LoadConst8),
            39u8 => Some(ByteCodes::LoadConstBytes),
            40u8 => Some(ByteCodes::Load1),
            41u8 => Some(ByteCodes::Load2),
            42u8 => Some(ByteCodes::Load4),
            43u8 => Some(ByteCodes::Load8),
            44u8 => Some(ByteCodes::LoadBytes),
            45u8 => Some(ByteCodes::VirtualConstToReal),
            46u8 => Some(ByteCodes::VirtualToReal),
            47u8 => Some(ByteCodes::Store1),
            48u8 => Some(ByteCodes::Store2),
            49u8 => Some(ByteCodes::Store4),
            50u8 => Some(ByteCodes::Store8),
            51u8 => Some(ByteCodes::StoreBytes),
            52u8 => Some(ByteCodes::Memmove1),
            53u8 => Some(ByteCodes::Memmove2),
            54u8 => Some(ByteCodes::Memmove4),
            55u8 => Some(ByteCodes::Memmove8),
            56u8 => Some(ByteCodes::MemmoveBytes),
            57u8 => Some(ByteCodes::Duplicate1),
            58u8 => Some(ByteCodes::Duplicate2),
            59u8 => Some(ByteCodes::Duplicate4),
            60u8 => Some(ByteCodes::Duplicate8),
            61u8 => Some(ByteCodes::DuplicateBytes),
            62u8 => Some(ByteCodes::Malloc),
            63u8 => Some(ByteCodes::Realloc),
            64u8 => Some(ByteCodes::Free),
            65u8 => Some(ByteCodes::Intr),
            66u8 => Some(ByteCodes::IntrConst),
            67u8 => Some(ByteCodes::ReadError),
            68u8 => Some(ByteCodes::SetErrorConst),
            69u8 => Some(ByteCodes::SetError),
            70u8 => Some(ByteCodes::Exit),
            71u8 => Some(ByteCodes::JumpConst),
            72u8 => Some(ByteCodes::Jump),
            73u8 => Some(ByteCodes::JumpNotZeroConst1),
            74u8 => Some(ByteCodes::JumpNotZeroConst2),
            75u8 => Some(ByteCodes::JumpNotZeroConst4),
            76u8 => Some(ByteCodes::JumpNotZeroConst8),
            77u8 => Some(ByteCodes::JumpNotZero1),
            78u8 => Some(ByteCodes::JumpNotZero2),
            79u8 => Some(ByteCodes::JumpNotZero4),
            80u8 => Some(ByteCodes::JumpNotZero8),
            81u8 => Some(ByteCodes::JumpZeroConst1),
            82u8 => Some(ByteCodes::JumpZeroConst2),
            83u8 => Some(ByteCodes::JumpZeroConst4),
            84u8 => Some(ByteCodes::JumpZeroConst8),
            85u8 => Some(ByteCodes::JumpZero1),
            86u8 => Some(ByteCodes::JumpZero2),
            87u8 => Some(ByteCodes::JumpZero4),
            88u8 => Some(ByteCodes::JumpZero8),
            89u8 => Some(ByteCodes::JumpErrorConst),
            90u8 => Some(ByteCodes::JumpError),
            91u8 => Some(ByteCodes::JumpNoErrorConst),
            92u8 => Some(ByteCodes::JumpNoError),
            93u8 => Some(ByteCodes::Call),
            94u8 => Some(ByteCodes::Nop),
            _ => None,
        }
    }

    /// The name of an instruction in assembly source.
    pub open spec fn spec_mnemonic(self) -> Seq<char> {
        match self {
            ByteCodes::AddInt1 => "addi1"@,
            ByteCodes::AddInt2 => "addi2"@,
            ByteCodes::AddInt4 => "addi4"@,
            ByteCodes::AddInt8 => "addi8"@,
            ByteCodes::SubInt1 => "subi1"@,
            ByteCodes::SubInt2 => "subi2"@,
            ByteCodes::SubInt4 => "subi4"@,
            ByteCodes::SubInt8 => "subi8"@,
            ByteCodes::MulInt1 => "muli1"@,
            ByteCodes::MulInt2 => "muli2"@,
            ByteCodes::MulInt4 => "muli4"@,
            ByteCodes::MulInt8 => "muli8"@,
            ByteCodes::DivInt1 => "divi1"@,
            ByteCodes::DivInt2 => "divi2"@,
            ByteCodes::DivInt4 => "divi4"@,
            ByteCodes::DivInt8 => "divi8"@,
            ByteCodes::ModInt1 => "modi1"@,
            ByteCodes::ModInt2 => "modi2"@,
            ByteCodes::ModInt4 => "modi4"@,
            ByteCodes::ModInt8 => "modi8"@,
            ByteCodes::AddFloat4 => "addf4"@,
            ByteCodes::AddFloat8 => "addf8"@,
            ByteCodes::SubFloat4 => "subf4"@,
            ByteCodes::SubFloat8 => "subf8"@,
            ByteCodes::MulFloat4 => "mulf4"@,
            ByteCodes::MulFloat8 => "mulf8"@,
            ByteCodes::DivFloat4 => "divf4"@,
            ByteCodes::DivFloat8 => "divf8"@,
            ByteCodes::ModFloat4 => "modf4"@,
            ByteCodes::ModFloat8 => "modf8"@,
            ByteCodes::LoadStatic1 => "loadstatic1"@,
            ByteCodes::LoadStatic2 => "loadstatic2"@,
            ByteCodes::LoadStatic4 => "loadstatic4"@,
            ByteCodes::LoadStatic8 => "loadstatic8"@,
            ByteCodes::LoadStaticBytes => "loadstaticn"@,
            ByteCodes::LoadConst1 => "loadconst1"@,
            ByteCodes::LoadConst2 => "loadconst2"@,
            ByteCodes::LoadConst4 => "loadconst4"@,
            ByteCodes::LoadConst8 => "loadconst8"@,
            ByteCodes::LoadConstBytes => "loadconstn"@,
            ByteCodes::Load1 => "load1"@,
            ByteCodes::Load2 => "load2"@,
            ByteCodes::Load4 => "load4"@,
            ByteCodes::Load8 => "load8"@,
            ByteCodes::LoadBytes => "loadn"@,
            ByteCodes::VirtualConstToReal => "vconsttr"@,
            ByteCodes::VirtualToReal => "vtr"@,
            ByteCodes::Store1 => "store1"@,
            ByteCodes::Store2 => "store2"@,
            ByteCodes::Store4 => "store4"@,
            ByteCodes::Store8 => "store8"@,
            ByteCodes::StoreBytes => "storen"@,
            ByteCodes::Memmove1 => "memmove1"@,
            ByteCodes::Memmove2 => "memmove2"@,
            ByteCodes::Memmove4 => "memmove4"@,
            ByteCodes::Memmove8 => "memmove8"@,
            ByteCodes::MemmoveBytes => "memmoven"@,
            ByteCodes::Duplicate1 => "dup1"@,
            ByteCodes::Duplicate2 => "dup2"@,
            ByteCodes::Duplicate4 => "dup4"@,
            ByteCodes::Duplicate8 => "dup8"@,
            ByteCodes::DuplicateBytes => "dupn"@,
            ByteCodes::Malloc => "malloc"@,
            ByteCodes::Realloc => "realloc"@,
            ByteCodes::Free => "free"@,
            ByteCodes::Intr => "intr"@,
            ByteCodes::IntrConst => "intrconst"@,
            ByteCodes::ReadError => "readerr"@,
            ByteCodes::SetErrorConst => "seterrconst"@,
            ByteCodes::SetError => "seterr"@,
            ByteCodes::Exit => "exit"@,
            ByteCodes::JumpConst => "jmpconst"@,
            ByteCodes::Jump => "jmp"@,
            ByteCodes::JumpNotZeroConst1 => "jnzconst1"@,
            ByteCodes::JumpNotZeroConst2 => "jnzconst2"@,
            ByteCodes::JumpNotZeroConst4 => "jnzconst4"@,
            ByteCodes::JumpNotZeroConst8 => "jnzconst8"@,
            ByteCodes::JumpNotZero1 => "jnz1"@,
            ByteCodes::JumpNotZero2 => "jnz2"@,
            ByteCodes::JumpNotZero4 => "jnz4"@,
            ByteCodes::JumpNotZero8 => "jnz8"@,
            ByteCodes::JumpZeroConst1 => "jzconst1"@,
            ByteCodes::JumpZeroConst2 => "jzconst2"@,
            ByteCodes::JumpZeroConst4 => "jzconst4"@,
            ByteCodes::JumpZeroConst8 => "jzconst8"@,
            ByteCodes::JumpZero1 => "jz1"@,
            ByteCodes::JumpZero2 => "jz2"@,
            ByteCodes::JumpZero4 => "jz4"@,
            ByteCodes::JumpZero8 => "jz8"@,
            ByteCodes::JumpErrorConst => "jerrconst"@,
            ByteCodes::JumpError => "jerr"@,
            ByteCodes::JumpNoErrorConst => "jnoerrconst"@,
            ByteCodes::JumpNoError => "jnoerr"@,
            ByteCodes::Call => "call"@,
            ByteCodes::Nop => "nop"@,
        }
    }

    /// The name of this instruction in assembly source.
    pub fn mnemonic(self) -> (name: &'static str)
        ensures
            name@ == self.spec_mnemonic(),
    {
        match self {
            ByteCodes::AddInt1 => "addi1",
            ByteCodes::AddInt2 => "addi2",
            ByteCodes::AddInt4 => "addi4",
            ByteCodes::AddInt8 => "addi8",
            ByteCodes::SubInt1 => "subi1",
            ByteCodes::SubInt2 => "subi2",
            ByteCodes::SubInt4 => "subi4",
            ByteCodes::SubInt8 => "subi8",
            ByteCodes::MulInt1 => "muli1",
            ByteCodes::MulInt2 => "muli2",
            ByteCodes::MulInt4 => "muli4",
            ByteCodes::MulInt8 => "muli8",
            ByteCodes::DivInt1 => "divi1",
            ByteCodes::DivInt2 => "divi2",
            ByteCodes::DivInt4 => "divi4",
            ByteCodes::DivInt8 => "divi8",
            ByteCodes::ModInt1 => "modi1",
            ByteCodes::ModInt2 => "modi2",
            ByteCodes::ModInt4 => "modi4",
            ByteCodes::ModInt8 => "modi8",
            ByteCodes::AddFloat4 => "addf4",
            ByteCodes::AddFloat8 => "addf8",
            ByteCodes::SubFloat4 => "subf4",
            ByteCodes::SubFloat8 => "subf8",
            ByteCodes::MulFloat4 => "mulf4",
            ByteCodes::MulFloat8 => "mulf8",
            ByteCodes::DivFloat4 => "divf4",
            ByteCodes::DivFloat8 => "divf8",
            ByteCodes::ModFloat4 => "modf4",
            ByteCodes::ModFloat8 => "modf8",
            ByteCodes::LoadStatic1 => "loadstatic1",
            ByteCodes::LoadStatic2 => "loadstatic2",
            ByteCodes::LoadStatic4 => "loadstatic4",
            ByteCodes::LoadStatic8 => "loadstatic8",
            ByteCodes::LoadStaticBytes => "loadstaticn",
            ByteCodes::LoadConst1 => "loadconst1",
            ByteCodes::LoadConst2 => "loadconst2",
            ByteCodes::LoadConst4 => "loadconst4",
            ByteCodes::LoadConst8 => "loadconst8",
            ByteCodes::LoadConstBytes => "loadconstn",
            ByteCodes::Load1 => "load1",
            ByteCodes::Load2 => "load2",
            ByteCodes::Load4 => "load4",
            ByteCodes::Load8 => "load8",
            ByteCodes::LoadBytes => "loadn",
            ByteCodes::VirtualConstToReal => "vconsttr",
            ByteCodes::VirtualToReal => "vtr",
            ByteCodes::Store1 => "store1",
            ByteCodes::Store2 => "store2",
            ByteCodes::Store4 => "store4",
            ByteCodes::Store8 => "store8",
            ByteCodes::StoreBytes => "storen",
            ByteCodes::Memmove1 => "memmove1",
            ByteCodes::Memmove2 => "memmove2",
            ByteCodes::Memmove4 => "memmove4",
            ByteCodes::Memmove8 => "memmove8",
            ByteCodes::MemmoveBytes => "memmoven",
            ByteCodes::Duplicate1 => "dup1",
            ByteCodes::Duplicate2 => "dup2",
            ByteCodes::Duplicate4 => "dup4",
            ByteCodes::Duplicate8 => "dup8",
            ByteCodes::DuplicateBytes => "dupn",
            ByteCodes::Malloc => "malloc",
            ByteCodes::Realloc => "realloc",
            ByteCodes::Free => "free",
            ByteCodes::Intr => "intr",
            ByteCodes::IntrConst => "intrconst",
            ByteCodes::ReadError => "readerr",
            ByteCodes::SetErrorConst => "seterrconst",
            ByteCodes::SetError => "seterr",
            ByteCodes::Exit => "exit",
            ByteCodes::JumpConst => "jmpconst",
            ByteCodes::Jump => "jmp",
            ByteCodes::JumpNotZeroConst1 => "jnzconst1",
            ByteCodes::JumpNotZeroConst2 => "jnzconst2",
            ByteCodes::JumpNotZeroConst4 => "jnzconst4",
            ByteCodes::JumpNotZeroConst8 => "jnzconst8",
            ByteCodes::JumpNotZero1 => "jnz1",
            ByteCodes::JumpNotZero2 => "jnz2",
            ByteCodes::JumpNotZero4 => "jnz4",
            ByteCodes::JumpNotZero8 => "jnz8",
            ByteCodes::JumpZeroConst1 => "jzconst1",
            ByteCodes::JumpZeroConst2 => "jzconst2",
            ByteCodes::JumpZeroConst4 => "jzconst4",
            ByteCodes::JumpZeroConst8 => "jzconst8",
            ByteCodes::JumpZero1 => "jz1",
            ByteCodes::JumpZero2 => "jz2",
            ByteCodes::JumpZero4 => "jz4",
            ByteCodes::JumpZero8 => "jz8",
            ByteCodes::JumpErrorConst => "jerrconst",
            ByteCodes::JumpError => "jerr",
            ByteCodes::JumpNoErrorConst => "jnoerrconst",
            ByteCodes::JumpNoError => "jnoerr",
            ByteCodes::Call => "call",
            ByteCodes::Nop => "nop",
        }
    }

    /// The instruction with the given mnemonic.
    pub open spec fn spec_from_string(string: Seq<char>) -> Option<ByteCodes> {
        if string == "addi1"@ {
            Some(ByteCodes::AddInt1)
        } else if string == "addi2"@ {
            Some(ByteCodes::AddInt2)
        } else if string == "addi4"@ {
            Some(ByteCodes::AddInt4)
        } else if string == "addi8"@ {
            Some(ByteCodes::AddInt8)
        } else if string == "subi1"@ {
            Some(ByteCodes::SubInt1)
        } else if string == "subi2"@ {
            Some(ByteCodes::SubInt2)
        } else if string == "subi4"@ {
            Some(ByteCodes::SubInt4)
        } else if string == "subi8"@ {
            Some(ByteCodes::SubInt8)
        } else if string == "muli1"@ {
            Some(ByteCodes::MulInt1)
        } else if string == "muli2"@ {
            Some(ByteCodes::MulInt2)
        } else if string == "muli4"@ {
            Some(ByteCodes::MulInt4)
        } else if string == "muli8"@ {
            Some(ByteCodes::MulInt8)
        } else if string == "divi1"@ {
            Some(ByteCodes::DivInt1)
        } else if string == "divi2"@ {
            Some(ByteCodes::DivInt2)
        } else if string == "divi4"@ {
            Some(ByteCodes::DivInt4)
        } else if string == "divi8"@ {
            Some(ByteCodes::DivInt8)
        } else if string == "modi1"@ {
            Some(ByteCodes::ModInt1)
        } else if string == "modi2"@ {
            Some(ByteCodes::ModInt2)
        } else if string == "modi4"@ {
            Some(ByteCodes::ModInt4)
        } else if string == "modi8"@ {
            Some(ByteCodes::ModInt8)
        } else if string == "addf4"@ {
            Some(ByteCodes::AddFloat4)
        } else if string == "addf8"@ {
            Some(ByteCodes::AddFloat8)
        } else if string == "subf4"@ {
            Some(ByteCodes::SubFloat4)
        } else if string == "subf8"@ {
            Some(ByteCodes::SubFloat8)
        } else if string == "mulf4"@ {
            Some(ByteCodes::MulFloat4)
        } else if string == "mulf8"@ {
            Some(ByteCodes::MulFloat8)
        } else if string == "divf4"@ {
            Some(ByteCodes::DivFloat4)
        } else if string == "divf8"@ {
            Some(ByteCodes::DivFloat8)
        } else if string == "modf4"@ {
            Some(ByteCodes::ModFloat4)
        } else if string == "modf8"@ {
            Some(ByteCodes::ModFloat8)
        } else if string == "loadstatic1"@ {
            Some(ByteCodes::LoadStatic1)
        } else if string == "loadstatic2"@ {
            Some(ByteCodes::LoadStatic2)
        } else if string == "loadstatic4"@ {
            Some(ByteCodes::LoadStatic4)
        } else if string == "loadstatic8"@ {
            Some(ByteCodes::LoadStatic8)
        } else if string == "loadstaticn"@ {
            Some(ByteCodes::LoadStaticBytes)
        } else if string == "loadconst1"@ {
            Some(ByteCodes::LoadConst1)
        } else if string == "loadconst2"@ {
            Some(ByteCodes::LoadConst2)
        } else if string == "loadconst4"@ {
            Some(ByteCodes::LoadConst4)
        } else if string == "loadconst8"@ {
            Some(ByteCodes::LoadConst8)
        } else if string == "loadconstn"@ {
            Some(ByteCodes::LoadConstBytes)
        } else if string == "load1"@ {
            Some(ByteCodes::Load1)
        } else if string == "load2"@ {
            Some(ByteCodes::Load2)
        } else if string == "load4"@ {
            Some(ByteCodes::Load4)
        } else if string == "load8"@ {
            Some(ByteCodes::Load8)
        } else if string == "loadn"@ {
            Some(ByteCodes::LoadBytes)
        } else if string == "vconsttr"@ {
            Some(ByteCodes::VirtualConstToReal)
        } else if string == "vtr"@ {
            Some(ByteCodes::VirtualToReal)
        } else if string == "store1"@ {
            Some(ByteCodes::Store1)
        } else if string == "store2"@ {
            Some(ByteCodes::Store2)
        } else if string == "store4"@ {
            Some(ByteCodes::Store4)
        } else if string == "store8"@ {
            Some(ByteCodes::Store8)
        } else if string == "storen"@ {
            Some(ByteCodes::StoreBytes)
        } else if string == "memmove1"@ {
            Some(ByteCodes::Memmove1)
        } else if string == "memmove2"@ {
            Some(ByteCodes::Memmove2)
        } else if string == "memmove4"@ {
            Some(ByteCodes::Memmove4)
        } else if string == "memmove8"@ {
            Some(ByteCodes::Memmove8)
        } else if string == "memmoven"@ {
            Some(ByteCodes::MemmoveBytes)
        } else if string == "dup1"@ {
            Some(ByteCodes::Duplicate1)
        } else if string == "dup2"@ {
            Some(ByteCodes::Duplicate2)
        } else if string == "dup4"@ {
            Some(ByteCodes::Duplicate4)
        } else if string == "dup8"@ {
            Some(ByteCodes::Duplicate8)
        } else if string == "dupn"@ {
            Some(ByteCodes::DuplicateBytes)
        } else if string == "malloc"@ {
            Some(ByteCodes::Malloc)
        } else if string == "realloc"@ {
            Some(ByteCodes::Realloc)
        } else if string == "free"@ {
            Some(ByteCodes::Free)
        } else if string == "intr"@ {
            Some(ByteCodes::Intr)
        } else if string == "intrconst"@ {
            Some(ByteCodes::IntrConst)
        } else if string == "readerr"@ {
            Some(ByteCodes::ReadError)
        } else if string == "seterrconst"@ {
            Some(ByteCodes::SetErrorConst)
        } else if string == "seterr"@ {
            Some(ByteCodes::SetError)
        } else if string == "exit"@ {
            Some(ByteCodes::Exit)
        } else if string == "jmpconst"@ {
            Some(ByteCodes::JumpConst)
        } else if string == "jmp"@ {
            Some(ByteCodes::Jump)
        } else if string == "jnzconst1"@ {
            Some(ByteCodes::JumpNotZeroConst1)
        } else if string == "jnzconst2"@ {
            Some(ByteCodes::JumpNotZeroConst2)
        } else if string == "jnzconst4"@ {
            Some(ByteCodes::JumpNotZeroConst4)
        } else if string == "jnzconst8"@ {
            Some(ByteCodes::JumpNotZeroConst8)
        } else if string == "jnz1"@ {
            Some(ByteCodes::JumpNotZero1)
        } else if string == "jnz2"@ {
            Some(ByteCodes::JumpNotZero2)
        } else if string == "jnz4"@ {
            Some(ByteCodes::JumpNotZero4)
        } else if string == "jnz8"@ {
            Some(ByteCodes::JumpNotZero8)
        } else if string == "jzconst1"@ {
            Some(ByteCodes::JumpZeroConst1)
        } else if string == "jzconst2"@ {
            Some(ByteCodes::JumpZeroConst2)
        } else if string == "jzconst4"@ {
            Some(ByteCodes::JumpZeroConst4)
        } else if string == "jzconst8"@ {
            Some(ByteCodes::JumpZeroConst8)
        } else if string == "jz1"@ {
            Some(ByteCodes::JumpZero1)
        } else if string == "jz2"@ {
            Some(ByteCodes::JumpZero2)
        } else if string == "jz4"@ {
            Some(ByteCodes::JumpZero4)
        } else if string == "jz8"@ {
            Some(ByteCodes::JumpZero8)
        } else if string == "jerrconst"@ {
            Some(ByteCodes::JumpErrorConst)
        } else if string == "jerr"@ {
            Some(ByteCodes::JumpError)
        } else if string == "jnoerrconst"@ {
            Some(ByteCodes::JumpNoErrorConst)
        } else if string == "jnoerr"@ {
            Some(ByteCodes::JumpNoError)
        } else if string == "call"@ {
            Some(ByteCodes::Call)
        } else if string == "nop"@ {
            Some(ByteCodes::Nop)
        } else {
            None
        }
    }

    /// The instruction with the given mnemonic, if there is one.
    pub fn from_string(string: &str) -> (code: Option<ByteCodes>)
        ensures
            code == Self::spec_from_string(string@),
    {
        if str_eq(string, "addi1") {
            Some(ByteCodes::AddInt1)
        } else if str_eq(string, "addi2") {
            Some(ByteCodes::AddInt2)
        } else if str_eq(string, "addi4") {
            Some(ByteCodes::AddInt4)
        } else if str_eq(string, "addi8") {
            Some(ByteCodes::AddInt8)
        } else if str_eq(string, "subi1") {
            Some(ByteCodes::SubInt1)
        } else if str_eq(string, "subi2") {
            Some(ByteCodes::SubInt2)
        } else if str_eq(string, "subi4") {
            Some(ByteCodes::SubInt4)
        } else if str_eq(string, "subi8") {
            Some(ByteCodes::SubInt8)
        } else if str_eq(string, "muli1") {
            Some(ByteCodes::MulInt1)
        } else if str_eq(string, "muli2") {
            Some(ByteCodes::MulInt2)
        } else if str_eq(string, "muli4") {
            Some(ByteCodes::MulInt4)
        } else if str_eq(string, "muli8") {
            Some(ByteCodes::MulInt8)
        } else if str_eq(string, "divi1") {
            Some(ByteCodes::DivInt1)
        } else if str_eq(string, "divi2") {
            Some(ByteCodes::DivInt2)
        } else if str_eq(string, "divi4") {
            Some(ByteCodes::DivInt4)
        } else if str_eq(string, "divi8") {
            Some(ByteCodes::DivInt8)
        } else if str_eq(string, "modi1") {
            Some(ByteCodes::ModInt1)
        } else if str_eq(string, "modi2") {
            Some(ByteCodes::ModInt2)
        } else if str_eq(string, "modi4") {
            Some(ByteCodes::ModInt4)
        } else if str_eq(string, "modi8") {
            Some(ByteCodes::ModInt8)
        } else if str_eq(string, "addf4") {
            Some(ByteCodes::AddFloat4)
        } else if str_eq(string, "addf8") {
            Some(ByteCodes::AddFloat8)
        } else if str_eq(string, "subf4") {
            Some(ByteCodes::SubFloat4)
        } else if str_eq(string, "subf8") {
            Some(ByteCodes::SubFloat8)
        } else if str_eq(string, "mulf4") {
            Some(ByteCodes::MulFloat4)
        } else if str_eq(string, "mulf8") {
            Some(ByteCodes::MulFloat8)
        } else if str_eq(string, "divf4") {
            Some(ByteCodes::DivFloat4)
        } else if str_eq(string, "divf8") {
            Some(ByteCodes::DivFloat8)
        } else if str_eq(string, "modf4") {
            Some(ByteCodes::ModFloat4)
        } else if str_eq(string, "modf8") {
            Some(ByteCodes::ModFloat8)
        } else if str_eq(string, "loadstatic1") {
            Some(ByteCodes::LoadStatic1)
        } else if str_eq(string, "loadstatic2") {
            Some(ByteCodes::LoadStatic2)
        } else if str_eq(string, "loadstatic4") {
            Some(ByteCodes::LoadStatic4)
        } else if str_eq(string, "loadstatic8") {
            Some(ByteCodes::LoadStatic8)
        } else if str_eq(string, "loadstaticn") {
            Some(ByteCodes::LoadStaticBytes)
        } else if str_eq(string, "loadconst1") {
            Some(ByteCodes::LoadConst1)
        } else if str_eq(string, "loadconst2") {
            Some(ByteCodes::LoadConst2)
        } else if str_eq(string, "loadconst4") {
            Some(ByteCodes::LoadConst4)
        } else if str_eq(string, "loadconst8") {
            Some(ByteCodes::LoadConst8)
        } else if str_eq(string, "loadconstn") {
            Some(ByteCodes::LoadConstBytes)
        } else if str_eq(string, "load1") {
            Some(ByteCodes::Load1)
        } else if str_eq(string, "load2") {
            Some(ByteCodes::Load2)
        } else if str_eq(string, "load4") {
            Some(ByteCodes::Load4)
        } else if str_eq(string, "load8") {
            Some(ByteCodes::Load8)
        } else if str_eq(string, "loadn") {
            Some(ByteCodes::LoadBytes)
        } else if str_eq(string, "vconsttr") {
            Some(ByteCodes::VirtualConstToReal)
        } else if str_eq(string, "vtr") {
            Some(ByteCodes::VirtualToReal)
        } else if str_eq(string, "store1") {
            Some(ByteCodes::Store1)
        } else if str_eq(string, "store2") {
            Some(ByteCodes::Store2)
        } else if str_eq(string, "store4") {
            Some(ByteCodes::Store4)
        } else if str_eq(string, "store8") {
            Some(ByteCodes::Store8)
        } else if str_eq(string, "storen") {
            Some(ByteCodes::StoreBytes)
        } else if str_eq(string, "memmove1") {
            Some(ByteCodes::Memmove1)
        } else if str_eq(string, "memmove2") {
            Some(ByteCodes::Memmove2)
        } else if str_eq(string, "memmove4") {
            Some(ByteCodes::Memmove4)
        } else if str_eq(string, "memmove8") {
            Some(ByteCodes::Memmove8)
        } else if str_eq(string, "memmoven") {
            Some(ByteCodes::MemmoveBytes)
        } else if str_eq(string, "dup1") {
            Some(ByteCodes::Duplicate1)
        } else if str_eq(string, "dup2") {
            Some(ByteCodes::Duplicate2)
        } else if str_eq(string, "dup4") {
            Some(ByteCodes::Duplicate4)
        } else if str_eq(string, "dup8") {
            Some(ByteCodes::Duplicate8)
        } else if str_eq(string, "dupn") {
            Some(ByteCodes::DuplicateBytes)
        } else if str_eq(string, "malloc") {
            Some(ByteCodes::Malloc)
        } else if str_eq(string, "realloc") {
            Some(ByteCodes::Realloc)
        } else if str_eq(string, "free") {
            Some(ByteCodes::Free)
        } else if str_eq(string, "intr") {
            Some(ByteCodes::Intr)
        } else if str_eq(string, "intrconst") {
            Some(ByteCodes::IntrConst)
        } else if str_eq(string, "readerr") {
            Some(ByteCodes::ReadError)
        } else if str_eq(string, "seterrconst") {
            Some(ByteCodes::SetErrorConst)
        } else if str_eq(string, "seterr") {
            Some(ByteCodes::SetError)
        } else if str_eq(string, "exit") {
            Some(ByteCodes::Exit)
        } else if str_eq(string, "jmpconst") {
            Some(ByteCodes::JumpConst)
        } else if str_eq(string, "jmp") {
            Some(ByteCodes::Jump)
        } else if str_eq(string, "jnzconst1") {
            Some(ByteCodes::JumpNotZeroConst1)
        } else if str_eq(string, "jnzconst2") {
            Some(ByteCodes::JumpNotZeroConst2)
        } else if str_eq(string, "jnzconst4") {
            Some(ByteCodes::JumpNotZeroConst4)
        } else if str_eq(string, "jnzconst8") {
            Some(ByteCodes::JumpNotZeroConst8)
        } else if str_eq(string, "jnz1") {
            Some(ByteCodes::JumpNotZero1)
        } else if str_eq(string, "jnz2") {
            Some(ByteCodes::JumpNotZero2)
        } else if str_eq(string, "jnz4") {
            Some(ByteCodes::JumpNotZero4)
        } else if str_eq(string, "jnz8") {
            Some(ByteCodes::JumpNotZero8)
        } else if str_eq(string, "jzconst1") {
            Some(ByteCodes::JumpZeroConst1)
        } else if str_eq(string, "jzconst2") {
            Some(ByteCodes::JumpZeroConst2)
        } else if str_eq(string, "jzconst4") {
            Some(ByteCodes::JumpZeroConst4)
        } else if str_eq(string, "jzconst8") {
            Some(ByteCodes::JumpZeroConst8)
        } else if str_eq(string, "jz1") {
            Some(ByteCodes::JumpZero1)
        } else if str_eq(string, "jz2") {
            Some(ByteCodes::JumpZero2)
        } else if str_eq(string, "jz4") {
            Some(ByteCodes::JumpZero4)
        } else if str_eq(string, "jz8") {
            Some(ByteCodes::JumpZero8)
        } else if str_eq(string, "jerrconst") {
            Some(ByteCodes::JumpErrorConst)
        } else if str_eq(string, "jerr") {
            Some(ByteCodes::JumpError)
        } else if str_eq(string, "jnoerrconst") {
            Some(ByteCodes::JumpNoErrorConst)
        } else if str_eq(string, "jnoerr") {
            Some(ByteCodes::JumpNoError)
        } else if str_eq(string, "call") {
            Some(ByteCodes::Call)
        } else if str_eq(string, "nop") {
            Some(ByteCodes::Nop)
        } else {
            None
        }
    }

    /// What an instruction does.
    pub open spec fn spec_operation(self) -> Operation {
        match self {
            ByteCodes::AddInt1 => Operation::IntArith(Arith::Add, Width::W1),
            ByteCodes::AddInt2 => Operation::IntArith(Arith::Add, Width::W2),
            ByteCodes::AddInt4 => Operation::IntArith(Arith::Add, Width::W4),
            ByteCodes::AddInt8 => Operation::IntArith(Arith::Add, Width::W8),
            ByteCodes::SubInt1 => Operation::IntArith(Arith::Sub, Width::W1),
            ByteCodes::SubInt2 => Operation::IntArith(Arith::Sub, Width::W2),
            ByteCodes::SubInt4 => Operation::IntArith(Arith::Sub, Width::W4),
            ByteCodes::SubInt8 => Operation::IntArith(Arith::Sub, Width::W8),
            ByteCodes::MulInt1 => Operation::IntArith(Arith::Mul, Width::W1),
            ByteCodes::MulInt2 => Operation::IntArith(Arith::Mul, Width::W2),
            ByteCodes::MulInt4 => Operation::IntArith(Arith::Mul, Width::W4),
            ByteCodes::MulInt8 => Operation::IntArith(Arith::Mul, Width::W8),
            ByteCodes::DivInt1 => Operation::IntArith(Arith::Div, Width::W1),
            ByteCodes::DivInt2 => Operation::IntArith(Arith::Div, Width::W2),
            ByteCodes::DivInt4 => Operation::IntArith(Arith::Div, Width::W4),
            ByteCodes::DivInt8 => Operation::IntArith(Arith::Div, Width::W8),
            ByteCodes::ModInt1 => Operation::IntArith(Arith::Mod, Width::W1),
            ByteCodes::ModInt2 => Operation::IntArith(Arith::Mod, Width::W2),
            ByteCodes::ModInt4 => Operation::IntArith(Arith::Mod, Width::W4),
            ByteCodes::ModInt8 => Operation::IntArith(Arith::Mod, Width::W8),
            ByteCodes::AddFloat4 => Operation::FloatArith(Arith::Add, Width::W4),
            ByteCodes::AddFloat8 => Operation::FloatArith(Arith::Add, Width::W8),
            ByteCodes::SubFloat4 => Operation::FloatArith(Arith::Sub, Width::W4),
            ByteCodes::SubFloat8 => Operation::FloatArith(Arith::Sub, Width::W8),
            ByteCodes::MulFloat4 => Operation::FloatArith(Arith::Mul, Width::W4),
            ByteCodes::MulFloat8 => Operation::FloatArith(Arith::Mul, Width::W8),
            ByteCodes::DivFloat4 => Operation::FloatArith(Arith::Div, Width::W4),
            ByteCodes::DivFloat8 => Operation::FloatArith(Arith::Div, Width::W8),
            ByteCodes::ModFloat4 => Operation::FloatArith(Arith::Mod, Width::W4),
            ByteCodes::ModFloat8 => Operation::FloatArith(Arith::Mod, Width::W8),
            ByteCodes::LoadStatic1 => Operation::LoadStatic(Width::W1),
            ByteCodes::LoadStatic2 => Operation::LoadStatic(Width::W2),
            ByteCodes::LoadStatic4 => Operation::LoadStatic(Width::W4),
            ByteCodes::LoadStatic8 => Operation::LoadStatic(Width::W8),
            ByteCodes::LoadStaticBytes => Operation::LoadStaticBytes,
            ByteCodes::LoadConst1 => Operation::LoadConst(Width::W1),
            ByteCodes::LoadConst2 => Operation::LoadConst(Width::W2),
            ByteCodes::LoadConst4 => Operation::LoadConst(Width::W4),
            ByteCodes::LoadConst8 => Operation::LoadConst(Width::W8),
            ByteCodes::LoadConstBytes => Operation::LoadConstBytes,
            ByteCodes::Load1 => Operation::Load(Width::W1),
            ByteCodes::Load2 => Operation::Load(Width::W2),
            ByteCodes::Load4 => Operation::Load(Width::W4),
            ByteCodes::Load8 => Operation::Load(Width::W8),
            ByteCodes::LoadBytes => Operation::LoadBytes,
            ByteCodes::VirtualConstToReal => Operation::VirtualConstToReal,
            ByteCodes::VirtualToReal => Operation::VirtualToReal,
            ByteCodes::Store1 => Operation::Store(Width::W1),
            ByteCodes::Store2 => Operation::Store(Width::W2),
            ByteCodes::Store4 => Operation::Store(Width::W4),
            ByteCodes::Store8 => Operation::Store(Width::W8),
            ByteCodes::StoreBytes => Operation::StoreBytes,
            ByteCodes::Memmove1 => Operation::Memmove(Width::W1),
            ByteCodes::Memmove2 => Operation::Memmove(Width::W2),
            ByteCodes::Memmove4 => Operation::Memmove(Width::W4),
            ByteCodes::Memmove8 => Operation::Memmove(Width::W8),
            ByteCodes::MemmoveBytes => Operation::MemmoveBytes,
            ByteCodes::Duplicate1 => Operation::Duplicate(Width::W1),
            ByteCodes::Duplicate2 => Operation::Duplicate(Width::W2),
            ByteCodes::Duplicate4 => Operation::Duplicate(Width::W4),
            ByteCodes::Duplicate8 => Operation::Duplicate(Width::W8),
            ByteCodes::DuplicateBytes => Operation::DuplicateBytes,
            ByteCodes::Malloc => Operation::Malloc,
            ByteCodes::Realloc => Operation::Realloc,
            ByteCodes::Free => Operation::Free,
            ByteCodes::Intr => Operation::Intr,
            ByteCodes::IntrConst => Operation::IntrConst,
            ByteCodes::ReadError => Operation::ReadError,
            ByteCodes::SetErrorConst => Operation::SetErrorConst,
            ByteCodes::SetError => Operation::SetError,
            ByteCodes::Exit => Operation::Exit,
            ByteCodes::JumpConst => Operation::JumpConst,
            ByteCodes::Jump => Operation::Jump,
            ByteCodes::JumpNotZeroConst1 => Operation::JumpIf { on_zero: false, constant: true, width: Width::W1 },
            ByteCodes::JumpNotZeroConst2 => Operation::JumpIf { on_zero: false, constant: true, width: Width::W2 },
            ByteCodes::JumpNotZeroConst4 => Operation::JumpIf { on_zero: false, constant: true, width: Width::W4 },
            ByteCodes::JumpNotZeroConst8 => Operation::JumpIf { on_zero: false, constant: true, width: Width::W8 },
            ByteCodes::JumpNotZero1 => Operation::JumpIf { on_zero: false, constant: false, width: Width::W1 },
            ByteCodes::JumpNotZero2 => Operation::JumpIf { on_zero: false, constant: false, width: Width::W2 },
            ByteCodes::JumpNotZero4 => Operation::JumpIf { on_zero: false, constant: false, width: Width::W4 },
            ByteCodes::JumpNotZero8 => Operation::JumpIf { on_zero: false, constant: false, width: Width::W8 },
            ByteCodes::JumpZeroConst1 => Operation::JumpIf { on_zero: true, constant: true, width: Width::W1 },
            ByteCodes::JumpZeroConst2 => Operation::JumpIf { on_zero: true, constant: true, width: Width::W2 },
            ByteCodes::JumpZeroConst4 => Operation::JumpIf { on_zero: true, constant: true, width: Width::W4 },
            ByteCodes::JumpZeroConst8 => Operation::JumpIf { on_zero: true, constant: true, width: Width::W8 },
            ByteCodes::JumpZero1 => Operation::JumpIf { on_zero: true, constant: false, width: Width::W1 },
            ByteCodes::JumpZero2 => Operation::JumpIf { on_zero: true, constant: false, width: Width::W2 },
            ByteCodes::JumpZero4 => Operation::JumpIf { on_zero: true, constant: false, width: Width::W4 },
            ByteCodes::JumpZero8 => Operation::JumpIf { on_zero: true, constant: false, width: Width::W8 },
            ByteCodes::JumpErrorConst => Operation::JumpOnError { on_error: true, constant: true },
            ByteCodes::JumpError => Operation::JumpOnError { on_error: true, constant: false },
            ByteCodes::JumpNoErrorConst => Operation::JumpOnError { on_error: false, constant: true },
            ByteCodes::JumpNoError => Operation::JumpOnError { on_error: false, constant: false },
            ByteCodes::Call => Operation::Call,
            ByteCodes::Nop => Operation::Nop,
        }
    }

    /// What this instruction does.
    pub fn operation(self) -> (op: Operation)
        ensures
            op == self.spec_operation(),
    {
        match self {
            ByteCodes::AddInt1 => Operation::IntArith(Arith::Add, Width::W1),
            ByteCodes::AddInt2 => Operation::IntArith(Arith::Add, Width::W2),
            ByteCodes::AddInt4 => Operation::IntArith(Arith::Add, Width::W4),
            ByteCodes::AddInt8 => Operation::IntArith(Arith::Add, Width::W8),
            ByteCodes::SubInt1 => Operation::IntArith(Arith::Sub, Width::W1),
            ByteCodes::SubInt2 => Operation::IntArith(Arith::Sub, Width::W2),
            ByteCodes::SubInt4 => Operation::IntArith(Arith::Sub, Width::W4),
            ByteCodes::SubInt8 => Operation::IntArith(Arith::Sub, Width::W8),
            ByteCodes::MulInt1 => Operation::IntArith(Arith::Mul, Width::W1),
            ByteCodes::MulInt2 => Operation::IntArith(Arith::Mul, Width::W2),
            ByteCodes::MulInt4 => Operation::IntArith(Arith::Mul, Width::W4),
            ByteCodes::MulInt8 => Operation::IntArith(Arith::Mul, Width::W8),
            ByteCodes::DivInt1 => Operation::IntArith(Arith::Div, Width::W1),
            ByteCodes::DivInt2 => Operation::IntArith(Arith::Div, Width::W2),
            ByteCodes::DivInt4 => Operation::IntArith(Arith::Div, Width::W4),
            ByteCodes::DivInt8 => Operation::IntArith(Arith::Div, Width::W8),
            ByteCodes::ModInt1 => Operation::IntArith(Arith::Mod, Width::W1),
            ByteCodes::ModInt2 => Operation::IntArith(Arith::Mod, Width::W2),
            ByteCodes::ModInt4 => Operation::IntArith(Arith::Mod, Width::W4),
            ByteCodes::ModInt8 => Operation::IntArith(Arith::Mod, Width::W8),
            ByteCodes::AddFloat4 => Operation::FloatArith(Arith::Add, Width::W4),
            ByteCodes::AddFloat8 => Operation::FloatArith(Arith::Add, Width::W8),
            ByteCodes::SubFloat4 => Operation::FloatArith(Arith::Sub, Width::W4),
            ByteCodes::SubFloat8 => Operation::FloatArith(Arith::Sub, Width::W8),
            ByteCodes::MulFloat4 => Operation::FloatArith(Arith::Mul, Width::W4),
            ByteCodes::MulFloat8 => Operation::FloatArith(Arith::Mul, Width::W8),
            ByteCodes::DivFloat4 => Operation::FloatArith(Arith::Div, Width::W4),
            ByteCodes::DivFloat8 => Operation::FloatArith(Arith::Div, Width::W8),
            ByteCodes::ModFloat4 => Operation::FloatArith(Arith::Mod, Width::W4),
            ByteCodes::ModFloat8 => Operation::FloatArith(Arith::Mod, Width::W8),
            ByteCodes::LoadStatic1 => Operation::LoadStatic(Width::W1),
            ByteCodes::LoadStatic2 => Operation::LoadStatic(Width::W2),
            ByteCodes::LoadStatic4 => Operation::LoadStatic(Width::W4),
            ByteCodes::LoadStatic8 => Operation::LoadStatic(Width::W8),
            ByteCodes::LoadStaticBytes => Operation::LoadStaticBytes,
            ByteCodes::LoadConst1 => Operation::LoadConst(Width::W1),
            ByteCodes::LoadConst2 => Operation::LoadConst(Width::W2),
            ByteCodes::LoadConst4 => Operation::LoadConst(Width::W4),
            ByteCodes::LoadConst8 => Operation::LoadConst(Width::W8),
            ByteCodes::LoadConstBytes => Operation::LoadConstBytes,
            ByteCodes::Load1 => Operation::Load(Width::W1),
            ByteCodes::Load2 => Operation::Load(Width::W2),
            ByteCodes::Load4 => Operation::Load(Width::W4),
            ByteCodes::Load8 => Operation::Load(Width::W8),
            ByteCodes::LoadBytes => Operation::LoadBytes,
            ByteCodes::VirtualConstToReal => Operation::VirtualConstToReal,
            ByteCodes::VirtualToReal => Operation::VirtualToReal,
            ByteCodes::Store1 => Operation::Store(Width::W1),
            ByteCodes::Store2 => Operation::Store(Width::W2),
            ByteCodes::Store4 => Operation::Store(Width::W4),
            ByteCodes::Store8 => Operation::Store(Width::W8),
            ByteCodes::StoreBytes => Operation::StoreBytes,
            ByteCodes::Memmove1 => Operation::Memmove(Width::W1),
            ByteCodes::Memmove2 => Operation::Memmove(Width::W2),
            ByteCodes::Memmove4 => Operation::Memmove(Width::W4),
            ByteCodes::Memmove8 => Operation::Memmove(Width::W8),
            ByteCodes::MemmoveBytes => Operation::MemmoveBytes,
            ByteCodes::Duplicate1 => Operation::Duplicate(Width::W1),
            ByteCodes::Duplicate2 => Operation::Duplicate(Width::W2),
            ByteCodes::Duplicate4 => Operation::Duplicate(Width::W4),
            ByteCodes::Duplicate8 => Operation::Duplicate(Width::W8),
            ByteCodes::DuplicateBytes => Operation::DuplicateBytes,
            ByteCodes::Malloc => Operation::Malloc,
            ByteCodes::Realloc => Operation::Realloc,
            ByteCodes::Free => Operation::Free,
            ByteCodes::Intr => Operation::Intr,
            ByteCodes::IntrConst => Operation::IntrConst,
            ByteCodes::ReadError => Operation::ReadError,
            ByteCodes::SetErrorConst => Operation::SetErrorConst,
            ByteCodes::SetError => Operation::SetError,
            ByteCodes::Exit => Operation::Exit,
            ByteCodes::JumpConst => Operation::JumpConst,
            ByteCodes::Jump => Operation::Jump,
            ByteCodes::JumpNotZeroConst1 => Operation::JumpIf { on_zero: false, constant: true, width: Width::W1 },
            ByteCodes::JumpNotZeroConst2 => Operation::JumpIf { on_zero: false, constant: true, width: Width::W2 },
            ByteCodes::JumpNotZeroConst4 => Operation::JumpIf { on_zero: false, constant: true, width: Width::W4 },
            ByteCodes::JumpNotZeroConst8 => Operation::JumpIf { on_zero: false, constant: true, width: Width::W8 },
            ByteCodes::JumpNotZero1 => Operation::JumpIf { on_zero: false, constant: false, width: Width::W1 },
            ByteCodes::JumpNotZero2 => Operation::JumpIf { on_zero: false, constant: false, width: Width::W2 },
            ByteCodes::JumpNotZero4 => Operation::JumpIf { on_zero: false, constant: false, width: Width::W4 },
            ByteCodes::JumpNotZero8 => Operation::JumpIf { on_zero: false, constant: false, width: Width::W8 },
            ByteCodes::JumpZeroConst1 => Operation::JumpIf { on_zero: true, constant: true, width: Width::W1 },
            ByteCodes::JumpZeroConst2 => Operation::JumpIf { on_zero: true, constant: true, width: Width::W2 },
            ByteCodes::JumpZeroConst4 => Operation::JumpIf { on_zero: true, constant: true, width: Width::W4 },
            ByteCodes::JumpZeroConst8 => Operation::JumpIf { on_zero: true, constant: true, width: Width::W8 },
            ByteCodes::JumpZero1 => Operation::JumpIf { on_zero: true, constant: false, width: Width::W1 },
            ByteCodes::JumpZero2 => Operation::JumpIf { on_zero: true, constant: false, width: Width::W2 },
            ByteCodes::JumpZero4 => Operation::JumpIf { on_zero: true, constant: false, width: Width::W4 },
            ByteCodes::JumpZero8 => Operation::JumpIf { on_zero: true, constant: false, width: Width::W8 },
            ByteCodes::JumpErrorConst => Operation::JumpOnError { on_error: true, constant: true },
            ByteCodes::JumpError => Operation::JumpOnError { on_error: true, constant: false },
            ByteCodes::JumpNoErrorConst => Operation::JumpOnError { on_error: false, constant: true },
            ByteCodes::JumpNoError => Operation::JumpOnError { on_error: false, constant: false },
            ByteCodes::Call => Operation::Call,
            ByteCodes::Nop => Operation::Nop,
        }
    }

    /// What the assembler writes after an instruction's opcode.
    pub open spec fn spec_operand_kind(self) -> OperandKind {
        match self {
            ByteCodes::AddInt1 => OperandKind::Nothing,
            ByteCodes::AddInt2 => OperandKind::Nothing,
            ByteCodes::AddInt4 => OperandKind::Nothing,
            ByteCodes::AddInt8 => OperandKind::Nothing,
            ByteCodes::SubInt1 => OperandKind::Nothing,
            ByteCodes::SubInt2 => OperandKind::Nothing,
            ByteCodes::SubInt4 => OperandKind::Nothing,
            ByteCodes::SubInt8 => OperandKind::Nothing,
            ByteCodes::MulInt1 => OperandKind::Nothing,
            ByteCodes::MulInt2 => OperandKind::Nothing,
            ByteCodes::MulInt4 => OperandKind::Nothing,
            ByteCodes::MulInt8 => OperandKind::Nothing,
            ByteCodes::DivInt1 => OperandKind::Nothing,
            ByteCodes::DivInt2 => OperandKind::Nothing,
            ByteCodes::DivInt4 => OperandKind::Nothing,
            ByteCodes::DivInt8 => OperandKind::Nothing,
            ByteCodes::ModInt1 => OperandKind::Nothing,
            ByteCodes::ModInt2 => OperandKind::Nothing,
            ByteCodes::ModInt4 => OperandKind::Nothing,
            ByteCodes::ModInt8 => OperandKind::Nothing,
            ByteCodes::AddFloat4 => OperandKind::Nothing,
            ByteCodes::AddFloat8 => OperandKind::Nothing,
            ByteCodes::SubFloat4 => OperandKind::Nothing,
            ByteCodes::SubFloat8 => OperandKind::Nothing,
            ByteCodes::MulFloat4 => OperandKind::Nothing,
            ByteCodes::MulFloat8 => OperandKind::Nothing,
            ByteCodes::DivFloat4 => OperandKind::Nothing,
            ByteCodes::DivFloat8 => OperandKind::Nothing,
            ByteCodes::ModFloat4 => OperandKind::Nothing,
            ByteCodes::ModFloat8 => OperandKind::Nothing,
            ByteCodes::LoadStatic1 => OperandKind::Address,
            ByteCodes::LoadStatic2 => OperandKind::Address,
            ByteCodes::LoadStatic4 => OperandKind::Address,
            ByteCodes::LoadStatic8 => OperandKind::Address,
            ByteCodes::LoadStaticBytes => OperandKind::AddressAndCount,
            ByteCodes::LoadConst1 => OperandKind::Number(Width::W1),
            ByteCodes::LoadConst2 => OperandKind::Number(Width::W2),
            ByteCodes::LoadConst4 => OperandKind::Number(Width::W4),
            ByteCodes::LoadConst8 => OperandKind::Number(Width::W8),
            ByteCodes::LoadConstBytes => OperandKind::Bytes,
            ByteCodes::Load1 => OperandKind::Nothing,
            ByteCodes::Load2 => OperandKind::Nothing,
            ByteCodes::Load4 => OperandKind::Nothing,
            ByteCodes::Load8 => OperandKind::Nothing,
            ByteCodes::LoadBytes => OperandKind::Nothing,
            ByteCodes::VirtualConstToReal => OperandKind::Address,
            ByteCodes::VirtualToReal => OperandKind::Nothing,
            ByteCodes::Store1 => OperandKind::Nothing,
            ByteCodes::Store2 => OperandKind::Nothing,
            ByteCodes::Store4 => OperandKind::Nothing,
            ByteCodes::Store8 => OperandKind::Nothing,
            ByteCodes::StoreBytes => OperandKind::Nothing,
            ByteCodes::Memmove1 => OperandKind::Nothing,
            ByteCodes::Memmove2 => OperandKind::Nothing,
            ByteCodes::Memmove4 => OperandKind::Nothing,
            ByteCodes::Memmove8 => OperandKind::Nothing,
            ByteCodes::MemmoveBytes => OperandKind::Nothing,
            ByteCodes::Duplicate1 => OperandKind::Nothing,
            ByteCodes::Duplicate2 => OperandKind::Nothing,
            ByteCodes::Duplicate4 => OperandKind::Nothing,
            ByteCodes::Duplicate8 => OperandKind::Nothing,
            ByteCodes::DuplicateBytes => OperandKind::Nothing,
            ByteCodes::Malloc => OperandKind::Nothing,
            ByteCodes::Realloc => OperandKind::Nothing,
            ByteCodes::Free => OperandKind::Nothing,
            ByteCodes::Intr => OperandKind::Nothing,
            ByteCodes::IntrConst => OperandKind::Number(Width::W1),
            ByteCodes::ReadError => OperandKind::Nothing,
            ByteCodes::SetErrorConst => OperandKind::Number(Width::W4),
            ByteCodes::SetError => OperandKind::Nothing,
            ByteCodes::Exit => OperandKind::Nothing,
            ByteCodes::JumpConst => OperandKind::Address,
            ByteCodes::Jump => OperandKind::Nothing,
            ByteCodes::JumpNotZeroConst1 => OperandKind::Address,
            ByteCodes::JumpNotZeroConst2 => OperandKind::Address,
            ByteCodes::JumpNotZeroConst4 => OperandKind::Address,
            ByteCodes::JumpNotZeroConst8 => OperandKind::Address,
            ByteCodes::JumpNotZero1 => OperandKind::Nothing,
            ByteCodes::JumpNotZero2 => OperandKind::Nothing,
            ByteCodes::JumpNotZero4 => OperandKind::Nothing,
            ByteCodes::JumpNotZero8 => OperandKind::Nothing,
            ByteCodes::JumpZeroConst1 => OperandKind::Address,
            ByteCodes::JumpZeroConst2 => OperandKind::Address,
            ByteCodes::JumpZeroConst4 => OperandKind::Address,
            ByteCodes::JumpZeroConst8 => OperandKind::Address,
            ByteCodes::JumpZero1 => OperandKind::Nothing,
            ByteCodes::JumpZero2 => OperandKind::Nothing,
            ByteCodes::JumpZero4 => OperandKind::Nothing,
            ByteCodes::JumpZero8 => OperandKind::Nothing,
            ByteCodes::JumpErrorConst => OperandKind::Address,
            ByteCodes::JumpError => OperandKind::Nothing,
            ByteCodes::JumpNoErrorConst => OperandKind::Address,
            ByteCodes::JumpNoError => OperandKind::Nothing,
            ByteCodes::Call => OperandKind::Address,
            ByteCodes::Nop => OperandKind::Nothing,
        }
    }

    /// What the assembler writes after this instruction's opcode.
    pub fn operand_kind(self) -> (kind: OperandKind)
        ensures
            kind == self.spec_operand_kind(),
    {
        match self {
            ByteCodes::AddInt1 => OperandKind::Nothing,
            ByteCodes::AddInt2 => OperandKind::Nothing,
            ByteCodes::AddInt4 => OperandKind::Nothing,
            ByteCodes::AddInt8 => OperandKind::Nothing,
            ByteCodes::SubInt1 => OperandKind::Nothing,
            ByteCodes::SubInt2 => OperandKind::Nothing,
            ByteCodes::SubInt4 => OperandKind::Nothing,
            ByteCodes::SubInt8 => OperandKind::Nothing,
            ByteCodes::MulInt1 => OperandKind::Nothing,
            ByteCodes::MulInt2 => OperandKind::Nothing,
            ByteCodes::MulInt4 => OperandKind::Nothing,
            ByteCodes::MulInt8 => OperandKind::Nothing,
            ByteCodes::DivInt1 => OperandKind::Nothing,
            ByteCodes::DivInt2 => OperandKind::Nothing,
            ByteCodes::DivInt4 => OperandKind::Nothing,
            ByteCodes::DivInt8 => OperandKind::Nothing,
            ByteCodes::ModInt1 => OperandKind::Nothing,
            ByteCodes::ModInt2 => OperandKind::Nothing,
            ByteCodes::ModInt4 => OperandKind::Nothing,
            ByteCodes::ModInt8 => OperandKind::Nothing,
            ByteCodes::AddFloat4 => OperandKind::Nothing,
            ByteCodes::AddFloat8 => OperandKind::Nothing,
            ByteCodes::SubFloat4 => OperandKind::Nothing,
            ByteCodes::SubFloat8 => OperandKind::Nothing,
            ByteCodes::MulFloat4 => OperandKind::Nothing,
            ByteCodes::MulFloat8 => OperandKind::Nothing,
            ByteCodes::DivFloat4 => OperandKind::Nothing,
            ByteCodes::DivFloat8 => OperandKind::Nothing,
            ByteCodes::ModFloat4 => OperandKind::Nothing,
            ByteCodes::ModFloat8 => OperandKind::Nothing,
            ByteCodes::LoadStatic1 => OperandKind::Address,
            ByteCodes::LoadStatic2 => OperandKind::Address,
            ByteCodes::LoadStatic4 => OperandKind::Address,
            ByteCodes::LoadStatic8 => OperandKind::Address,
            ByteCodes::LoadStaticBytes => OperandKind::AddressAndCount,
            ByteCodes::LoadConst1 => OperandKind::Number(Width::W1),
            ByteCodes::LoadConst2 => OperandKind::Number(Width::W2),
            ByteCodes::LoadConst4 => OperandKind::Number(Width::W4),
            ByteCodes::LoadConst8 => OperandKind::Number(Width::W8),
            ByteCodes::LoadConstBytes => OperandKind::Bytes,
            ByteCodes::Load1 => OperandKind::Nothing,
            ByteCodes::Load2 => OperandKind::Nothing,
            ByteCodes::Load4 => OperandKind::Nothing,
            ByteCodes::Load8 => OperandKind::Nothing,
            ByteCodes::LoadBytes => OperandKind::Nothing,
            ByteCodes::VirtualConstToReal => OperandKind::Address,
            ByteCodes::VirtualToReal => OperandKind::Nothing,
            ByteCodes::Store1 => OperandKind::Nothing,
            ByteCodes::Store2 => OperandKind::Nothing,
            ByteCodes::Store4 => OperandKind::Nothing,
            ByteCodes::Store8 => OperandKind::Nothing,
            ByteCodes::StoreBytes => OperandKind::Nothing,
            ByteCodes::Memmove1 => OperandKind::Nothing,
            ByteCodes::Memmove2 => OperandKind::Nothing,
            ByteCodes::Memmove4 => OperandKind::Nothing,
            ByteCodes::Memmove8 => OperandKind::Nothing,
            ByteCodes::MemmoveBytes => OperandKind::Nothing,
            ByteCodes::Duplicate1 => OperandKind::Nothing,
            ByteCodes::Duplicate2 => OperandKind::Nothing,
            ByteCodes::Duplicate4 => OperandKind::Nothing,
            ByteCodes::Duplicate8 => OperandKind::Nothing,
            ByteCodes::DuplicateBytes => OperandKind::Nothing,
            ByteCodes::Malloc => OperandKind::Nothing,
            ByteCodes::Realloc => OperandKind::Nothing,
            ByteCodes::Free => OperandKind::Nothing,
            ByteCodes::Intr => OperandKind::Nothing,
            ByteCodes::IntrConst => OperandKind::Number(Width::W1),
            ByteCodes::ReadError => OperandKind::Nothing,
            ByteCodes::SetErrorConst => OperandKind::Number(Width::W4),
            ByteCodes::SetError => OperandKind::Nothing,
            ByteCodes::Exit => OperandKind::Nothing,
            ByteCodes::JumpConst => OperandKind::Address,
            ByteCodes::Jump => OperandKind::Nothing,
            ByteCodes::JumpNotZeroConst1 => OperandKind::Address,
            ByteCodes::JumpNotZeroConst2 => OperandKind::Address,
            ByteCodes::JumpNotZeroConst4 => OperandKind::Address,
            ByteCodes::JumpNotZeroConst8 => OperandKind::Address,
            ByteCodes::JumpNotZero1 => OperandKind::Nothing,
            ByteCodes::JumpNotZero2 => OperandKind::Nothing,
            ByteCodes::JumpNotZero4 => OperandKind::Nothing,
            ByteCodes::JumpNotZero8 => OperandKind::Nothing,
            ByteCodes::JumpZeroConst1 => OperandKind::Address,
            ByteCodes::JumpZeroConst2 => OperandKind::Address,
            ByteCodes::JumpZeroConst4 => OperandKind::Address,
            ByteCodes::JumpZeroConst8 => OperandKind::Address,
            ByteCodes::JumpZero1 => OperandKind::Nothing,
            ByteCodes::JumpZero2 => OperandKind::Nothing,
            ByteCodes::JumpZero4 => OperandKind::Nothing,
            ByteCodes::JumpZero8 => OperandKind::Nothing,
            ByteCodes::JumpErrorConst => OperandKind::Address,
            ByteCodes::JumpError => OperandKind::Nothing,
            ByteCodes::JumpNoErrorConst => OperandKind::Address,
            ByteCodes::JumpNoError => OperandKind::Nothing,
            ByteCodes::Call => OperandKind::Address,
            ByteCodes::Nop => OperandKind::Nothing,
        }
    }
}

/// The number of instructions; every smaller byte encodes one.
pub const OPCODE_COUNT: u8 = 95;

/// The first 11 characters of a name, with blanks where it is shorter, and its length.
pub open spec fn spec_name_key(name: Seq<char>) -> (nat, Seq<char>) {
    (
        name.len(),
        Seq::new(
            11,
            |i: int|
                if i < name.len() {
                    name[i]
                } else {
                    ' '
                },
        ),
    )
}

/// The mnemonic of an instruction names that instruction and no other.
pub proof fn lemma_mnemonic_round_trip(code: ByteCodes)
    ensures
        ByteCodes::spec_from_string(code.spec_mnemonic()) == Some(code),
{
    reveal_strlit("addi1");
    assert(spec_name_key("addi1"@).1 =~= seq!['a', 'd', 'd', 'i', '1', ' ', ' ', ' ', ' ', ' ', ' ']);
    reveal_strlit("addi2");
    assert(spec_name_key("addi2"@).1 =~= seq!['a', 'd', 'd', 'i', '2', ' ', ' ', ' ', ' ', ' ', ' ']);
    reveal_strlit("addi4");
    assert(spec_name_key("addi4"@).1 =~= seq!['a', 'd', 'd', 'i', '4', ' ', ' ', ' ', ' ', ' ', ' ']);
    reveal_strlit("addi8");
    assert(spec_name_key("addi8"@).1 =~= seq!['a', 'd', 'd', 'i', '8', ' ', ' ', ' ', ' ', ' ', ' ']);
    reveal_strlit("subi1");
    assert(spec_name_key("subi1"@).1 =~= seq!['s', 'u', 'b', 'i', '1', ' ', ' ', ' ', ' ', ' ', ' ']);
    reveal_strlit("subi2");
    assert(spec_name_key("subi2"@).1 =~= seq!['s', 'u', 'b', 'i', '2', ' ', ' ', ' ', ' ', ' ', ' ']);
    reveal_strlit("subi4");
    assert(spec_name_key("subi4"@).1 =~= seq!['s', 'u', 'b', 'i', '4', ' ', ' ', ' ', ' ', ' ', ' ']);
    reveal_strlit("subi8");
    assert(spec_name_key("subi8"@).1 =~= seq!['s', 'u', 'b', 'i', '8', ' ', ' ', ' ', ' ', ' ', ' ']);
    reveal_strlit("muli1");
    assert(spec_name_key("muli1"@).1 =~= seq!['m', 'u', 'l', 'i', '1', ' ', ' ', ' ', ' ', ' ', ' ']);
    reveal_strlit("muli2");
    assert(spec_name_key("muli2"@).1 =~= seq!['m', 'u', 'l', 'i', '2', ' ', ' ', ' ', ' ', ' ', ' ']);
    reveal_strlit("muli4");
    assert(spec_name_key("muli4"@).1 =~= seq!['m', 'u', 'l', 'i', '4', ' ', ' ', ' ', ' ', ' ', ' ']);
    reveal_strlit("muli8");
    assert(spec_name_key("muli8"@).1 =~= seq!['m', 'u', 'l', 'i', '8', ' ', ' ', ' ', ' ', ' ', ' ']);
    reveal_strlit("divi1");
    assert(spec_name_key("divi1"@).1 =~= seq!['d', 'i', 'v', 'i', '1', ' ', ' ', ' ', ' ', ' ', ' ']);
    reveal_strlit("divi2");
    assert(spec_name_key("divi2"@).1 =~= seq!['d', 'i', 'v', 'i', '2', ' ', ' ', ' ', ' ', ' ', ' ']);
    reveal_strlit("divi4");
    assert(spec_name_key("divi4"@).1 =~= seq!['d', 'i', 'v', 'i', '4', ' ', ' ', ' ', ' ', ' ', ' ']);
    reveal_strlit("divi8");
    assert(spec_name_key("divi8"@).1 =~= seq!['d', 'i', 'v', 'i', '8', ' ', ' ', ' ', ' ', ' ', ' ']);
    reveal_strlit("modi1");
    assert(spec_name_key("modi1"@).1 =~= seq!['m', 'o', 'd', 'i', '1', ' ', ' ', ' ', ' ', ' ', ' ']);
    reveal_strlit("modi2");
    assert(spec_name_key("modi2"@).1 =~= seq!['m', 'o', 'd', 'i', '2', ' ', ' ', ' ', ' ', ' ', ' ']);
    reveal_strlit("modi4");
    assert(spec_name_key("modi4"@).1 =~= seq!['m', 'o', 'd', 'i', '4', ' ', ' ', ' ', ' ', ' ', ' ']);
    reveal_strlit("modi8");
    assert(spec_name_key("modi8"@).1 =~= seq!['m', 'o', 'd', 'i', '8', ' ', ' ', ' ', ' ', ' ', ' ']);
    reveal_strlit("addf4");
    assert(spec_name_key("addf4"@).1 =~= seq!['a', 'd', 'd', 'f', '4', ' ', ' ', ' ', ' ', ' ', ' ']);
    reveal_strlit("addf8");
    assert(spec_name_key("addf8"@).1 =~= seq!['a', 'd', 'd', 'f', '8', ' ', ' ', ' ', ' ', ' ', ' ']);
    reveal_strlit("subf4");
    assert(spec_name_key("subf4"@).1 =~= seq!['s', 'u', 'b', 'f', '4', ' ', ' ', ' ', ' ', ' ', ' ']);
    reveal_strlit("subf8");
    assert(spec_name_key("subf8"@).1 =~= seq!['s', 'u', 'b', 'f', '8', ' ', ' ', ' ', ' ', ' ', ' ']);
    reveal_strlit("mulf4");
    assert(spec_name_key("mulf4"@).1 =~= seq!['m', 'u', 'l', 'f', '4', ' ', ' ', ' ', ' ', ' ', ' ']);
    reveal_strlit("mulf8");
    assert(spec_name_key("mulf8"@).1 =~= seq!['m', 'u', 'l', 'f', '8', ' ', ' ', ' ', ' ', ' ', ' ']);
    reveal_strlit("divf4");
    assert(spec_name_key("divf4"@).1 =~= seq!['d', 'i', 'v', 'f', '4', ' ', ' ', ' ', ' ', ' ', ' ']);
    reveal_strlit("divf8");
    assert(spec_name_key("divf8"@).1 =~= seq!['d', 'i', 'v', 'f', '8', ' ', ' ', ' ', ' ', ' ', ' ']);
    reveal_strlit("modf4");
    assert(spec_name_key("modf4"@).1 =~= seq!['m', 'o', 'd', 'f', '4', ' ', ' ', ' ', ' ', ' ', ' ']);
    reveal_strlit("modf8");
    assert(spec_name_key("modf8"@).1 =~= seq!['m', 'o', 'd', 'f', '8', ' ', ' ', ' ', ' ', ' ', ' ']);
    reveal_strlit("loadstatic1");
    assert(spec_name_key("loadstatic1"@).1 =~= seq!['l', 'o', 'a', 'd', 's', 't', 'a', 't', 'i', 'c', '1']);
    reveal_strlit("loadstatic2");
    assert(spec_name_key("loadstatic2"@).1 =~= seq!['l', 'o', 'a', 'd', 's', 't', 'a', 't', 'i', 'c', '2']);
    reveal_strlit("loadstatic4");
    assert(spec_name_key("loadstatic4"@).1 =~= seq!['l', 'o', 'a', 'd', 's', 't', 'a', 't', 'i', 'c', '4']);
    reveal_strlit("loadstatic8");
    assert(spec_name_key("loadstatic8"@).1 =~= seq!['l', 'o', 'a', 'd', 's', 't', 'a', 't', 'i', 'c', '8']);
    reveal_strlit("loadstaticn");
    assert(spec_name_key("loadstaticn"@).1 =~= seq!['l', 'o', 'a', 'd', 's', 't', 'a', 't', 'i', 'c', 'n']);
    reveal_strlit("loadconst1");
    assert(spec_name_key("loadconst1"@).1 =~= seq!['l', 'o', 'a', 'd', 'c', 'o', 'n', 's', 't', '1', ' ']);
    reveal_strlit("loadconst2");
    assert(spec_name_key("loadconst2"@).1 =~= seq!['l', 'o', 'a', 'd', 'c', 'o', 'n', 's', 't', '2', ' ']);
    reveal_strlit("loadconst4");
    assert(spec_name_key("loadconst4"@).1 =~= seq!['l', 'o', 'a', 'd', 'c', 'o', 'n', 's', 't', '4', ' ']);
    reveal_strlit("loadconst8");
    assert(spec_name_key("loadconst8"@).1 =~= seq!['l', 'o', 'a', 'd', 'c', 'o', 'n', 's', 't', '8', ' ']);
    reveal_strlit("loadconstn");
    assert(spec_name_key("loadconstn"@).1 =~= seq!['l', 'o', 'a', 'd', 'c', 'o', 'n', 's', 't', 'n', ' ']);
    reveal_strlit("load1");
    assert(spec_name_key("load1"@).1 =~= seq!['l', 'o', 'a', 'd', '1', ' ', ' ', ' ', ' ', ' ', ' ']);
    reveal_strlit("load2");
    assert(spec_name_key("load2"@).1 =~= seq!['l', 'o', 'a', 'd', '2', ' ', ' ', ' ', ' ', ' ', ' ']);
    reveal_strlit("load4");
    assert(spec_name_key("load4"@).1 =~= seq!['l', 'o', 'a', 'd', '4', ' ', ' ', ' ', ' ', ' ', ' ']);
    reveal_strlit("load8");
    assert(spec_name_key("load8"@).1 =~= seq!['l', 'o', 'a', 'd', '8', ' ', ' ', ' ', ' ', ' ', ' ']);
    reveal_strlit("loadn");
    assert(spec_name_key("loadn"@).1 =~= seq!['l', 'o', 'a', 'd', 'n', ' ', ' ', ' ', ' ', ' ', ' ']);
    reveal_strlit("vconsttr");
    assert(spec_name_key("vconsttr"@).1 =~= seq!['v', 'c', 'o', 'n', 's', 't', 't', 'r', ' ', ' ', ' ']);
    reveal_strlit("vtr");
    assert(spec_name_key("vtr"@).1 =~= seq!['v', 't', 'r', ' ', ' ', ' ', ' ', ' ', ' ', ' ', ' ']);
    reveal_strlit("store1");
    assert(spec_name_key("store1"@).1 =~= seq!['s', 't', 'o', 'r', 'e', '1', ' ', ' ', ' ', ' ', ' ']);
    reveal_strlit("store2");
    assert(spec_name_key("store2"@).1 =~= seq!['s', 't', 'o', 'r', 'e', '2', ' ', ' ', ' ', ' ', ' ']);
    reveal_strlit("store4");
    assert(spec_name_key("store4"@).1 =~= seq!['s', 't', 'o', 'r', 'e', '4', ' ', ' ', ' ', ' ', ' ']);
    reveal_strlit("store8");
    assert(spec_name_key("store8"@).1 =~= seq!['s', 't', 'o', 'r', 'e', '8', ' ', ' ', ' ', ' ', ' ']);
    reveal_strlit("storen");
    assert(spec_name_key("storen"@).1 =~= seq!['s', 't', 'o', 'r', 'e', 'n', ' ', ' ', ' ', ' ', ' ']);
    reveal_strlit("memmove1");
    assert(spec_name_key("memmove1"@).1 =~= seq!['m', 'e', 'm', 'm', 'o', 'v', 'e', '1', ' ', ' ', ' ']);
    reveal_strlit("memmove2");
    assert(spec_name_key("memmove2"@).1 =~= seq!['m', 'e', 'm', 'm', 'o', 'v', 'e', '2', ' ', ' ', ' ']);
    reveal_strlit("memmove4");
    assert(spec_name_key("memmove4"@).1 =~= seq!['m', 'e', 'm', 'm', 'o', 'v', 'e', '4', ' ', ' ', ' ']);
    reveal_strlit("memmove8");
    assert(spec_name_key("memmove8"@).1 =~= seq!['m', 'e', 'm', 'm', 'o', 'v', 'e', '8', ' ', ' ', ' ']);
    reveal_strlit("memmoven");
    assert(spec_name_key("memmoven"@).1 =~= seq!['m', 'e', 'm', 'm', 'o', 'v', 'e', 'n', ' ', ' ', ' ']);
    reveal_strlit("dup1");
    assert(spec_name_key("dup1"@).1 =~= seq!['d', 'u', 'p', '1', ' ', ' ', ' ', ' ', ' ', ' ', ' ']);
    reveal_strlit("dup2");
    assert(spec_name_key("dup2"@).1 =~= seq!['d', 'u', 'p', '2', ' ', ' ', ' ', ' ', ' ', ' ', ' ']);
    reveal_strlit("dup4");
    assert(spec_name_key("dup4"@).1 =~= seq!['d', 'u', 'p', '4', ' ', ' ', ' ', ' ', ' ', ' ', ' ']);
    reveal_strlit("dup8");
    assert(spec_name_key("dup8"@).1 =~= seq!['d', 'u', 'p', '8', ' ', ' ', ' ', ' ', ' ', ' ', ' ']);
    reveal_strlit("dupn");
    assert(spec_name_key("dupn"@).1 =~= seq!['d', 'u', 'p', 'n', ' ', ' ', ' ', ' ', ' ', ' ', ' ']);
    reveal_strlit("malloc");
    assert(spec_name_key("malloc"@).1 =~= seq!['m', 'a', 'l', 'l', 'o', 'c', ' ', ' ', ' ', ' ', ' ']);
    reveal_strlit("realloc");
    assert(spec_name_key("realloc"@).1 =~= seq!['r', 'e', 'a', 'l', 'l', 'o', 'c', ' ', ' ', ' ', ' ']);
    reveal_strlit("free");
    assert(spec_name_key("free"@).1 =~= seq!['f', 'r', 'e', 'e', ' ', ' ', ' ', ' ', ' ', ' ', ' ']);
    reveal_strlit("intr");
    assert(spec_name_key("intr"@).1 =~= seq!['i', 'n', 't', 'r', ' ', ' ', ' ', ' ', ' ', ' ', ' ']);
    reveal_strlit("intrconst");
    assert(spec_name_key("intrconst"@).1 =~= seq!['i', 'n', 't', 'r', 'c', 'o', 'n', 's', 't', ' ', ' ']);
    reveal_strlit("readerr");
    assert(spec_name_key("readerr"@).1 =~= seq!['r', 'e', 'a', 'd', 'e', 'r', 'r', ' ', ' ', ' ', ' ']);
    reveal_strlit("seterrconst");
    assert(spec_name_key("seterrconst"@).1 =~= seq!['s', 'e', 't', 'e', 'r', 'r', 'c', 'o', 'n', 's', 't']);
    reveal_strlit("seterr");
    assert(spec_name_key("seterr"@).1 =~= seq!['s', 'e', 't', 'e', 'r', 'r', ' ', ' ', ' ', ' ', ' ']);
    reveal_strlit("exit");
    assert(spec_name_key("exit"@).1 =~= seq!['e', 'x', 'i', 't', ' ', ' ', ' ', ' ', ' ', ' ', ' ']);
    reveal_strlit("jmpconst");
    assert(spec_name_key("jmpconst"@).1 =~= seq!['j', 'm', 'p', 'c', 'o', 'n', 's', 't', ' ', ' ', ' ']);
    reveal_strlit("jmp");
    assert(spec_name_key("jmp"@).1 =~= seq!['j', 'm', 'p', ' ', ' ', ' ', ' ', ' ', ' ', ' ', ' ']);
    reveal_strlit("jnzconst1");
    assert(spec_name_key("jnzconst1"@).1 =~= seq!['j', 'n', 'z', 'c', 'o', 'n', 's', 't', '1', ' ', ' ']);
    reveal_strlit("jnzconst2");
    assert(spec_name_key("jnzconst2"@).1 =~= seq!['j', 'n', 'z', 'c', 'o', 'n', 's', 't', '2', ' ', ' ']);
    reveal_strlit("jnzconst4");
    assert(spec_name_key("jnzconst4"@).1 =~= seq!['j', 'n', 'z', 'c', 'o', 'n', 's', 't', '4', ' ', ' ']);
    reveal_strlit("jnzconst8");
    assert(spec_name_key("jnzconst8"@).1 =~= seq!['j', 'n', 'z', 'c', 'o', 'n', 's', 't', '8', ' ', ' ']);
    reveal_strlit("jnz1");
    assert(spec_name_key("jnz1"@).1 =~= seq!['j', 'n', 'z', '1', ' ', ' ', ' ', ' ', ' ', ' ', ' ']);
    reveal_strlit("jnz2");
    assert(spec_name_key("jnz2"@).1 =~= seq!['j', 'n', 'z', '2', ' ', ' ', ' ', ' ', ' ', ' ', ' ']);
    reveal_strlit("jnz4");
    assert(spec_name_key("jnz4"@).1 =~= seq!['j', 'n', 'z', '4', ' ', ' ', ' ', ' ', ' ', ' ', ' ']);
    reveal_strlit("jnz8");
    assert(spec_name_key("jnz8"@).1 =~= seq!['j', 'n', 'z', '8', ' ', ' ', ' ', ' ', ' ', ' ', ' ']);
    reveal_strlit("jzconst1");
    assert(spec_name_key("jzconst1"@).1 =~= seq!['j', 'z', 'c', 'o', 'n', 's', 't', '1', ' ', ' ', ' ']);
    reveal_strlit("jzconst2");
    assert(spec_name_key("jzconst2"@).1 =~= seq!['j', 'z', 'c', 'o', 'n', 's', 't', '2', ' ', ' ', ' ']);
    reveal_strlit("jzconst4");
    assert(spec_name_key("jzconst4"@).1 =~= seq!['j', 'z', 'c', 'o', 'n', 's', 't', '4', ' ', ' ', ' ']);
    reveal_strlit("jzconst8");
    assert(spec_name_key("jzconst8"@).1 =~= seq!['j', 'z', 'c', 'o', 'n', 's', 't', '8', ' ', ' ', ' ']);
    reveal_strlit("jz1");
    assert(spec_name_key("jz1"@).1 =~= seq!['j', 'z', '1', ' ', ' ', ' ', ' ', ' ', ' ', ' ', ' ']);
    reveal_strlit("jz2");
    assert(spec_name_key("jz2"@).1 =~= seq!['j', 'z', '2', ' ', ' ', ' ', ' ', ' ', ' ', ' ', ' ']);
    reveal_strlit("jz4");
    assert(spec_name_key("jz4"@).1 =~= seq!['j', 'z', '4', ' ', ' ', ' ', ' ', ' ', ' ', ' ', ' ']);
    reveal_strlit("jz8");
    assert(spec_name_key("jz8"@).1 =~= seq!['j', 'z', '8', ' ', ' ', ' ', ' ', ' ', ' ', ' ', ' ']);
    reveal_strlit("jerrconst");
    assert(spec_name_key("jerrconst"@).1 =~= seq!['j', 'e', 'r', 'r', 'c', 'o', 'n', 's', 't', ' ', ' ']);
    reveal_strlit("jerr");
    assert(spec_name_key("jerr"@).1 =~= seq!['j', 'e', 'r', 'r', ' ', ' ', ' ', ' ', ' ', ' ', ' ']);
    reveal_strlit("jnoerrconst");
    assert(spec_name_key("jnoerrconst"@).1 =~= seq!['j', 'n', 'o', 'e', 'r', 'r', 'c', 'o', 'n', 's', 't']);
    reveal_strlit("jnoerr");
    assert(spec_name_key("jnoerr"@).1 =~= seq!['j', 'n', 'o', 'e', 'r', 'r', ' ', ' ', ' ', ' ', ' ']);
    reveal_strlit("call");
    assert(spec_name_key("call"@).1 =~= seq!['c', 'a', 'l', 'l', ' ', ' ', ' ', ' ', ' ', ' ', ' ']);
    reveal_strlit("nop");
    assert(spec_name_key("nop"@).1 =~= seq!['n', 'o', 'p', ' ', ' ', ' ', ' ', ' ', ' ', ' ', ' ']);
}

/// Decoding an encoded instruction gives it back.
pub proof fn lemma_opcode_round_trip(code: ByteCodes)
    ensures
        ByteCodes::spec_from_byte(code.spec_to_byte()) == Some(code),
{
}

/// The host services that a program can ask for. Each is encoded as one byte,
/// in the order given here.
#[derive(Clone, Copy, Debug, PartialEq, Eq, Structural)]
pub enum Interrupts {
    Print1,
    Print2,
    Print4,
    Print8,
    PrintBytes,
    PrintChar,
    PrintString,
    PrintStaticBytes,
    PrintStaticString,
    ReadBytes,
    ReadAll,
}

impl Interrupts {
    /// The byte that encodes a code.
    pub open spec fn spec_to_byte(self) -> u8 {
        match self {
            Interrupts::Print1 => 0,
            Interrupts::Print2 => 1,
            Interrupts::Print4 => 2,
            Interrupts::Print8 => 3,
            Interrupts::PrintBytes => 4,
            Interrupts::PrintChar => 5,
            Interrupts::PrintString => 6,
            Interrupts::PrintStaticBytes => 7,
            Interrupts::PrintStaticString => 8,
            Interrupts::ReadBytes => 9,
            Interrupts::ReadAll => 10,
        }
    }

    /// The byte that encodes this interrupt.
    pub fn to_byte(self) -> (byte: u8)
        ensures
            byte == self.spec_to_byte(),
    {
        match self {
            Interrupts::Print1 => 0,
            Interrupts::Print2 => 1,
            Interrupts::Print4 => 2,
            Interrupts::Print8 => 3,
            Interrupts::PrintBytes => 4,
            Interrupts::PrintChar => 5,
            Interrupts::PrintString => 6,
            Interrupts::PrintStaticBytes => 7,
            Interrupts::PrintStaticString => 8,
            Interrupts::ReadBytes => 9,
            Interrupts::ReadAll => 10,
        }
    }

    /// The code that a byte encodes.
    pub open spec fn spec_from_byte(byte: u8) -> Option<Interrupts> {
        match byte {
            0u8 => Some(Interrupts::Print1),
            1u8 => Some(Interrupts::Print2),
            2u8 => Some(Interrupts::Print4),
            3u8 => Some(Interrupts::Print8),
            4u8 => Some(Interrupts::PrintBytes),
            5u8 => Some(Interrupts::PrintChar),
            6u8 => Some(Interrupts::PrintString),
            7u8 => Some(Interrupts::PrintStaticBytes),
            8u8 => Some(Interrupts::PrintStaticString),
            9u8 => Some(Interrupts::ReadBytes),
            10u8 => Some(Interrupts::ReadAll),
            _ => None,
        }
    }

    /// The interrupt that a byte encodes, if it encodes one.
    pub fn from_byte(byte: u8) -> (code: Option<Interrupts>)
        ensures
            code == Self::spec_from_byte(byte),
            code is Some ==> code->0.spec_to_byte() == byte,
    {
        match byte {
            0u8 => Some(Interrupts::Print1),
            1u8 => Some(Interrupts::Print2),
            2u8 => Some(Interrupts::Print4),
            3u8 => Some(Interrupts::Print8),
            4u8 => Some(Interrupts::PrintBytes),
            5u8 => Some(Interrupts::PrintChar),
            6u8 => Some(Interrupts::PrintString),
            7u8 => Some(Interrupts::PrintStaticBytes),
            8u8 => Some(Interrupts::PrintStaticString),
            9u8 => Some(Interrupts::ReadBytes),
            10u8 => Some(Interrupts::ReadAll),
            _ => None,
        }
    }
}

/// The value of the machine's error register: four named codes, and whatever
/// else a program chooses to store there.
#[derive(Clone, Copy, Debug, PartialEq, Eq, Structural)]
pub enum ErrorCodes {
    UnexpectedEOF,
    GenericError,
    NoError,
    EOF,
    User(i32),
}

impl ErrorCodes {
    /// A `User` code never stands for a number that has a name.
    pub open spec fn wf(self) -> bool {
        match self {
            ErrorCodes::User(code) => code < -2 || code > 1,
            _ => true,
        }
    }

    /// The number that an error code is stored as.
    pub open spec fn spec_code(self) -> i32 {
        match self {
            ErrorCodes::UnexpectedEOF => -2i32,
            ErrorCodes::GenericError => -1i32,
            ErrorCodes::NoError => 0i32,
            ErrorCodes::EOF => 1i32,
            ErrorCodes::User(code) => code,
        }
    }

    /// The number that this code is stored as.
    pub fn code(self) -> (code: i32)
        ensures
            code == self.spec_code(),
    {
        match self {
            ErrorCodes::UnexpectedEOF => -2,
            ErrorCodes::GenericError => -1,
            ErrorCodes::NoError => 0,
            ErrorCodes::EOF => 1,
            ErrorCodes::User(code) => code,
        }
    }

    /// The error code that a number stands for.
    pub open spec fn spec_from_code(code: i32) -> ErrorCodes {
        if code == -2 {
            ErrorCodes::UnexpectedEOF
        } else if code == -1 {
            ErrorCodes::GenericError
        } else if code == 0 {
            ErrorCodes::NoError
        } else if code == 1 {
            ErrorCodes::EOF
        } else {
            ErrorCodes::User(code)
        }
    }

    /// The error code that a number stands for.
    pub fn from_code(code: i32) -> (error: ErrorCodes)
        ensures
            error == Self::spec_from_code(code),
            error.wf(),
            error.spec_code() == code,
    {
        if code == -2 {
            ErrorCodes::UnexpectedEOF
        } else if code == -1 {
            ErrorCodes::GenericError
        } else if code == 0 {
            ErrorCodes::NoError
        } else if code == 1 {
            ErrorCodes::EOF
        } else {
            ErrorCodes::User(code)
        }
    }
}

/// A well-formed error code is the one that its own number stands for.
pub proof fn lemma_error_code_round_trip(error: ErrorCodes)
    requires
        error.wf(),
    ensures
        ErrorCodes::spec_from_code(error.spec_code()) == error,
{
}

} // verus!
