//! The values that the parser hands to the code generator.

use vstd::prelude::*;
use crate::encoding::{encode_le, le_bytes, radix_pow, lemma_radix_pow_values};
use crate::isa::{ByteCodes, Width};
use crate::symbol_table::{StaticID, SymbolID, SymbolTable, Symbol};
use crate::text::str_eq;
use crate::tokenizer::SourceToken;

verus! {

/// The section that execution starts in.
pub const ENTRY_SECTION_NAME: &'static str = "text";

/// A number as the source wrote it. A float is held as the bit pattern of
/// its 64-bit binary representation.
#[derive(Clone, Copy, Debug, PartialEq, Eq, Structural)]
pub enum Number {
    Uint(u64),
    Int(i64),
    Float(u64),
}

/// The largest bit pattern of a 64-bit float, sign apart, whose value is in
/// the range of the 32-bit floats.
pub const FLOAT4_LIMIT: u64 = 0x47EF_FFFF_E000_0000;

/// The bits of a 64-bit pattern without its sign bit.
pub open spec fn without_sign(bits: u64) -> u64 {
    if bits >= 0x8000_0000_0000_0000 {
        (bits - 0x8000_0000_0000_0000) as u64
    } else {
        bits
    }
}

impl Number {
    /// The fewest bytes, of 1, 2, 4 and 8, that hold the number: for an
    /// unsigned integer as it is, for a signed one in two's complement, for
    /// a float as a 32-bit float where its value is in their range.
    pub open spec fn spec_minimum_size(&self) -> u8 {
        match self {
            Number::Uint(value) => if *value <= 0xFF {
                1
            } else if *value <= 0xFFFF {
                2
            } else if *value <= 0xFFFF_FFFF {
                4
            } else {
                8
            },
            Number::Int(value) => if -0x80 <= *value <= 0x7F {
                1
            } else if -0x8000 <= *value <= 0x7FFF {
                2
            } else if -0x8000_0000 <= *value <= 0x7FFF_FFFF {
                4
            } else {
                8
            },
            Number::Float(bits) => if without_sign(*bits) <= FLOAT4_LIMIT {
                4
            } else {
                8
            },
        }
    }

    /// The fewest bytes, of 1, 2, 4 and 8, that hold the number.
    pub fn minimum_size(&self) -> (size: u8)
        ensures
            size == self.spec_minimum_size(),
            size == 1 || size == 2 || size == 4 || size == 8,
    {
        match self {
            Number::Uint(value) => {
                if *value <= 0xFF {
                    1
                } else if *value <= 0xFFFF {
                    2
                } else if *value <= 0xFFFF_FFFF {
                    4
                } else {
                    8
                }
            },
            Number::Int(value) => {
                if *value >= -0x80 && *value <= 0x7F {
                    1
                } else if *value >= -0x8000 && *value <= 0x7FFF {
                    2
                } else if *value >= -0x8000_0000 && *value <= 0x7FFF_FFFF {
                    4
                } else {
                    8
                }
            },
            Number::Float(bits) => {
                let magnitude = if *bits >= 0x8000_0000_0000_0000 {
                    *bits - 0x8000_0000_0000_0000
                } else {
                    *bits
                };
                if magnitude <= FLOAT4_LIMIT {
                    4
                } else {
                    8
                }
            },
        }
    }

    /// The unsigned 64-bit number with the same eight bytes.
    pub open spec fn spec_bits(&self) -> u64 {
        match self {
            Number::Uint(value) => *value,
            Number::Int(value) => if *value < 0 {
                (*value + 0x1_0000_0000_0000_0000) as u64
            } else {
                *value as u64
            },
            Number::Float(bits) => *bits,
        }
    }

    /// The unsigned 64-bit number with the same eight bytes.
    pub fn bits(&self) -> (bits: u64)
        ensures
            bits == self.spec_bits(),
    {
        match self {
            Number::Uint(value) => *value,
            Number::Int(value) => {
                if *value < 0 {
                    ((*value as i128) + 0x1_0000_0000_0000_0000) as u64
                } else {
                    *value as u64
                }
            },
            Number::Float(bits) => *bits,
        }
    }

    /// The eight bytes of the number, least significant first.
    pub fn as_le_bytes(&self) -> (bytes: Vec<u8>)
        ensures
            bytes@ == le_bytes(self.spec_bits() as nat, 8),
    {
        encode_le(self.bits(), 8)
    }

    /// The number, if it was written as an unsigned integer.
    pub open spec fn spec_as_uint(&self) -> Option<u64> {
        match self {
            Number::Uint(value) => Some(*value),
            _ => None,
        }
    }

    /// The number, if it was written as an unsigned integer.
    pub fn as_uint(&self) -> (value: Option<u64>)
        ensures
            value == self.spec_as_uint(),
    {
        match self {
            Number::Uint(value) => Some(*value),
            _ => None,
        }
    }
}

/// An unsigned integer is below 256 to the power of its minimum size.
pub proof fn lemma_minimum_size_bound(value: u64)
    ensures
        (value as nat) < radix_pow(Number::Uint(value).spec_minimum_size() as nat),
{
    lemma_radix_pow_values();
}

/// An operand that stands for a number.
#[derive(Clone, Copy, Debug, PartialEq, Eq, Structural)]
pub enum NumberLike {
    /// A constant with its minimum size.
    Number(Number, u8),
    Symbol(SymbolID),
    CurrentPosition,
}

impl NumberLike {
    /// A constant operand with its minimum size.
    pub open spec fn spec_from_number(n: &Number) -> NumberLike {
        NumberLike::Number(*n, n.spec_minimum_size())
    }

    /// A constant operand with its minimum size.
    pub fn from_number(n: &Number) -> (operand: Self)
        ensures
            operand == Self::spec_from_number(n),
    {
        NumberLike::Number(*n, n.minimum_size())
    }
}

/// An operand that stands for an address.
#[derive(Clone, Copy, Debug, PartialEq, Eq, Structural)]
pub enum AddressLike {
    Number(Number),
    Symbol(SymbolID),
    CurrentPosition,
}

/// An address operand and the token that it comes from.
pub type AddressOperand<'a> = (AddressLike, SourceToken<'a>);

/// A number operand and the token that it comes from.
pub type NumberOperand<'a> = (NumberLike, SourceToken<'a>);

/// Representation of assembly instructions and their operands.
#[derive(Debug)]
pub enum AsmInstruction<'a> {
    /// A machine instruction without operand.
    Plain(ByteCodes),
    /// A machine instruction followed by an address.
    Address { code: ByteCodes, addr: AddressOperand<'a> },
    /// A machine instruction followed by a number of `width` bytes.
    Number { code: ByteCodes, width: Width, value: NumberOperand<'a> },
    LoadStaticBytes { addr: AddressOperand<'a>, count: NumberOperand<'a> },
    LoadConstBytes { bytes: Vec<NumberOperand<'a>> },
    DefineNumber { size: NumberOperand<'a>, value: NumberOperand<'a> },
    DefineBytes { bytes: Vec<NumberOperand<'a>> },
    DefineString { static_id: StaticID },
    Return,
}

/// Pseudo-instructions are assembly-only instructions that are evaluated
/// while assembling and have effects on the generated byte code.
#[derive(Clone, Copy, Debug, PartialEq, Eq, Structural)]
pub enum PseudoInstructions {
    DefineNumber,
    DefineBytes,
    DefineString,
    IncludeAsm,
    Return,
}

impl PseudoInstructions {
    /// The pseudo-instruction with the given mnemonic.
    pub open spec fn spec_from_string(string: Seq<char>) -> Option<PseudoInstructions> {
        if string == "dn"@ {
            Some(PseudoInstructions::DefineNumber)
        } else if string == "db"@ {
            Some(PseudoInstructions::DefineBytes)
        } else if string == "ds"@ {
            Some(PseudoInstructions::DefineString)
        } else if string == "include"@ {
            Some(PseudoInstructions::IncludeAsm)
        } else if string == "ret"@ {
            Some(PseudoInstructions::Return)
        } else {
            None
        }
    }

    /// The pseudo-instruction with the given mnemonic, if there is one.
    pub fn from_string(string: &str) -> (code: Option<Self>)
        ensures
            code == Self::spec_from_string(string@),
    {
        if str_eq(string, "dn") {
            Some(PseudoInstructions::DefineNumber)
        } else if str_eq(string, "db") {
            Some(PseudoInstructions::DefineBytes)
        } else if str_eq(string, "ds") {
            Some(PseudoInstructions::DefineString)
        } else if str_eq(string, "include") {
            Some(PseudoInstructions::IncludeAsm)
        } else if str_eq(string, "ret") {
            Some(PseudoInstructions::Return)
        } else {
            None
        }
    }
}

/// What a line of source turns into.
#[derive(Debug)]
pub struct AsmNode<'a> {
    pub value: AsmNodeValue<'a>,
    pub source: SourceToken<'a>,
}

/// An operand as the parser first sees it.
#[derive(Clone, Copy, Debug, PartialEq, Eq)]
pub struct AsmOperand<'a> {
    pub value: AsmValue,
    pub source: SourceToken<'a>,
}

/// What a node is: an instruction, a label or the start of a section.
#[derive(Debug)]
pub enum AsmNodeValue<'a> {
    Instruction(AsmInstruction<'a>),
    Label(&'a str),
    Section(&'a str),
}

/// The meaning of an operand or of a symbol.
#[derive(Clone, Copy, Debug, PartialEq, Eq, Structural)]
pub enum AsmValue {
    Const(Number),
    CurrentPosition,
    StringLiteral(StaticID),
    Symbol(SymbolID),
    MacroParameter(SymbolID),
}

impl AsmValue {
    /// The unsigned number that the value is, if it is one itself.
    pub open spec fn spec_as_uint_strict(&self) -> Option<u64> {
        match self {
            AsmValue::Const(n) => n.spec_as_uint(),
            _ => None,
        }
    }

    fn as_uint_strict(&self) -> (value: Option<u64>)
        ensures
            value == self.spec_as_uint_strict(),
    {
        match self {
            AsmValue::Const(n) => n.as_uint(),
            _ => None,
        }
    }

    /// The unsigned number that the value stands for: its own, or that of
    /// the symbol it names, where that symbol's value is an unsigned constant.
    pub open spec fn spec_as_uint(&self, symbols: Seq<Symbol<'_>>) -> Option<u64> {
        match self {
            AsmValue::Const(n) => n.spec_as_uint(),
            AsmValue::Symbol(id) => if id.0 < symbols.len() {
                match symbols[id.0 as int].value {
                    Some(value) => value.spec_as_uint_strict(),
                    None => None,
                }
            } else {
                None
            },
            _ => None,
        }
    }

    /// The unsigned number that the value stands for: its own, or that of
    /// the symbol it names, where that symbol's value is an unsigned constant.
    pub fn as_uint(&self, symbol_table: &SymbolTable<'_>) -> (value: Option<u64>)
        ensures
            value == self.spec_as_uint(symbol_table.symbols()),
    {
        match self {
            AsmValue::Const(n) => n.as_uint(),
            AsmValue::Symbol(id) => match symbol_table.find_symbol(*id) {
                Some(symbol) => match symbol.value {
                    Some(value) => value.as_uint_strict(),
                    None => None,
                },
                None => None,
            },
            _ => None,
        }
    }
}


/// An instruction as contracts see it.
pub enum InstructionView<'a> {
    Plain(ByteCodes),
    Address { code: ByteCodes, addr: AddressOperand<'a> },
    Number { code: ByteCodes, width: Width, value: NumberOperand<'a> },
    LoadStaticBytes { addr: AddressOperand<'a>, count: NumberOperand<'a> },
    LoadConstBytes { bytes: Seq<NumberOperand<'a>> },
    DefineNumber { size: NumberOperand<'a>, value: NumberOperand<'a> },
    DefineBytes { bytes: Seq<NumberOperand<'a>> },
    DefineString { static_id: StaticID },
    Return,
}

impl<'a> View for AsmInstruction<'a> {
    type V = InstructionView<'a>;

    open spec fn view(&self) -> InstructionView<'a> {
        match self {
            AsmInstruction::Plain(code) => InstructionView::Plain(*code),
            AsmInstruction::Address { code, addr } => InstructionView::Address { code: *code, addr: *addr },
            AsmInstruction::Number { code, width, value } => InstructionView::Number {
                code: *code,
                width: *width,
                value: *value,
            },
            AsmInstruction::LoadStaticBytes { addr, count } => InstructionView::LoadStaticBytes {
                addr: *addr,
                count: *count,
            },
            AsmInstruction::LoadConstBytes { bytes } => InstructionView::LoadConstBytes { bytes: bytes@ },
            AsmInstruction::DefineNumber { size, value } => InstructionView::DefineNumber {
                size: *size,
                value: *value,
            },
            AsmInstruction::DefineBytes { bytes } => InstructionView::DefineBytes { bytes: bytes@ },
            AsmInstruction::DefineString { static_id } => InstructionView::DefineString {
                static_id: *static_id,
            },
            AsmInstruction::Return => InstructionView::Return,
        }
    }
}

/// A node's value as contracts see it.
pub enum NodeValueView<'a> {
    Instruction(InstructionView<'a>),
    Label(&'a str),
    Section(&'a str),
}

/// A node as contracts see it.
pub struct NodeView<'a> {
    pub value: NodeValueView<'a>,
    pub source: SourceToken<'a>,
}

impl<'a> View for AsmNode<'a> {
    type V = NodeView<'a>;

    open spec fn view(&self) -> NodeView<'a> {
        NodeView {
            value: match self.value {
                AsmNodeValue::Instruction(instruction) => NodeValueView::Instruction(instruction@),
                AsmNodeValue::Label(name) => NodeValueView::Label(name),
                AsmNodeValue::Section(name) => NodeValueView::Section(name),
            },
            source: self.source,
        }
    }
}

/// The nodes as contracts see them.
pub open spec fn nodes_view<'a>(nodes: Seq<AsmNode<'a>>) -> Seq<NodeView<'a>> {
    Seq::new(nodes.len(), |i: int| nodes[i]@)
}

} // verus!
