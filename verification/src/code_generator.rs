//! From assembly nodes to bytecode: the opcodes and their operands in
//! source order, then the addresses of the labels written where they were
//! used before they were known.

use vstd::prelude::*;
use vstd::string::StringSliceAdditionalSpecFns;
use vstd::utf8::encode_utf8;
use crate::encoding::{encode_le, le_bytes, lemma_le_bytes_len, lemma_radix_pow_values, radix_pow};
use crate::errors::{AsmError, Reason};
use crate::isa::{ByteCodes, VirtualAddress};
use crate::lang::{nodes_view, AddressLike, AsmInstruction, AsmNode, AsmNodeValue, AsmValue, InstructionView, NodeValueView, NodeView, Number, NumberLike, NumberOperand, ENTRY_SECTION_NAME};
use crate::symbol_table::{Symbol, SymbolID, SymbolTable};
use crate::text::str_eq;
use crate::tokenizer::SourceToken;

verus! {

/// A place in the bytecode where the address of `name` belongs, once known.
#[derive(Clone, Copy, Debug)]
pub struct UnresolvedLabel<'a> {
    pub location: VirtualAddress,
    pub name: &'a str,
    pub source: SourceToken<'a>,
}

/// What an operand comes to: a number, or the address of a label that is
/// written later.
#[derive(Clone, Copy, Debug)]
pub enum Resolved<'a> {
    Value(u64),
    Pending(&'a str),
}

/// The generator's state between two nodes.
pub struct Emission<'a> {
    /// The bytecode so far.
    pub bytes: Seq<u8>,
    /// The places that wait for a label's address, in the order of their offsets.
    pub unresolved: Seq<UnresolvedLabel<'a>>,
    /// Each label and section so far with its offset, in the order of the nodes.
    pub labels: Seq<(&'a str, usize)>,
    /// Whether a section has begun.
    pub in_section: bool,
}

/// The offset recorded last for `name`.
pub open spec fn label_address(labels: Seq<(&str, usize)>, name: Seq<char>) -> Option<usize>
    decreases labels.len(),
{
    if labels.len() == 0 {
        None
    } else if labels.last().0@ == name {
        Some(labels.last().1)
    } else {
        label_address(labels.drop_last(), name)
    }
}

/// The value of the symbol `id` where it has a number for a value. A symbol
/// without value, or one that a label or a section defines, is pending.
pub open spec fn spec_resolve_symbol<'a>(
    id: SymbolID,
    symbols: Seq<Symbol<'a>>,
    wrong: Reason,
) -> Result<Resolved<'a>, Reason> {
    if id.0 >= symbols.len() {
        Err(Reason::UndefinedSymbol)
    } else {
        let symbol = symbols[id.0 as int];
        match symbol.value {
            None => Ok(Resolved::Pending(symbol.name)),
            Some(AsmValue::CurrentPosition) => Ok(Resolved::Pending(symbol.name)),
            Some(value) => match value.spec_as_uint(symbols) {
                Some(number) => Ok(Resolved::Value(number)),
                None => Err(wrong),
            },
        }
    }
}

/// What an address operand written at offset `at` comes to.
pub open spec fn spec_resolve_address<'a>(
    operand: AddressLike,
    symbols: Seq<Symbol<'a>>,
    at: int,
    wrong: Reason,
) -> Result<Resolved<'a>, Reason> {
    match operand {
        AddressLike::Number(number) => match number.spec_as_uint() {
            Some(value) => Ok(Resolved::Value(value)),
            None => Err(wrong),
        },
        AddressLike::Symbol(id) => spec_resolve_symbol(id, symbols, wrong),
        AddressLike::CurrentPosition => Ok(Resolved::Value(at as u64)),
    }
}

/// The bytes that `resolved` needs: the minimum size of a value, eight for an address.
pub open spec fn spec_needed(resolved: Resolved<'_>) -> int {
    match resolved {
        Resolved::Value(value) => Number::Uint(value).spec_minimum_size() as int,
        Resolved::Pending(_) => 8,
    }
}

/// What a number operand of `width` bytes written at offset `at` comes to.
pub open spec fn spec_resolve_number<'a>(
    operand: NumberLike,
    symbols: Seq<Symbol<'a>>,
    at: int,
    width: int,
) -> Result<Resolved<'a>, Reason> {
    match operand {
        NumberLike::Number(number, size) => if size > width {
            Err(Reason::ConstantTooLarge { size: width as usize, needed: size as usize })
        } else {
            Ok(Resolved::Value(number.spec_bits()))
        },
        NumberLike::Symbol(id) => match spec_resolve_symbol(id, symbols, Reason::InvalidAddress) {
            Ok(resolved) => if spec_needed(resolved) > width {
                Err(Reason::ConstantTooLarge { size: width as usize, needed: spec_needed(resolved) as usize })
            } else {
                Ok(resolved)
            },
            Err(reason) => Err(reason),
        },
        NumberLike::CurrentPosition => if 8 > width {
            Err(Reason::ConstantTooLarge { size: width as usize, needed: 8 })
        } else {
            Ok(Resolved::Value(at as u64))
        },
    }
}

/// What an operand that stands for one byte comes to.
pub open spec fn spec_resolve_byte<'a>(
    operand: NumberLike,
    symbols: Seq<Symbol<'a>>,
    at: int,
) -> Result<Resolved<'a>, Reason> {
    match operand {
        NumberLike::Number(Number::Float(_), _) => Err(Reason::FloatNotAllowed),
        _ => spec_resolve_number(operand, symbols, at, 1),
    }
}

/// A count is resolved as an address is.
pub open spec fn spec_as_address(operand: NumberLike) -> AddressLike {
    match operand {
        NumberLike::Number(number, _) => AddressLike::Number(number),
        NumberLike::Symbol(id) => AddressLike::Symbol(id),
        NumberLike::CurrentPosition => AddressLike::CurrentPosition,
    }
}

/// The state with `bytes` added to the bytecode.
pub open spec fn spec_append<'a>(e: Emission<'a>, bytes: Seq<u8>) -> Emission<'a> {
    Emission { bytes: e.bytes + bytes, ..e }
}

/// Writes `resolved` in `width` bytes. A pending address is written as
/// zeros and its place recorded.
pub open spec fn spec_put<'a>(
    e: Emission<'a>,
    resolved: Resolved<'a>,
    width: int,
    source: SourceToken<'a>,
) -> Emission<'a> {
    match resolved {
        Resolved::Value(value) => spec_append(e, le_bytes(value as nat, width as nat)),
        Resolved::Pending(name) => Emission {
            bytes: e.bytes + le_bytes(0, width as nat),
            unresolved: e.unresolved.push(
                UnresolvedLabel { location: VirtualAddress(e.bytes.len() as usize), name, source },
            ),
            ..e
        },
    }
}

/// The result of writing an operand, or the error at the operand's token.
pub open spec fn spec_put_result<'a>(
    e: Emission<'a>,
    resolved: Result<Resolved<'a>, Reason>,
    width: int,
    source: SourceToken<'a>,
) -> Result<Emission<'a>, AsmError<'a>> {
    match resolved {
        Ok(resolved) => Ok(spec_put(e, resolved, width, source)),
        Err(reason) => Err(AsmError::spec_at(reason, source)),
    }
}

/// The first `count` operands of `operands`, each written as one byte.
pub open spec fn spec_emit_byte_list<'a>(
    operands: Seq<NumberOperand<'a>>,
    count: nat,
    symbols: Seq<Symbol<'a>>,
    e: Emission<'a>,
) -> Result<Emission<'a>, AsmError<'a>>
    decreases count,
{
    if count == 0 {
        Ok(e)
    } else {
        match spec_emit_byte_list(operands, (count - 1) as nat, symbols, e) {
            Err(error) => Err(error),
            Ok(before) => {
                let operand = operands[count - 1];
                spec_put_result(
                    before,
                    spec_resolve_byte(operand.0, symbols, before.bytes.len() as int),
                    1,
                    operand.1,
                )
            },
        }
    }
}

/// The number of bytes that `dn` is to write.
pub open spec fn spec_define_size(size: NumberLike) -> Result<usize, Reason> {
    match size {
        NumberLike::Number(Number::Uint(count), _) => if count > usize::MAX {
            Err(Reason::InvalidSize)
        } else {
            Ok(count as usize)
        },
        NumberLike::Number(_, _) => Err(Reason::InvalidSize),
        NumberLike::Symbol(_) => Err(Reason::SymbolNotAllowed),
        NumberLike::CurrentPosition => Err(Reason::InvalidSize),
    }
}

/// The value that `dn` is to write, and the bytes that it needs.
pub open spec fn spec_define_value(value: NumberLike, at: int) -> Result<(u64, u8), Reason> {
    match value {
        NumberLike::Number(number, size) => Ok((number.spec_bits(), size)),
        NumberLike::CurrentPosition => Ok((at as u64, 8)),
        NumberLike::Symbol(_) => Err(Reason::SymbolNotAllowed),
    }
}

/// `dn size value`: the low bytes of the value that it needs, then zeros
/// up to `size` bytes.
pub open spec fn spec_define_number<'a>(
    size: NumberOperand<'a>,
    value: NumberOperand<'a>,
    e: Emission<'a>,
) -> Result<Emission<'a>, AsmError<'a>> {
    match spec_define_size(size.0) {
        Err(reason) => Err(AsmError::spec_at(reason, size.1)),
        Ok(count) => match spec_define_value(value.0, e.bytes.len() as int) {
            Err(reason) => Err(AsmError::spec_at(reason, value.1)),
            Ok((bits, needed)) => if needed > count {
                Err(
                    AsmError::spec_at(
                        Reason::ConstantTooLarge { size: count, needed: needed as usize },
                        value.1,
                    ),
                )
            } else {
                Ok(spec_append(e, le_bytes(bits as nat % radix_pow(needed as nat), count as nat)))
            },
        },
    }
}

/// The bytes of one instruction, added to what was emitted before it.
pub open spec fn spec_emit_instruction<'a>(
    instruction: InstructionView<'a>,
    symbols: Seq<Symbol<'a>>,
    statics: Seq<Seq<char>>,
    source: SourceToken<'a>,
    e: Emission<'a>,
) -> Result<Emission<'a>, AsmError<'a>> {
    match instruction {
        InstructionView::Plain(code) => Ok(spec_append(e, seq![code.spec_to_byte()])),
        InstructionView::Address { code, addr } => {
            let opcode = spec_append(e, seq![code.spec_to_byte()]);
            spec_put_result(
                opcode,
                spec_resolve_address(addr.0, symbols, opcode.bytes.len() as int, Reason::InvalidAddress),
                8,
                addr.1,
            )
        },
        InstructionView::Number { code, width, value } => {
            let opcode = spec_append(e, seq![code.spec_to_byte()]);
            spec_put_result(
                opcode,
                spec_resolve_number(value.0, symbols, opcode.bytes.len() as int, width.spec_bytes() as int),
                width.spec_bytes() as int,
                value.1,
            )
        },
        InstructionView::LoadStaticBytes { addr, count } => {
            let opcode = spec_append(e, seq![ByteCodes::LoadStaticBytes.spec_to_byte()]);
            match spec_put_result(
                opcode,
                spec_resolve_address(addr.0, symbols, opcode.bytes.len() as int, Reason::InvalidAddress),
                8,
                addr.1,
            ) {
                Err(error) => Err(error),
                Ok(address) => spec_put_result(
                    address,
                    spec_resolve_address(
                        spec_as_address(count.0),
                        symbols,
                        address.bytes.len() as int,
                        Reason::InvalidCount,
                    ),
                    8,
                    count.1,
                ),
            }
        },
        InstructionView::LoadConstBytes { bytes } => spec_emit_byte_list(
            bytes,
            bytes.len(),
            symbols,
            spec_append(
                e,
                seq![ByteCodes::LoadConstBytes.spec_to_byte()] + le_bytes(bytes.len(), 8),
            ),
        ),
        InstructionView::DefineNumber { size, value } => spec_define_number(size, value, e),
        InstructionView::DefineBytes { bytes } => spec_emit_byte_list(bytes, bytes.len(), symbols, e),
        InstructionView::DefineString { static_id } => if static_id.0 < statics.len() {
            Ok(spec_append(e, encode_utf8(statics[static_id.0 as int])))
        } else {
            Err(AsmError::spec_at(Reason::ExpectedString, source))
        },
        InstructionView::Return => Ok(spec_append(e, seq![ByteCodes::Jump.spec_to_byte()])),
    }
}

/// The state after one node.
pub open spec fn spec_visit<'a>(
    node: NodeView<'a>,
    symbols: Seq<Symbol<'a>>,
    statics: Seq<Seq<char>>,
    e: Emission<'a>,
) -> Result<Emission<'a>, AsmError<'a>> {
    match node.value {
        NodeValueView::Section(name) => Ok(
            Emission { labels: e.labels.push((name, e.bytes.len() as usize)), in_section: true, ..e },
        ),
        NodeValueView::Label(name) => if e.in_section {
            Ok(Emission { labels: e.labels.push((name, e.bytes.len() as usize)), ..e })
        } else {
            Err(AsmError::spec_at(Reason::OutsideSection, node.source))
        },
        NodeValueView::Instruction(instruction) => if e.in_section {
            spec_emit_instruction(instruction, symbols, statics, node.source, e)
        } else {
            Err(AsmError::spec_at(Reason::OutsideSection, node.source))
        },
    }
}

/// The state before the first node: a jump to an entry point that is not known yet.
pub open spec fn spec_header<'a>() -> Emission<'a> {
    Emission {
        bytes: seq![ByteCodes::JumpConst.spec_to_byte()] + le_bytes(0, 8),
        unresolved: Seq::empty(),
        labels: Seq::empty(),
        in_section: false,
    }
}

/// The state after the first `count` nodes.
pub open spec fn spec_walk<'a>(
    nodes: Seq<NodeView<'a>>,
    count: nat,
    symbols: Seq<Symbol<'a>>,
    statics: Seq<Seq<char>>,
) -> Result<Emission<'a>, AsmError<'a>>
    decreases count,
{
    if count == 0 {
        Ok(spec_header())
    } else {
        match spec_walk(nodes, (count - 1) as nat, symbols, statics) {
            Err(error) => Err(error),
            Ok(before) => spec_visit(nodes[count - 1], symbols, statics, before),
        }
    }
}

/// `bytes` with the eight bytes from `at` on replaced by `value`.
pub open spec fn spec_patch(bytes: Seq<u8>, at: int, value: nat) -> Seq<u8> {
    bytes.subrange(0, at) + le_bytes(value, 8) + bytes.subrange(at + 8, bytes.len() as int)
}

/// `bytes` after the first `count` pending places have received their addresses.
pub open spec fn spec_resolve_all<'a>(
    bytes: Seq<u8>,
    unresolved: Seq<UnresolvedLabel<'a>>,
    count: nat,
    labels: Seq<(&'a str, usize)>,
) -> Result<Seq<u8>, AsmError<'a>>
    decreases count,
{
    if count == 0 {
        Ok(bytes)
    } else {
        match spec_resolve_all(bytes, unresolved, (count - 1) as nat, labels) {
            Err(error) => Err(error),
            Ok(patched) => {
                let label = unresolved[count - 1];
                match label_address(labels, label.name@) {
                    None => Err(AsmError::spec_at(Reason::UndefinedSymbol, label.source)),
                    Some(address) => Ok(spec_patch(patched, label.location.0 as int, address as nat)),
                }
            },
        }
    }
}

/// `bytes` with the address of the entry section, if there is one, written after the first opcode.
pub open spec fn spec_entry(bytes: Seq<u8>, labels: Seq<(&str, usize)>) -> Seq<u8> {
    match label_address(labels, ENTRY_SECTION_NAME@) {
        Some(address) => spec_patch(bytes, 1, address as nat),
        None => bytes,
    }
}

/// The bytecode for `nodes`, or the first error.
pub open spec fn spec_generate<'a>(
    nodes: Seq<NodeView<'a>>,
    symbols: Seq<Symbol<'a>>,
    statics: Seq<Seq<char>>,
) -> Result<Seq<u8>, AsmError<'a>> {
    match spec_walk(nodes, nodes.len(), symbols, statics) {
        Err(error) => Err(error),
        Ok(e) => match spec_resolve_all(e.bytes, e.unresolved, e.unresolved.len(), e.labels) {
            Err(error) => Err(error),
            Ok(patched) => Ok(spec_entry(patched, e.labels)),
        },
    }
}


/// The bytecode is no longer than a vector can be. This holds wherever
/// [`generate`] succeeds.
pub open spec fn image_fits<'a>(
    nodes: Seq<NodeView<'a>>,
    symbols: Seq<Symbol<'a>>,
    statics: Seq<Seq<char>>,
) -> bool {
    spec_walk(nodes, nodes.len(), symbols, statics) matches Ok(e) && e.bytes.len() <= usize::MAX
}

/// What holds of the generator's state between two nodes: the header is in
/// place, and the pending places lie behind it, inside the bytecode, eight
/// bytes apart or more, in the order of their offsets.
pub open spec fn emission_inv(e: Emission<'_>) -> bool {
    &&& e.bytes.len() >= 9
    &&& e.bytes.subrange(0, 9) == spec_header().bytes
    &&& forall|i: int|
        0 <= i < e.unresolved.len() ==> 9 <= (#[trigger] e.unresolved[i]).location.0
            && e.unresolved[i].location.0 + 8 <= e.bytes.len()
    &&& forall|i: int, j: int|
        0 <= i < j < e.unresolved.len() ==> (#[trigger] e.unresolved[i]).location.0 + 8 <= (
        #[trigger] e.unresolved[j]).location.0
}

/// `after` has the bytes of `before` and then more, and the same labels.
pub open spec fn extends(before: Emission<'_>, after: Emission<'_>) -> bool {
    &&& before.bytes.len() <= after.bytes.len()
    &&& after.bytes.subrange(0, before.bytes.len() as int) == before.bytes
    &&& after.labels == before.labels
    &&& after.in_section == before.in_section
}

/// Added bytes leave what was there in place.
pub proof fn lemma_append_extends(e: Emission<'_>, bytes: Seq<u8>)
    ensures
        extends(e, spec_append(e, bytes)),
        spec_append(e, bytes).bytes.len() == e.bytes.len() + bytes.len(),
        emission_inv(e) ==> emission_inv(spec_append(e, bytes)),
{
    let after = spec_append(e, bytes);
    assert(after.bytes.subrange(0, e.bytes.len() as int) =~= e.bytes);
    if emission_inv(e) {
        assert(after.bytes.subrange(0, 9) =~= e.bytes.subrange(0, 9));
    }
}

/// An operand takes as many bytes as its place has, whatever it comes to.
pub proof fn lemma_put_extends<'a>(
    e: Emission<'a>,
    resolved: Resolved<'a>,
    width: int,
    source: SourceToken<'a>,
)
    requires
        0 <= width,
        resolved is Pending ==> width == 8,
        e.bytes.len() + width <= usize::MAX,
    ensures
        extends(e, spec_put(e, resolved, width, source)),
        spec_put(e, resolved, width, source).bytes.len() == e.bytes.len() + width,
        emission_inv(e) ==> emission_inv(spec_put(e, resolved, width, source)),
{
    let after = spec_put(e, resolved, width, source);
    match resolved {
        Resolved::Value(value) => {
            lemma_le_bytes_len(value as nat, width as nat);
            lemma_append_extends(e, le_bytes(value as nat, width as nat));
        },
        Resolved::Pending(name) => {
            lemma_le_bytes_len(0, width as nat);
            assert(after.bytes.subrange(0, e.bytes.len() as int) =~= e.bytes);
            if emission_inv(e) {
                assert(after.bytes.subrange(0, 9) =~= e.bytes.subrange(0, 9));
                assert forall|i: int| 0 <= i < after.unresolved.len() implies 9 <= (
                #[trigger] after.unresolved[i]).location.0 && after.unresolved[i].location.0 + 8
                    <= after.bytes.len() by {
                    if i < e.unresolved.len() {
                        assert(after.unresolved[i] == e.unresolved[i]);
                    }
                }
                assert forall|i: int, j: int| 0 <= i < j < after.unresolved.len() implies (
                #[trigger] after.unresolved[i]).location.0 + 8 <= (
                #[trigger] after.unresolved[j]).location.0 by {
                    assert(after.unresolved[i] == e.unresolved[i]);
                    if j < e.unresolved.len() {
                        assert(after.unresolved[j] == e.unresolved[j]);
                    }
                }
            }
        },
    }
}

/// A pending address is only ever written in eight bytes.
pub proof fn lemma_pending_width<'a>(
    operand: NumberLike,
    symbols: Seq<Symbol<'a>>,
    at: int,
    width: int,
)
    requires
        width <= 8,
    ensures
        spec_resolve_number(operand, symbols, at, width) matches Ok(Resolved::Pending(_)) ==> width
            == 8,
        spec_resolve_byte(operand, symbols, at) matches Ok(resolved) ==> resolved is Value,
{
}

/// A list of bytes adds one byte for each operand and no pending place.
pub proof fn lemma_byte_list_extends<'a>(
    operands: Seq<NumberOperand<'a>>,
    count: nat,
    symbols: Seq<Symbol<'a>>,
    e: Emission<'a>,
)
    requires
        count <= operands.len(),
        spec_emit_byte_list(operands, count, symbols, e) is Ok,
    ensures
        extends(e, spec_emit_byte_list(operands, count, symbols, e)->Ok_0),
        spec_emit_byte_list(operands, count, symbols, e)->Ok_0.bytes.len() == e.bytes.len() + count,
        spec_emit_byte_list(operands, count, symbols, e)->Ok_0.unresolved == e.unresolved,
        emission_inv(e) ==> emission_inv(spec_emit_byte_list(operands, count, symbols, e)->Ok_0),
    decreases count,
{
    if count == 0 {
        assert(e.bytes.subrange(0, e.bytes.len() as int) =~= e.bytes);
    } else {
        lemma_byte_list_extends(operands, (count - 1) as nat, symbols, e);
        let before = spec_emit_byte_list(operands, (count - 1) as nat, symbols, e)->Ok_0;
        let operand = operands[count - 1];
        let resolved = spec_resolve_byte(operand.0, symbols, before.bytes.len() as int)->Ok_0;
        lemma_pending_width(operand.0, symbols, before.bytes.len() as int, 1);
        let after = spec_put(before, resolved, 1, operand.1);
        lemma_le_bytes_len(resolved->Value_0 as nat, 1);
        lemma_append_extends(before, le_bytes(resolved->Value_0 as nat, 1));
        assert(after.bytes.subrange(0, e.bytes.len() as int) =~= before.bytes.subrange(
            0,
            e.bytes.len() as int,
        ));
    }
}

/// An operand that is accepted takes as many bytes as its place has.
pub proof fn lemma_put_result_extends<'a>(
    e: Emission<'a>,
    resolved: Result<Resolved<'a>, Reason>,
    width: int,
    source: SourceToken<'a>,
)
    requires
        0 <= width,
        resolved matches Ok(Resolved::Pending(_)) ==> width == 8,
        spec_put_result(e, resolved, width, source) is Ok,
        spec_put_result(e, resolved, width, source)->Ok_0.bytes.len() <= usize::MAX,
    ensures
        extends(e, spec_put_result(e, resolved, width, source)->Ok_0),
        spec_put_result(e, resolved, width, source)->Ok_0.bytes.len() == e.bytes.len() + width,
        emission_inv(e) ==> emission_inv(spec_put_result(e, resolved, width, source)->Ok_0),
{
    let r = resolved->Ok_0;
    match r {
        Resolved::Value(value) => {
            lemma_le_bytes_len(value as nat, width as nat);
        },
        Resolved::Pending(name) => {
            lemma_le_bytes_len(0, width as nat);
        },
    }
    lemma_put_extends(e, r, width, source);
}

/// What extends an extension extends what was extended.
pub proof fn lemma_extends_transitive(a: Emission<'_>, b: Emission<'_>, c: Emission<'_>)
    requires
        extends(a, b),
        extends(b, c),
    ensures
        extends(a, c),
{
    assert(c.bytes.subrange(0, a.bytes.len() as int) =~= b.bytes.subrange(0, a.bytes.len() as int));
}

/// An instruction adds bytes behind those that are there, touches no
/// label, and keeps the pending places in order.
pub proof fn lemma_instruction_extends<'a>(
    instruction: InstructionView<'a>,
    symbols: Seq<Symbol<'a>>,
    statics: Seq<Seq<char>>,
    source: SourceToken<'a>,
    e: Emission<'a>,
)
    requires
        spec_emit_instruction(instruction, symbols, statics, source, e) is Ok,
        spec_emit_instruction(instruction, symbols, statics, source, e)->Ok_0.bytes.len() <= usize::MAX,
    ensures
        extends(e, spec_emit_instruction(instruction, symbols, statics, source, e)->Ok_0),
        emission_inv(e) ==> emission_inv(
            spec_emit_instruction(instruction, symbols, statics, source, e)->Ok_0,
        ),
{
    let after = spec_emit_instruction(instruction, symbols, statics, source, e)->Ok_0;
    match instruction {
        InstructionView::Plain(code) => {
            lemma_append_extends(e, seq![code.spec_to_byte()]);
        },
        InstructionView::Address { code, addr } => {
            let opcode = spec_append(e, seq![code.spec_to_byte()]);
            lemma_append_extends(e, seq![code.spec_to_byte()]);
            let resolved = spec_resolve_address(
                addr.0,
                symbols,
                opcode.bytes.len() as int,
                Reason::InvalidAddress,
            );
            lemma_put_result_extends(opcode, resolved, 8, addr.1);
            lemma_extends_transitive(e, opcode, after);
        },
        InstructionView::Number { code, width, value } => {
            let opcode = spec_append(e, seq![code.spec_to_byte()]);
            lemma_append_extends(e, seq![code.spec_to_byte()]);
            let resolved = spec_resolve_number(
                value.0,
                symbols,
                opcode.bytes.len() as int,
                width.spec_bytes() as int,
            );
            lemma_pending_width(value.0, symbols, opcode.bytes.len() as int, width.spec_bytes() as int);
            lemma_put_result_extends(opcode, resolved, width.spec_bytes() as int, value.1);
            lemma_extends_transitive(e, opcode, after);
        },
        InstructionView::LoadStaticBytes { addr, count } => {
            let opcode = spec_append(e, seq![ByteCodes::LoadStaticBytes.spec_to_byte()]);
            lemma_append_extends(e, seq![ByteCodes::LoadStaticBytes.spec_to_byte()]);
            let first = spec_resolve_address(
                addr.0,
                symbols,
                opcode.bytes.len() as int,
                Reason::InvalidAddress,
            );
            let address = spec_put_result(opcode, first, 8, addr.1)->Ok_0;
            let second = spec_resolve_address(
                spec_as_address(count.0),
                symbols,
                address.bytes.len() as int,
                Reason::InvalidCount,
            );
            match first->Ok_0 {
                Resolved::Value(value) => {
                    lemma_le_bytes_len(value as nat, 8);
                },
                Resolved::Pending(name) => {
                    lemma_le_bytes_len(0, 8);
                },
            }
            match second->Ok_0 {
                Resolved::Value(value) => {
                    lemma_le_bytes_len(value as nat, 8);
                },
                Resolved::Pending(name) => {
                    lemma_le_bytes_len(0, 8);
                },
            }
            lemma_put_result_extends(opcode, first, 8, addr.1);
            lemma_put_result_extends(address, second, 8, count.1);
            lemma_extends_transitive(e, opcode, address);
            lemma_extends_transitive(e, address, after);
        },
        InstructionView::LoadConstBytes { bytes } => {
            let head = seq![ByteCodes::LoadConstBytes.spec_to_byte()] + le_bytes(bytes.len(), 8);
            let opcode = spec_append(e, head);
            lemma_append_extends(e, head);
            lemma_byte_list_extends(bytes, bytes.len(), symbols, opcode);
            lemma_extends_transitive(e, opcode, after);
        },
        InstructionView::DefineNumber { size, value } => {
            let count = spec_define_size(size.0)->Ok_0;
            let found = spec_define_value(value.0, e.bytes.len() as int)->Ok_0;
            lemma_append_extends(
                e,
                le_bytes(found.0 as nat % radix_pow(found.1 as nat), count as nat),
            );
        },
        InstructionView::DefineBytes { bytes } => {
            lemma_byte_list_extends(bytes, bytes.len(), symbols, e);
        },
        InstructionView::DefineString { static_id } => {
            lemma_append_extends(e, encode_utf8(statics[static_id.0 as int]));
        },
        InstructionView::Return => {
            lemma_append_extends(e, seq![ByteCodes::Jump.spec_to_byte()]);
        },
    }
}

/// Every state of the walk keeps the header and the order of the pending
/// places, and no node takes bytes away.
pub proof fn lemma_walk_inv<'a>(
    nodes: Seq<NodeView<'a>>,
    count: nat,
    symbols: Seq<Symbol<'a>>,
    statics: Seq<Seq<char>>,
)
    requires
        count <= nodes.len(),
        spec_walk(nodes, count, symbols, statics) is Ok,
        spec_walk(nodes, count, symbols, statics)->Ok_0.bytes.len() <= usize::MAX,
    ensures
        emission_inv(spec_walk(nodes, count, symbols, statics)->Ok_0),
        forall|earlier: nat|
            earlier <= count ==> (#[trigger] spec_walk(nodes, earlier, symbols, statics)) is Ok
                && spec_walk(nodes, earlier, symbols, statics)->Ok_0.bytes.len() <= spec_walk(
                nodes,
                count,
                symbols,
                statics,
            )->Ok_0.bytes.len(),
    decreases count,
{
    if count == 0 {
        lemma_le_bytes_len(0, 8);
        let e = spec_header();
        assert(e.bytes.subrange(0, 9) =~= e.bytes);
    } else {
        let before = spec_walk(nodes, (count - 1) as nat, symbols, statics)->Ok_0;
        let after = spec_walk(nodes, count, symbols, statics)->Ok_0;
        let node = nodes[count - 1];
        match node.value {
            NodeValueView::Instruction(instruction) => {
                lemma_instruction_extends(instruction, symbols, statics, node.source, before);
            },
            _ => {},
        }
        lemma_walk_inv(nodes, (count - 1) as nat, symbols, statics);
    }
}


/// The generator at work: the bytecode so far and what is known of the labels.
struct Generator<'a> {
    bytecode: Vec<u8>,
    unresolved: Vec<UnresolvedLabel<'a>>,
    labels: Vec<(&'a str, usize)>,
    in_section: bool,
}

/// `result` and the state `after` are what `expected` says.
pub open spec fn emitted<'a>(
    result: Result<(), AsmError<'a>>,
    after: Emission<'a>,
    expected: Result<Emission<'a>, AsmError<'a>>,
) -> bool {
    match expected {
        Ok(e) => result is Ok && after == e,
        Err(error) => result == Err::<(), AsmError<'a>>(error),
    }
}

/// The offset recorded last for `name`.
fn find_label(labels: &Vec<(&str, usize)>, name: &str) -> (address: Option<usize>)
    ensures
        address == label_address(labels@, name@),
{
    let mut at: usize = labels.len();
    assert(labels@.subrange(0, at as int) =~= labels@);
    while at > 0
        invariant
            at <= labels@.len(),
            label_address(labels@, name@) == label_address(labels@.subrange(0, at as int), name@),
        decreases at,
    {
        let ghost part = labels@.subrange(0, at as int);
        assert(part.drop_last() =~= labels@.subrange(0, at - 1));
        at = at - 1;
        if str_eq(labels[at].0, name) {
            return Some(labels[at].1);
        }
    }
    None
}

fn resolve_symbol<'a>(
    id: SymbolID,
    symbol_table: &SymbolTable<'a>,
    wrong: Reason,
) -> (resolved: Result<Resolved<'a>, Reason>)
    ensures
        resolved == spec_resolve_symbol(id, symbol_table.symbols(), wrong),
{
    match symbol_table.find_symbol(id) {
        None => Err(Reason::UndefinedSymbol),
        Some(symbol) => match symbol.value {
            None => Ok(Resolved::Pending(symbol.name)),
            Some(AsmValue::CurrentPosition) => Ok(Resolved::Pending(symbol.name)),
            Some(value) => match value.as_uint(symbol_table) {
                Some(number) => Ok(Resolved::Value(number)),
                None => Err(wrong),
            },
        },
    }
}

fn resolve_address<'a>(
    operand: AddressLike,
    symbol_table: &SymbolTable<'a>,
    at: usize,
    wrong: Reason,
) -> (resolved: Result<Resolved<'a>, Reason>)
    ensures
        resolved == spec_resolve_address(operand, symbol_table.symbols(), at as int, wrong),
{
    match operand {
        AddressLike::Number(number) => match number.as_uint() {
            Some(value) => Ok(Resolved::Value(value)),
            None => Err(wrong),
        },
        AddressLike::Symbol(id) => resolve_symbol(id, symbol_table, wrong),
        AddressLike::CurrentPosition => Ok(Resolved::Value(at as u64)),
    }
}

fn resolve_number<'a>(
    operand: NumberLike,
    symbol_table: &SymbolTable<'a>,
    at: usize,
    width: usize,
) -> (resolved: Result<Resolved<'a>, Reason>)
    ensures
        resolved == spec_resolve_number(operand, symbol_table.symbols(), at as int, width as int),
{
    match operand {
        NumberLike::Number(number, size) => {
            if size as usize > width {
                Err(Reason::ConstantTooLarge { size: width, needed: size as usize })
            } else {
                Ok(Resolved::Value(number.bits()))
            }
        },
        NumberLike::Symbol(id) => match resolve_symbol(id, symbol_table, Reason::InvalidAddress) {
            Ok(resolved) => {
                let needed: usize = match resolved {
                    Resolved::Value(value) => Number::Uint(value).minimum_size() as usize,
                    Resolved::Pending(_) => 8,
                };
                if needed > width {
                    Err(Reason::ConstantTooLarge { size: width, needed })
                } else {
                    Ok(resolved)
                }
            },
            Err(reason) => Err(reason),
        },
        NumberLike::CurrentPosition => {
            if 8 > width {
                Err(Reason::ConstantTooLarge { size: width, needed: 8 })
            } else {
                Ok(Resolved::Value(at as u64))
            }
        },
    }
}

fn resolve_byte<'a>(
    operand: NumberLike,
    symbol_table: &SymbolTable<'a>,
    at: usize,
) -> (resolved: Result<Resolved<'a>, Reason>)
    ensures
        resolved == spec_resolve_byte(operand, symbol_table.symbols(), at as int),
{
    match operand {
        NumberLike::Number(Number::Float(_), _) => Err(Reason::FloatNotAllowed),
        _ => resolve_number(operand, symbol_table, at, 1),
    }
}

fn as_address(operand: NumberLike) -> (address: AddressLike)
    ensures
        address == spec_as_address(operand),
{
    match operand {
        NumberLike::Number(number, _) => AddressLike::Number(number),
        NumberLike::Symbol(id) => AddressLike::Symbol(id),
        NumberLike::CurrentPosition => AddressLike::CurrentPosition,
    }
}

/// Replaces the eight bytes from `at` on by `value`.
fn patch(bytecode: &mut Vec<u8>, at: usize, value: u64)
    requires
        at + 8 <= old(bytecode)@.len(),
    ensures
        final(bytecode)@ == spec_patch(old(bytecode)@, at as int, value as nat),
{
    let bytes = encode_le(value, 8);
    proof {
        lemma_le_bytes_len(value as nat, 8);
    }
    let mut done: usize = 0;
    let size = bytecode.len();
    while done < 8
        invariant
            done <= 8,
            bytes@.len() == 8,
            size == bytecode@.len(),
            at + 8 <= bytecode@.len(),
            bytecode@.len() == old(bytecode)@.len(),
            forall|i: int| 0 <= i < at ==> bytecode@[i] == old(bytecode)@[i],
            forall|i: int| at + done <= i < bytecode@.len() ==> bytecode@[i] == old(bytecode)@[i],
            forall|i: int| 0 <= i < done ==> bytecode@[at + i] == bytes@[i],
        decreases 8 - done,
    {
        bytecode.set(at + done, bytes[done]);
        done = done + 1;
    }
    assert(bytecode@ =~= spec_patch(old(bytecode)@, at as int, value as nat));
}

impl<'a> Generator<'a> {
    spec fn state(&self) -> Emission<'a> {
        Emission {
            bytes: self.bytecode@,
            unresolved: self.unresolved@,
            labels: self.labels@,
            in_section: self.in_section,
        }
    }

    /// The header: a jump whose target is filled in at the end.
    fn new() -> (generator: Self)
        ensures
            generator.state() == spec_header::<'a>(),
    {
        let mut bytecode: Vec<u8> = Vec::new();
        bytecode.push(ByteCodes::JumpConst.to_byte());
        let mut placeholder = encode_le(0, 8);
        bytecode.append(&mut placeholder);
        let generator = Generator {
            bytecode,
            unresolved: Vec::new(),
            labels: Vec::new(),
            in_section: false,
        };
        assert(generator.state().bytes =~= spec_header::<'a>().bytes);
        generator
    }

    fn append(&mut self, bytes: &[u8])
        ensures
            final(self).state() == spec_append(old(self).state(), bytes@),
    {
        let mut copy = vstd::slice::slice_to_vec(bytes);
        self.bytecode.append(&mut copy);
    }

    fn push_op(&mut self, code: ByteCodes)
        ensures
            final(self).state() == spec_append(old(self).state(), seq![code.spec_to_byte()]),
    {
        self.bytecode.push(code.to_byte());
        assert(self.state().bytes =~= old(self).state().bytes + seq![code.spec_to_byte()]);
    }

    fn put(&mut self, resolved: Resolved<'a>, width: usize, source: SourceToken<'a>)
        ensures
            final(self).state() == spec_put(old(self).state(), resolved, width as int, source),
    {
        match resolved {
            Resolved::Value(value) => {
                let bytes = encode_le(value, width);
                self.append(bytes.as_slice());
            },
            Resolved::Pending(name) => {
                let location = VirtualAddress(self.bytecode.len());
                self.unresolved.push(UnresolvedLabel { location, name, source });
                let bytes = encode_le(0, width);
                self.append(bytes.as_slice());
            },
        }
    }

    fn put_result(
        &mut self,
        resolved: Result<Resolved<'a>, Reason>,
        width: usize,
        source: SourceToken<'a>,
    ) -> (result: Result<(), AsmError<'a>>)
        ensures
            emitted(
                result,
                final(self).state(),
                spec_put_result(old(self).state(), resolved, width as int, source),
            ),
    {
        match resolved {
            Ok(resolved) => {
                self.put(resolved, width, source);
                Ok(())
            },
            Err(reason) => Err(AsmError::at(reason, source)),
        }
    }

    fn emit_byte_list(
        &mut self,
        operands: &Vec<NumberOperand<'a>>,
        symbol_table: &SymbolTable<'a>,
    ) -> (result: Result<(), AsmError<'a>>)
        ensures
            emitted(
                result,
                final(self).state(),
                spec_emit_byte_list(operands@, operands@.len(), symbol_table.symbols(), old(self).state()),
            ),
    {
        let mut done: usize = 0;
        while done < operands.len()
            invariant
                done <= operands@.len(),
                spec_emit_byte_list(operands@, done as nat, symbol_table.symbols(), old(self).state())
                    == Ok::<Emission<'a>, AsmError<'a>>(self.state()),
            decreases operands@.len() - done,
        {
            let operand = operands[done];
            let resolved = resolve_byte(operand.0, symbol_table, self.bytecode.len());
            match self.put_result(resolved, 1, operand.1) {
                Ok(()) => {},
                Err(error) => {
                    proof {
                        lemma_byte_list_fails(
                            operands@,
                            (done + 1) as nat,
                            operands@.len(),
                            symbol_table.symbols(),
                            old(self).state(),
                        );
                    }
                    return Err(error);
                },
            }
            done = done + 1;
        }
        Ok(())
    }

    fn define_number(
        &mut self,
        size: NumberOperand<'a>,
        value: NumberOperand<'a>,
    ) -> (result: Result<(), AsmError<'a>>)
        ensures
            emitted(result, final(self).state(), spec_define_number(size, value, old(self).state())),
    {
        let count: usize = match size.0 {
            NumberLike::Number(Number::Uint(count), _) => {
                if count > usize::MAX as u64 {
                    return Err(AsmError::at(Reason::InvalidSize, size.1));
                }
                count as usize
            },
            NumberLike::Number(_, _) => {
                return Err(AsmError::at(Reason::InvalidSize, size.1));
            },
            NumberLike::Symbol(_) => {
                return Err(AsmError::at(Reason::SymbolNotAllowed, size.1));
            },
            NumberLike::CurrentPosition => {
                return Err(AsmError::at(Reason::InvalidSize, size.1));
            },
        };
        let (bits, needed): (u64, u8) = match value.0 {
            NumberLike::Number(number, size) => (number.bits(), size),
            NumberLike::CurrentPosition => (self.bytecode.len() as u64, 8),
            NumberLike::Symbol(_) => {
                return Err(AsmError::at(Reason::SymbolNotAllowed, value.1));
            },
        };
        if needed as usize > count {
            return Err(
                AsmError::at(Reason::ConstantTooLarge { size: count, needed: needed as usize }, value.1),
            );
        }
        let low = low_bytes(bits, needed);
        let bytes = encode_le(low, count);
        self.append(bytes.as_slice());
        Ok(())
    }

    fn emit_instruction(
        &mut self,
        instruction: &AsmInstruction<'a>,
        symbol_table: &SymbolTable<'a>,
        source: SourceToken<'a>,
    ) -> (result: Result<(), AsmError<'a>>)
        ensures
            emitted(
                result,
                final(self).state(),
                spec_emit_instruction(
                    instruction@,
                    symbol_table.symbols(),
                    symbol_table.statics(),
                    source,
                    old(self).state(),
                ),
            ),
    {
        match instruction {
            AsmInstruction::Plain(code) => {
                self.push_op(*code);
                Ok(())
            },
            AsmInstruction::Address { code, addr } => {
                self.push_op(*code);
                let resolved = resolve_address(
                    addr.0,
                    symbol_table,
                    self.bytecode.len(),
                    Reason::InvalidAddress,
                );
                self.put_result(resolved, 8, addr.1)
            },
            AsmInstruction::Number { code, width, value } => {
                self.push_op(*code);
                let resolved = resolve_number(value.0, symbol_table, self.bytecode.len(), width.bytes());
                self.put_result(resolved, width.bytes(), value.1)
            },
            AsmInstruction::LoadStaticBytes { addr, count } => {
                self.push_op(ByteCodes::LoadStaticBytes);
                let first = resolve_address(
                    addr.0,
                    symbol_table,
                    self.bytecode.len(),
                    Reason::InvalidAddress,
                );
                match self.put_result(first, 8, addr.1) {
                    Err(error) => Err(error),
                    Ok(()) => {
                        let second = resolve_address(
                            as_address(count.0),
                            symbol_table,
                            self.bytecode.len(),
                            Reason::InvalidCount,
                        );
                        self.put_result(second, 8, count.1)
                    },
                }
            },
            AsmInstruction::LoadConstBytes { bytes } => {
                let mut head: Vec<u8> = Vec::new();
                head.push(ByteCodes::LoadConstBytes.to_byte());
                let mut count = encode_le(bytes.len() as u64, 8);
                head.append(&mut count);
                assert(head@ =~= seq![ByteCodes::LoadConstBytes.spec_to_byte()] + le_bytes(
                    bytes@.len(),
                    8,
                ));
                self.append(head.as_slice());
                self.emit_byte_list(bytes, symbol_table)
            },
            AsmInstruction::DefineNumber { size, value } => self.define_number(*size, *value),
            AsmInstruction::DefineBytes { bytes } => self.emit_byte_list(bytes, symbol_table),
            AsmInstruction::DefineString { static_id } => match symbol_table.find_static(*static_id) {
                Some(value) => {
                    self.append(value.as_string().as_str().as_bytes());
                    Ok(())
                },
                None => Err(AsmError::at(Reason::ExpectedString, source)),
            },
            AsmInstruction::Return => {
                self.push_op(ByteCodes::Jump);
                Ok(())
            },
        }
    }

    fn visit(
        &mut self,
        node: &AsmNode<'a>,
        symbol_table: &SymbolTable<'a>,
    ) -> (result: Result<(), AsmError<'a>>)
        ensures
            emitted(
                result,
                final(self).state(),
                spec_visit(node@, symbol_table.symbols(), symbol_table.statics(), old(self).state()),
            ),
    {
        match &node.value {
            AsmNodeValue::Section(name) => {
                self.labels.push((*name, self.bytecode.len()));
                self.in_section = true;
                Ok(())
            },
            AsmNodeValue::Label(name) => {
                if self.in_section {
                    self.labels.push((*name, self.bytecode.len()));
                    Ok(())
                } else {
                    Err(AsmError::at(Reason::OutsideSection, node.source))
                }
            },
            AsmNodeValue::Instruction(instruction) => {
                if self.in_section {
                    self.emit_instruction(instruction, symbol_table, node.source)
                } else {
                    Err(AsmError::at(Reason::OutsideSection, node.source))
                }
            },
        }
    }
}

/// The value of the `needed` low bytes of `bits`.
fn low_bytes(bits: u64, needed: u8) -> (low: u64)
    ensures
        low == bits as nat % radix_pow(needed as nat),
{
    proof {
        lemma_radix_pow_values();
        lemma_radix_pow_grows(8, needed as nat);
    }
    if needed >= 8 {
        proof {
            vstd::arithmetic::div_mod::lemma_small_mod(bits as nat, radix_pow(needed as nat));
        }
        bits
    } else {
        let mut modulus: u64 = 1;
        let mut done: u8 = 0;
        while done < needed
            invariant
                done <= needed < 8,
                modulus == radix_pow(done as nat),
            decreases needed - done,
        {
            proof {
                lemma_radix_pow_grows(done as nat + 1, 7);
                lemma_radix_pow_values();
            }
            modulus = modulus * 256;
            done = done + 1;
        }
        bits % modulus
    }
}

/// A larger exponent gives a larger power.
pub proof fn lemma_radix_pow_grows(small: nat, large: nat)
    ensures
        small <= large ==> radix_pow(small) <= radix_pow(large),
    decreases large,
{
    if small < large {
        lemma_radix_pow_grows(small, (large - 1) as nat);
    }
}

/// Once an operand of a list is refused, the list is refused with the same error.
pub proof fn lemma_byte_list_fails<'a>(
    operands: Seq<NumberOperand<'a>>,
    failed: nat,
    count: nat,
    symbols: Seq<Symbol<'a>>,
    e: Emission<'a>,
)
    requires
        failed <= count,
        spec_emit_byte_list(operands, failed, symbols, e) is Err,
    ensures
        spec_emit_byte_list(operands, count, symbols, e) == spec_emit_byte_list(
            operands,
            failed,
            symbols,
            e,
        ),
    decreases count,
{
    if failed < count {
        lemma_byte_list_fails(operands, failed, (count - 1) as nat, symbols, e);
    }
}

/// Once a node is refused, the walk is refused with the same error.
pub proof fn lemma_walk_fails<'a>(
    nodes: Seq<NodeView<'a>>,
    failed: nat,
    count: nat,
    symbols: Seq<Symbol<'a>>,
    statics: Seq<Seq<char>>,
)
    requires
        failed <= count,
        spec_walk(nodes, failed, symbols, statics) is Err,
    ensures
        spec_walk(nodes, count, symbols, statics) == spec_walk(nodes, failed, symbols, statics),
    decreases count,
{
    if failed < count {
        lemma_walk_fails(nodes, failed, (count - 1) as nat, symbols, statics);
    }
}

/// Once a pending place is refused, resolution is refused with the same error.
pub proof fn lemma_resolve_fails<'a>(
    bytes: Seq<u8>,
    unresolved: Seq<UnresolvedLabel<'a>>,
    failed: nat,
    count: nat,
    labels: Seq<(&'a str, usize)>,
)
    requires
        failed <= count,
        spec_resolve_all(bytes, unresolved, failed, labels) is Err,
    ensures
        spec_resolve_all(bytes, unresolved, count, labels) == spec_resolve_all(
            bytes,
            unresolved,
            failed,
            labels,
        ),
    decreases count,
{
    if failed < count {
        lemma_resolve_fails(bytes, unresolved, failed, (count - 1) as nat, labels);
    }
}

/// Generates byte code from the given assembly nodes.
///
/// The result is the header, a jump to the entry section, followed by what
/// the nodes emit in their order. An operand that names a label is written
/// once all labels are known. The first node or operand that is refused
/// gives the error.
pub fn generate<'a>(
    nodes: &Vec<AsmNode<'a>>,
    symbol_table: &SymbolTable<'a>,
) -> (bytecode: Result<Vec<u8>, AsmError<'a>>)
    ensures
        match spec_generate(nodes_view(nodes@), symbol_table.symbols(), symbol_table.statics()) {
            Ok(bytes) => bytecode is Ok && bytecode->Ok_0@ == bytes,
            Err(error) => bytecode == Err::<Vec<u8>, AsmError<'a>>(error),
        },
        bytecode is Ok ==> image_fits(
            nodes_view(nodes@),
            symbol_table.symbols(),
            symbol_table.statics(),
        ),
{
    let ghost symbols = symbol_table.symbols();
    let ghost statics = symbol_table.statics();
    let ghost views = nodes_view(nodes@);
    let mut generator = Generator::new();
    let mut done: usize = 0;
    while done < nodes.len()
        invariant
            done <= nodes@.len(),
            views == nodes_view(nodes@),
            symbols == symbol_table.symbols(),
            statics == symbol_table.statics(),
            spec_walk(views, done as nat, symbols, statics) == Ok::<Emission<'a>, AsmError<'a>>(
                generator.state(),
            ),
        decreases nodes@.len() - done,
    {
        match generator.visit(&nodes[done], symbol_table) {
            Ok(()) => {},
            Err(error) => {
                proof {
                    lemma_walk_fails(views, (done + 1) as nat, nodes@.len(), symbols, statics);
                }
                return Err(error);
            },
        }
        done = done + 1;
    }
    let ghost walked = generator.state();
    let size = generator.bytecode.len();
    proof {
        lemma_walk_inv(views, nodes@.len(), symbols, statics);
    }
    let mut bytecode = generator.bytecode;
    let unresolved = generator.unresolved;
    let labels = generator.labels;
    let mut patched: usize = 0;
    while patched < unresolved.len()
        invariant
            patched <= unresolved@.len(),
            views == nodes_view(nodes@),
            emission_inv(walked),
            symbols == symbol_table.symbols(),
            statics == symbol_table.statics(),
            spec_walk(views, nodes@.len(), symbols, statics) == Ok::<Emission<'a>, AsmError<'a>>(
                walked,
            ),
            walked.unresolved == unresolved@,
            walked.labels == labels@,
            bytecode@.len() == walked.bytes.len(),
            spec_resolve_all(walked.bytes, unresolved@, patched as nat, labels@) == Ok::<
                Seq<u8>,
                AsmError<'a>,
            >(bytecode@),
        decreases unresolved@.len() - patched,
    {
        let label = unresolved[patched];
        match find_label(&labels, label.name) {
            None => {
                proof {
                    lemma_resolve_fails(
                        walked.bytes,
                        unresolved@,
                        (patched + 1) as nat,
                        unresolved@.len(),
                        labels@,
                    );
                }
                return Err(AsmError::at(Reason::UndefinedSymbol, label.source));
            },
            Some(address) => {
                proof {
                    lemma_le_bytes_len(address as nat, 8);
                }
                patch(&mut bytecode, label.location.0, address as u64);
            },
        }
        patched = patched + 1;
    }
    match find_label(&labels, ENTRY_SECTION_NAME) {
        Some(entry) => {
            patch(&mut bytecode, 1, entry as u64);
        },
        None => {},
    }
    Ok(bytecode)
}

} // verus!
