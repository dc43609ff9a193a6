//! What holds of the bytecode that the generator writes, and of the machine
//! that reads it.

use vstd::prelude::*;
use crate::assembler::{
    session_inv, spec_answer, spec_define_position, spec_drive, spec_file_index, spec_reply,
    spec_step as spec_session_step, with_unit, LexedFileView, ReplyView, Request, Session, UnitView,
    Waiting,
};
use crate::code_generator::{
    emission_inv, image_fits, label_address, lemma_walk_inv, spec_emit_instruction, spec_generate,
    spec_patch, spec_resolve_all, spec_walk, Emission,
};
use crate::encoding::{le_bytes, lemma_le_bytes_len, lemma_le_value_of_bytes, radix_pow};
use crate::errors::AsmError;
use crate::exec::{
    int_arith, proceed, spec_execute, spec_int_arith, spec_interrupt, spec_step, stack_value, HostCall,
    Machine, Outcome, Stepped,
};
use crate::parser::spec_operands;
use crate::isa::{Arith, ByteCodes, Interrupts, Operation, Width};
use crate::lang::{
    AsmOperand, AsmValue, InstructionView, NodeValueView, NodeView, Number, NumberLike,
    PseudoInstructions, ENTRY_SECTION_NAME,
};
use crate::symbol_table::{Symbol, SymbolID};
use crate::tokenizer::{SourceToken, Token, TokenValue};

verus! {

/// The address that the header jumps to: that of the entry section, or zero.
pub open spec fn entry_point(labels: Seq<(&str, usize)>) -> nat {
    match label_address(labels, ENTRY_SECTION_NAME@) {
        Some(address) => address as nat,
        None => 0,
    }
}

/// Writing an address leaves the rest of the bytes as they were.
pub proof fn lemma_patch(bytes: Seq<u8>, at: int, value: nat)
    requires
        0 <= at,
        at + 8 <= bytes.len(),
    ensures
        spec_patch(bytes, at, value).len() == bytes.len(),
        spec_patch(bytes, at, value).subrange(at, at + 8) == le_bytes(value, 8),
        forall|from: int, to: int|
            0 <= from <= to <= at ==> #[trigger] spec_patch(bytes, at, value).subrange(from, to)
                == bytes.subrange(from, to),
        forall|from: int, to: int|
            at + 8 <= from <= to <= bytes.len() ==> #[trigger] spec_patch(bytes, at, value).subrange(
                from,
                to,
            ) == bytes.subrange(from, to),
{
    lemma_le_bytes_len(value, 8);
    let patched = spec_patch(bytes, at, value);
    assert(patched.subrange(at, at + 8) =~= le_bytes(value, 8));
    assert forall|from: int, to: int| 0 <= from <= to <= at implies #[trigger] patched.subrange(
        from,
        to,
    ) == bytes.subrange(from, to) by {
        assert(patched.subrange(from, to) =~= bytes.subrange(from, to));
    }
    assert forall|from: int, to: int| at + 8 <= from <= to <= bytes.len() implies #[trigger] patched.subrange(
        from,
        to,
    ) == bytes.subrange(from, to) by {
        assert(patched.subrange(from, to) =~= bytes.subrange(from, to));
    }
}

/// Resolution writes the address of its label into each pending place,
/// and leaves the header alone.
pub proof fn lemma_resolve_all<'a>(e: Emission<'a>, count: nat)
    requires
        emission_inv(e),
        count <= e.unresolved.len(),
        spec_resolve_all(e.bytes, e.unresolved, count, e.labels) is Ok,
    ensures
        spec_resolve_all(e.bytes, e.unresolved, count, e.labels)->Ok_0.len() == e.bytes.len(),
        spec_resolve_all(e.bytes, e.unresolved, count, e.labels)->Ok_0.subrange(0, 9)
            == e.bytes.subrange(0, 9),
        forall|k: int|
            0 <= k < count ==> label_address(e.labels, (#[trigger] e.unresolved[k]).name@) is Some
                && spec_resolve_all(e.bytes, e.unresolved, count, e.labels)->Ok_0.subrange(
                e.unresolved[k].location.0 as int,
                e.unresolved[k].location.0 + 8,
            ) == le_bytes(label_address(e.labels, e.unresolved[k].name@)->0 as nat, 8),
    decreases count,
{
    if count > 0 {
        lemma_resolve_all(e, (count - 1) as nat);
        let before = spec_resolve_all(e.bytes, e.unresolved, (count - 1) as nat, e.labels)->Ok_0;
        let after = spec_resolve_all(e.bytes, e.unresolved, count, e.labels)->Ok_0;
        let label = e.unresolved[count - 1];
        let address = label_address(e.labels, label.name@)->0;
        lemma_patch(before, label.location.0 as int, address as nat);
        assert(after == spec_patch(before, label.location.0 as int, address as nat));
        assert(after.subrange(0, 9) == before.subrange(0, 9));
        assert forall|k: int| 0 <= k < count implies label_address(
            e.labels,
            (#[trigger] e.unresolved[k]).name@,
        ) is Some && after.subrange(
            e.unresolved[k].location.0 as int,
            e.unresolved[k].location.0 + 8,
        ) == le_bytes(label_address(e.labels, e.unresolved[k].name@)->0 as nat, 8) by {
            if k < count - 1 {
                let earlier = e.unresolved[k];
                assert(earlier.location.0 + 8 <= label.location.0);
                assert(after.subrange(earlier.location.0 as int, earlier.location.0 + 8)
                    == before.subrange(earlier.location.0 as int, earlier.location.0 + 8));
            }
        }
    }
}

/// The bytecode begins with the opcode of `JumpConst` and the address of
/// the entry section, or zero where there is none.
pub proof fn lemma_header<'a>(
    nodes: Seq<NodeView<'a>>,
    symbols: Seq<Symbol<'a>>,
    statics: Seq<Seq<char>>,
)
    requires
        spec_generate(nodes, symbols, statics) is Ok,
        image_fits(nodes, symbols, statics),
    ensures
        spec_generate(nodes, symbols, statics)->Ok_0.len() >= 9,
        spec_generate(nodes, symbols, statics)->Ok_0[0] == ByteCodes::JumpConst.spec_to_byte(),
        spec_generate(nodes, symbols, statics)->Ok_0.subrange(1, 9) == le_bytes(
            entry_point(spec_walk(nodes, nodes.len(), symbols, statics)->Ok_0.labels),
            8,
        ),
{
    let e = spec_walk(nodes, nodes.len(), symbols, statics)->Ok_0;
    let patched = spec_resolve_all(e.bytes, e.unresolved, e.unresolved.len(), e.labels)->Ok_0;
    let bytes = spec_generate(nodes, symbols, statics)->Ok_0;
    lemma_walk_inv(nodes, nodes.len(), symbols, statics);
    lemma_resolve_all(e, e.unresolved.len());
    let header = crate::code_generator::spec_header::<'a>().bytes;
    lemma_le_bytes_len(0, 8);
    assert(patched.subrange(0, 9) == header);
    assert(patched[0] == patched.subrange(0, 9)[0]);
    assert(header.subrange(1, 9) =~= le_bytes(0, 8));
    assert(patched.subrange(1, 9) =~= patched.subrange(0, 9).subrange(1, 9));
    match label_address(e.labels, ENTRY_SECTION_NAME@) {
        Some(address) => {
            lemma_patch(patched, 1, address as nat);
            assert(bytes.subrange(0, 1) == patched.subrange(0, 1));
            assert(bytes[0] == bytes.subrange(0, 1)[0]);
            assert(patched[0] == patched.subrange(0, 1)[0]);
        },
        None => {},
    }
}

/// Each label and each section is recorded with the offset of the next
/// byte to be emitted when its node is visited.
pub proof fn lemma_label_offsets<'a>(
    nodes: Seq<NodeView<'a>>,
    visited: nat,
    symbols: Seq<Symbol<'a>>,
    statics: Seq<Seq<char>>,
)
    requires
        visited < nodes.len(),
        spec_walk(nodes, visited + 1, symbols, statics) is Ok,
        nodes[visited as int].value is Label || nodes[visited as int].value is Section,
        image_fits(nodes, symbols, statics),
    ensures
        spec_walk(nodes, visited, symbols, statics) is Ok,
        label_address(
            spec_walk(nodes, visited + 1, symbols, statics)->Ok_0.labels,
            match nodes[visited as int].value {
                NodeValueView::Label(name) => name@,
                NodeValueView::Section(name) => name@,
                NodeValueView::Instruction(_) => Seq::empty(),
            },
        ) == Some(spec_walk(nodes, visited, symbols, statics)->Ok_0.bytes.len() as usize),
        spec_walk(nodes, visited + 1, symbols, statics)->Ok_0.bytes == spec_walk(
            nodes,
            visited,
            symbols,
            statics,
        )->Ok_0.bytes,
        spec_walk(nodes, visited, symbols, statics)->Ok_0.bytes.len() <= usize::MAX,
{
    lemma_walk_inv(nodes, nodes.len(), symbols, statics);
    let before = spec_walk(nodes, visited, symbols, statics);
    assert(before is Ok);
    let after = spec_walk(nodes, visited + 1, symbols, statics)->Ok_0;
    assert(after.labels.drop_last() =~= before->Ok_0.labels);
}

/// An address operand takes eight bytes and a number operand as many as
/// its instruction declares, whatever the operand is.
pub proof fn lemma_operand_sizes<'a>(
    instruction: InstructionView<'a>,
    symbols: Seq<Symbol<'a>>,
    statics: Seq<Seq<char>>,
    source: SourceToken<'a>,
    e: Emission<'a>,
)
    requires
        spec_emit_instruction(instruction, symbols, statics, source, e) is Ok,
    ensures
        instruction is Plain ==> spec_emit_instruction(instruction, symbols, statics, source, e)->Ok_0.bytes.len()
            == e.bytes.len() + 1,
        instruction is Address ==> spec_emit_instruction(instruction, symbols, statics, source, e)->Ok_0.bytes.len()
            == e.bytes.len() + 1 + 8,
        instruction matches InstructionView::Number { width, .. } ==> spec_emit_instruction(
            instruction,
            symbols,
            statics,
            source,
            e,
        )->Ok_0.bytes.len() == e.bytes.len() + 1 + width.spec_bytes(),
        instruction is LoadStaticBytes ==> spec_emit_instruction(
            instruction,
            symbols,
            statics,
            source,
            e,
        )->Ok_0.bytes.len() == e.bytes.len() + 1 + 8 + 8,
{
    match instruction {
        InstructionView::Address { code, addr } => {
            let opcode = crate::code_generator::spec_append(e, seq![code.spec_to_byte()]);
            let resolved = crate::code_generator::spec_resolve_address(
                addr.0,
                symbols,
                opcode.bytes.len() as int,
                crate::errors::Reason::InvalidAddress,
            )->Ok_0;
            lemma_slot_len(resolved, 8);
        },
        InstructionView::Number { code, width, value } => {
            let opcode = crate::code_generator::spec_append(e, seq![code.spec_to_byte()]);
            let resolved = crate::code_generator::spec_resolve_number(
                value.0,
                symbols,
                opcode.bytes.len() as int,
                width.spec_bytes() as int,
            )->Ok_0;
            lemma_slot_len(resolved, width.spec_bytes() as int);
        },
        InstructionView::LoadStaticBytes { addr, count } => {
            let opcode = crate::code_generator::spec_append(
                e,
                seq![ByteCodes::LoadStaticBytes.spec_to_byte()],
            );
            let first = crate::code_generator::spec_resolve_address(
                addr.0,
                symbols,
                opcode.bytes.len() as int,
                crate::errors::Reason::InvalidAddress,
            )->Ok_0;
            lemma_slot_len(first, 8);
            let address = crate::code_generator::spec_put(opcode, first, 8, addr.1);
            let second = crate::code_generator::spec_resolve_address(
                crate::code_generator::spec_as_address(count.0),
                symbols,
                address.bytes.len() as int,
                crate::errors::Reason::InvalidCount,
            )->Ok_0;
            lemma_slot_len(second, 8);
        },
        _ => {},
    }
}

/// What is written for an operand has the width of its place.
pub proof fn lemma_slot_len(resolved: crate::code_generator::Resolved<'_>, width: int)
    requires
        0 <= width,
    ensures
        forall|e: Emission<'_>, source: SourceToken<'_>|
            (#[trigger] crate::code_generator::spec_put(e, resolved, width, source)).bytes.len()
                == e.bytes.len() + width,
{
    match resolved {
        crate::code_generator::Resolved::Value(value) => {
            lemma_le_bytes_len(value as nat, width as nat);
        },
        crate::code_generator::Resolved::Pending(name) => {
            lemma_le_bytes_len(0, width as nat);
        },
    }
}

/// After a successful run of the generator, every place that was
/// written as zeros for a label holds that label's address.
pub proof fn lemma_places_filled<'a>(
    nodes: Seq<NodeView<'a>>,
    symbols: Seq<Symbol<'a>>,
    statics: Seq<Seq<char>>,
    place: int,
)
    requires
        spec_generate(nodes, symbols, statics) is Ok,
        image_fits(nodes, symbols, statics),
        0 <= place < spec_walk(nodes, nodes.len(), symbols, statics)->Ok_0.unresolved.len(),
    ensures
        ({
            let e = spec_walk(nodes, nodes.len(), symbols, statics)->Ok_0;
            let label = e.unresolved[place];
            &&& label_address(e.labels, label.name@) is Some
            &&& 9 <= label.location.0
            &&& label.location.0 + 8 <= spec_generate(nodes, symbols, statics)->Ok_0.len()
            &&& spec_generate(nodes, symbols, statics)->Ok_0.subrange(
                label.location.0 as int,
                label.location.0 + 8,
            ) == le_bytes(label_address(e.labels, label.name@)->0 as nat, 8)
        }),
{
    let e = spec_walk(nodes, nodes.len(), symbols, statics)->Ok_0;
    let patched = spec_resolve_all(e.bytes, e.unresolved, e.unresolved.len(), e.labels)->Ok_0;
    lemma_walk_inv(nodes, nodes.len(), symbols, statics);
    lemma_resolve_all(e, e.unresolved.len());
    let label = e.unresolved[place];
    match label_address(e.labels, ENTRY_SECTION_NAME@) {
        Some(address) => {
            lemma_patch(patched, 1, address as nat);
        },
        None => {},
    }
}

/// The opcode that pushes a constant of the given width.
pub open spec fn load_const(width: Width) -> ByteCodes {
    match width {
        Width::W1 => ByteCodes::LoadConst1,
        Width::W2 => ByteCodes::LoadConst2,
        Width::W4 => ByteCodes::LoadConst4,
        Width::W8 => ByteCodes::LoadConst8,
    }
}

/// A constant that fits its width is emitted, and executing what was
/// emitted pushes the constant's little-endian encoding of that width.
pub proof fn lemma_load_const_round_trip<'a>(
    number: Number,
    width: Width,
    source: SourceToken<'a>,
    symbols: Seq<Symbol<'a>>,
    statics: Seq<Seq<char>>,
    e: Emission<'a>,
    code: Seq<u8>,
    base: int,
    m: Machine,
)
    requires
        number.spec_minimum_size() <= width.spec_bytes(),
        0 <= m.pc,
        m.pc + 1 + width.spec_bytes() <= code.len(),
        m.stack.len() + width.spec_bytes() <= m.capacity,
        ({
            let instruction = InstructionView::Number {
                code: load_const(width),
                width,
                value: (NumberLike::spec_from_number(&number), source),
            };
            let emitted = spec_emit_instruction(instruction, symbols, statics, source, e);
            emitted is Ok ==> code.subrange(m.pc, m.pc + 1 + width.spec_bytes()) == emitted->Ok_0.bytes.subrange(
                e.bytes.len() as int,
                (e.bytes.len() + 1 + width.spec_bytes()) as int,
            )
        }),
    ensures
        spec_emit_instruction(
            InstructionView::Number {
                code: load_const(width),
                width,
                value: (NumberLike::spec_from_number(&number), source),
            },
            symbols,
            statics,
            source,
            e,
        ) is Ok,
        spec_step(code, base, m) == proceed(
            m,
            m.pc + 1 + width.spec_bytes(),
            le_bytes(number.spec_bits() as nat, width.spec_bytes()) + m.stack,
        ),
{
    let n = width.spec_bytes() as int;
    let instruction = InstructionView::Number {
        code: load_const(width),
        width,
        value: (NumberLike::spec_from_number(&number), source),
    };
    let emitted = spec_emit_instruction(instruction, symbols, statics, source, e)->Ok_0;
    let value = le_bytes(number.spec_bits() as nat, n as nat);
    lemma_le_bytes_len(number.spec_bits() as nat, n as nat);
    assert(emitted.bytes =~= e.bytes + seq![load_const(width).spec_to_byte()] + value);
    let part = code.subrange(m.pc, m.pc + 1 + n);
    assert(part =~= seq![load_const(width).spec_to_byte()] + value);
    assert(code[m.pc] == part[0]);
    assert(code.subrange(m.pc + 1, m.pc + 1 + n) =~= part.subrange(1, 1 + n));
    assert(part.subrange(1, 1 + n) =~= value);
}


/// An instruction that is refused leaves the machine as it was.
pub proof fn lemma_fault_changes_nothing(code: Seq<u8>, base: int, m: Machine)
    ensures
        spec_step(code, base, m).outcome is Fault ==> spec_step(code, base, m).machine == m,
{
    if 0 <= m.pc < code.len() {
        match ByteCodes::spec_from_byte(code[m.pc]) {
            Some(instruction) => {
                lemma_execute_fault(code, base, m, instruction.spec_operation());
            },
            None => {},
        }
    }
}

/// An instruction that is refused leaves the machine as it was.
pub proof fn lemma_execute_fault(code: Seq<u8>, base: int, m: Machine, operation: Operation)
    ensures
        spec_execute(code, base, m, operation).outcome is Fault ==> spec_execute(
            code,
            base,
            m,
            operation,
        ).machine == m,
{
    match operation {
        Operation::Intr => {
            if m.stack.len() >= 1 {
                let byte = #[verifier::truncate] (crate::exec::stack_value(m.stack, 0, 1) as u8);
                match Interrupts::spec_from_byte(byte) {
                    Some(interrupt) => {
                        lemma_interrupt_fault(code, m, m.pc + 1, 1, interrupt);
                    },
                    None => {},
                }
            }
        },
        Operation::IntrConst => {
            match crate::program::operand_at(code, m.pc + 1, 1) {
                Some(value) => match Interrupts::spec_from_byte(#[verifier::truncate] (value as u8)) {
                    Some(interrupt) => {
                        lemma_interrupt_fault(code, m, m.pc + 2, 0, interrupt);
                    },
                    None => {},
                },
                None => {},
            }
        },
        _ => {},
    }
}

/// An interrupt that is refused leaves the machine as it was.
pub proof fn lemma_interrupt_fault(
    code: Seq<u8>,
    m: Machine,
    pc: int,
    used: int,
    interrupt: Interrupts,
)
    ensures
        spec_interrupt(code, m, pc, used, interrupt).outcome is Fault ==> spec_interrupt(
            code,
            m,
            pc,
            used,
            interrupt,
        ).machine == m,
{
}

/// The operand stack never holds more bytes than its size, which no
/// instruction changes.
pub proof fn lemma_step_keeps_capacity(code: Seq<u8>, base: int, m: Machine)
    requires
        m.stack.len() <= m.capacity,
    ensures
        spec_step(code, base, m).machine.capacity == m.capacity,
        spec_step(code, base, m).machine.stack.len() <= m.capacity,
{
    if 0 <= m.pc < code.len() {
        match ByteCodes::spec_from_byte(code[m.pc]) {
            Some(instruction) => {
                lemma_execute_capacity(code, base, m, instruction.spec_operation());
            },
            None => {},
        }
    }
}

/// No instruction pushes more than the stack has room for.
pub proof fn lemma_execute_capacity(code: Seq<u8>, base: int, m: Machine, operation: Operation)
    requires
        m.stack.len() <= m.capacity,
        0 <= m.pc,
    ensures
        spec_execute(code, base, m, operation).machine.capacity == m.capacity,
        spec_execute(code, base, m, operation).machine.stack.len() <= m.capacity,
{
    match operation {
        Operation::IntArith(op, width) => {
            let n = width.spec_bytes() as int;
            if m.stack.len() >= 2 * n {
                let result = crate::exec::int_arith(
                    op,
                    n as nat,
                    crate::exec::stack_value(m.stack, n, n),
                    crate::exec::stack_value(m.stack, 0, n),
                );
                lemma_le_bytes_len(result, n as nat);
            }
        },
        Operation::VirtualConstToReal => {
            match crate::program::operand_at(code, m.pc + 1, 8) {
                Some(vaddress) => {
                    lemma_le_bytes_len((base + vaddress) as nat, 8);
                },
                None => {},
            }
        },
        Operation::VirtualToReal => {
            lemma_le_bytes_len((base + crate::exec::stack_value(m.stack, 0, 8)) as nat, 8);
        },
        Operation::ReadError => {
            lemma_le_bytes_len(crate::exec::unsigned32(m.error.spec_code()), 4);
        },
        Operation::Call => {
            lemma_le_bytes_len((m.pc + 9) as nat, 8);
        },
        Operation::Intr => {
            if m.stack.len() >= 1 {
                let byte = #[verifier::truncate] (crate::exec::stack_value(m.stack, 0, 1) as u8);
                match Interrupts::spec_from_byte(byte) {
                    Some(interrupt) => {
                        lemma_interrupt_capacity(code, m, m.pc + 1, 1, interrupt);
                    },
                    None => {},
                }
            }
        },
        Operation::IntrConst => {
            match crate::program::operand_at(code, m.pc + 1, 1) {
                Some(value) => match Interrupts::spec_from_byte(#[verifier::truncate] (value as u8)) {
                    Some(interrupt) => {
                        lemma_interrupt_capacity(code, m, m.pc + 2, 0, interrupt);
                    },
                    None => {},
                },
                None => {},
            }
        },
        _ => {},
    }
}

/// An interrupt pushes nothing.
pub proof fn lemma_interrupt_capacity(
    code: Seq<u8>,
    m: Machine,
    pc: int,
    used: int,
    interrupt: Interrupts,
)
    requires
        m.stack.len() <= m.capacity,
        0 <= used <= m.stack.len(),
    ensures
        spec_interrupt(code, m, pc, used, interrupt).machine.capacity == m.capacity,
        spec_interrupt(code, m, pc, used, interrupt).machine.stack.len() <= m.capacity,
{
}

/// A repeated inclusion is skipped like an empty line: where the next
/// line of the innermost unit includes a file, and the host finds that
/// file under a canonical path that is loaded already, the session is left
/// as if the line had held nothing.
pub proof fn lemma_included_again<'a>(s: Session<'a>, unit_path: &'a str)
    requires
        s.waiting is Nothing,
        s.units.len() > 0,
        s.units.last().expansions.len() == 0,
        0 <= s.units.last().next < s.units.last().lines.len(),
        ({
            let tokens = s.units.last().lines[s.units.last().next];
            &&& tokens.len() == 2
            &&& tokens[0].value == TokenValue::PseudoInstruction(PseudoInstructions::IncludeAsm)
            &&& tokens[1].value is StringLiteral
        }),
        s.loaded.contains(unit_path@),
    ensures
        spec_session_step(s) is Ok,
        spec_session_step(s)->Ok_0.1 is Probe,
        spec_reply(spec_session_step(s)->Ok_0.0, ReplyView::Found(unit_path)) == Ok::<
            (Session<'a>, Request<'a>),
            AsmError<'a>,
        >(
            (
                with_unit(s, UnitView { next: s.units.last().next + 1, ..s.units.last() }),
                Request::Continue,
            ),
        ),
{
    let unit = s.units.last();
    let tokens = unit.lines[unit.next];
    let rest = spec_operands(tokens, 2, s.symbols);
    assert(rest == Ok::<Seq<AsmOperand<'a>>, AsmError<'a>>(Seq::empty()));
    let operand = AsmOperand {
        value: AsmValue::StringLiteral(tokens[1].value->StringLiteral_0),
        source: tokens[1].source,
    };
    let operands = spec_operands(tokens, 1, s.symbols);
    assert(operands == Ok::<Seq<AsmOperand<'a>>, AsmError<'a>>(seq![operand] + Seq::empty()));
    assert(operands->Ok_0.len() == 1);
    assert(operands->Ok_0[0] == operand);
    let advanced = with_unit(s, UnitView { next: unit.next + 1, ..unit });
    let after = spec_session_step(s)->Ok_0.0;
    assert(Session { waiting: Waiting::Nothing, ..after } =~= advanced);
}


/// A number of `n` bytes on top of the stack is read back as it was pushed.
pub proof fn lemma_value_on_top(value: nat, n: nat, rest: Seq<u8>)
    requires
        value < radix_pow(n),
    ensures
        stack_value(le_bytes(value, n) + rest, 0, n as int) == value,
        (le_bytes(value, n) + rest).subrange(n as int, (n + rest.len()) as int) == rest,
        (le_bytes(value, n) + rest).len() == n + rest.len(),
{
    lemma_le_bytes_len(value, n);
    lemma_le_value_of_bytes(value, n);
    vstd::arithmetic::div_mod::lemma_small_mod(value, radix_pow(n));
    let stack = le_bytes(value, n) + rest;
    assert(stack.subrange(0, n as int) =~= le_bytes(value, n));
    assert(stack.subrange(n as int, (n + rest.len()) as int) =~= rest);
}

/// The operand that is pushed last is the second: after `first` and then
/// `second` have been pushed, the operation leaves `first op second`.
pub proof fn lemma_operands_in_push_order(
    m: Machine,
    op: Arith,
    width: Width,
    first: nat,
    second: nat,
    rest: Seq<u8>,
)
    requires
        first < radix_pow(width.spec_bytes()),
        second < radix_pow(width.spec_bytes()),
        m.stack == le_bytes(second, width.spec_bytes()) + (le_bytes(first, width.spec_bytes()) + rest),
        (op is Div || op is Mod) ==> second != 0,
    ensures
        spec_int_arith(m, op, width) == proceed(
            m,
            m.pc + 1,
            le_bytes(int_arith(op, width.spec_bytes(), first, second), width.spec_bytes()) + rest,
        ),
        op is Sub ==> int_arith(op, width.spec_bytes(), first, second) == (first - second) % (
        radix_pow(width.spec_bytes()) as int),
{
    let n = width.spec_bytes();
    let under = le_bytes(first, n) + rest;
    lemma_value_on_top(second, n, under);
    lemma_value_on_top(first, n, rest);
    assert(m.stack.subrange(n as int, 2 * n as int) =~= under.subrange(0, n as int));
    assert(m.stack.subrange(2 * n as int, m.stack.len() as int) =~= rest);
}

/// A symbol that a label or a section has defined cannot be defined
/// again: the second definition is refused with the error that names the
/// token of the second name and the place of the first definition, which
/// is the main operator of the first line.
pub proof fn lemma_redefinition_refused<'a>(
    s: Session<'a>,
    first_operator: Token<'a>,
    first: Seq<AsmOperand<'a>>,
    first_is_label: bool,
    second_operator: Token<'a>,
    second: Seq<AsmOperand<'a>>,
    second_is_label: bool,
)
    requires
        spec_define_position(s, first_operator, first, first_is_label) is Ok,
        second.len() == 1,
        second[0].value == first[0].value,
    ensures
        spec_define_position(
            spec_define_position(s, first_operator, first, first_is_label)->Ok_0.0,
            second_operator,
            second,
            second_is_label,
        ) == Err::<(Session<'a>, Request<'a>), AsmError<'a>>(
            AsmError::spec_redeclaration(second[0].source, first_operator.source),
        ),
{
}

/// A symbol that has a value cannot be defined by a label or a section.
pub proof fn lemma_defined_symbol_refused<'a>(
    s: Session<'a>,
    main_operator: Token<'a>,
    operands: Seq<AsmOperand<'a>>,
    id: SymbolID,
    label: bool,
)
    requires
        operands.len() == 1,
        operands[0].value == AsmValue::Symbol(id),
        id.0 < s.symbols.len(),
        s.symbols[id.0 as int].value is Some,
    ensures
        spec_define_position(s, main_operator, operands, label) == Err::<
            (Session<'a>, Request<'a>),
            AsmError<'a>,
        >(AsmError::spec_redeclaration(operands[0].source, s.symbols[id.0 as int].source)),
{
}

/// The interrupt that prints a static string takes the length and then
/// the offset off the stack, hands the host exactly the bytes of the image
/// from the offset on, as text, and changes nothing else.
pub proof fn lemma_print_static_string(
    code: Seq<u8>,
    m: Machine,
    pc: int,
    length: nat,
    vaddress: nat,
    rest: Seq<u8>,
)
    requires
        length < radix_pow(8),
        vaddress < radix_pow(8),
        vaddress + length <= code.len(),
        m.stack == le_bytes(length, 8) + (le_bytes(vaddress, 8) + rest),
    ensures
        spec_interrupt(code, m, pc, 0, Interrupts::PrintStaticString) == (Stepped {
            machine: Machine {
                pc,
                stack: rest,
                outbox: code.subrange(vaddress as int, (vaddress + length) as int),
                ..m
            },
            outcome: Outcome::Host(HostCall::PrintData { count: length as u64, text: true }),
        }),
{
    let under = le_bytes(vaddress, 8) + rest;
    lemma_value_on_top(length, 8, under);
    lemma_value_on_top(vaddress, 8, rest);
    assert(m.stack.subrange(8, 16) =~= under.subrange(0, 8));
    assert(m.stack.subrange(16, m.stack.len() as int) =~= rest);
    crate::encoding::lemma_radix_pow_values();
}

/// No more units are loaded than there are paths: where every loaded path
/// is one of finitely many, the loaded units are at most as many. With
/// [`crate::assembler::lemma_loaded_grows`], by which each arrival of a unit
/// adds a path, this bounds the number of units that a session ever loads,
/// whatever includes what.
pub proof fn lemma_loads_bounded(s: Session<'_>, paths: Set<Seq<char>>)
    requires
        session_inv(s),
        paths.finite(),
        forall|i: int| 0 <= i < s.loaded.len() ==> paths.contains(#[trigger] s.loaded[i]),
    ensures
        s.loaded.len() <= paths.len(),
{
    s.loaded.unique_seq_to_set();
    assert(s.loaded.to_set().subset_of(paths)) by {
        assert forall|path: Seq<char>| s.loaded.to_set().contains(path) implies paths.contains(
            path,
        ) by {
            let i = choose|i: int| 0 <= i < s.loaded.len() && s.loaded[i] == path;
            assert(paths.contains(s.loaded[i]));
        }
    }
    vstd::set_lib::lemma_len_subset(s.loaded.to_set(), paths);
}


/// A whole run skips a repeated inclusion: where the next line of the
/// innermost unit includes a file that the host holds under a path that is
/// loaded already, the run ends as the run does that starts behind that line.
/// So the nodes, and with them the bytecode, are those of a source without
/// the line.
pub proof fn lemma_run_skips_repeated_include<'a>(
    s: Session<'a>,
    files: Seq<LexedFileView<'a>>,
    root: &'a str,
    budget: nat,
)
    requires
        s.waiting is Nothing,
        s.units.len() > 0,
        s.units.last().expansions.len() == 0,
        0 <= s.units.last().next < s.units.last().lines.len(),
        ({
            let tokens = s.units.last().lines[s.units.last().next];
            &&& tokens.len() == 2
            &&& tokens[0].value == TokenValue::PseudoInstruction(PseudoInstructions::IncludeAsm)
            &&& tokens[1].value matches TokenValue::StringLiteral(id) && id.0 < s.statics.len()
                && (spec_file_index(files, files.len(), s.statics[id.0 as int]) matches Some(index)
                && s.loaded.contains(files[index].path@))
        }),
    ensures
        spec_drive(s, Request::Continue, files, root, budget + 2) == spec_drive(
            with_unit(s, UnitView { next: s.units.last().next + 1, ..s.units.last() }),
            Request::Continue,
            files,
            root,
            budget,
        ),
{
    let unit = s.units.last();
    let tokens = unit.lines[unit.next];
    let id = tokens[1].value->StringLiteral_0;
    let index = spec_file_index(files, files.len(), s.statics[id.0 as int])->0;
    let unit_path = files[index].path;
    lemma_included_again(s, unit_path);
    let stepped = spec_session_step(s)->Ok_0;
    let rest = spec_operands(tokens, 2, s.symbols);
    assert(rest == Ok::<Seq<AsmOperand<'a>>, AsmError<'a>>(Seq::empty()));
    let operand = AsmOperand { value: AsmValue::StringLiteral(id), source: tokens[1].source };
    let operands = spec_operands(tokens, 1, s.symbols);
    assert(operands == Ok::<Seq<AsmOperand<'a>>, AsmError<'a>>(seq![operand] + Seq::empty()));
    assert(operands->Ok_0.len() == 1);
    assert(operands->Ok_0[0] == operand);
    assert(stepped.0.statics == s.statics);
    assert(stepped.1 == Request::Probe {
        from: Some(tokens[0].source.unit_path),
        include_path: None,
        path: id,
    });
    assert(spec_answer(files, stepped.0.statics, stepped.1) == ReplyView::Found(unit_path));
    let advanced = with_unit(s, UnitView { next: unit.next + 1, ..unit });
    assert(spec_drive(s, Request::Continue, files, root, budget + 2) == spec_drive(
        stepped.0,
        stepped.1,
        files,
        root,
        (budget + 1) as nat,
    ));
    assert(spec_drive(stepped.0, stepped.1, files, root, (budget + 1) as nat) == spec_drive(
        advanced,
        Request::Continue,
        files,
        root,
        budget,
    ));
}

} // verus!
