//! A bytecode image with the position of the next byte to read.

use vstd::prelude::*;
use vstd::slice::slice_subrange;
use crate::encoding::{decode_le, le_value, lemma_le_value_bound, lemma_radix_pow_values};
use crate::isa::{Address, ByteCodes, VirtualAddress};

verus! {

/// The number that `count` bytes of `code` from `at` on stand for, if they all exist.
pub open spec fn operand_at(code: Seq<u8>, at: int, count: int) -> Option<nat> {
    if 0 <= at && 0 <= count && at + count <= code.len() {
        Some(le_value(code.subrange(at, at + count)))
    } else {
        None
    }
}

/// Bytecode, the program counter, and the host address that the image is loaded at.
pub struct Program<'a> {
    code: &'a [u8],
    program_counter: VirtualAddress,
    base: Address,
}

impl<'a> Program<'a> {
    /// The bytes of the image.
    pub closed spec fn image(&self) -> Seq<u8> {
        self.code@
    }

    /// The offset of the next byte to read.
    pub closed spec fn counter(&self) -> int {
        self.program_counter.0 as int
    }

    /// The host address of the image's first byte.
    pub closed spec fn origin(&self) -> int {
        self.base as int
    }

    /// A program at its first byte, with an image that starts at host address zero.
    pub fn new(code: &'a [u8]) -> (program: Self)
        requires
            code@.len() >= 8,
        ensures
            program.image() == code@,
            program.counter() == 0,
            program.origin() == 0,
    {
        Self { code, program_counter: VirtualAddress(0), base: 0 }
    }

    /// A program at its first byte, with an image that starts at host address `base`.
    pub fn with_base(code: &'a [u8], base: Address) -> (program: Self)
        requires
            code@.len() >= 8,
        ensures
            program.image() == code@,
            program.counter() == 0,
            program.origin() == base,
    {
        Self { code, program_counter: VirtualAddress(0), base }
    }

    /// The length of the image.
    pub fn len(&self) -> (n: usize)
        ensures
            n == self.image().len(),
    {
        self.code.len()
    }

    /// The program counter.
    pub fn position(&self) -> (at: VirtualAddress)
        ensures
            at.0 == self.counter(),
    {
        self.program_counter
    }

    /// The host address of the image's first byte.
    pub fn base(&self) -> (base: Address)
        ensures
            base == self.origin(),
    {
        self.base
    }

    /// Moves the program counter to `target`.
    pub fn jump_to(&mut self, target: VirtualAddress)
        ensures
            final(self).counter() == target.0,
            final(self).image() == old(self).image(),
            final(self).origin() == old(self).origin(),
    {
        self.program_counter = target;
    }

    /// Reads the opcode at the program counter and steps over it. Past the
    /// end of the image there is none, and the counter stays.
    pub fn fetch_instruction(&mut self) -> (instruction: Option<ByteCodes>)
        ensures
            final(self).image() == old(self).image(),
            final(self).origin() == old(self).origin(),
            old(self).counter() < old(self).image().len() ==> {
                &&& instruction == ByteCodes::spec_from_byte(
                    old(self).image()[old(self).counter() as int],
                )
                &&& final(self).counter() == old(self).counter() + 1
            },
            old(self).counter() >= old(self).image().len() ==> {
                &&& instruction is None
                &&& final(self).counter() == old(self).counter()
            },
    {
        if self.program_counter.0 < self.code.len() {
            let byte = self.code[self.program_counter.0];
            self.program_counter = VirtualAddress(self.program_counter.0 + 1);
            ByteCodes::from_byte(byte)
        } else {
            None
        }
    }

    /// Reads the number of `count` bytes that lies `offset` bytes after the
    /// program counter, without moving the counter.
    pub fn operand(&self, offset: usize, count: usize) -> (value: Option<u64>)
        requires
            count <= 8,
        ensures
            value is Some == operand_at(self.image(), self.counter() + offset, count as int) is Some,
            value is Some ==> value->0 == operand_at(
                self.image(),
                self.counter() + offset,
                count as int,
            )->0,
    {
        let size = self.code.len();
        let at = self.program_counter.0;
        if at > size || offset > size - at || count > size - at - offset {
            None
        } else {
            let part = slice_subrange(self.code, at + offset, at + offset + count);
            Some(decode_le(part))
        }
    }

    /// The `count` bytes of the image from `address` on.
    pub fn get_static_bytes(&self, address: VirtualAddress, size: usize) -> (bytes: &'a [u8])
        requires
            address.0 + size <= self.image().len(),
        ensures
            bytes@ == self.image().subrange(address.0 as int, address.0 + size),
    {
        let length = self.code.len();
        slice_subrange(self.code, address.0, address.0 + size)
    }

    /// The byte of the image at `address`.
    pub fn get_static1(&self, address: VirtualAddress) -> (value: u8)
        requires
            address.0 < self.image().len(),
        ensures
            value == self.image()[address.0 as int],
    {
        self.code[address.0]
    }

    /// The number in the two bytes of the image from `address` on.
    pub fn get_static2(&self, address: VirtualAddress) -> (value: u16)
        requires
            address.0 + 2 <= self.image().len(),
        ensures
            value == le_value(self.image().subrange(address.0 as int, address.0 + 2)),
    {
        let part = self.get_static_bytes(address, 2);
        proof {
            lemma_le_value_bound(part@);
            lemma_radix_pow_values();
        }
        decode_le(part) as u16
    }

    /// The number in the four bytes of the image from `address` on.
    pub fn get_static4(&self, address: VirtualAddress) -> (value: u32)
        requires
            address.0 + 4 <= self.image().len(),
        ensures
            value == le_value(self.image().subrange(address.0 as int, address.0 + 4)),
    {
        let part = self.get_static_bytes(address, 4);
        proof {
            lemma_le_value_bound(part@);
            lemma_radix_pow_values();
        }
        decode_le(part) as u32
    }

    /// The number in the eight bytes of the image from `address` on.
    pub fn get_static8(&self, address: VirtualAddress) -> (value: u64)
        requires
            address.0 + 8 <= self.image().len(),
        ensures
            value == le_value(self.image().subrange(address.0 as int, address.0 + 8)),
    {
        let part = self.get_static_bytes(address, 8);
        decode_le(part)
    }

    /// Reads `count` bytes at the program counter and steps over them.
    pub fn fetch_bytes(&mut self, count: usize) -> (bytes: &'a [u8])
        requires
            old(self).counter() + count <= old(self).image().len(),
        ensures
            final(self).image() == old(self).image(),
            final(self).origin() == old(self).origin(),
            final(self).counter() == old(self).counter() + count,
            bytes@ == old(self).image().subrange(
                old(self).counter(),
                old(self).counter() + count,
            ),
    {
        let at = self.program_counter.0;
        let size = self.code.len();
        let bytes = slice_subrange(self.code, at, at + count);
        self.program_counter = VirtualAddress(at + count);
        bytes
    }

    /// Reads the byte at the program counter and steps over it.
    pub fn fetch_1(&mut self) -> (value: u8)
        requires
            old(self).counter() < old(self).image().len(),
        ensures
            final(self).image() == old(self).image(),
            final(self).origin() == old(self).origin(),
            final(self).counter() == old(self).counter() + 1,
            value == old(self).image()[old(self).counter() as int],
    {
        let bytes = self.fetch_bytes(1);
        bytes[0]
    }

    /// Reads the number in the two bytes at the program counter and steps over them.
    pub fn fetch_2(&mut self) -> (value: u16)
        requires
            old(self).counter() + 2 <= old(self).image().len(),
        ensures
            final(self).image() == old(self).image(),
            final(self).origin() == old(self).origin(),
            final(self).counter() == old(self).counter() + 2,
            Some(value as nat) == operand_at(old(self).image(), old(self).counter(), 2),
    {
        let bytes = self.fetch_bytes(2);
        proof {
            lemma_le_value_bound(bytes@);
            lemma_radix_pow_values();
        }
        decode_le(bytes) as u16
    }

    /// Reads the number in the four bytes at the program counter and steps over them.
    pub fn fetch_4(&mut self) -> (value: u32)
        requires
            old(self).counter() + 4 <= old(self).image().len(),
        ensures
            final(self).image() == old(self).image(),
            final(self).origin() == old(self).origin(),
            final(self).counter() == old(self).counter() + 4,
            Some(value as nat) == operand_at(old(self).image(), old(self).counter(), 4),
    {
        let bytes = self.fetch_bytes(4);
        proof {
            lemma_le_value_bound(bytes@);
            lemma_radix_pow_values();
        }
        decode_le(bytes) as u32
    }

    /// Reads the number in the eight bytes at the program counter and steps over them.
    pub fn fetch_8(&mut self) -> (value: u64)
        requires
            old(self).counter() + 8 <= old(self).image().len(),
        ensures
            final(self).image() == old(self).image(),
            final(self).origin() == old(self).origin(),
            final(self).counter() == old(self).counter() + 8,
            Some(value as nat) == operand_at(old(self).image(), old(self).counter(), 8),
    {
        let bytes = self.fetch_bytes(8);
        decode_le(bytes)
    }

    /// The host address of a byte of the image.
    pub fn virtual_to_real(&self, vaddress: VirtualAddress) -> (address: Address)
        requires
            self.origin() + vaddress.0 <= usize::MAX,
        ensures
            address == self.origin() + vaddress.0,
    {
        vaddress.0 + self.base
    }
}

} // verus!
