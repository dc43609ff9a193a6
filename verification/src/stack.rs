//! The operand stack: a byte buffer of fixed size that grows downward.

use vstd::prelude::*;
use crate::encoding::{decode_le, encode_le, le_bytes, le_value, lemma_le_value_bound, lemma_radix_pow_values, lemma_le_bytes_len};

verus! {

/// A fixed buffer of bytes. The bytes in use are the last ones; a push puts
/// its bytes just before them.
pub struct Stack {
    data: Vec<u8>,
    tos: usize,
}

impl View for Stack {
    type V = Seq<u8>;

    /// The bytes in use, the most recently pushed first.
    closed spec fn view(&self) -> Seq<u8> {
        self.data@.subrange(self.tos as int, self.data@.len() as int)
    }
}

impl Stack {
    /// The top of the stack lies inside the buffer.
    pub closed spec fn wf(&self) -> bool {
        self.tos <= self.data@.len()
    }

    /// The size that the stack was made with.
    pub closed spec fn capacity(&self) -> nat {
        self.data@.len()
    }

    /// The bytes in use are never more than the size.
    pub proof fn lemma_len(&self)
        requires
            self.wf(),
        ensures
            self@.len() <= self.capacity(),
    {
    }

    /// An empty stack of `size` bytes.
    pub fn new(size: usize) -> (stack: Stack)
        ensures
            stack.wf(),
            stack@ == Seq::<u8>::empty(),
            stack.capacity() == size,
    {
        let mut data: Vec<u8> = Vec::new();
        let mut made: usize = 0;
        while made < size
            invariant
                made <= size,
                data@.len() == made,
            decreases size - made,
        {
            data.push(0u8);
            made = made + 1;
        }
        let stack = Stack { data, tos: size };
        assert(stack@ =~= Seq::<u8>::empty());
        stack
    }

    /// The size that the stack was made with.
    pub fn size(&self) -> (n: usize)
        ensures
            n == self.capacity(),
    {
        self.data.len()
    }

    /// The number of bytes in use.
    pub fn len(&self) -> (n: usize)
        requires
            self.wf(),
        ensures
            n == self@.len(),
            n <= self.capacity(),
    {
        self.data.len() - self.tos
    }

    /// The offset of the topmost byte in the buffer, which is the size of
    /// the buffer where the stack is empty.
    pub fn tos(&self) -> (offset: usize)
        requires
            self.wf(),
        ensures
            offset == self.capacity() - self@.len(),
    {
        self.tos
    }

    /// The number of bytes that can still be pushed.
    pub fn room(&self) -> (n: usize)
        requires
            self.wf(),
        ensures
            n == self.capacity() - self@.len(),
    {
        self.tos
    }

    /// Copies `count` bytes that lie `offset` bytes below the top.
    pub fn read_bytes(&self, offset: usize, count: usize) -> (bytes: Vec<u8>)
        requires
            self.wf(),
            offset + count <= self@.len(),
        ensures
            bytes@ == self@.subrange(offset as int, offset + count),
    {
        let mut bytes: Vec<u8> = Vec::new();
        let mut at: usize = 0;
        let size = self.data.len();
        while at < count
            invariant
                self.wf(),
                size == self.data@.len(),
                offset + count <= self@.len(),
                at <= count,
                bytes@ == self@.subrange(offset as int, offset + at),
            decreases count - at,
        {
            assert(self@.len() == self.data@.len() - self.tos);
            bytes.push(self.data[self.tos + offset + at]);
            at = at + 1;
            assert(bytes@ =~= self@.subrange(offset as int, offset + at));
        }
        bytes
    }

    /// Reads the little-endian number of `count` bytes that lies `offset` bytes below the top.
    pub fn read(&self, offset: usize, count: usize) -> (value: u64)
        requires
            self.wf(),
            count <= 8,
            offset + count <= self@.len(),
        ensures
            value == le_value(self@.subrange(offset as int, offset + count)),
    {
        let bytes = self.read_bytes(offset, count);
        decode_le(bytes.as_slice())
    }

    /// Removes `count` bytes from the top.
    pub fn discard(&mut self, count: usize)
        requires
            old(self).wf(),
            count <= old(self)@.len(),
        ensures
            final(self).wf(),
            final(self).capacity() == old(self).capacity(),
            final(self)@ == old(self)@.subrange(count as int, old(self)@.len() as int),
    {
        let size = self.data.len();
        assert(self@.len() == size - self.tos);
        self.tos = self.tos + count;
        assert(self@ =~= old(self)@.subrange(count as int, old(self)@.len() as int));
    }

    /// The topmost byte.
    pub fn peek_1(&self) -> (value: u8)
        requires
            self.wf(),
            1 <= self@.len(),
        ensures
            value == le_value(self@.subrange(0, 1)),
    {
        proof {
            lemma_le_value_bound(self@.subrange(0, 1));
            lemma_radix_pow_values();
        }
        self.read(0, 1) as u8
    }

    /// The number in the two topmost bytes.
    pub fn peek_2(&self) -> (value: u16)
        requires
            self.wf(),
            2 <= self@.len(),
        ensures
            value == le_value(self@.subrange(0, 2)),
    {
        proof {
            lemma_le_value_bound(self@.subrange(0, 2));
            lemma_radix_pow_values();
        }
        self.read(0, 2) as u16
    }

    /// The number in the four topmost bytes.
    pub fn peek_4(&self) -> (value: u32)
        requires
            self.wf(),
            4 <= self@.len(),
        ensures
            value == le_value(self@.subrange(0, 4)),
    {
        proof {
            lemma_le_value_bound(self@.subrange(0, 4));
            lemma_radix_pow_values();
        }
        self.read(0, 4) as u32
    }

    /// The number in the eight topmost bytes.
    pub fn peek_8(&self) -> (value: u64)
        requires
            self.wf(),
            8 <= self@.len(),
        ensures
            value == le_value(self@.subrange(0, 8)),
    {
        self.read(0, 8)
    }

    /// Puts `bytes` on top, the first of them topmost.
    pub fn push_bytes(&mut self, bytes: &[u8])
        requires
            old(self).wf(),
            bytes@.len() + old(self)@.len() <= old(self).capacity(),
        ensures
            final(self).wf(),
            final(self).capacity() == old(self).capacity(),
            final(self)@ == bytes@ + old(self)@,
    {
        let count = bytes.len();
        let base = self.tos - count;
        let mut at: usize = 0;
        while at < count
            invariant
                count == bytes@.len(),
                base + count == self.tos,
                self.tos == old(self).tos,
                self.tos <= self.data@.len(),
                self.data@.len() == old(self).data@.len(),
                at <= count,
                forall|i: int| self.tos <= i < self.data@.len() ==> self.data@[i] == old(self).data@[i],
                forall|i: int| 0 <= i < at ==> self.data@[base + i] == bytes@[i],
            decreases count - at,
        {
            self.data.set(base + at, bytes[at]);
            at = at + 1;
        }
        self.tos = base;
        assert(self@ =~= bytes@ + old(self)@);
    }

    /// Pushes `count` bytes read from `src`.
    pub fn push_from(&mut self, src: &[u8], count: usize)
        requires
            old(self).wf(),
            count <= src@.len(),
            count + old(self)@.len() <= old(self).capacity(),
        ensures
            final(self).wf(),
            final(self).capacity() == old(self).capacity(),
            final(self)@ == src@.subrange(0, count as int) + old(self)@,
    {
        let part = vstd::slice::slice_subrange(src, 0, count);
        self.push_bytes(part);
    }

    /// Pushes the `width` low-order bytes of `value`, least significant topmost.
    pub fn push_value(&mut self, value: u64, width: usize)
        requires
            old(self).wf(),
            width + old(self)@.len() <= old(self).capacity(),
        ensures
            final(self).wf(),
            final(self).capacity() == old(self).capacity(),
            final(self)@ == le_bytes(value as nat, width as nat) + old(self)@,
    {
        let bytes = encode_le(value, width);
        proof {
            lemma_le_bytes_len(value as nat, width as nat);
        }
        self.push_bytes(bytes.as_slice());
    }

    /// Pushes one byte.
    pub fn push_1(&mut self, byte: u8)
        requires
            old(self).wf(),
            1 + old(self)@.len() <= old(self).capacity(),
        ensures
            final(self).wf(),
            final(self).capacity() == old(self).capacity(),
            final(self)@ == le_bytes(byte as nat, 1) + old(self)@,
    {
        self.push_value(byte as u64, 1)
    }

    /// Pushes a number of two bytes, the least significant topmost.
    pub fn push_2(&mut self, value: u16)
        requires
            old(self).wf(),
            2 + old(self)@.len() <= old(self).capacity(),
        ensures
            final(self).wf(),
            final(self).capacity() == old(self).capacity(),
            final(self)@ == le_bytes(value as nat, 2) + old(self)@,
    {
        self.push_value(value as u64, 2)
    }

    /// Pushes a number of four bytes, the least significant topmost.
    pub fn push_4(&mut self, value: u32)
        requires
            old(self).wf(),
            4 + old(self)@.len() <= old(self).capacity(),
        ensures
            final(self).wf(),
            final(self).capacity() == old(self).capacity(),
            final(self)@ == le_bytes(value as nat, 4) + old(self)@,
    {
        self.push_value(value as u64, 4)
    }

    /// Pushes a number of eight bytes, the least significant topmost.
    pub fn push_8(&mut self, value: u64)
        requires
            old(self).wf(),
            8 + old(self)@.len() <= old(self).capacity(),
        ensures
            final(self).wf(),
            final(self).capacity() == old(self).capacity(),
            final(self)@ == le_bytes(value as nat, 8) + old(self)@,
    {
        self.push_value(value, 8)
    }

    /// Takes `count` bytes off the top, the topmost first.
    pub fn pop_bytes(&mut self, count: usize) -> (bytes: Vec<u8>)
        requires
            old(self).wf(),
            count <= old(self)@.len(),
        ensures
            final(self).wf(),
            final(self).capacity() == old(self).capacity(),
            bytes@ == old(self)@.subrange(0, count as int),
            final(self)@ == old(self)@.subrange(count as int, old(self)@.len() as int),
    {
        let bytes = self.read_bytes(0, count);
        self.discard(count);
        bytes
    }

    /// Takes one byte off the top.
    pub fn pop_1(&mut self) -> (value: u8)
        requires
            old(self).wf(),
            1 <= old(self)@.len(),
        ensures
            final(self).wf(),
            final(self).capacity() == old(self).capacity(),
            value == le_value(old(self)@.subrange(0, 1)),
            final(self)@ == old(self)@.subrange(1, old(self)@.len() as int),
    {
        let value = self.peek_1();
        self.discard(1);
        value
    }

    /// Takes a number of two bytes off the top.
    pub fn pop_2(&mut self) -> (value: u16)
        requires
            old(self).wf(),
            2 <= old(self)@.len(),
        ensures
            final(self).wf(),
            final(self).capacity() == old(self).capacity(),
            value == le_value(old(self)@.subrange(0, 2)),
            final(self)@ == old(self)@.subrange(2, old(self)@.len() as int),
    {
        let value = self.peek_2();
        self.discard(2);
        value
    }

    /// Takes a number of four bytes off the top.
    pub fn pop_4(&mut self) -> (value: u32)
        requires
            old(self).wf(),
            4 <= old(self)@.len(),
        ensures
            final(self).wf(),
            final(self).capacity() == old(self).capacity(),
            value == le_value(old(self)@.subrange(0, 4)),
            final(self)@ == old(self)@.subrange(4, old(self)@.len() as int),
    {
        let value = self.peek_4();
        self.discard(4);
        value
    }

    /// Takes a number of eight bytes off the top.
    pub fn pop_8(&mut self) -> (value: u64)
        requires
            old(self).wf(),
            8 <= old(self)@.len(),
        ensures
            final(self).wf(),
            final(self).capacity() == old(self).capacity(),
            value == le_value(old(self)@.subrange(0, 8)),
            final(self)@ == old(self)@.subrange(8, old(self)@.len() as int),
    {
        let value = self.peek_8();
        self.discard(8);
        value
    }
}

} // verus!
