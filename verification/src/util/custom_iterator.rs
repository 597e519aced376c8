//! A cursor over a byte buffer, with big- and little-endian integer readers.

use crate::util::error_handling::ReadError;
use vstd::prelude::*;
use vstd::slice::slice_to_vec;

verus! {

/// The value of two bytes, most significant first.
pub open spec fn be_u16_of(s: Seq<u8>) -> int {
    s[0] as int * 0x100 + s[1] as int
}

/// The value of four bytes, most significant first.
pub open spec fn be_u32_of(s: Seq<u8>) -> int {
    s[0] as int * 0x100_0000 + s[1] as int * 0x1_0000 + s[2] as int * 0x100 + s[3] as int
}

/// The value of eight bytes, most significant first.
pub open spec fn be_u64_of(s: Seq<u8>) -> int {
    be_u32_of(s.subrange(0, 4)) * 0x1_0000_0000 + be_u32_of(s.subrange(4, 8))
}

/// The value of two bytes, least significant first.
pub open spec fn le_u16_of(s: Seq<u8>) -> int {
    s[1] as int * 0x100 + s[0] as int
}

/// The value of four bytes, least significant first.
pub open spec fn le_u32_of(s: Seq<u8>) -> int {
    s[3] as int * 0x100_0000 + s[2] as int * 0x1_0000 + s[1] as int * 0x100 + s[0] as int
}

/// The value of eight bytes, least significant first.
pub open spec fn le_u64_of(s: Seq<u8>) -> int {
    le_u32_of(s.subrange(4, 8)) * 0x1_0000_0000 + le_u32_of(s.subrange(0, 4))
}

/// The two's complement reading of an unsigned value of `bits` bits,
/// where `half` is 2^(bits - 1).
pub open spec fn as_signed(value: int, half: int) -> int {
    if value >= half {
        value - 2 * half
    } else {
        value
    }
}

/// The unsigned value whose two's complement reading is `value`,
/// where `half` is 2^(bits - 1).
pub open spec fn as_unsigned(value: int, half: int) -> int {
    if value < 0 {
        value + 2 * half
    } else {
        value
    }
}

/// A position in a byte sequence. The position may lie behind the end.
pub struct Cursor {
    pub bytes: Seq<u8>,
    pub position: int,
}

impl Cursor {
    /// How many bytes are left to read.
    pub open spec fn remaining(self) -> int {
        if self.position > self.bytes.len() {
            0
        } else {
            self.bytes.len() - self.position
        }
    }

    /// The cursor moved forward by `amount` bytes.
    pub open spec fn skipped(self, amount: int) -> Cursor {
        Cursor { bytes: self.bytes, position: self.position + amount }
    }

    /// The next `amount` bytes, meaningful where that many are left.
    pub open spec fn window(self, amount: int) -> Seq<u8> {
        Seq::new(
            if amount >= 0 {
                amount as nat
            } else {
                0
            },
            |i: int| self.bytes[self.position + i],
        )
    }

    /// All bytes that are left.
    pub open spec fn rest(self) -> Seq<u8> {
        self.window(self.remaining())
    }

    pub open spec fn peek(self) -> Result<u8, ReadError> {
        if self.remaining() >= 1 {
            Ok(self.bytes[self.position])
        } else {
            Err(ReadError::EndOfData)
        }
    }

    /// Reads one byte; at the end of the data nothing moves.
    pub open spec fn next(self) -> (Result<u8, ReadError>, Cursor) {
        if self.remaining() >= 1 {
            (Ok(self.bytes[self.position]), self.skipped(1))
        } else {
            (Err(ReadError::EndOfData), self)
        }
    }

    /// Reads `amount` bytes; where fewer are left nothing moves.
    pub open spec fn take(self, amount: int) -> (Result<Seq<u8>, ReadError>, Cursor) {
        if amount <= self.remaining() {
            (Ok(self.window(amount)), self.skipped(amount))
        } else {
            (Err(ReadError::EndOfData), self)
        }
    }

    pub open spec fn be_u16(self) -> (Result<u16, ReadError>, Cursor) {
        match self.take(2) {
            (Ok(s), c) => (Ok(be_u16_of(s) as u16), c),
            (Err(e), c) => (Err(e), c),
        }
    }

    pub open spec fn be_u32(self) -> (Result<u32, ReadError>, Cursor) {
        match self.take(4) {
            (Ok(s), c) => (Ok(be_u32_of(s) as u32), c),
            (Err(e), c) => (Err(e), c),
        }
    }

    pub open spec fn be_u64(self) -> (Result<u64, ReadError>, Cursor) {
        match self.take(8) {
            (Ok(s), c) => (Ok(be_u64_of(s) as u64), c),
            (Err(e), c) => (Err(e), c),
        }
    }

    pub open spec fn be_i16(self) -> (Result<i16, ReadError>, Cursor) {
        match self.take(2) {
            (Ok(s), c) => (Ok(as_signed(be_u16_of(s), 0x8000) as i16), c),
            (Err(e), c) => (Err(e), c),
        }
    }

    pub open spec fn be_i32(self) -> (Result<i32, ReadError>, Cursor) {
        match self.take(4) {
            (Ok(s), c) => (Ok(as_signed(be_u32_of(s), 0x8000_0000) as i32), c),
            (Err(e), c) => (Err(e), c),
        }
    }

    pub open spec fn be_i64(self) -> (Result<i64, ReadError>, Cursor) {
        match self.take(8) {
            (Ok(s), c) => (Ok(as_signed(be_u64_of(s), 0x8000_0000_0000_0000) as i64), c),
            (Err(e), c) => (Err(e), c),
        }
    }

    pub open spec fn le_u16(self) -> (Result<u16, ReadError>, Cursor) {
        match self.take(2) {
            (Ok(s), c) => (Ok(le_u16_of(s) as u16), c),
            (Err(e), c) => (Err(e), c),
        }
    }

    pub open spec fn le_u32(self) -> (Result<u32, ReadError>, Cursor) {
        match self.take(4) {
            (Ok(s), c) => (Ok(le_u32_of(s) as u32), c),
            (Err(e), c) => (Err(e), c),
        }
    }

    pub open spec fn le_u64(self) -> (Result<u64, ReadError>, Cursor) {
        match self.take(8) {
            (Ok(s), c) => (Ok(le_u64_of(s) as u64), c),
            (Err(e), c) => (Err(e), c),
        }
    }

    pub open spec fn le_i16(self) -> (Result<i16, ReadError>, Cursor) {
        match self.take(2) {
            (Ok(s), c) => (Ok(as_signed(le_u16_of(s), 0x8000) as i16), c),
            (Err(e), c) => (Err(e), c),
        }
    }

    pub open spec fn le_i32(self) -> (Result<i32, ReadError>, Cursor) {
        match self.take(4) {
            (Ok(s), c) => (Ok(as_signed(le_u32_of(s), 0x8000_0000) as i32), c),
            (Err(e), c) => (Err(e), c),
        }
    }

    pub open spec fn le_i64(self) -> (Result<i64, ReadError>, Cursor) {
        match self.take(8) {
            (Ok(s), c) => (Ok(as_signed(le_u64_of(s), 0x8000_0000_0000_0000) as i64), c),
            (Err(e), c) => (Err(e), c),
        }
    }
}

/// Whether an executable read of bytes came out as the model says.
pub open spec fn bytes_read_as(
    got: Result<Vec<u8>, ReadError>,
    model: Result<Seq<u8>, ReadError>,
) -> bool {
    match model {
        Ok(s) => got is Ok && got->Ok_0@ == s,
        Err(e) => got == Err::<Vec<u8>, ReadError>(e),
    }
}

/// A cursor that owns its bytes.
pub struct CustomIterator {
    pub buffer: Vec<u8>,
    pub pointer: usize,
}

impl View for CustomIterator {
    type V = Cursor;

    open spec fn view(&self) -> Cursor {
        Cursor { bytes: self.buffer@, position: self.pointer as int }
    }
}

fn unsigned_16(b0: u8, b1: u8) -> (v: u16)
    ensures
        v == b0 as int * 0x100 + b1 as int,
{
    (b0 as u16) * 0x100 + (b1 as u16)
}

fn unsigned_32(b0: u8, b1: u8, b2: u8, b3: u8) -> (v: u32)
    ensures
        v == b0 as int * 0x100_0000 + b1 as int * 0x1_0000 + b2 as int * 0x100 + b3 as int,
{
    (b0 as u32) * 0x100_0000 + (b1 as u32) * 0x1_0000 + (b2 as u32) * 0x100 + (b3 as u32)
}

fn unsigned_64(high: u32, low: u32) -> (v: u64)
    ensures
        v == high as int * 0x1_0000_0000 + low as int,
{
    (high as u64) * 0x1_0000_0000 + (low as u64)
}

fn signed_16(v: u16) -> (r: i16)
    ensures
        r == as_signed(v as int, 0x8000),
{
    if v >= 0x8000 {
        ((v as i32) - 0x1_0000) as i16
    } else {
        v as i16
    }
}

fn signed_32(v: u32) -> (r: i32)
    ensures
        r == as_signed(v as int, 0x8000_0000),
{
    if v >= 0x8000_0000 {
        ((v as i64) - 0x1_0000_0000) as i32
    } else {
        v as i32
    }
}

fn signed_64(v: u64) -> (r: i64)
    ensures
        r == as_signed(v as int, 0x8000_0000_0000_0000),
{
    if v >= 0x8000_0000_0000_0000 {
        ((v - 0x8000_0000_0000_0000) as i64) + i64::MIN
    } else {
        v as i64
    }
}

impl CustomIterator {
    /// A cursor at the start of `buffer`.
    pub fn own(buffer: Vec<u8>) -> (it: CustomIterator)
        ensures
            it@ == (Cursor { bytes: buffer@, position: 0 }),
    {
        CustomIterator { buffer, pointer: 0 }
    }

    /// A cursor at the start of a copy of `buffer`.
    pub fn borrow(buffer: &[u8]) -> (it: CustomIterator)
        ensures
            it@ == (Cursor { bytes: buffer@, position: 0 }),
    {
        CustomIterator { buffer: slice_to_vec(buffer), pointer: 0 }
    }

    pub fn next_unchecked(&mut self) -> (value: u8)
        requires
            old(self)@.remaining() >= 1,
        ensures
            (Ok::<u8, ReadError>(value), final(self)@) == old(self)@.next(),
    {
        assert(self.pointer < self.buffer.len());
        let value: u8 = self.buffer[self.pointer];
        self.pointer += 1;
        value
    }

    pub fn next(&mut self) -> (r: Result<u8, ReadError>)
        ensures
            (r, final(self)@) == old(self)@.next(),
    {
        if self.pointer >= self.buffer.len() {
            return Err(ReadError::EndOfData);
        }
        let value: u8 = self.buffer[self.pointer];
        self.pointer += 1;
        Ok(value)
    }

    pub fn peek_unchecked(&self) -> (value: u8)
        requires
            self@.remaining() >= 1,
        ensures
            Ok::<u8, ReadError>(value) == self@.peek(),
    {
        self.buffer[self.pointer]
    }

    pub fn peek(&self) -> (r: Result<u8, ReadError>)
        ensures
            r == self@.peek(),
            r is Ok ==> self@.position < usize::MAX,
    {
        if self.pointer >= self.buffer.len() {
            return Err(ReadError::EndOfData);
        }
        Ok(self.buffer[self.pointer])
    }

    pub fn remaining(&self) -> (n: usize)
        ensures
            n == self@.remaining(),
    {
        if self.pointer > self.buffer.len() {
            0
        } else {
            self.buffer.len() - self.pointer
        }
    }

    fn copy_window(&self, amount: usize) -> (out: Vec<u8>)
        requires
            amount <= self@.remaining(),
        ensures
            out@ == self@.window(amount as int),
    {
        let mut out: Vec<u8> = Vec::new();
        let mut i: usize = 0;
        assert(out@ =~= self@.window(0));
        while i < amount
            invariant
                i <= amount,
                amount <= self@.remaining(),
                self.buffer@.len() == self.buffer.len(),
                out@ == self@.window(i as int),
            decreases amount - i,
        {
            out.push(self.buffer[self.pointer + i]);
            i += 1;
            assert(out@ =~= self@.window(i as int));
        }
        out
    }

    /// Splits off a cursor over the next `amount` bytes.
    pub fn sub_section(&mut self, amount: usize) -> (r: Result<CustomIterator, ReadError>)
        ensures
            final(self)@ == old(self)@.take(amount as int).1,
            match old(self)@.take(amount as int).0 {
                Ok(s) => r is Ok && r->Ok_0@ == (Cursor { bytes: s, position: 0 }),
                Err(e) => r is Err && r->Err_0 == e,
            },
    {
        if amount > self.remaining() {
            return Err(ReadError::EndOfData);
        }
        let sub = CustomIterator { buffer: self.copy_window(amount), pointer: 0 };
        assert(self.buffer@.len() == self.buffer.len());
        self.pointer += amount;
        Ok(sub)
    }

    pub fn read_bytes(&mut self, amount: usize) -> (r: Result<Vec<u8>, ReadError>)
        ensures
            final(self)@ == old(self)@.take(amount as int).1,
            bytes_read_as(r, old(self)@.take(amount as int).0),
    {
        if amount > self.remaining() {
            return Err(ReadError::EndOfData);
        }
        let result = self.copy_window(amount);
        assert(self.buffer@.len() == self.buffer.len());
        self.pointer += amount;
        Ok(result)
    }

    pub fn read_slice_unchecked(&mut self, amount: usize) -> (out: Vec<u8>)
        requires
            amount <= old(self)@.remaining(),
        ensures
            final(self)@ == old(self)@.skipped(amount as int),
            out@ == old(self)@.window(amount as int),
    {
        let result = self.copy_window(amount);
        assert(self.buffer@.len() == self.buffer.len());
        self.pointer += amount;
        result
    }

    /// Hands out everything that is left and moves to the end.
    pub fn consume(&mut self) -> (out: Vec<u8>)
        ensures
            out@ == old(self)@.rest(),
            final(self)@ == (Cursor {
                bytes: old(self)@.bytes,
                position: if old(self)@.position > old(self)@.bytes.len() {
                    old(self)@.position
                } else {
                    old(self)@.bytes.len() as int
                },
            }),
    {
        let amount = self.remaining();
        let result = self.copy_window(amount);
        if self.pointer <= self.buffer.len() {
            self.pointer = self.buffer.len();
        }
        result
    }

    pub fn has_more(&self) -> (b: bool)
        ensures
            b == (self@.remaining() > 0),
    {
        self.pointer < self.buffer.len()
    }

    pub fn skip(&mut self)
        requires
            old(self)@.position < usize::MAX,
        ensures
            final(self)@ == old(self)@.skipped(1),
    {
        self.pointer += 1;
    }

    pub fn pointer_save(&self) -> (pointer: usize)
        ensures
            pointer == self@.position,
    {
        self.pointer
    }

    pub fn pointer_restore(&mut self, pointer: usize)
        ensures
            final(self)@ == (Cursor { bytes: old(self)@.bytes, position: pointer as int }),
    {
        self.pointer = pointer;
    }

    pub fn read_be_u16(&mut self) -> (r: Result<u16, ReadError>)
        ensures
            (r, final(self)@) == old(self)@.be_u16(),
    {
        if self.remaining() < 2 {
            return Err(ReadError::EndOfData);
        }
        let b0 = self.next_unchecked();
        let b1 = self.next_unchecked();
        Ok(unsigned_16(b0, b1))
    }

    pub fn read_be_u32(&mut self) -> (r: Result<u32, ReadError>)
        ensures
            (r, final(self)@) == old(self)@.be_u32(),
    {
        if self.remaining() < 4 {
            return Err(ReadError::EndOfData);
        }
        let b0 = self.next_unchecked();
        let b1 = self.next_unchecked();
        let b2 = self.next_unchecked();
        let b3 = self.next_unchecked();
        Ok(unsigned_32(b0, b1, b2, b3))
    }

    pub fn read_be_u64(&mut self) -> (r: Result<u64, ReadError>)
        ensures
            (r, final(self)@) == old(self)@.be_u64(),
    {
        if self.remaining() < 8 {
            return Err(ReadError::EndOfData);
        }
        let b0 = self.next_unchecked();
        let b1 = self.next_unchecked();
        let b2 = self.next_unchecked();
        let b3 = self.next_unchecked();
        let b4 = self.next_unchecked();
        let b5 = self.next_unchecked();
        let b6 = self.next_unchecked();
        let b7 = self.next_unchecked();
        Ok(unsigned_64(unsigned_32(b0, b1, b2, b3), unsigned_32(b4, b5, b6, b7)))
    }

    pub fn read_be_i16(&mut self) -> (r: Result<i16, ReadError>)
        ensures
            (r, final(self)@) == old(self)@.be_i16(),
    {
        match self.read_be_u16() {
            Ok(v) => Ok(signed_16(v)),
            Err(e) => Err(e),
        }
    }

    pub fn read_be_i32(&mut self) -> (r: Result<i32, ReadError>)
        ensures
            (r, final(self)@) == old(self)@.be_i32(),
    {
        match self.read_be_u32() {
            Ok(v) => Ok(signed_32(v)),
            Err(e) => Err(e),
        }
    }

    pub fn read_be_i64(&mut self) -> (r: Result<i64, ReadError>)
        ensures
            (r, final(self)@) == old(self)@.be_i64(),
    {
        match self.read_be_u64() {
            Ok(v) => Ok(signed_64(v)),
            Err(e) => Err(e),
        }
    }

    pub fn read_le_u16(&mut self) -> (r: Result<u16, ReadError>)
        ensures
            (r, final(self)@) == old(self)@.le_u16(),
    {
        if self.remaining() < 2 {
            return Err(ReadError::EndOfData);
        }
        let b0 = self.next_unchecked();
        let b1 = self.next_unchecked();
        Ok(unsigned_16(b1, b0))
    }

    pub fn read_le_u32(&mut self) -> (r: Result<u32, ReadError>)
        ensures
            (r, final(self)@) == old(self)@.le_u32(),
    {
        if self.remaining() < 4 {
            return Err(ReadError::EndOfData);
        }
        let b0 = self.next_unchecked();
        let b1 = self.next_unchecked();
        let b2 = self.next_unchecked();
        let b3 = self.next_unchecked();
        Ok(unsigned_32(b3, b2, b1, b0))
    }

    pub fn read_le_u64(&mut self) -> (r: Result<u64, ReadError>)
        ensures
            (r, final(self)@) == old(self)@.le_u64(),
    {
        if self.remaining() < 8 {
            return Err(ReadError::EndOfData);
        }
        let b0 = self.next_unchecked();
        let b1 = self.next_unchecked();
        let b2 = self.next_unchecked();
        let b3 = self.next_unchecked();
        let b4 = self.next_unchecked();
        let b5 = self.next_unchecked();
        let b6 = self.next_unchecked();
        let b7 = self.next_unchecked();
        Ok(unsigned_64(unsigned_32(b7, b6, b5, b4), unsigned_32(b3, b2, b1, b0)))
    }

    pub fn read_le_i16(&mut self) -> (r: Result<i16, ReadError>)
        ensures
            (r, final(self)@) == old(self)@.le_i16(),
    {
        match self.read_le_u16() {
            Ok(v) => Ok(signed_16(v)),
            Err(e) => Err(e),
        }
    }

    pub fn read_le_i32(&mut self) -> (r: Result<i32, ReadError>)
        ensures
            (r, final(self)@) == old(self)@.le_i32(),
    {
        match self.read_le_u32() {
            Ok(v) => Ok(signed_32(v)),
            Err(e) => Err(e),
        }
    }

    pub fn read_le_i64(&mut self) -> (r: Result<i64, ReadError>)
        ensures
            (r, final(self)@) == old(self)@.le_i64(),
    {
        match self.read_le_u64() {
            Ok(v) => Ok(signed_64(v)),
            Err(e) => Err(e),
        }
    }

    /// The bit pattern of a 32-bit float, first byte first.
    pub fn read_be_f32(&mut self) -> (r: Result<u32, ReadError>)
        ensures
            (r, final(self)@) == old(self)@.be_u32(),
    {
        self.read_be_u32()
    }

    /// The bit pattern of a 64-bit float, first byte first.
    pub fn read_be_f64(&mut self) -> (r: Result<u64, ReadError>)
        ensures
            (r, final(self)@) == old(self)@.be_u64(),
    {
        self.read_be_u64()
    }

    /// The bit pattern of a 32-bit float, last byte first.
    pub fn read_le_f32(&mut self) -> (r: Result<u32, ReadError>)
        ensures
            (r, final(self)@) == old(self)@.le_u32(),
    {
        self.read_le_u32()
    }

    /// The bit pattern of a 64-bit float, last byte first.
    pub fn read_le_f64(&mut self) -> (r: Result<u64, ReadError>)
        ensures
            (r, final(self)@) == old(self)@.le_u64(),
    {
        self.read_le_u64()
    }
}

} // verus!
