//! The primitive byte stream: little-endian readers over an in-memory buffer
//! and little-endian writers onto a growing buffer.
//!
//! A [`Reader`] is positioned at the start of a block; every read either
//! consumes exactly the bytes of one field or fails with
//! [`DecodeError::UnexpectedEnd`] and leaves the position where the shortage
//! was noticed. A [`Writer`] only appends.

use vstd::prelude::*;

use crate::bytes::{
    bits_of_i16, bits_of_i32, bits_of_i8, i16_of_bits, i32_of_bits, i8_of_bits, le16, le32, u16_at,
    u32_at,
};
use crate::error::DecodeError;

verus! {

/// Two's-complement reading of a 32-bit wire pattern.
pub fn i32_from_wire(x: u32) -> (r: i32)
    ensures
        r == i32_of_bits(x),
{
    if x < 0x8000_0000 {
        x as i32
    } else {
        -((0xFFFF_FFFFu32 - x) as i32) - 1
    }
}

/// Two's-complement reading of a 16-bit wire pattern.
pub fn i16_from_wire(x: u16) -> (r: i16)
    ensures
        r == i16_of_bits(x),
{
    if x < 0x8000 {
        x as i16
    } else {
        -((0xFFFFu16 - x) as i16) - 1
    }
}

/// Two's-complement reading of an 8-bit wire pattern.
pub fn i8_from_wire(x: u8) -> (r: i8)
    ensures
        r == i8_of_bits(x),
{
    if x < 0x80 {
        x as i8
    } else {
        -((0xFFu8 - x) as i8) - 1
    }
}

/// The wire pattern of a signed 32-bit integer.
pub fn wire_of_i32(x: i32) -> (r: u32)
    ensures
        r == bits_of_i32(x),
{
    if x >= 0 {
        x as u32
    } else {
        0xFFFF_FFFFu32 - ((-(x + 1)) as u32)
    }
}

/// The wire pattern of a signed 16-bit integer.
pub fn wire_of_i16(x: i16) -> (r: u16)
    ensures
        r == bits_of_i16(x),
{
    if x >= 0 {
        x as u16
    } else {
        0xFFFFu16 - ((-(x + 1)) as u16)
    }
}

/// The wire pattern of a signed 8-bit integer.
pub fn wire_of_i8(x: i8) -> (r: u8)
    ensures
        r == bits_of_i8(x),
{
    if x >= 0 {
        x as u8
    } else {
        0xFFu8 - ((-(x + 1)) as u8)
    }
}

/// A byte source positioned inside an in-memory block.
pub struct Reader {
    data: Vec<u8>,
    pos: usize,
}

impl Reader {
    /// The whole block this reader was built over.
    pub closed spec fn bytes(&self) -> Seq<u8> {
        self.data@
    }

    /// The current offset from the start of the block.
    pub closed spec fn pos(&self) -> int {
        self.pos as int
    }

    /// Whether `n` more bytes can be supplied.
    pub open spec fn can_read(&self, n: int) -> bool {
        self.pos() + n <= self.bytes().len()
    }

    /// A reader over `data`, positioned at its start.
    pub fn new(data: Vec<u8>) -> (r: Self)
        ensures
            r.bytes() == data@,
            r.pos() == 0,
    {
        Reader { data, pos: 0 }
    }

    /// The current offset, for diagnostics.
    pub fn position(&self) -> (p: usize)
        ensures
            p == self.pos(),
    {
        self.pos
    }

    /// Whether `n` more bytes can be supplied.
    pub fn has(&self, n: usize) -> (b: bool)
        ensures
            b == self.can_read(n as int),
            self.bytes().len() <= usize::MAX,
    {
        self.pos <= self.data.len() && n <= self.data.len() - self.pos
    }

    /// Read one byte.
    pub fn read_u8(&mut self) -> (res: Result<u8, DecodeError>)
        ensures
            final(self).bytes() == old(self).bytes(),
            old(self).can_read(1) ==> (res matches Ok(v) && v == old(self).bytes()[old(self).pos()]
                && final(self).pos() == old(self).pos() + 1),
            !old(self).can_read(1) ==> (res matches Err(DecodeError::UnexpectedEnd { position })
                && position == old(self).pos() && final(self).pos() == old(self).pos()),
    {
        if self.has(1) {
            let b = self.data[self.pos];
            self.pos = self.pos + 1;
            Ok(b)
        } else {
            Err(DecodeError::UnexpectedEnd { position: self.pos })
        }
    }

    /// Read a little-endian `u16`.
    pub fn read_u16(&mut self) -> (res: Result<u16, DecodeError>)
        ensures
            final(self).bytes() == old(self).bytes(),
            old(self).can_read(2) ==> (res matches Ok(v) && v == u16_at(
                old(self).bytes(),
                old(self).pos(),
            ) && final(self).pos() == old(self).pos() + 2),
            !old(self).can_read(2) ==> (res matches Err(DecodeError::UnexpectedEnd { position })
                && position == old(self).pos() && final(self).pos() == old(self).pos()),
    {
        if self.has(2) {
            let b0 = self.data[self.pos];
            let b1 = self.data[self.pos + 1];
            self.pos = self.pos + 2;
            Ok(b0 as u16 + b1 as u16 * 0x100)
        } else {
            Err(DecodeError::UnexpectedEnd { position: self.pos })
        }
    }

    /// Read a little-endian `u32`.
    pub fn read_u32(&mut self) -> (res: Result<u32, DecodeError>)
        ensures
            final(self).bytes() == old(self).bytes(),
            old(self).can_read(4) ==> (res matches Ok(v) && v == u32_at(
                old(self).bytes(),
                old(self).pos(),
            ) && final(self).pos() == old(self).pos() + 4),
            !old(self).can_read(4) ==> (res matches Err(DecodeError::UnexpectedEnd { position })
                && position == old(self).pos() && final(self).pos() == old(self).pos()),
    {
        if self.has(4) {
            let b0 = self.data[self.pos];
            let b1 = self.data[self.pos + 1];
            let b2 = self.data[self.pos + 2];
            let b3 = self.data[self.pos + 3];
            self.pos = self.pos + 4;
            Ok(b0 as u32 + b1 as u32 * 0x100 + b2 as u32 * 0x1_0000 + b3 as u32 * 0x100_0000)
        } else {
            Err(DecodeError::UnexpectedEnd { position: self.pos })
        }
    }

    /// Read a signed byte.
    pub fn read_i8(&mut self) -> (res: Result<i8, DecodeError>)
        ensures
            final(self).bytes() == old(self).bytes(),
            old(self).can_read(1) ==> (res matches Ok(v) && v == i8_of_bits(
                old(self).bytes()[old(self).pos()],
            ) && final(self).pos() == old(self).pos() + 1),
            !old(self).can_read(1) ==> (res matches Err(DecodeError::UnexpectedEnd { position })
                && position == old(self).pos() && final(self).pos() == old(self).pos()),
    {
        match self.read_u8() {
            Ok(v) => Ok(i8_from_wire(v)),
            Err(e) => Err(e),
        }
    }

    /// Read a little-endian signed 16-bit integer.
    pub fn read_i16(&mut self) -> (res: Result<i16, DecodeError>)
        ensures
            final(self).bytes() == old(self).bytes(),
            old(self).can_read(2) ==> (res matches Ok(v) && v == i16_of_bits(
                u16_at(old(self).bytes(), old(self).pos()),
            ) && final(self).pos() == old(self).pos() + 2),
            !old(self).can_read(2) ==> (res matches Err(DecodeError::UnexpectedEnd { position })
                && position == old(self).pos() && final(self).pos() == old(self).pos()),
    {
        match self.read_u16() {
            Ok(v) => Ok(i16_from_wire(v)),
            Err(e) => Err(e),
        }
    }

    /// Read a little-endian signed 32-bit integer.
    pub fn read_i32(&mut self) -> (res: Result<i32, DecodeError>)
        ensures
            final(self).bytes() == old(self).bytes(),
            old(self).can_read(4) ==> (res matches Ok(v) && v == i32_of_bits(
                u32_at(old(self).bytes(), old(self).pos()),
            ) && final(self).pos() == old(self).pos() + 4),
            !old(self).can_read(4) ==> (res matches Err(DecodeError::UnexpectedEnd { position })
                && position == old(self).pos() && final(self).pos() == old(self).pos()),
    {
        match self.read_u32() {
            Ok(v) => Ok(i32_from_wire(v)),
            Err(e) => Err(e),
        }
    }

    /// Read the raw bit pattern of a little-endian 32-bit float.
    pub fn read_f32_bits(&mut self) -> (res: Result<u32, DecodeError>)
        ensures
            final(self).bytes() == old(self).bytes(),
            old(self).can_read(4) ==> (res matches Ok(v) && v == u32_at(
                old(self).bytes(),
                old(self).pos(),
            ) && final(self).pos() == old(self).pos() + 4),
            !old(self).can_read(4) ==> (res matches Err(DecodeError::UnexpectedEnd { position })
                && position == old(self).pos() && final(self).pos() == old(self).pos()),
    {
        self.read_u32()
    }

    /// Read a four-byte object id that uses all-ones patterns for "absent".
    pub fn read_opt_u32(&mut self) -> (res: Result<Option<u32>, DecodeError>)
        ensures
            final(self).bytes() == old(self).bytes(),
            old(self).can_read(4) ==> {
                &&& res matches Ok(v) && (v is None <==> (u32_at(old(self).bytes(), old(self).pos())
                    == 0xFFFF_FFFF || u32_at(old(self).bytes(), old(self).pos()) == 0xFFFF_FFFE))
                &&& (res matches Ok(v) && v matches Some(id) ==> id == u32_at(
                    old(self).bytes(),
                    old(self).pos(),
                ))
                &&& final(self).pos() == old(self).pos() + 4
            },
            !old(self).can_read(4) ==> (res matches Err(DecodeError::UnexpectedEnd { position })
                && position == old(self).pos() && final(self).pos() == old(self).pos()),
    {
        match self.read_u32() {
            Ok(0xFFFF_FFFF) => Ok(None),
            Ok(0xFFFF_FFFE) => Ok(None),
            Ok(v) => Ok(Some(v)),
            Err(e) => Err(e),
        }
    }

    /// Consume and discard `n` bytes.
    pub fn skip(&mut self, n: usize) -> (res: Result<(), DecodeError>)
        ensures
            final(self).bytes() == old(self).bytes(),
            old(self).can_read(n as int) ==> res is Ok && final(self).pos() == old(self).pos()
                + n,
            !old(self).can_read(n as int) ==> (res matches Err(
                DecodeError::UnexpectedEnd { position },
            ) && position == old(self).pos() && final(self).pos() == old(self).pos()),
    {
        if self.has(n) {
            self.pos = self.pos + n;
            Ok(())
        } else {
            Err(DecodeError::UnexpectedEnd { position: self.pos })
        }
    }

    /// Read `n` raw bytes.
    pub fn read_bytes(&mut self, n: usize) -> (res: Result<Vec<u8>, DecodeError>)
        ensures
            final(self).bytes() == old(self).bytes(),
            old(self).can_read(n as int) ==> (res matches Ok(v) && v@ == old(self).bytes().subrange(
                old(self).pos(),
                old(self).pos() + n,
            ) && final(self).pos() == old(self).pos() + n),
            !old(self).can_read(n as int) ==> (res matches Err(
                DecodeError::UnexpectedEnd { position },
            ) && position == old(self).pos() && final(self).pos() == old(self).pos()),
    {
        if !self.has(n) {
            return Err(DecodeError::UnexpectedEnd { position: self.pos });
        }
        let mut out: Vec<u8> = Vec::new();
        let mut i: usize = 0;
        while i < n
            invariant
                i <= n,
                self.pos() + n <= self.bytes().len(),
                self.bytes().len() <= usize::MAX,
                self.bytes() == old(self).bytes(),
                self.pos() == old(self).pos(),
                out@ == self.bytes().subrange(self.pos(), self.pos() + i),
            decreases n - i,
        {
            out.push(self.data[self.pos + i]);
            i = i + 1;
            proof {
                assert(out@ =~= self.bytes().subrange(self.pos(), self.pos() + i));
            }
        }
        self.pos = self.pos + n;
        Ok(out)
    }

    /// Read `n` little-endian `u16` values.
    pub fn read_u16s(&mut self, n: usize) -> (res: Result<Vec<u16>, DecodeError>)
        ensures
            final(self).bytes() == old(self).bytes(),
            old(self).can_read(2 * n) ==> (res matches Ok(v) && v@.len() == n && (forall|i: int|
                0 <= i < n ==> v@[i] == u16_at(old(self).bytes(), old(self).pos() + 2 * i))
                && final(self).pos() == old(self).pos() + 2 * n),
            !old(self).can_read(2 * n) ==> (res matches Err(DecodeError::UnexpectedEnd { position })
                && position == old(self).pos() && final(self).pos() == old(self).pos()),
    {
        if !self.has(0) || n > usize::MAX / 2 || !self.has(2 * n) {
            return Err(DecodeError::UnexpectedEnd { position: self.pos });
        }
        let mut out: Vec<u16> = Vec::new();
        let mut i: usize = 0;
        while i < n
            invariant
                i <= n,
                2 * n <= usize::MAX,
                old(self).pos() + 2 * n <= old(self).bytes().len(),
                self.bytes() == old(self).bytes(),
                self.pos() == old(self).pos() + 2 * i,
                out@.len() == i,
                forall|j: int|
                    0 <= j < i ==> out@[j] == u16_at(old(self).bytes(), old(self).pos() + 2 * j),
            decreases n - i,
        {
            let v = match self.read_u16() {
                Ok(v) => v,
                Err(e) => { return Err(e) },
            };
            out.push(v);
            i = i + 1;
        }
        Ok(out)
    }

    /// Read `n` little-endian `u32` values.
    pub fn read_u32s(&mut self, n: usize) -> (res: Result<Vec<u32>, DecodeError>)
        ensures
            final(self).bytes() == old(self).bytes(),
            old(self).can_read(4 * n) ==> (res matches Ok(v) && v@.len() == n && (forall|i: int|
                0 <= i < n ==> v@[i] == u32_at(old(self).bytes(), old(self).pos() + 4 * i))
                && final(self).pos() == old(self).pos() + 4 * n),
            !old(self).can_read(4 * n) ==> (res matches Err(DecodeError::UnexpectedEnd { position })
                && position == old(self).pos() && final(self).pos() == old(self).pos()),
    {
        if !self.has(0) || n > usize::MAX / 4 || !self.has(4 * n) {
            return Err(DecodeError::UnexpectedEnd { position: self.pos });
        }
        let mut out: Vec<u32> = Vec::new();
        let mut i: usize = 0;
        while i < n
            invariant
                i <= n,
                4 * n <= usize::MAX,
                old(self).pos() + 4 * n <= old(self).bytes().len(),
                self.bytes() == old(self).bytes(),
                self.pos() == old(self).pos() + 4 * i,
                out@.len() == i,
                forall|j: int|
                    0 <= j < i ==> out@[j] == u32_at(old(self).bytes(), old(self).pos() + 4 * j),
            decreases n - i,
        {
            let v = match self.read_u32() {
                Ok(v) => v,
                Err(e) => { return Err(e) },
            };
            out.push(v);
            i = i + 1;
        }
        Ok(out)
    }

    /// A copy of the unread tail of the block.
    pub fn tail_copy(&self) -> (v: Vec<u8>)
        ensures
            self.pos() <= self.bytes().len() ==> v@ == self.bytes().subrange(
                self.pos(),
                self.bytes().len() as int,
            ),
    {
        let start = if self.pos <= self.data.len() {
            self.pos
        } else {
            self.data.len()
        };
        let mut out: Vec<u8> = Vec::new();
        let mut i: usize = start;
        while i < self.data.len()
            invariant
                start <= i <= self.data.len(),
                out@ == self.data@.subrange(start as int, i as int),
            decreases self.data.len() - i,
        {
            out.push(self.data[i]);
            i = i + 1;
            proof {
                assert(out@ =~= self.data@.subrange(start as int, i as int));
            }
        }
        out
    }

    /// Advance past bytes that an outside parser consumed from a tail copy.
    pub fn advance(&mut self, n: usize)
        requires
            old(self).can_read(n as int),
        ensures
            final(self).bytes() == old(self).bytes(),
            final(self).pos() == old(self).pos() + n,
    {
        let total: usize = self.data.len();
        assert(self.pos + n <= total);
        self.pos = self.pos + n;
    }
}

/// The reader's offset is never negative, and its block fits in memory.
pub broadcast proof fn lemma_reader_bounds(r: &Reader)
    ensures
        #[trigger] r.pos() >= 0,
        r.bytes().len() <= usize::MAX,
{
    vstd::std_specs::vec::axiom_spec_len(&r.data);
}

/// A byte sink that appends little-endian fields to a growing buffer.
pub struct Writer {
    out: Vec<u8>,
}

impl Writer {
    /// Everything written so far.
    pub closed spec fn bytes(&self) -> Seq<u8> {
        self.out@
    }

    /// An empty sink.
    pub fn new() -> (w: Self)
        ensures
            w.bytes() == Seq::<u8>::empty(),
    {
        Writer { out: Vec::new() }
    }

    /// The bytes written, in order.
    pub fn into_vec(self) -> (v: Vec<u8>)
        ensures
            v@ == self.bytes(),
    {
        self.out
    }

    /// How many bytes have been written.
    pub fn len(&self) -> (n: usize)
        ensures
            n == self.bytes().len(),
    {
        self.out.len()
    }

    /// Append one byte.
    pub fn write_u8(&mut self, x: u8)
        ensures
            final(self).bytes() == old(self).bytes().push(x),
    {
        self.out.push(x);
    }

    /// Append a `u16` in little-endian order.
    pub fn write_u16(&mut self, x: u16)
        ensures
            final(self).bytes() == old(self).bytes() + le16(x),
    {
        self.out.push((x % 0x100) as u8);
        self.out.push((x / 0x100) as u8);
        proof {
            assert(self.bytes() =~= old(self).bytes() + le16(x));
        }
    }

    /// Append a `u32` in little-endian order.
    pub fn write_u32(&mut self, x: u32)
        ensures
            final(self).bytes() == old(self).bytes() + le32(x),
    {
        self.out.push((x % 0x100) as u8);
        self.out.push((x / 0x100 % 0x100) as u8);
        self.out.push((x / 0x1_0000 % 0x100) as u8);
        self.out.push((x / 0x100_0000) as u8);
        proof {
            assert(self.bytes() =~= old(self).bytes() + le32(x));
        }
    }

    /// Append a signed byte.
    pub fn write_i8(&mut self, x: i8)
        ensures
            final(self).bytes() == old(self).bytes().push(bits_of_i8(x)),
    {
        let b = wire_of_i8(x);
        self.out.push(b);
    }

    /// Append a signed 16-bit integer in little-endian order.
    pub fn write_i16(&mut self, x: i16)
        ensures
            final(self).bytes() == old(self).bytes() + le16(bits_of_i16(x)),
    {
        let v = wire_of_i16(x);
        self.write_u16(v);
    }

    /// Append a signed 32-bit integer in little-endian order.
    pub fn write_i32(&mut self, x: i32)
        ensures
            final(self).bytes() == old(self).bytes() + le32(bits_of_i32(x)),
    {
        let v = wire_of_i32(x);
        self.write_u32(v);
    }

    /// Append the raw bit pattern of a 32-bit float in little-endian order.
    pub fn write_f32_bits(&mut self, x: u32)
        ensures
            final(self).bytes() == old(self).bytes() + le32(x),
    {
        self.write_u32(x);
    }

    /// Append a four-byte object id, using the all-ones pattern for "absent".
    pub fn write_opt_u32(&mut self, x: Option<u32>)
        ensures
            final(self).bytes() == old(self).bytes() + le32(
                match x {
                    Some(id) => id,
                    None => 0xFFFF_FFFF,
                },
            ),
    {
        match x {
            Some(id) => self.write_u32(id),
            None => self.write_u32(0xFFFF_FFFF),
        }
    }

    /// Append raw bytes.
    pub fn write_bytes(&mut self, data: &Vec<u8>)
        ensures
            final(self).bytes() == old(self).bytes() + data@,
    {
        let mut i: usize = 0;
        while i < data.len()
            invariant
                i <= data.len(),
                self.bytes() == old(self).bytes() + data@.subrange(0, i as int),
            decreases data.len() - i,
        {
            self.out.push(data[i]);
            i = i + 1;
            proof {
                assert(self.bytes() =~= old(self).bytes() + data@.subrange(0, i as int));
            }
        }
        proof {
            assert(data@.subrange(0, data@.len() as int) =~= data@);
        }
    }
}

} // verus!
