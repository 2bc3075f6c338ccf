//! Bytes that arrived, read front to back, and the fixed-width numbers of the
//! wire format.
//!
//! All fixed-width numbers travel big-endian; signed ones in two's complement.

use vstd::prelude::*;

use crate::error::ProtocolError;

verus! {

/// `256` to the power `k`.
pub open spec fn pow256(k: nat) -> nat
    decreases k,
{
    if k == 0 {
        1
    } else {
        256 * pow256((k - 1) as nat)
    }
}

/// The unsigned number that `bytes` denote, the most significant byte first.
pub open spec fn be_value(bytes: Seq<u8>) -> nat
    decreases bytes.len(),
{
    if bytes.len() == 0 {
        0
    } else {
        256 * be_value(bytes.drop_last()) + bytes.last() as nat
    }
}

/// The low `width` bytes of `n`, the most significant of them first.
pub open spec fn be_bytes(n: nat, width: nat) -> Seq<u8>
    decreases width,
{
    if width == 0 {
        Seq::<u8>::empty()
    } else {
        be_bytes(n / 256, (width - 1) as nat).push((n % 256) as u8)
    }
}

/// The number that `n` stands for where `width` bytes hold a signed number
/// in two's complement.
pub open spec fn twos_complement(n: nat, width: nat) -> int {
    if 2 * n >= pow256(width) {
        n - pow256(width)
    } else {
        n as int
    }
}

/// The unsigned number that stands for `value` where `width` bytes hold a
/// signed number in two's complement.
pub open spec fn to_unsigned(value: int, width: nat) -> nat {
    if value < 0 {
        (value + pow256(width)) as nat
    } else {
        value as nat
    }
}

/// The unsigned number in the `width` bytes of `input` from index `at` on.
pub open spec fn unsigned_at(input: Seq<u8>, at: int, width: nat) -> nat {
    be_value(input.subrange(at, at + width))
}

/// The signed number in the `width` bytes of `input` from index `at` on.
pub open spec fn signed_at(input: Seq<u8>, at: int, width: nat) -> int {
    twos_complement(unsigned_at(input, at, width), width)
}

/// The first powers of 256, as numbers.
pub proof fn lemma_pow256_values()
    ensures
        pow256(0) == 1,
        pow256(1) == 0x100,
        pow256(2) == 0x1_0000,
        pow256(4) == 0x1_0000_0000,
        pow256(8) == 0x1_0000_0000_0000_0000,
        pow256(16) == 0x1_0000_0000_0000_0000_0000_0000_0000_0000,
{
    reveal_with_fuel(pow256, 17);
}

/// The powers of 256 grow with the exponent.
pub proof fn lemma_pow256_monotonic(j: nat, k: nat)
    requires
        j <= k,
    ensures
        1 <= pow256(j) <= pow256(k),
    decreases k,
{
    if j < k {
        lemma_pow256_monotonic(j, (k - 1) as nat);
    } else if j > 0 {
        lemma_pow256_monotonic((j - 1) as nat, (j - 1) as nat);
    }
}

/// `k` bytes denote a number below `256` to the power `k`.
pub proof fn lemma_be_value_bound(bytes: Seq<u8>)
    ensures
        be_value(bytes) < pow256(bytes.len()),
    decreases bytes.len(),
{
    if bytes.len() > 0 {
        lemma_be_value_bound(bytes.drop_last());
    }
}

/// `be_bytes` gives as many bytes as it is asked for.
pub proof fn lemma_be_bytes_len(n: nat, width: nat)
    ensures
        be_bytes(n, width).len() == width,
    decreases width,
{
    if width > 0 {
        lemma_be_bytes_len(n / 256, (width - 1) as nat);
    }
}

/// Reading undoes writing, for a number that fits the width.
pub proof fn lemma_be_value_of_be_bytes(n: nat, width: nat)
    requires
        n < pow256(width),
    ensures
        be_value(be_bytes(n, width)) == n,
    decreases width,
{
    if width > 0 {
        lemma_be_value_of_be_bytes(n / 256, (width - 1) as nat);
        let bytes = be_bytes(n, width);
        assert(bytes.drop_last() =~= be_bytes(n / 256, (width - 1) as nat));
        assert(bytes.last() == (n % 256) as u8);
    }
}

/// Writing undoes reading.
pub proof fn lemma_be_bytes_of_be_value(bytes: Seq<u8>)
    ensures
        be_bytes(be_value(bytes), bytes.len()) == bytes,
    decreases bytes.len(),
{
    if bytes.len() > 0 {
        lemma_be_bytes_of_be_value(bytes.drop_last());
        let n = be_value(bytes);
        assert(n / 256 == be_value(bytes.drop_last()));
        assert(n % 256 == bytes.last());
        assert(be_bytes(n, bytes.len()) =~= bytes);
    } else {
        assert(be_bytes(0, 0) =~= bytes);
    }
}

/// The two readings of a two's complement number are inverse to each other.
pub proof fn lemma_twos_complement_round_trip(value: int, width: nat)
    requires
        -pow256(width) <= 2 * value < pow256(width),
    ensures
        to_unsigned(value, width) < pow256(width),
        twos_complement(to_unsigned(value, width), width) == value,
{
}

/// Where two runs of bytes stand in an input one behind the other, each of
/// them stands there.
pub proof fn lemma_found_apart(input: Seq<u8>, at: int, first: Seq<u8>, second: Seq<u8>)
    requires
        0 <= at,
        at + first.len() + second.len() <= input.len(),
        input.subrange(at, at + first.len() + second.len()) == first + second,
    ensures
        input.subrange(at, at + first.len()) == first,
        input.subrange(at + first.len(), at + first.len() + second.len()) == second,
{
    let both = first + second;
    let found = input.subrange(at, at + both.len());
    assert(found.subrange(0, first.len() as int) =~= input.subrange(at, at + first.len()));
    assert(both.subrange(0, first.len() as int) =~= first);
    assert(found.subrange(first.len() as int, both.len() as int) =~= input.subrange(
        at + first.len(),
        at + both.len(),
    ));
    assert(both.subrange(first.len() as int, both.len() as int) =~= second);
}

/// Reading finds an unsigned number that was written: where the `width`
/// bytes of a number that fits them stand in an input, the number stands
/// there.
pub proof fn lemma_unsigned_round_trip(n: nat, width: nat, input: Seq<u8>, at: int)
    requires
        n < pow256(width),
        0 <= at,
        at + width <= input.len(),
        input.subrange(at, at + width) == be_bytes(n, width),
    ensures
        unsigned_at(input, at, width) == n,
{
    lemma_be_value_of_be_bytes(n, width);
}

/// Reading finds a signed number that was written: where the `width` bytes
/// of a number that fits them in two's complement stand in an input, the
/// number stands there.
pub proof fn lemma_signed_round_trip(value: int, width: nat, input: Seq<u8>, at: int)
    requires
        -pow256(width) <= 2 * value < pow256(width),
        0 <= at,
        at + width <= input.len(),
        input.subrange(at, at + width) == be_bytes(to_unsigned(value, width), width),
    ensures
        signed_at(input, at, width) == value,
{
    lemma_twos_complement_round_trip(value, width);
    lemma_be_value_of_be_bytes(to_unsigned(value, width), width);
}

/// Bytes that arrived, and how many of them have been read.
///
/// Whoever owns the connection adds what it receives with
/// [`ByteReader::extend`]; decoders read from the front. A decoder that fails
/// leaves the reader where it found it, so that the same read can be tried
/// again once more bytes are there.
#[derive(Debug)]
pub struct ByteReader {
    bytes: Vec<u8>,
    position: usize,
}

impl View for ByteReader {
    type V = Seq<u8>;

    /// The bytes that have not been read yet.
    open spec fn view(&self) -> Seq<u8> {
        self.buffer().skip(self.position())
    }
}

impl ByteReader {
    /// What holds of every reader.
    #[verifier::type_invariant]
    pub open spec fn wf(&self) -> bool {
        0 <= self.position() <= self.buffer().len()
    }

    /// All the bytes that the reader was given, read or not.
    pub closed spec fn buffer(&self) -> Seq<u8> {
        self.bytes@
    }

    /// How many bytes have been read.
    pub closed spec fn position(&self) -> int {
        self.position as int
    }

    /// A reader over `bytes`, none of them read.
    pub fn new(bytes: Vec<u8>) -> (reader: Self)
        ensures
            reader.buffer() == bytes@,
            reader.position() == 0,
    {
        ByteReader { bytes, position: 0 }
    }

    /// The reader with the bytes that arrived appended.
    pub fn extend(self, more: &[u8]) -> (reader: Self)
        ensures
            reader.buffer() == self.buffer() + more@,
            reader.position() == self.position(),
    {
        proof {
            use_type_invariant(&self);
        }
        let mut bytes = self.bytes;
        bytes.extend_from_slice(more);
        ByteReader { bytes, position: self.position }
    }

    /// How many bytes have been read.
    pub fn offset(&self) -> (offset: usize)
        ensures
            offset == self.position(),
            offset <= self.buffer().len(),
    {
        proof {
            use_type_invariant(self);
        }
        self.position
    }

    /// How many bytes are left to read.
    pub fn remaining(&self) -> (count: usize)
        ensures
            count == self@.len(),
            count == self.buffer().len() - self.position(),
    {
        proof {
            use_type_invariant(self);
        }
        self.bytes.len() - self.position
    }

    /// Moves the reader to `offset`, forward or back.
    pub(crate) fn seek(&mut self, offset: usize)
        requires
            offset <= old(self).buffer().len(),
        ensures
            final(self).buffer() == old(self).buffer(),
            final(self).position() == offset,
    {
        self.position = offset;
    }

    /// The byte `ahead` places behind the next one, if it has arrived. Reads
    /// nothing.
    pub fn peek(&self, ahead: usize) -> (byte: Option<u8>)
        ensures
            byte == if self.position() + ahead < self.buffer().len() {
                Some(self.buffer()[self.position() + ahead])
            } else {
                None
            },
    {
        proof {
            use_type_invariant(self);
        }
        if ahead < self.bytes.len() - self.position {
            Some(self.bytes[self.position + ahead])
        } else {
            None
        }
    }

    /// Reads one byte.
    pub fn read_u8(&mut self) -> (byte: Result<u8, ProtocolError>)
        ensures
            final(self).buffer() == old(self).buffer(),
            match byte {
                Ok(b) => {
                    &&& old(self).position() < old(self).buffer().len()
                    &&& b == old(self).buffer()[old(self).position()]
                    &&& final(self).position() == old(self).position() + 1
                },
                Err(e) => {
                    &&& old(self).position() >= old(self).buffer().len()
                    &&& e == ProtocolError::UnexpectedEof
                    &&& final(self).position() == old(self).position()
                },
            },
    {
        proof {
            use_type_invariant(&*self);
        }
        if self.position < self.bytes.len() {
            let b = self.bytes[self.position];
            self.position = self.position + 1;
            Ok(b)
        } else {
            Err(ProtocolError::UnexpectedEof)
        }
    }

    /// Reads the next `count` bytes.
    pub fn read_exact(&mut self, count: usize) -> (bytes: Result<Vec<u8>, ProtocolError>)
        ensures
            final(self).buffer() == old(self).buffer(),
            match bytes {
                Ok(b) => {
                    &&& old(self).position() + count <= old(self).buffer().len()
                    &&& b@ == old(self).buffer().subrange(
                        old(self).position(),
                        old(self).position() + count,
                    )
                    &&& final(self).position() == old(self).position() + count
                },
                Err(e) => {
                    &&& old(self).position() + count > old(self).buffer().len()
                    &&& e == ProtocolError::UnexpectedEof
                    &&& final(self).position() == old(self).position()
                },
            },
    {
        proof {
            use_type_invariant(&*self);
        }
        if count > self.bytes.len() - self.position {
            return Err(ProtocolError::UnexpectedEof);
        }
        let start = self.position;
        let mut out: Vec<u8> = Vec::new();
        let mut i: usize = 0;
        while i < count
            invariant
                i <= count,
                start + count <= self.bytes.len(),
                out@ == self.bytes@.subrange(start as int, start + i),
            decreases count - i,
        {
            out.push(self.bytes[start + i]);
            i = i + 1;
        }
        self.position = start + count;
        Ok(out)
    }

    /// Reads an unsigned number of `width` bytes.
    fn read_unsigned(&mut self, width: usize) -> (value: Result<u128, ProtocolError>)
        requires
            width <= 16,
        ensures
            final(self).buffer() == old(self).buffer(),
            match value {
                Ok(v) => {
                    &&& old(self).position() + width <= old(self).buffer().len()
                    &&& v == unsigned_at(old(self).buffer(), old(self).position(), width as nat)
                    &&& v < pow256(width as nat)
                    &&& final(self).position() == old(self).position() + width
                },
                Err(e) => {
                    &&& old(self).position() + width > old(self).buffer().len()
                    &&& e == ProtocolError::UnexpectedEof
                    &&& final(self).position() == old(self).position()
                },
            },
    {
        proof {
            use_type_invariant(&*self);
        }
        if width > self.bytes.len() - self.position {
            return Err(ProtocolError::UnexpectedEof);
        }
        let start = self.position;
        let mut acc: u128 = 0;
        let mut i: usize = 0;
        proof {
            lemma_pow256_values();
        }
        while i < width
            invariant
                i <= width <= 16,
                start + width <= self.bytes.len(),
                acc == be_value(self.bytes@.subrange(start as int, start + i)),
                acc < pow256(i as nat),
                pow256(16) == 0x1_0000_0000_0000_0000_0000_0000_0000_0000,
            decreases width - i,
        {
            proof {
                let next = self.bytes@.subrange(start as int, start + i + 1);
                assert(next.drop_last() =~= self.bytes@.subrange(start as int, start + i));
                lemma_pow256_monotonic((i + 1) as nat, 16);
            }
            acc = 256 * acc + self.bytes[start + i] as u128;
            i = i + 1;
        }
        self.position = start + width;
        Ok(acc)
    }

    /// Reads an unsigned 16-bit number.
    pub fn read_u16(&mut self) -> (value: Result<u16, ProtocolError>)
        ensures
            final(self).buffer() == old(self).buffer(),
            match value {
                Ok(v) => {
                    &&& old(self).position() + 2 <= old(self).buffer().len()
                    &&& v == unsigned_at(old(self).buffer(), old(self).position(), 2)
                    &&& final(self).position() == old(self).position() + 2
                },
                Err(e) => {
                    &&& old(self).position() + 2 > old(self).buffer().len()
                    &&& e == ProtocolError::UnexpectedEof
                    &&& final(self).position() == old(self).position()
                },
            },
    {
        proof {
            lemma_pow256_values();
        }
        match self.read_unsigned(2) {
            Ok(v) => Ok(v as u16),
            Err(e) => Err(e),
        }
    }

    /// Reads an unsigned 128-bit number.
    pub fn read_u128(&mut self) -> (value: Result<u128, ProtocolError>)
        ensures
            final(self).buffer() == old(self).buffer(),
            match value {
                Ok(v) => {
                    &&& old(self).position() + 16 <= old(self).buffer().len()
                    &&& v == unsigned_at(old(self).buffer(), old(self).position(), 16)
                    &&& final(self).position() == old(self).position() + 16
                },
                Err(e) => {
                    &&& old(self).position() + 16 > old(self).buffer().len()
                    &&& e == ProtocolError::UnexpectedEof
                    &&& final(self).position() == old(self).position()
                },
            },
    {
        self.read_unsigned(16)
    }

    /// Reads a signed 16-bit number.
    pub fn read_i16(&mut self) -> (value: Result<i16, ProtocolError>)
        ensures
            final(self).buffer() == old(self).buffer(),
            match value {
                Ok(v) => {
                    &&& old(self).position() + 2 <= old(self).buffer().len()
                    &&& v == signed_at(old(self).buffer(), old(self).position(), 2)
                    &&& final(self).position() == old(self).position() + 2
                },
                Err(e) => {
                    &&& old(self).position() + 2 > old(self).buffer().len()
                    &&& e == ProtocolError::UnexpectedEof
                    &&& final(self).position() == old(self).position()
                },
            },
    {
        proof {
            lemma_pow256_values();
        }
        match self.read_unsigned(2) {
            Ok(v) => if v >= 0x8000 {
                Ok((v as i32 - 0x1_0000) as i16)
            } else {
                Ok(v as i16)
            },
            Err(e) => Err(e),
        }
    }

    /// Reads a signed 32-bit number.
    pub fn read_i32(&mut self) -> (value: Result<i32, ProtocolError>)
        ensures
            final(self).buffer() == old(self).buffer(),
            match value {
                Ok(v) => {
                    &&& old(self).position() + 4 <= old(self).buffer().len()
                    &&& v == signed_at(old(self).buffer(), old(self).position(), 4)
                    &&& final(self).position() == old(self).position() + 4
                },
                Err(e) => {
                    &&& old(self).position() + 4 > old(self).buffer().len()
                    &&& e == ProtocolError::UnexpectedEof
                    &&& final(self).position() == old(self).position()
                },
            },
    {
        proof {
            lemma_pow256_values();
        }
        match self.read_unsigned(4) {
            Ok(v) => if v >= 0x8000_0000 {
                Ok((v as i64 - 0x1_0000_0000) as i32)
            } else {
                Ok(v as i32)
            },
            Err(e) => Err(e),
        }
    }

    /// Reads a signed 64-bit number.
    pub fn read_i64(&mut self) -> (value: Result<i64, ProtocolError>)
        ensures
            final(self).buffer() == old(self).buffer(),
            match value {
                Ok(v) => {
                    &&& old(self).position() + 8 <= old(self).buffer().len()
                    &&& v == signed_at(old(self).buffer(), old(self).position(), 8)
                    &&& final(self).position() == old(self).position() + 8
                },
                Err(e) => {
                    &&& old(self).position() + 8 > old(self).buffer().len()
                    &&& e == ProtocolError::UnexpectedEof
                    &&& final(self).position() == old(self).position()
                },
            },
    {
        proof {
            lemma_pow256_values();
        }
        match self.read_unsigned(8) {
            Ok(v) => if v >= 0x8000_0000_0000_0000 {
                Ok((v as i128 - 0x1_0000_0000_0000_0000) as i64)
            } else {
                Ok(v as i64)
            },
            Err(e) => Err(e),
        }
    }
}

/// Appends the low `width` bytes of `value`, the most significant first.
fn write_unsigned(writer: &mut Vec<u8>, value: u128, width: usize)
    ensures
        final(writer)@ == old(writer)@ + be_bytes(value as nat, width as nat),
    decreases width,
{
    if width > 0 {
        write_unsigned(writer, value / 256, width - 1);
        writer.push((value % 256) as u8);
        assert(writer@ =~= old(writer)@ + be_bytes(value as nat, width as nat));
    } else {
        assert(writer@ =~= old(writer)@ + be_bytes(value as nat, width as nat));
    }
}

/// Appends one byte.
pub fn write_u8(writer: &mut Vec<u8>, value: u8)
    ensures
        final(writer)@ == old(writer)@.push(value),
{
    writer.push(value);
}

/// Appends an unsigned 16-bit number.
pub fn write_u16(writer: &mut Vec<u8>, value: u16)
    ensures
        final(writer)@ == old(writer)@ + be_bytes(value as nat, 2),
{
    write_unsigned(writer, value as u128, 2);
}

/// Appends an unsigned 128-bit number.
pub fn write_u128(writer: &mut Vec<u8>, value: u128)
    ensures
        final(writer)@ == old(writer)@ + be_bytes(value as nat, 16),
{
    write_unsigned(writer, value, 16);
}

/// Appends a signed 64-bit number.
pub fn write_i64(writer: &mut Vec<u8>, value: i64)
    ensures
        final(writer)@ == old(writer)@ + be_bytes(to_unsigned(value as int, 8), 8),
{
    proof {
        lemma_pow256_values();
    }
    let unsigned: u128 = if value < 0 {
        (value as i128 + 0x1_0000_0000_0000_0000) as u128
    } else {
        value as u128
    };
    write_unsigned(writer, unsigned, 8);
}

} // verus!
