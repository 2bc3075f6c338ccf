//! Variable-length integers, number by number and byte by byte: the encoding
//! of an unsigned number, and a reader that takes the bytes of one integer as
//! they arrive.

use bitvec::order::Lsb0;
use bitvec::view::BitView;
use vstd::prelude::*;

use crate::error::ProtocolError;
use crate::mc_protocol::data_types::mc_varint::{
    encode_unsigned, groups_value, is_varint, lemma_groups_value_bound, lemma_groups_value_push,
    pow128, varint_bytes,
};

verus! {

/// The number whose binary digits are `bits`, the least significant first.
pub open spec fn bits_value(bits: Seq<bool>) -> nat
    decreases bits.len(),
{
    if bits.len() == 0 {
        0
    } else {
        (if bits[0] {
            1nat
        } else {
            0nat
        }) + 2 * bits_value(bits.skip(1))
    }
}

/// `2` to the power `k`.
pub open spec fn pow2(k: nat) -> nat
    decreases k,
{
    if k == 0 {
        1
    } else {
        2 * pow2((k - 1) as nat)
    }
}

/// `k` binary digits denote a number below `2` to the power `k`.
pub proof fn lemma_bits_value_bound(bits: Seq<bool>)
    ensures
        bits_value(bits) < pow2(bits.len()),
    decreases bits.len(),
{
    if bits.len() > 0 {
        lemma_bits_value_bound(bits.skip(1));
    }
}

/// `BitView::view_bits` of bitvec, in the order `Lsb0`: the 64 binary digits
/// of `number`, the least significant first.
#[verifier::external_body]
fn lsb0_bits(number: u64) -> (bits: Vec<bool>)
    ensures
        bits@.len() == 64,
        bits_value(bits@) == number,
{
    number.view_bits::<Lsb0>().iter().by_vals().collect()
}

/// The number whose binary digits are `bits`, the least significant first.
pub fn number_from_bits(bits: &Vec<bool>) -> (number: u64)
    requires
        bits@.len() <= 64,
    ensures
        number == bits_value(bits@),
{
    let mut number: u64 = 0;
    let mut i: usize = bits.len();
    proof {
        assert(bits@.skip(bits@.len() as int) =~= Seq::<bool>::empty());
        assert(pow2(64) == 0x1_0000_0000_0000_0000) by {
            reveal_with_fuel(pow2, 65);
        }
    }
    while i > 0
        invariant
            i <= bits@.len() <= 64,
            number == bits_value(bits@.skip(i as int)),
            pow2(64) == 0x1_0000_0000_0000_0000,
        decreases i,
    {
        i = i - 1;
        proof {
            assert(bits@.skip(i as int).skip(1) =~= bits@.skip(i + 1));
            lemma_bits_value_bound(bits@.skip(i as int));
            lemma_pow2_monotonic((bits@.len() - i) as nat, 64);
        }
        number = 2 * number + if bits[i] {
            1
        } else {
            0
        };
    }
    assert(bits@.skip(0) =~= bits@);
    number
}

/// The powers of 2 grow with the exponent.
pub proof fn lemma_pow2_monotonic(j: nat, k: nat)
    requires
        j <= k,
    ensures
        pow2(j) <= pow2(k),
    decreases k,
{
    if j < k {
        lemma_pow2_monotonic(j, (k - 1) as nat);
    }
}

/// An unsigned number that can be written as a variable-length integer.
pub trait VarintNumber: Copy {
    /// The number.
    spec fn spec_number(self) -> nat;

    /// The number, in 64 bits.
    fn widen(self) -> (number: u64)
        ensures
            number == self.spec_number(),
    ;
}

impl VarintNumber for u8 {
    open spec fn spec_number(self) -> nat {
        self as nat
    }

    fn widen(self) -> (number: u64) {
        self as u64
    }
}

impl VarintNumber for u16 {
    open spec fn spec_number(self) -> nat {
        self as nat
    }

    fn widen(self) -> (number: u64) {
        self as u64
    }
}

impl VarintNumber for u32 {
    open spec fn spec_number(self) -> nat {
        self as nat
    }

    fn widen(self) -> (number: u64) {
        self as u64
    }
}

impl VarintNumber for u64 {
    open spec fn spec_number(self) -> nat {
        self as nat
    }

    fn widen(self) -> (number: u64) {
        self
    }
}

impl VarintNumber for usize {
    open spec fn spec_number(self) -> nat {
        self as nat
    }

    fn widen(self) -> (number: u64) {
        self as u64
    }
}

/// The bytes that encode `number` as a variable-length integer: its binary
/// digits in groups of seven, the least significant group first, each byte
/// but the last with its top bit set.
pub fn into_varint<I: VarintNumber>(number: I) -> (bytes: Vec<u8>)
    ensures
        bytes@ == varint_bytes(number.spec_number()),
{
    let bits = lsb0_bits(number.widen());
    encode_unsigned(number_from_bits(&bits))
}

/// Reads a variable-length integer byte by byte.
///
/// Bytes are pushed with [`VarintReader::try_byte`] until it gives a value.
/// A byte that is refused is not taken: the reader is as it was before.
pub struct VarintReader {
    /// The number of bytes that have been read.
    length: usize,
    /// The data that has been read.
    data: u32,
    /// Whether all the bytes of the integer have been read.
    complete: bool,
    /// The bytes that have been read.
    bytes: Ghost<Seq<u8>>,
}

impl VarintReader {
    /// What holds of every reader.
    #[verifier::type_invariant]
    spec fn wf(&self) -> bool {
        if self.complete {
            is_varint(self.bytes@)
        } else {
            &&& self.length == self.bytes@.len()
            &&& self.length <= 4
            &&& self.data == groups_value(self.bytes@)
            &&& forall|i: int| 0 <= i < self.bytes@.len() ==> self.bytes@[i] >= 128
        }
    }

    /// The bytes that the reader has taken.
    pub closed spec fn pushed(&self) -> Seq<u8> {
        self.bytes@
    }

    /// Whether the reader has given its value.
    pub closed spec fn is_complete(&self) -> bool {
        self.complete
    }

    /// A reader that has taken no byte yet.
    pub fn new() -> (reader: Self)
        ensures
            reader.pushed() == Seq::<u8>::empty(),
            !reader.is_complete(),
    {
        VarintReader { length: 0, data: 0, complete: false, bytes: Ghost(Seq::empty()) }
    }

    /// Pushes one byte.
    ///
    /// A byte whose top bit is clear ends the integer: the reader takes it
    /// and gives the value, the low 32 bits of what the groups denote. A byte
    /// whose top bit is set is taken if it is one of the first four, and the
    /// reader asks for more; as the fifth it is refused, because the integer
    /// would need a sixth. A reader that has given its value refuses every
    /// byte.
    pub fn try_byte(&mut self, byte: u8) -> (result: Result<Option<u32>, ProtocolError>)
        ensures
            match result {
                Ok(Some(value)) => {
                    &&& !old(self).is_complete()
                    &&& byte < 128
                    &&& final(self).pushed() == old(self).pushed().push(byte)
                    &&& final(self).is_complete()
                    &&& is_varint(final(self).pushed())
                    &&& value == groups_value(final(self).pushed()) % 0x1_0000_0000
                },
                Ok(None) => {
                    &&& !old(self).is_complete()
                    &&& byte >= 128
                    &&& old(self).pushed().len() < 4
                    &&& final(self).pushed() == old(self).pushed().push(byte)
                    &&& !final(self).is_complete()
                },
                Err(e) => {
                    &&& final(self).pushed() == old(self).pushed()
                    &&& final(self).is_complete() == old(self).is_complete()
                    &&& if old(self).is_complete() {
                        e == ProtocolError::ReaderComplete
                    } else {
                        &&& e == ProtocolError::VarintTooLong
                        &&& byte >= 128
                        &&& old(self).pushed().len() == 4
                    }
                },
            },
    {
        proof {
            use_type_invariant(&*self);
        }
        if self.complete {
            return Err(ProtocolError::ReaderComplete);
        }
        if byte >= 128 && self.length >= 4 {
            return Err(ProtocolError::VarintTooLong);
        }
        let weight: u64 = if self.length == 0 {
            1
        } else if self.length == 1 {
            128
        } else if self.length == 2 {
            16384
        } else if self.length == 3 {
            2097152
        } else {
            268435456
        };
        proof {
            reveal_with_fuel(pow128, 5);
            assert(weight == pow128(self.length as nat));
            lemma_groups_value_push(self.bytes@, byte);
            lemma_groups_value_bound(self.bytes@);
            assert((byte % 128) as int * weight as int <= 127 * 268435456) by (nonlinear_arith)
                requires
                    0 <= (byte % 128) as int <= 127,
                    0 <= weight as int <= 268435456,
            ;
        }
        let sum: u64 = self.data as u64 + (byte % 128) as u64 * weight;
        let ghost pushed = self.bytes@.push(byte);
        if byte >= 128 {
            proof {
                lemma_groups_value_bound(pushed);
                assert(pow128(4) == 268435456);
            }
            *self = VarintReader {
                length: self.length + 1,
                data: sum as u32,
                complete: false,
                bytes: Ghost(pushed),
            };
            Ok(None)
        } else {
            let value = (sum % 0x1_0000_0000) as u32;
            *self = VarintReader {
                length: self.length,
                data: value,
                complete: true,
                bytes: Ghost(pushed),
            };
            Ok(Some(value))
        }
    }
}

} // verus!
