//! The protocol's variable-length integer.
//!
//! A 32-bit number is written as groups of seven bits, the least significant
//! group first. Every byte but the last has its top bit set. A negative number
//! is written as the unsigned number with the same 32 bits.

use vstd::prelude::*;

use crate::error::ProtocolError;
use crate::mc_protocol::byte_reader::ByteReader;
use crate::mc_protocol::McProtocol;

verus! {

/// `128` to the power `k`: the weight of the group at index `k`.
pub open spec fn pow128(k: nat) -> nat
    decreases k,
{
    if k == 0 {
        1
    } else {
        128 * pow128((k - 1) as nat)
    }
}

/// The bytes that encode the unsigned number `n`.
pub open spec fn varint_bytes(n: nat) -> Seq<u8>
    decreases n,
{
    if n < 128 {
        seq![n as u8]
    } else {
        seq![(n % 128 + 128) as u8] + varint_bytes(n / 128)
    }
}

/// The unsigned number that the seven-bit groups of `bytes` denote, the least
/// significant group first. The top bit of each byte is not looked at.
pub open spec fn groups_value(bytes: Seq<u8>) -> nat
    decreases bytes.len(),
{
    if bytes.len() == 0 {
        0
    } else {
        (bytes[0] % 128) as nat + 128 * groups_value(bytes.skip(1))
    }
}

/// Whether `bytes` is one whole variable-length integer: one to five bytes,
/// of which all but the last have the top bit set.
pub open spec fn is_varint(bytes: Seq<u8>) -> bool {
    &&& 1 <= bytes.len() <= 5
    &&& forall|i: int| 0 <= i < bytes.len() - 1 ==> bytes[i] >= 128
    &&& bytes[bytes.len() - 1] < 128
}

/// The unsigned number with the same 32 bits as `value`.
pub open spec fn as_unsigned(value: i32) -> nat {
    if value < 0 {
        (value + 0x1_0000_0000) as nat
    } else {
        value as nat
    }
}

/// The signed number whose 32 bits are the low 32 bits of `n`.
pub open spec fn as_signed(n: nat) -> i32 {
    let low = n % 0x1_0000_0000;
    if low >= 0x8000_0000 {
        (low - 0x1_0000_0000) as i32
    } else {
        low as i32
    }
}

/// Where the variable-length integer that starts at `at` ends, given that the
/// `taken` bytes from `at` on all have their top bit set.
pub open spec fn scan_varint(input: Seq<u8>, at: int, taken: nat) -> Result<int, ProtocolError>
    decreases 5 - taken,
{
    if taken >= 5 {
        Err(ProtocolError::VarintTooLong)
    } else if at + taken >= input.len() {
        Err(ProtocolError::UnexpectedEof)
    } else if input[at + taken] < 128 {
        Ok(at + taken + 1)
    } else {
        scan_varint(input, at, taken + 1)
    }
}

/// The variable-length integer that starts at index `at` of `input`: its
/// bytes and the index behind it. It ends with the first byte whose top bit is
/// clear. Where the fifth byte has its top bit set the integer is too long,
/// whatever follows; where the input ends first, more input is needed.
pub open spec fn parse_varint(input: Seq<u8>, at: int) -> Result<(Seq<u8>, int), ProtocolError> {
    match scan_varint(input, at, 0) {
        Ok(end) => Ok((input.subrange(at, end), end)),
        Err(e) => Err(e),
    }
}

/// The group at the end of a run weighs `128` to the power of its index.
pub proof fn lemma_groups_value_push(bytes: Seq<u8>, last: u8)
    ensures
        groups_value(bytes.push(last)) == groups_value(bytes) + (last % 128) * pow128(bytes.len()),
    decreases bytes.len(),
{
    let pushed = bytes.push(last);
    let g = (last % 128) as int;
    if bytes.len() == 0 {
        assert(pushed.skip(1) =~= Seq::<u8>::empty());
        assert(groups_value(pushed) == g + 128 * groups_value(pushed.skip(1)));
        assert(pow128(0) == 1);
        assert(g * 1 == g);
    } else {
        let tail = bytes.skip(1);
        lemma_groups_value_push(tail, last);
        assert(pushed.skip(1) =~= tail.push(last));
        let p = pow128(tail.len()) as int;
        assert(pow128(bytes.len()) == 128 * p);
        assert(groups_value(pushed) == (pushed[0] % 128) + 128 * groups_value(pushed.skip(1)));
        assert(128 * (g * p) == g * (128 * p)) by (nonlinear_arith);
    }
}

/// A run of `k` groups denotes a number below `128` to the power `k`.
pub proof fn lemma_groups_value_bound(bytes: Seq<u8>)
    ensures
        groups_value(bytes) < pow128(bytes.len()),
    decreases bytes.len(),
{
    if bytes.len() > 0 {
        lemma_groups_value_bound(bytes.skip(1));
    }
}

/// The encoding of a number below `128` to the power `k` has at most `k`
/// bytes, of which all but the last have the top bit set.
pub proof fn lemma_varint_bytes_shape(n: nat, k: nat)
    requires
        k >= 1,
        n < pow128(k),
    ensures
        1 <= varint_bytes(n).len() <= k,
        forall|i: int| 0 <= i < varint_bytes(n).len() - 1 ==> varint_bytes(n)[i] >= 128,
        varint_bytes(n)[varint_bytes(n).len() - 1] < 128,
    decreases n,
{
    if n >= 128 {
        assert(k >= 2) by {
            reveal_with_fuel(pow128, 2);
        }
        lemma_varint_bytes_shape(n / 128, (k - 1) as nat);
    }
}

/// Decoding undoes encoding: the groups of a number's encoding denote it.
pub proof fn lemma_groups_value_of_varint_bytes(n: nat)
    ensures
        groups_value(varint_bytes(n)) == n,
    decreases n,
{
    let bytes = varint_bytes(n);
    if n >= 128 {
        lemma_groups_value_of_varint_bytes(n / 128);
        let first = (n % 128 + 128) as u8;
        assert(bytes.skip(1) =~= varint_bytes(n / 128));
        assert(bytes[0] == first);
        assert(first % 128 == n % 128);
        assert(groups_value(bytes) == (bytes[0] % 128) + 128 * groups_value(bytes.skip(1)));
    } else {
        assert(bytes.skip(1) =~= Seq::<u8>::empty());
        assert(bytes[0] == n);
        assert(groups_value(bytes) == (bytes[0] % 128) + 128 * groups_value(bytes.skip(1)));
    }
}

/// Every 32-bit number has an encoding of at most five bytes.
pub proof fn lemma_varint_bytes_is_varint(n: nat)
    requires
        n < 0x1_0000_0000,
    ensures
        is_varint(varint_bytes(n)),
{
    assert(pow128(5) == 34359738368) by {
        reveal_with_fuel(pow128, 6);
    }
    lemma_varint_bytes_shape(n, 5);
}

/// The signed and the unsigned reading of 32 bits are inverse to each other.
pub proof fn lemma_signed_unsigned(value: i32)
    ensures
        as_unsigned(value) < 0x1_0000_0000,
        as_signed(as_unsigned(value)) == value,
{
}

/// Reading finds a whole integer wherever it stands: if the bytes of `input`
/// from index `at` on are those of the integer `varint`, reading there gives
/// `varint` and the index behind it.
pub proof fn lemma_parse_varint_finds(input: Seq<u8>, at: int, varint: Seq<u8>)
    requires
        is_varint(varint),
        0 <= at,
        at + varint.len() <= input.len(),
        input.subrange(at, at + varint.len()) == varint,
    ensures
        parse_varint(input, at) == Ok::<(Seq<u8>, int), ProtocolError>(
            (varint, at + varint.len()),
        ),
{
    reveal_with_fuel(scan_varint, 6);
    assert forall|i: int| 0 <= i < varint.len() implies input[at + i] == varint[i] by {
        assert(input.subrange(at, at + varint.len())[i] == input[at + i]);
    }
    if varint.len() > 1 {
        assert(input[at] == varint[0]);
    }
    if varint.len() > 2 {
        assert(input[at + 1] == varint[1]);
    }
    if varint.len() > 3 {
        assert(input[at + 2] == varint[2]);
    }
    if varint.len() > 4 {
        assert(input[at + 3] == varint[3]);
    }
    assert(input[at + varint.len() - 1] == varint[varint.len() - 1]);
}

/// Encoding and decoding a number gives the number back.
///
/// The encoding of a signed 32-bit number is one whole integer, of five bytes
/// at most. It denotes the number. And reading finds it in front of whatever
/// follows it.
pub proof fn lemma_varint_round_trip(value: i32, rest: Seq<u8>)
    ensures
        is_varint(varint_bytes(as_unsigned(value))),
        1 <= varint_bytes(as_unsigned(value)).len() <= 5,
        as_signed(groups_value(varint_bytes(as_unsigned(value)))) == value,
        parse_varint(varint_bytes(as_unsigned(value)) + rest, 0) == Ok::<
            (Seq<u8>, int),
            ProtocolError,
        >((varint_bytes(as_unsigned(value)), varint_bytes(as_unsigned(value)).len() as int)),
{
    let encoding = varint_bytes(as_unsigned(value));
    lemma_signed_unsigned(value);
    lemma_varint_bytes_is_varint(as_unsigned(value));
    lemma_groups_value_of_varint_bytes(as_unsigned(value));
    assert((encoding + rest).subrange(0, encoding.len() as int) =~= encoding);
    lemma_parse_varint_finds(encoding + rest, 0, encoding);
}

/// An integer that would need a sixth byte is refused: where five bytes in a
/// row have their top bit set, reading fails, whatever follows them.
pub proof fn lemma_varint_too_long(input: Seq<u8>, at: int)
    requires
        0 <= at,
        at + 5 <= input.len(),
        forall|i: int| at <= i < at + 5 ==> input[i] >= 128,
    ensures
        parse_varint(input, at) == Err::<(Seq<u8>, int), ProtocolError>(
            ProtocolError::VarintTooLong,
        ),
        ProtocolError::VarintTooLong.spec_kind() == crate::error::ErrorKind::InvalidData,
{
    reveal_with_fuel(scan_varint, 6);
}

/// An integer that is cut short asks for more input: where every byte from
/// index `at` to the end of the input has its top bit set, and there are
/// fewer than five of them, reading fails for want of input.
pub proof fn lemma_varint_cut_short(input: Seq<u8>, at: int)
    requires
        0 <= at <= input.len(),
        input.len() - at < 5,
        forall|i: int| at <= i < input.len() ==> input[i] >= 128,
    ensures
        parse_varint(input, at) == Err::<(Seq<u8>, int), ProtocolError>(
            ProtocolError::UnexpectedEof,
        ),
{
    reveal_with_fuel(scan_varint, 6);
}

/// What reading finds is what stands there: the bytes that were read are one
/// whole integer, and they are the bytes of the input from `at` to the index
/// behind the integer.
pub proof fn lemma_parse_varint_is_varint(input: Seq<u8>, at: int)
    requires
        0 <= at,
    ensures
        parse_varint(input, at) matches Ok((varint, end)) ==> {
            &&& is_varint(varint)
            &&& end == at + varint.len()
            &&& end <= input.len()
            &&& varint == input.subrange(at, end)
        },
{
    reveal_with_fuel(scan_varint, 6);
}

/// What was read stays read: where reading does not fail for want of input,
/// it gives the same with more input behind.
pub proof fn lemma_parse_varint_stable(input: Seq<u8>, at: int, more: Seq<u8>)
    requires
        0 <= at,
        parse_varint(input, at) != Err::<(Seq<u8>, int), ProtocolError>(
            ProtocolError::UnexpectedEof,
        ),
    ensures
        parse_varint(input + more, at) == parse_varint(input, at),
{
    reveal_with_fuel(scan_varint, 6);
    let longer = input + more;
    assert(forall|i: int| 0 <= i < input.len() ==> longer[i] == input[i]);
    match scan_varint(input, at, 0) {
        Ok(end) => {
            assert(longer.subrange(at, end) =~= input.subrange(at, end));
        },
        Err(_) => {},
    }
}

/// A variable-length integer, held as the bytes that encode it.
///
/// A value of this type is always one whole integer in the sense of
/// [`is_varint`]. It is not always the shortest encoding of its number: one
/// that was read keeps the bytes it was read from.
#[derive(Debug)]
pub struct McVarint(Vec<u8>);

impl View for McVarint {
    type V = Seq<u8>;

    closed spec fn view(&self) -> Seq<u8> {
        self.0@
    }
}

impl McVarint {
    /// What holds of every value of this type.
    #[verifier::type_invariant]
    pub open spec fn wf(&self) -> bool {
        is_varint(self@)
    }

    /// The signed 32-bit number that the integer denotes: the low 32 bits of
    /// what its groups add up to.
    pub open spec fn spec_value(&self) -> i32 {
        as_signed(groups_value(self@))
    }

    /// The bytes that encode the integer.
    pub fn as_bytes(&self) -> (bytes: &Vec<u8>)
        ensures
            bytes@ == self@,
            is_varint(self@),
    {
        proof {
            use_type_invariant(self);
        }
        &self.0
    }

    /// The signed 32-bit number that the integer denotes.
    #[verifier::when_used_as_spec(spec_value)]
    pub fn value(&self) -> (value: i32)
        ensures
            value == self.spec_value(),
    {
        proof {
            use_type_invariant(self);
            assert(pow128(5) == 34359738368) by {
                reveal_with_fuel(pow128, 6);
            }
            assert(self.0@.skip(self.0@.len() as int) =~= Seq::<u8>::empty());
        }
        let mut acc: u64 = 0;
        let mut i: usize = self.0.len();
        while i > 0
            invariant
                i <= self.0@.len() <= 5,
                acc == groups_value(self.0@.skip(i as int)),
                acc < pow128((self.0@.len() - i) as nat),
                pow128(5) == 34359738368,
            decreases i,
        {
            i = i - 1;
            proof {
                assert(self.0@.skip(i as int).skip(1) =~= self.0@.skip(i + 1));
                lemma_pow128_monotonic((self.0@.len() - i) as nat, 5);
            }
            acc = (self.0[i] % 128) as u64 + 128 * acc;
        }
        assert(self.0@.skip(0) =~= self.0@);
        let low: u64 = acc % 0x1_0000_0000;
        if low >= 0x8000_0000 {
            (low as i64 - 0x1_0000_0000) as i32
        } else {
            low as i32
        }
    }
}

/// The weights grow with the index.
pub proof fn lemma_pow128_monotonic(j: nat, k: nat)
    requires
        j <= k,
    ensures
        pow128(j) <= pow128(k),
        pow128(j) >= 1,
    decreases k,
{
    if j < k {
        lemma_pow128_monotonic(j, (k - 1) as nat);
    } else if j > 0 {
        lemma_pow128_monotonic((j - 1) as nat, (j - 1) as nat);
    }
}

/// The bytes that encode the unsigned number `number`.
pub fn encode_unsigned(number: u64) -> (bytes: Vec<u8>)
    ensures
        bytes@ == varint_bytes(number as nat),
{
    let mut bytes: Vec<u8> = Vec::new();
    let mut rest: u64 = number;
    while rest >= 128
        invariant
            bytes@ + varint_bytes(rest as nat) == varint_bytes(number as nat),
        decreases rest,
    {
        let ghost before = bytes@;
        bytes.push((rest % 128 + 128) as u8);
        proof {
            let head = seq![(rest % 128 + 128) as u8];
            assert(before.push((rest % 128 + 128) as u8) + varint_bytes((rest / 128) as nat)
                =~= before + (head + varint_bytes((rest / 128) as nat)));
        }
        rest = rest / 128;
    }
    let ghost before = bytes@;
    bytes.push(rest as u8);
    assert(before.push(rest as u8) =~= before + varint_bytes(rest as nat));
    bytes
}

impl From<i32> for McVarint {
    /// The shortest encoding of `value`.
    fn from(value: i32) -> (varint: Self)
        ensures
            varint@ == varint_bytes(as_unsigned(value)),
    {
        let unsigned: u32 = if value < 0 {
            (value as i64 + 0x1_0000_0000) as u32
        } else {
            value as u32
        };
        let bytes = encode_unsigned(unsigned as u64);
        proof {
            lemma_varint_bytes_is_varint(unsigned as nat);
        }
        McVarint(bytes)
    }
}

/// What `from` gives is stated in its own contract, over the bytes of the
/// result: no spec function can make the value itself, which holds a vector.
impl vstd::std_specs::convert::FromSpecImpl<i32> for McVarint {
    open spec fn obeys_from_spec() -> bool {
        false
    }

    open spec fn from_spec(v: i32) -> Self {
        arbitrary()
    }
}

impl McProtocol for McVarint {
    open spec fn wire_error(value: Seq<u8>) -> Option<ProtocolError> {
        None
    }

    open spec fn wire(value: Seq<u8>) -> Seq<u8> {
        value
    }

    open spec fn parse(input: Seq<u8>, at: int) -> Result<(Seq<u8>, int), ProtocolError> {
        parse_varint(input, at)
    }

    fn serialize_write(&self, writer: &mut Vec<u8>) -> (result: Result<(), ProtocolError>) {
        writer.extend_from_slice(self.0.as_slice());
        Ok(())
    }

    fn deserialize_read(reader: &mut ByteReader) -> (result: Result<Self, ProtocolError>) {
        let start = reader.offset();
        let ghost input = reader.buffer();
        let mut taken: usize = 0;
        loop
            invariant_except_break
                taken <= 5,
                forall|j: int| start <= j < start + taken ==> input[j] >= 128,
            invariant
                reader.buffer() == input,
                reader.position() == start,
                start <= input.len(),
                scan_varint(input, start as int, 0) == scan_varint(input, start as int, taken as nat),
            ensures
                taken < 5,
                start + taken < input.len(),
                input[start + taken] < 128,
                forall|j: int| start <= j < start + taken ==> input[j] >= 128,
            decreases 5 - taken,
        {
            if taken >= 5 {
                return Err(ProtocolError::VarintTooLong);
            }
            match reader.peek(taken) {
                None => {
                    return Err(ProtocolError::UnexpectedEof);
                },
                Some(byte) => {
                    if byte < 128 {
                        break ;
                    }
                    taken = taken + 1;
                },
            }
        }
        match reader.read_exact(taken + 1) {
            Ok(bytes) => Ok(McVarint(bytes)),
            Err(e) => Err(e),
        }
    }
}

impl Clone for McVarint {
    fn clone(&self) -> (copy: Self)
        ensures
            copy@ == self@,
    {
        proof {
            use_type_invariant(self);
        }
        McVarint(self.0.clone())
    }
}

impl From<McVarint> for i32 {
    /// The signed 32-bit number that the integer denotes.
    fn from(varint: McVarint) -> (value: i32) {
        varint.value()
    }
}

impl vstd::std_specs::convert::FromSpecImpl<McVarint> for i32 {
    open spec fn obeys_from_spec() -> bool {
        true
    }

    open spec fn from_spec(varint: McVarint) -> i32 {
        varint.spec_value()
    }
}

impl TryFrom<McVarint> for u32 {
    type Error = ProtocolError;

    /// The number that the integer denotes, unless it is negative.
    fn try_from(varint: McVarint) -> (value: Result<u32, ProtocolError>) {
        let signed = varint.value();
        if signed < 0 {
            Err(ProtocolError::NegativeLength(signed))
        } else {
            Ok(signed as u32)
        }
    }
}

impl vstd::std_specs::convert::TryFromSpecImpl<McVarint> for u32 {
    open spec fn obeys_try_from_spec() -> bool {
        true
    }

    open spec fn try_from_spec(varint: McVarint) -> Result<u32, ProtocolError> {
        if varint.spec_value() < 0 {
            Err(ProtocolError::NegativeLength(varint.spec_value()))
        } else {
            Ok(varint.spec_value() as u32)
        }
    }
}

impl TryFrom<u32> for McVarint {
    type Error = ProtocolError;

    /// The shortest encoding of `value`, unless it is larger than the largest
    /// signed 32-bit number.
    fn try_from(value: u32) -> (varint: Result<McVarint, ProtocolError>)
        ensures
            match varint {
                Ok(v) => value <= i32::MAX && v@ == varint_bytes(value as nat),
                Err(e) => value > i32::MAX && e == ProtocolError::ValueOutOfBounds(value),
            },
    {
        if value > 0x7fff_ffff {
            Err(ProtocolError::ValueOutOfBounds(value))
        } else {
            Ok(McVarint::from(value as i32))
        }
    }
}

/// What `try_from` gives is stated in its own contract, over the bytes of
/// the result: no spec function can make the value itself, which holds a
/// vector.
impl vstd::std_specs::convert::TryFromSpecImpl<u32> for McVarint {
    open spec fn obeys_try_from_spec() -> bool {
        false
    }

    open spec fn try_from_spec(value: u32) -> Result<McVarint, ProtocolError> {
        arbitrary()
    }
}

} // verus!
