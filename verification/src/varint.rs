//! Variable-length integers.
//!
//! The most significant bit of each byte tells whether another byte of the
//! number follows. The other seven bits of the bytes, put together, are the
//! number, least significant group first.

use vstd::prelude::*;
use vstd::std_specs::convert::{FromSpecImpl, TryFromSpecImpl};

verus! {

/// The bit of a byte that tells that another byte follows.
pub const MSB_MASK: u8 = 0b1000_0000;

/// The bits of a byte that belong to the number.
pub const VARINT_PAYLOAD_MASK: u8 = 0b0111_1111;

/// The greatest number of bytes of a number: 18 groups of seven bits fit into
/// an `i128`, whatever they hold.
pub const VARINT_MAX_LENGTH: u8 = 18;

/// The error for bytes that end before the number does.
pub const INSUFFICIENT_DATA: &'static str = "Insufficient data";

/// The error for a number of more than [`VARINT_MAX_LENGTH`] bytes: that many
/// bytes announce another one, and another one is there.
pub const VARINT_TOO_LONG: &'static str = "Varint too long";

/// Whether another byte of the number follows the byte `b`.
pub open spec fn continues(b: u8) -> bool {
    b >= 128
}

/// The seven bits of the number that the byte `b` holds.
pub open spec fn payload(b: u8) -> nat {
    (b % 128) as nat
}

/// The weight of the group with the index `n`: 128 to the power of `n`.
pub open spec fn group_weight(n: nat) -> nat
    decreases n,
{
    if n == 0 {
        1
    } else {
        128 * group_weight((n - 1) as nat)
    }
}

/// The number that the groups of the bytes `s` make, least significant group
/// first.
pub open spec fn groups_value(s: Seq<u8>) -> nat
    decreases s.len(),
{
    if s.len() == 0 {
        0
    } else {
        groups_value(s.drop_last()) + payload(s.last()) * group_weight((s.len() - 1) as nat)
    }
}

/// The number of bytes at the start of `s` after which another byte follows.
pub open spec fn continued_bytes(s: Seq<u8>) -> nat
    decreases s.len(),
{
    if s.len() == 0 || !continues(s[0]) {
        0
    } else {
        1 + continued_bytes(s.drop_first())
    }
}

/// The number at the start of the bytes `data` and the number of bytes that it
/// takes, or why there is none: the data are insufficient where they end, after
/// at most 18 bytes, before the number does, and the number is too long where
/// 18 bytes announce another one that is there.
pub open spec fn decoding(data: Seq<u8>) -> Result<(nat, nat), &'static str> {
    let n = continued_bytes(data);
    if n >= data.len() && data.len() <= VARINT_MAX_LENGTH {
        Err(INSUFFICIENT_DATA)
    } else if n >= VARINT_MAX_LENGTH {
        Err(VARINT_TOO_LONG)
    } else {
        Ok((groups_value(data.take(n + 1 as int)), n + 1))
    }
}

/// `continued_bytes` counts the bytes before the first one that ends a number.
pub proof fn lemma_continued_bytes(s: Seq<u8>, i: int)
    requires
        0 <= i <= s.len(),
        forall|k: int| 0 <= k < i ==> continues(#[trigger] s[k]),
        i < s.len() ==> !continues(s[i]),
    ensures
        continued_bytes(s) == i,
    decreases s.len(),
{
    if i > 0 {
        let tail = s.drop_first();
        assert(continues(s[0]));
        assert forall|k: int| 0 <= k < i - 1 implies continues(#[trigger] tail[k]) by {
            assert(tail[k] == s[k + 1]);
        }
        lemma_continued_bytes(tail, i - 1);
    }
}

/// Where the first `i` bytes all announce another one, at least `i` bytes are
/// continued.
pub proof fn lemma_continued_bytes_at_least(s: Seq<u8>, i: int)
    requires
        0 <= i <= s.len(),
        forall|k: int| 0 <= k < i ==> continues(#[trigger] s[k]),
    ensures
        continued_bytes(s) >= i,
    decreases s.len(),
{
    if i > 0 {
        let tail = s.drop_first();
        assert(continues(s[0]));
        assert forall|k: int| 0 <= k < i - 1 implies continues(#[trigger] tail[k]) by {
            assert(tail[k] == s[k + 1]);
        }
        lemma_continued_bytes_at_least(tail, i - 1);
    }
}

/// `continued_bytes` stops at the first byte that ends a number: every byte
/// before it announces another one.
pub proof fn lemma_continued_bytes_stop(s: Seq<u8>)
    ensures
        continued_bytes(s) <= s.len(),
        forall|k: int| 0 <= k < continued_bytes(s) ==> continues(#[trigger] s[k]),
        continued_bytes(s) < s.len() ==> !continues(s[continued_bytes(s) as int]),
    decreases s.len(),
{
    if s.len() == 0 || !continues(s[0]) {
    } else {
        let tail = s.drop_first();
        lemma_continued_bytes_stop(tail);
        assert forall|k: int| 0 <= k < continued_bytes(s) implies continues(#[trigger] s[k]) by {
            if k > 0 {
                assert(tail[k - 1] == s[k]);
            }
        }
    }
}

/// On data of at most 18 bytes, reading fails exactly where no byte ends the
/// number, that is where every byte announces another one or the data are
/// empty, and then because the data are insufficient; on all other such data
/// it gives a number.
pub proof fn lemma_short_data(data: Seq<u8>)
    requires
        data.len() <= VARINT_MAX_LENGTH,
    ensures
        decoding(data) is Err <==> forall|i: int|
            0 <= i < data.len() ==> continues(#[trigger] data[i]),
        decoding(data) is Err ==> decoding(data) == Err::<(nat, nat), &'static str>(
            INSUFFICIENT_DATA,
        ),
{
    lemma_continued_bytes_stop(data);
    let n = continued_bytes(data);
    if n < data.len() {
        assert(!continues(data[n as int]));
    }
}

/// The groups of `n` bytes make a number below 128 to the power of `n`.
pub proof fn lemma_groups_value_bound(s: Seq<u8>)
    ensures
        groups_value(s) < group_weight(s.len()),
    decreases s.len(),
{
    if s.len() > 0 {
        lemma_groups_value_bound(s.drop_last());
        let w = group_weight((s.len() - 1) as nat);
        let p = payload(s.last());
        assert(p * w <= 127 * w) by (nonlinear_arith)
            requires
                p <= 127,
                w >= 0,
        ;
    }
}

/// A variable-length integer: a number, and the number of bytes that held it.
#[derive(Debug, Clone, Copy, PartialEq, Eq, Structural)]
pub struct Varint {
    value: i128,
    length: u8,
}

impl Varint {
    /// The number.
    pub closed spec fn spec_value(&self) -> i128 {
        self.value
    }

    /// The number of bytes that held the number.
    pub closed spec fn spec_length(&self) -> u8 {
        self.length
    }

    /// The number.
    #[verifier::when_used_as_spec(spec_value)]
    pub fn value(&self) -> (v: i128)
        ensures
            v == self.spec_value(),
    {
        self.value
    }

    /// The number of bytes that held the number.
    #[verifier::when_used_as_spec(spec_length)]
    pub fn length(&self) -> (n: u8)
        ensures
            n == self.spec_length(),
    {
        self.length
    }

    /// What reading the bytes `data` gives.
    pub closed spec fn decoded(data: Seq<u8>) -> Result<Varint, &'static str> {
        match decoding(data) {
            Ok((value, length)) => Ok(Varint { value: value as i128, length: length as u8 }),
            Err(e) => Err(e),
        }
    }

    /// Reading gives the number that [`decoding`] tells, or its error.
    pub proof fn lemma_decoded(data: Seq<u8>)
        ensures
            match Varint::decoded(data) {
                Ok(v) => decoding(data) == Ok::<(nat, nat), &'static str>(
                    (v.value() as nat, v.length() as nat),
                ) && v.value() >= 0,
                Err(e) => decoding(data) == Err::<(nat, nat), &'static str>(e),
            },
    {
        match decoding(data) {
            Ok((value, length)) => {
                let n = continued_bytes(data);
                lemma_groups_value_bound(data.take(n + 1 as int));
                lemma_group_weight_18();
                lemma_group_weight_monotonic(length, 18);
            },
            Err(_) => {},
        }
    }

    /// Reads the number at the start of the bytes `data`.
    pub fn decode(data: &[u8]) -> (r: Result<Varint, &'static str>)
        ensures
            r == Varint::decoded(data@),
            match r {
                Ok(v) => decoding(data@) == Ok::<(nat, nat), &'static str>(
                    (v.value() as nat, v.length() as nat),
                ) && v.value() >= 0,
                Err(e) => decoding(data@) == Err::<(nat, nat), &'static str>(e),
            },
    {
        let mut value: i128 = 0;
        let mut weight: i128 = 1;
        let mut length: u8 = 0;
        proof {
            Varint::lemma_decoded(data@);
            lemma_group_weight_18();
            assert(data@.take(0) =~= Seq::<u8>::empty());
        }
        loop
            invariant
                length <= VARINT_MAX_LENGTH,
                length <= data@.len(),
                forall|k: int| 0 <= k < length ==> continues(#[trigger] data@[k]),
                value == groups_value(data@.take(length as int)),
                weight == group_weight(length as nat),
                group_weight(18) == 0x4000_0000_0000_0000_0000_0000_0000_0000,
            decreases VARINT_MAX_LENGTH - length,
        {
            proof {
                lemma_groups_value_bound(data@.take(length as int));
                lemma_group_weight_monotonic(length as nat, 18);
            }
            if length as usize >= data.len() {
                proof {
                    lemma_continued_bytes(data@, length as int);
                }
                return Err(INSUFFICIENT_DATA);
            }
            if length >= VARINT_MAX_LENGTH {
                proof {
                    lemma_continued_bytes_at_least(data@, length as int);
                }
                return Err(VARINT_TOO_LONG);
            }
            let byte: u8 = data[length as usize];
            let bits: u8 = byte & VARINT_PAYLOAD_MASK;
            let more: bool = byte & MSB_MASK != 0;
            assert(bits == byte % 128 && more == (byte >= 128)) by (bit_vector)
                requires
                    bits == byte & 0b0111_1111,
                    more == (byte & 0b1000_0000 != 0),
            ;
            proof {
                let longer = data@.take(length + 1);
                assert(longer.drop_last() =~= data@.take(length as int));
                assert(longer.last() == byte);
                lemma_group_weight_monotonic(length as nat, 17);
                lemma_group_weight_17();
                assert(bits * weight <= 127 * weight) by (nonlinear_arith)
                    requires
                        bits <= 127,
                        weight >= 0,
                ;
            }
            value = value + (bits as i128) * weight;
            if !more {
                proof {
                    lemma_continued_bytes(data@, length as int);
                }
                return Ok(Varint { value, length: length + 1 });
            }
            weight = weight * 128;
            length = length + 1;
        }
    }
}

/// 128 to the power of 17.
pub proof fn lemma_group_weight_17()
    ensures
        group_weight(17) == 0x80_0000_0000_0000_0000_0000_0000_0000,
{
    reveal_with_fuel(group_weight, 18);
}

/// 128 to the power of 18.
pub proof fn lemma_group_weight_18()
    ensures
        group_weight(18) == 0x4000_0000_0000_0000_0000_0000_0000_0000,
{
    lemma_group_weight_17();
}

/// The weight of a group grows with its index.
pub proof fn lemma_group_weight_monotonic(m: nat, n: nat)
    requires
        m <= n,
    ensures
        0 < group_weight(m) <= group_weight(n),
    decreases n,
{
    if n > 0 {
        if m < n {
            lemma_group_weight_monotonic(m, (n - 1) as nat);
        } else {
            lemma_group_weight_monotonic((m - 1) as nat, (n - 1) as nat);
        }
    }
}

impl<'a> TryFrom<&'a [u8]> for Varint {
    type Error = &'static str;

    /// Reads the number at the start of the bytes `data`.
    fn try_from(data: &'a [u8]) -> (r: Result<Varint, &'static str>) {
        Varint::decode(data)
    }
}

impl<'a> TryFromSpecImpl<&'a [u8]> for Varint {
    open spec fn obeys_try_from_spec() -> bool {
        true
    }

    open spec fn try_from_spec(data: &'a [u8]) -> Result<Varint, &'static str> {
        Varint::decoded(data@)
    }
}

impl From<Varint> for i128 {
    fn from(value: Varint) -> (r: i128) {
        value.value()
    }
}

impl FromSpecImpl<Varint> for i128 {
    open spec fn obeys_from_spec() -> bool {
        true
    }

    open spec fn from_spec(value: Varint) -> i128 {
        value.value()
    }
}

} // verus!
