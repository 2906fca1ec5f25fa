//! QUIC variable-length integers.
//!
//! The two top bits of the first byte give the length of the encoding (one, two,
//! four or eight bytes); the remaining bits hold the value, most significant byte
//! first.

use vstd::prelude::*;

verus! {

/// The number that `bytes` stand for, most significant byte first.
pub open spec fn be_nat(bytes: Seq<u8>) -> nat
    decreases bytes.len(),
{
    if bytes.len() == 0 {
        0
    } else {
        be_nat(bytes.drop_last()) * 256 + bytes.last() as nat
    }
}

/// The length that the first byte of an encoding announces.
pub open spec fn prefix_len(first: u8) -> nat {
    if first < 64 {
        1
    } else if first < 128 {
        2
    } else if first < 192 {
        4
    } else {
        8
    }
}

/// How many values an encoding of `len` bytes can tell apart: two bits of the
/// first byte are taken by the length.
pub open spec fn capacity(len: nat) -> nat {
    if len == 1 {
        64
    } else if len == 2 {
        16384
    } else if len == 4 {
        1073741824
    } else {
        4611686018427387904
    }
}

/// The value and the length of the encoding that `bytes` start with, if they hold
/// all of it.
pub open spec fn leading_varint(bytes: Seq<u8>) -> Option<(u64, usize)> {
    if bytes.len() == 0 || bytes.len() < prefix_len(bytes[0]) {
        None
    } else {
        let len = prefix_len(bytes[0]);
        Some(((be_nat(bytes.take(len as int)) % capacity(len)) as u64, len as usize))
    }
}

/// The length of the shortest encoding of `value`.
pub open spec fn shortest_len(value: nat) -> nat {
    if value < 64 {
        1
    } else if value < 16384 {
        2
    } else if value < 1073741824 {
        4
    } else {
        8
    }
}

/// Byte `index` of the encoding of `value`, counted from the least significant one.
pub open spec fn low_byte(value: nat, index: nat) -> u8
    decreases index,
{
    if index == 0 {
        (value % 256) as u8
    } else {
        low_byte(value / 256, (index - 1) as nat)
    }
}

/// What the length bits add to the first byte of an encoding of `len` bytes.
pub open spec fn prefix_bits(len: nat) -> nat {
    if len == 1 {
        0
    } else if len == 2 {
        64
    } else if len == 4 {
        128
    } else {
        192
    }
}

/// The shortest encoding of `value`; of a value that needs more than 62 bits, the
/// encoding of its low 62 bits.
pub open spec fn varint_bytes(value: u64) -> Seq<u8> {
    let len = shortest_len(value as nat);
    let low = value as nat % capacity(len);
    Seq::new(
        len,
        |i: int|
            if i == 0 {
                (low_byte(low, (len - 1) as nat) + prefix_bits(len)) as u8
            } else {
                low_byte(low, (len - 1 - i) as nat)
            },
    )
}

/// The length of the shortest encoding of `value`.
pub fn varint_len(value: u64) -> (len: usize)
    ensures
        len == shortest_len(value as nat),
        len == varint_bytes(value).len(),
{
    if value < 64 {
        1
    } else if value < 16384 {
        2
    } else if value < 1073741824 {
        4
    } else {
        8
    }
}

/// Writes the shortest encoding of `value` to the front of `buf` and returns its
/// length. The rest of `buf` stays as it is.
#[verifier::spinoff_prover]
pub fn encode_varint(value: u64, buf: &mut Vec<u8>) -> (len: usize)
    requires
        old(buf)@.len() >= shortest_len(value as nat),
    ensures
        len == shortest_len(value as nat),
        final(buf)@ == varint_bytes(value) + old(buf)@.skip(len as int),
{
    proof {
        reveal_with_fuel(low_byte, 9);
    }
    let ghost before = buf@;
    if value < 64 {
        buf[0] = value as u8;
        assert(buf@ =~= varint_bytes(value) + before.skip(1));
        1
    } else if value < 16384 {
        buf[0] = (value / 256 + 64) as u8;
        buf[1] = (value % 256) as u8;
        proof {
            short_numbers_byte_by_byte(value, Seq::empty());
        }
        assert(buf@ =~= varint_bytes(value) + before.skip(2));
        2
    } else if value < 1073741824 {
        buf[0] = (value / 256 / 256 / 256 + 128) as u8;
        buf[1] = (value / 256 / 256 % 256) as u8;
        buf[2] = (value / 256 % 256) as u8;
        buf[3] = (value % 256) as u8;
        assert(buf@ =~= varint_bytes(value) + before.skip(4));
        4
    } else {
        let low: u64 = value % 4611686018427387904;
        buf[0] = (low / 256 / 256 / 256 / 256 / 256 / 256 / 256 + 192) as u8;
        buf[1] = (low / 256 / 256 / 256 / 256 / 256 / 256 % 256) as u8;
        buf[2] = (low / 256 / 256 / 256 / 256 / 256 % 256) as u8;
        buf[3] = (low / 256 / 256 / 256 / 256 % 256) as u8;
        buf[4] = (low / 256 / 256 / 256 % 256) as u8;
        buf[5] = (low / 256 / 256 % 256) as u8;
        buf[6] = (low / 256 % 256) as u8;
        buf[7] = (low % 256) as u8;
        assert(buf@ =~= varint_bytes(value) + before.skip(8));
        8
    }
}

/// Why bytes do not start with a whole variable-length integer.
#[derive(Debug, Clone, Copy, PartialEq, Eq, Structural)]
pub enum VarintError {
    /// There is no first byte.
    Empty,
    /// The first byte announces more bytes than there are.
    TooShort,
}

/// The number that the first `len + 1` bytes stand for, from the first `len`.
pub(crate) proof fn be_nat_step(bytes: Seq<u8>, len: int)
    requires
        0 <= len < bytes.len(),
    ensures
        be_nat(bytes.take(len + 1)) == be_nat(bytes.take(len)) * 256 + bytes[len] as nat,
{
    assert(bytes.take(len + 1).drop_last() =~= bytes.take(len));
}

proof fn be_nat_unfolds(bytes: Seq<u8>)
    ensures
        bytes.len() >= 1 ==> be_nat(bytes.take(1)) == bytes[0],
        bytes.len() >= 2 ==> be_nat(bytes.take(2)) == bytes[0] * 256 + bytes[1],
        bytes.len() >= 4 ==> be_nat(bytes.take(4)) == bytes[0] * 16777216 + bytes[1] * 65536
            + bytes[2] * 256 + bytes[3],
        bytes.len() >= 8 ==> be_nat(bytes.take(8)) == bytes[0] * 72057594037927936 + bytes[1]
            * 281474976710656 + bytes[2] * 1099511627776 + bytes[3] * 4294967296 + bytes[4]
            * 16777216 + bytes[5] * 65536 + bytes[6] * 256 + bytes[7],
{
    if bytes.len() >= 1 {
        assert(bytes.take(0) =~= Seq::<u8>::empty());
        be_nat_step(bytes, 0);
    }
    if bytes.len() >= 2 {
        be_nat_step(bytes, 1);
    }
    if bytes.len() >= 4 {
        be_nat_step(bytes, 2);
        be_nat_step(bytes, 3);
    }
    if bytes.len() >= 8 {
        be_nat_step(bytes, 4);
        be_nat_step(bytes, 5);
        be_nat_step(bytes, 6);
        be_nat_step(bytes, 7);
    }
}

/// Reads the variable-length integer at the front of `buf`: its value and its
/// length.
pub fn read_varint(buf: &[u8]) -> (res: Result<(u64, usize), VarintError>)
    ensures
        match res {
            Ok(pair) => leading_varint(buf@) == Some(pair) && 1 <= pair.1 <= 8 && pair.1
                <= buf@.len() && pair.0 < 4611686018427387904,
            Err(VarintError::Empty) => buf@.len() == 0,
            Err(VarintError::TooShort) => 0 < buf@.len() < prefix_len(buf@[0]),
        },
        res is Err <==> leading_varint(buf@) is None,
{
    if buf.len() == 0 {
        return Err(VarintError::Empty);
    }
    proof {
        be_nat_unfolds(buf@);
    }
    let first: u8 = buf[0];
    let low: u64 = (first % 64) as u64;
    if first < 64 {
        Ok((low, 1))
    } else if first < 128 {
        if buf.len() < 2 {
            return Err(VarintError::TooShort);
        }
        let value: u64 = low * 256 + buf[1] as u64;
        proof {
            length_bits_drop_out(value as nat, 1, 16384);
        }
        Ok((value, 2))
    } else if first < 192 {
        if buf.len() < 4 {
            return Err(VarintError::TooShort);
        }
        let value: u64 = low * 16777216 + buf[1] as u64 * 65536 + buf[2] as u64 * 256
            + buf[3] as u64;
        proof {
            length_bits_drop_out(value as nat, 2, 1073741824);
        }
        Ok((value, 4))
    } else {
        if buf.len() < 8 {
            return Err(VarintError::TooShort);
        }
        let upper: u64 = low * 72057594037927936 + buf[1] as u64 * 281474976710656 + buf[2] as u64
            * 1099511627776 + buf[3] as u64 * 4294967296;
        let lower: u64 = buf[4] as u64 * 16777216 + buf[5] as u64 * 65536 + buf[6] as u64 * 256
            + buf[7] as u64;
        let value: u64 = upper + lower;
        proof {
            assert(first == low + 192);
            length_bits_drop_out(value as nat, 3, 4611686018427387904);
        }
        Ok((value, 8))
    }
}

proof fn length_bits_drop_out(value: nat, bits: nat, limit: nat)
    requires
        value < limit,
    ensures
        (value + bits * limit) % limit == value,
{
    vstd::arithmetic::div_mod::lemma_mod_multiples_vanish(bits as int, value as int, limit as int);
    vstd::arithmetic::div_mod::lemma_small_mod(value, limit);
    assert(limit as int * bits as int == bits * limit) by (nonlinear_arith);
}

/// What is written by [`encode_varint`] is read back by [`read_varint`], whatever
/// follows it, for every value that a variable-length integer can hold.
#[verifier::spinoff_prover]
#[verifier::rlimit(80)]
pub proof fn encoding_reads_back(value: u64, rest: Seq<u8>)
    requires
        value < 4611686018427387904,
    ensures
        leading_varint(varint_bytes(value) + rest) == Some(
            (value, shortest_len(value as nat) as usize),
        ),
{
    reveal_with_fuel(low_byte, 9);
    let len = shortest_len(value as nat);
    let bytes = varint_bytes(value);
    be_nat_unfolds(bytes + rest);
    assert(forall|i: int| 0 <= i < len ==> (bytes + rest)[i] == bytes[i]);
    assert((bytes + rest).len() >= len);
    let v = value as nat;
    assert(v % capacity(len) == v);
    if len == 1 {
        assert(bytes[0] == value);
    } else if len == 2 {
        assert(bytes[0] == v / 256 + 64);
        assert(bytes[1] == v % 256);
    } else if len == 4 {
        assert(bytes[0] == v / 256 / 256 / 256 + 128);
        assert(bytes[1] == v / 256 / 256 % 256);
        assert(bytes[2] == v / 256 % 256);
        assert(bytes[3] == v % 256);
    } else {
        lemma_base_256(value);
        assert(bytes[0] == v / 256 / 256 / 256 / 256 / 256 / 256 / 256 + 192);
        assert(bytes[1] == v / 256 / 256 / 256 / 256 / 256 / 256 % 256);
        assert(bytes[2] == v / 256 / 256 / 256 / 256 / 256 % 256);
        assert(bytes[3] == v / 256 / 256 / 256 / 256 % 256);
        assert(bytes[4] == v / 256 / 256 / 256 % 256);
        assert(bytes[5] == v / 256 / 256 % 256);
        assert(bytes[6] == v / 256 % 256);
        assert(bytes[7] == v % 256);
        assert(be_nat((bytes + rest).take(8)) == v + 3 * 4611686018427387904);
    }
}

proof fn lemma_base_256(value: u64)
    ensures
        value == (value / 256 / 256 / 256 / 256 / 256 / 256 / 256) * 72057594037927936 + (value
            / 256 / 256 / 256 / 256 / 256 / 256 % 256) * 281474976710656 + (value / 256 / 256 / 256
            / 256 / 256 % 256) * 1099511627776 + (value / 256 / 256 / 256 / 256 % 256) * 4294967296
            + (value / 256 / 256 / 256 % 256) * 16777216 + (value / 256 / 256 % 256) * 65536 + (
        value / 256 % 256) * 256 + value % 256,
{
}

/// A number takes one, two, four or eight bytes, the fewest that hold it. The two high bits of the
/// first byte tell how many; the rest is the number, the high byte first.
pub proof fn short_numbers_byte_by_byte(value: u64, rest: Seq<u8>)
    ensures
        value < 64 ==> varint_bytes(value) == seq![value as u8],
        64 <= value < 16384 ==> varint_bytes(value) == seq![
            (64 + value / 256) as u8,
            (value % 256) as u8,
        ],
        varint_bytes(value).len() == if value < 64 {
            1nat
        } else if value < 16384 {
            2
        } else if value < 1073741824 {
            4
        } else {
            8
        },
        value < 64 ==> leading_varint(seq![value as u8] + rest) == Some((value, 1usize)),
        64 <= value < 16384 ==> leading_varint(
            seq![(64 + value / 256) as u8, (value % 256) as u8] + rest,
        ) == Some((value, 2usize)),
{
    if value < 64 {
        assert(varint_bytes(value) =~= seq![value as u8]);
        encoding_reads_back(value, rest);
    } else if value < 16384 {
        reveal_with_fuel(low_byte, 3);
        assert(varint_bytes(value) =~= seq![(64 + value / 256) as u8, (value % 256) as u8]);
        encoding_reads_back(value, rest);
    }
}

} // verus!
