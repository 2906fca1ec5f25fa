//! IP packets on their way out: the hop count, header checksums, and the ICMP
//! answer to a packet that is too big for the tunnel.

use crate::tunnel::masque::MasqueError;
use vstd::prelude::*;
use vstd::slice::slice_subrange;

verus! {

pub const IPV4_HEADER_LEN: usize = 20;

pub const IPV6_HEADER_LEN: usize = 40;

const DEST_UNREACHABLE: u8 = 3;

const CODE_FRAG_NEEDED: u8 = 4;

const PACKET_TOO_BIG: u8 = 2;

/// The smallest MTU that an IPv6 link may have; the MTU that is announced to the
/// sender of a packet that is too big.
pub const MIN_MTU: u16 = 1280;

/// The 16-bit word at offset `at`; a lone last byte counts as the upper half.
pub open spec fn word_at(data: Seq<u8>, at: int) -> nat {
    if at + 1 < data.len() {
        (data[at] * 256 + data[at + 1]) as nat
    } else {
        (data[at] * 256) as nat
    }
}

/// The sum of the 16-bit words of `data` from offset `at` on, without the one at
/// offset `skip`.
pub open spec fn word_sum(data: Seq<u8>, at: int, skip: int) -> nat
    decreases data.len() + 1 - at,
{
    if at >= data.len() {
        0
    } else {
        (if at == skip {
            0
        } else {
            word_at(data, at)
        }) + word_sum(data, at + 2, skip)
    }
}

/// `sum` folded to 16 bits: the carry is added back until there is none.
pub open spec fn folded(sum: nat) -> nat
    decreases sum,
{
    if sum < 65536 {
        sum
    } else {
        folded(sum % 65536 + sum / 65536)
    }
}

/// The Internet checksum for a sum of words: the complement of the folded sum.
pub open spec fn checksum_of(sum: nat) -> u16 {
    (65535 - folded(sum)) as u16
}

/// The checksum of an IPv4 header; the checksum field counts as zero.
pub open spec fn ipv4_checksum(header: Seq<u8>) -> u16 {
    checksum_of(word_sum(header, 0, 10))
}

/// The checksum of an ICMP message; the checksum field counts as zero.
pub open spec fn message_checksum(message: Seq<u8>) -> u16 {
    checksum_of(word_sum(message, 0, 2))
}

/// The sum of the pseudo-header that an ICMPv6 checksum covers: the two addresses,
/// the length of the message and the protocol number.
pub open spec fn pseudo_header_sum(src: Seq<u8>, dst: Seq<u8>, len: nat) -> nat {
    word_sum(src.take(16), 0, -1) + word_sum(dst.take(16), 0, -1) + len / 65536 + len % 65536 + 58
}

/// The checksum of an ICMPv6 message between two addresses; the checksum field counts
/// as zero.
pub open spec fn message_checksum_v6(src: Seq<u8>, dst: Seq<u8>, message: Seq<u8>) -> u16 {
    checksum_of(pseudo_header_sum(src, dst, message.len()) + word_sum(message, 0, 2))
}

pub open spec fn high_byte(n: nat) -> u8 {
    (n / 256 % 256) as u8
}

pub open spec fn low_byte(n: nat) -> u8 {
    (n % 256) as u8
}

/// What leaves the tunnel for `packet`: its hop count is one less and, for IPv4, the
/// header checksum fits. `None` if the packet is dropped: it is shorter than its
/// header, its hop count is used up, or it is neither IPv4 nor IPv6.
pub open spec fn forwarded(packet: Seq<u8>) -> Option<Seq<u8>> {
    if packet.len() == 0 {
        None
    } else if packet[0] / 16 == 4 {
        if packet.len() < 20 || packet[8] <= 1 {
            None
        } else {
            let hop = packet.update(8, (packet[8] - 1) as u8);
            let sum = ipv4_checksum(hop.take(20)) as nat;
            Some(with_word(hop, 10, sum))
        }
    } else if packet[0] / 16 == 6 {
        if packet.len() < 40 || packet[7] <= 1 {
            None
        } else {
            Some(packet.update(7, (packet[7] - 1) as u8))
        }
    } else {
        None
    }
}

proof fn word_sum_bound(data: Seq<u8>, at: int, skip: int)
    requires
        0 <= at,
    ensures
        at < data.len() ==> word_sum(data, at, skip) <= 65535 * ((data.len() - at + 1) / 2),
        at >= data.len() ==> word_sum(data, at, skip) == 0,
    decreases data.len() + 1 - at,
{
    if at < data.len() {
        word_sum_bound(data, at + 2, skip);
    }
}

proof fn folded_bound(sum: nat)
    ensures
        folded(sum) < 65536,
        folded(sum) % 65535 == sum % 65535,
        sum > 0 ==> folded(sum) > 0,
    decreases sum,
{
    if sum >= 65536 {
        folded_bound(sum % 65536 + sum / 65536);
        let carry = sum / 65536;
        let low = sum % 65536;
        assert(sum == low + carry + 65535 * carry);
        assert((low + carry + 65535 * carry) % 65535 == (low + carry) % 65535) by (nonlinear_arith);
    }
}

/// Folds a sum of words to 16 bits and complements it.
fn complement_sum(total: u32) -> (res: u16)
    ensures
        res == checksum_of(total as nat),
{
    let mut sum: u32 = total;
    while sum / 65536 > 0
        invariant
            folded(sum as nat) == folded(total as nat),
        decreases sum,
    {
        sum = sum % 65536 + sum / 65536;
    }
    proof {
        folded_bound(total as nat);
    }
    (65535 - sum) as u16
}

/// The sum of the 16-bit words of `data`, without the one at offset `skip`.
fn sum_words(data: &[u8], skip: usize) -> (sum: u32)
    requires
        word_sum(data@, 0, skip as int) <= u32::MAX,
    ensures
        sum == word_sum(data@, 0, skip as int),
{
    let mut sum: u32 = 0;
    let mut i: usize = 0;
    while i < data.len()
        invariant
            i <= data@.len(),
            sum + word_sum(data@, i as int, skip as int) == word_sum(data@, 0, skip as int),
            word_sum(data@, 0, skip as int) <= u32::MAX,
        decreases data@.len() - i,
    {
        if i != skip {
            let word: u32 = if data.len() - i > 1 {
                data[i] as u32 * 256 + data[i + 1] as u32
            } else {
                data[i] as u32 * 256
            };
            sum = sum + word;
        }
        proof {
            word_sum_bound(data@, i + 2, skip as int);
            word_sum_bound(data@, data@.len() as int, skip as int);
        }
        i = if data.len() - i > 2 {
            i + 2
        } else {
            data.len()
        };
    }
    sum
}

/// The checksum of an IPv4 header. The checksum field itself is skipped.
pub fn calculate_ipv4_checksum(header: &[u8]) -> (res: u16)
    requires
        word_sum(header@, 0, 10) <= u32::MAX,
    ensures
        res == ipv4_checksum(header@),
{
    complement_sum(sum_words(header, 10))
}

/// The checksum of an ICMP message. The checksum field itself is skipped.
pub fn calculate_icmp_checksum(data: &[u8]) -> (res: u16)
    requires
        word_sum(data@, 0, 2) <= u32::MAX,
    ensures
        res == message_checksum(data@),
{
    complement_message(data)
}

fn complement_message(data: &[u8]) -> (res: u16)
    requires
        word_sum(data@, 0, 2) <= u32::MAX,
    ensures
        res == message_checksum(data@),
{
    complement_sum(sum_words(data, 2))
}

proof fn skip_beyond(data: Seq<u8>, at: int, skip: int, other: int)
    requires
        0 <= at,
        skip < at || skip >= data.len(),
        other < at || other >= data.len(),
    ensures
        word_sum(data, at, skip) == word_sum(data, at, other),
    decreases data.len() + 1 - at,
{
    if at < data.len() {
        skip_beyond(data, at + 2, skip, other);
    }
}

/// The checksum of an ICMPv6 message between `src` and `dst`. The checksum field itself
/// is skipped.
pub fn calculate_icmpv6_checksum(src: &[u8], dst: &[u8], message: &[u8]) -> (res: u16)
    requires
        src@.len() >= 16,
        dst@.len() >= 16,
        message@.len() <= u32::MAX,
        pseudo_header_sum(src@, dst@, message@.len()) + word_sum(message@, 0, 2) <= u32::MAX,
    ensures
        res == message_checksum_v6(src@, dst@, message@),
{
    complement_message_v6(src, dst, message)
}

fn complement_message_v6(src: &[u8], dst: &[u8], message: &[u8]) -> (res: u16)
    requires
        src@.len() >= 16,
        dst@.len() >= 16,
        message@.len() <= u32::MAX,
        pseudo_header_sum(src@, dst@, message@.len()) + word_sum(message@, 0, 2) <= u32::MAX,
    ensures
        res == message_checksum_v6(src@, dst@, message@),
{
    let source = slice_subrange(src, 0, 16);
    let target = slice_subrange(dst, 0, 16);
    proof {
        skip_beyond(source@, 0, 16, -1);
        skip_beyond(target@, 0, 16, -1);
        assert(source@ =~= src@.take(16));
        assert(target@ =~= dst@.take(16));
    }
    let from: u32 = sum_words(source, 16);
    let to: u32 = sum_words(target, 16);
    let len: u32 = message.len() as u32;
    let body: u32 = sum_words(message, 2);
    complement_sum(from + to + len / 65536 + len % 65536 + 58 + body)
}

/// Takes one hop off an outgoing packet. `false`: the packet is to be dropped, and is
/// left as it was.
pub fn process_outgoing_ip_packet(packet: &mut Vec<u8>) -> (res: Result<bool, MasqueError>)
    ensures
        res matches Ok(pass) && match forwarded(old(packet)@) {
            Some(sent) => pass && final(packet)@ == sent,
            None => !pass && final(packet)@ == old(packet)@,
        },
{
    if packet.len() == 0 {
        return Ok(false);
    }
    let version: u8 = packet[0] / 16;
    if version == 4 {
        if packet.len() < IPV4_HEADER_LEN {
            return Ok(false);
        }
        let ttl: u8 = packet[8];
        if ttl <= 1 {
            return Ok(false);
        }
        packet.set(8, ttl - 1);
        let header = slice_subrange(packet.as_slice(), 0, 20);
        assert(header@ =~= packet@.take(20));
        proof {
            word_sum_bound(header@, 0, 10);
        }
        let checksum: u16 = calculate_ipv4_checksum(header);
        packet.set(10, (checksum / 256) as u8);
        packet.set(11, (checksum % 256) as u8);
        Ok(true)
    } else if version == 6 {
        if packet.len() < IPV6_HEADER_LEN {
            return Ok(false);
        }
        let hop_limit: u8 = packet[7];
        if hop_limit <= 1 {
            return Ok(false);
        }
        packet.set(7, hop_limit - 1);
        Ok(true)
    } else {
        Ok(false)
    }
}

/// The answer to an IPv4 packet that is too big: from the packet's destination to its
/// source, "fragmentation needed" with the MTU, and the start of the packet.
pub open spec fn too_big_v4(original: Seq<u8>, mtu: u16) -> Option<Seq<u8>> {
    if original.len() < 20 {
        None
    } else {
        let quoted = original.take(if original.len() < 28 {
            original.len() as int
        } else {
            28
        });
        let total = (28 + quoted.len()) as nat;
        let header = too_big_v4_header(original, total);
        let message = too_big_v4_message(quoted, mtu);
        Some(header + message)
    }
}

pub open spec fn too_big_v4_header(original: Seq<u8>, total: nat) -> Seq<u8> {
    let blank = seq![0x45u8, 0, high_byte(total), low_byte(total), 0, 0, 0, 0, 64, 1, 0, 0]
        + original.subrange(16, 20) + original.subrange(12, 16);
    let sum = ipv4_checksum(blank) as nat;
    with_word(blank, 10, sum)
}

pub open spec fn too_big_v4_message(quoted: Seq<u8>, mtu: u16) -> Seq<u8> {
    let blank = seq![3u8, 4, 0, 0, 0, 0, high_byte(mtu as nat), low_byte(mtu as nat)] + quoted;
    let sum = message_checksum(blank) as nat;
    with_word(blank, 2, sum)
}

/// The answer to an IPv6 packet that is too big: from the packet's destination to its
/// source, the MTU, and as much of the packet as keeps the answer within 1280 bytes.
pub open spec fn too_big_v6(original: Seq<u8>, mtu: u16) -> Option<Seq<u8>> {
    if original.len() < 40 {
        None
    } else {
        let quoted = original.take(if original.len() < 1232 {
            original.len() as int
        } else {
            1232
        });
        let src = original.subrange(24, 40);
        let dst = original.subrange(8, 24);
        let len = (8 + quoted.len()) as nat;
        Some(
            seq![0x60u8, 0, 0, 0, high_byte(len), low_byte(len), 58, 64] + src + dst
                + too_big_v6_message(src, dst, quoted, mtu),
        )
    }
}

pub open spec fn too_big_v6_message(src: Seq<u8>, dst: Seq<u8>, quoted: Seq<u8>, mtu: u16) -> Seq<u8> {
    let blank = seq![2u8, 0, 0, 0, 0, 0, high_byte(mtu as nat), low_byte(mtu as nat)] + quoted;
    let sum = message_checksum_v6(src, dst, blank) as nat;
    with_word(blank, 2, sum)
}

/// The answer to a packet that is too big, by its IP version.
pub open spec fn too_big_answer(original: Seq<u8>, mtu: u16) -> Option<Seq<u8>> {
    if original.len() == 0 {
        None
    } else if original[0] / 16 == 4 {
        too_big_v4(original, mtu)
    } else if original[0] / 16 == 6 {
        too_big_v6(original, mtu)
    } else {
        None
    }
}

fn push_range(out: &mut Vec<u8>, data: &[u8], from: usize, to: usize)
    requires
        from <= to <= data@.len(),
    ensures
        final(out)@ == old(out)@ + data@.subrange(from as int, to as int),
{
    out.extend_from_slice(slice_subrange(data, from, to));
}

/// ICMPv4 "destination unreachable, fragmentation needed".
fn compose_too_big_v4(original_packet: &[u8], mtu: u16) -> (res: Option<Vec<u8>>)
    ensures
        match res {
            Some(packet) => too_big_v4(original_packet@, mtu) == Some(packet@),
            None => too_big_v4(original_packet@, mtu) is None,
        },
{
    if original_packet.len() < IPV4_HEADER_LEN {
        return None;
    }
    let quoted_len: usize = if original_packet.len() < 28 {
        original_packet.len()
    } else {
        28
    };
    let total: usize = 28 + quoted_len;
    let ghost quoted = original_packet@.take(quoted_len as int);
    let mut header: Vec<u8> = vec![
        0x45,
        0,
        (total / 256) as u8,
        (total % 256) as u8,
        0,
        0,
        0,
        0,
        64,
        1,
        0,
        0,
    ];
    push_range(&mut header, original_packet, 16, 20);
    push_range(&mut header, original_packet, 12, 16);
    proof {
        word_sum_bound(header@, 0, 10);
    }
    let checksum: u16 = calculate_ipv4_checksum(header.as_slice());
    header.set(10, (checksum / 256) as u8);
    header.set(11, (checksum % 256) as u8);
    assert(header@ =~= too_big_v4_header(original_packet@, total as nat));

    let mut message: Vec<u8> = vec![
        DEST_UNREACHABLE,
        CODE_FRAG_NEEDED,
        0,
        0,
        0,
        0,
        (mtu / 256) as u8,
        (mtu % 256) as u8,
    ];
    push_range(&mut message, original_packet, 0, quoted_len);
    assert(quoted =~= original_packet@.subrange(0, quoted_len as int));
    proof {
        word_sum_bound(message@, 0, 2);
    }
    let sum: u16 = complement_message(message.as_slice());
    message.set(2, (sum / 256) as u8);
    message.set(3, (sum % 256) as u8);
    assert(message@ =~= too_big_v4_message(quoted, mtu));
    header.append(&mut message);
    Some(header)
}

/// ICMPv6 "packet too big".
fn compose_too_big_v6(original_packet: &[u8], mtu: u16) -> (res: Option<Vec<u8>>)
    ensures
        match res {
            Some(packet) => too_big_v6(original_packet@, mtu) == Some(packet@),
            None => too_big_v6(original_packet@, mtu) is None,
        },
{
    if original_packet.len() < IPV6_HEADER_LEN {
        return None;
    }
    let quoted_len: usize = if original_packet.len() < 1232 {
        original_packet.len()
    } else {
        1232
    };
    let len: usize = 8 + quoted_len;
    let ghost quoted = original_packet@.take(quoted_len as int);
    let ghost src = original_packet@.subrange(24, 40);
    let ghost dst = original_packet@.subrange(8, 24);
    let mut packet: Vec<u8> = vec![
        0x60,
        0,
        0,
        0,
        (len / 256) as u8,
        (len % 256) as u8,
        58,
        64,
    ];
    push_range(&mut packet, original_packet, 24, 40);
    push_range(&mut packet, original_packet, 8, 24);

    let mut message: Vec<u8> = vec![
        PACKET_TOO_BIG,
        0,
        0,
        0,
        0,
        0,
        (mtu / 256) as u8,
        (mtu % 256) as u8,
    ];
    push_range(&mut message, original_packet, 0, quoted_len);
    assert(quoted =~= original_packet@.subrange(0, quoted_len as int));
    proof {
        word_sum_bound(message@, 0, 2);
        word_sum_bound(original_packet@.subrange(24, 40).take(16), 0, -1);
        word_sum_bound(original_packet@.subrange(8, 24).take(16), 0, -1);
    }
    let sum: u16 = complement_message_v6(
        slice_subrange(original_packet, 24, 40),
        slice_subrange(original_packet, 8, 24),
        message.as_slice(),
    );
    message.set(2, (sum / 256) as u8);
    message.set(3, (sum % 256) as u8);
    assert(message@ =~= too_big_v6_message(src, dst, quoted, mtu));
    packet.append(&mut message);
    Some(packet)
}

/// ICMPv4 "destination unreachable, fragmentation needed".
pub fn compose_icmpv4_packet_too_big(original_packet: &[u8], mtu: u16) -> (res: Option<Vec<u8>>)
    ensures
        match res {
            Some(packet) => too_big_v4(original_packet@, mtu) == Some(packet@),
            None => too_big_v4(original_packet@, mtu) is None,
        },
{
    compose_too_big_v4(original_packet, mtu)
}

/// ICMPv6 "packet too big".
pub fn compose_icmpv6_packet_too_big(original_packet: &[u8], mtu: u16) -> (res: Option<Vec<u8>>)
    ensures
        match res {
            Some(packet) => too_big_v6(original_packet@, mtu) == Some(packet@),
            None => too_big_v6(original_packet@, mtu) is None,
        },
{
    compose_too_big_v6(original_packet, mtu)
}

/// The ICMP message that tells the sender of `original_packet` to use packets of at most
/// `mtu` bytes, as a whole IP packet.
pub fn compose_icmp_packet_too_big(original_packet: &[u8], mtu: u16) -> (res: Option<Vec<u8>>)
    ensures
        match res {
            Some(packet) => too_big_answer(original_packet@, mtu) == Some(packet@),
            None => too_big_answer(original_packet@, mtu) is None,
        },
{
    if original_packet.len() == 0 {
        return None;
    }
    let version: u8 = original_packet[0] / 16;
    if version == 4 {
        compose_icmpv4_packet_too_big(original_packet, mtu)
    } else if version == 6 {
        compose_icmpv6_packet_too_big(original_packet, mtu)
    } else {
        None
    }
}

/// `data` with the two bytes of `sum` at offset `at`.
pub open spec fn with_word(data: Seq<u8>, at: int, sum: nat) -> Seq<u8> {
    data.update(at, high_byte(sum)).update(at + 1, low_byte(sum))
}

/// The sum that a receiver forms over all words, the checksum field among them, folds to
/// all ones: the receiver finds the data intact.
pub open spec fn sums_to_ones(sum: nat) -> bool {
    folded(sum) == 65535
}

proof fn checksum_completes(sum: nat)
    ensures
        sums_to_ones(sum + checksum_of(sum) as nat),
{
    folded_bound(sum);
    let total = sum + checksum_of(sum) as nat;
    folded_bound(total);
    let f = folded(sum);
    assert(sum % 65535 == f % 65535);
    assert((sum + (65535 - f)) % 65535 == 0) by (nonlinear_arith)
        requires
            sum % 65535 == f % 65535,
    {
        assert(sum == 65535 * (sum / 65535) + sum % 65535);
        assert(f == 65535 * (f / 65535) + f % 65535);
        let k = sum / 65535 - f / 65535 + 1;
        assert(sum + (65535 - f) == 65535 * k);
    }
    assert(total > 0);
    assert(folded(total) % 65535 == 0);
}

proof fn word_sum_of_written(data: Seq<u8>, at: int, field: int, sum: u16)
    requires
        0 <= at,
        at % 2 == 0,
        0 <= field,
        field % 2 == 0,
        field + 1 < data.len(),
    ensures
        word_sum(with_word(data, field, sum as nat), at, -1) == word_sum(data, at, field) + (
        if at <= field {
            sum as nat
        } else {
            0
        }),
    decreases data.len() + 1 - at,
{
    let written = with_word(data, field, sum as nat);
    if at < data.len() {
        word_sum_of_written(data, at + 2, field, sum);
        if at == field {
            assert(word_at(written, at) == sum);
        } else {
            assert(word_at(written, at) == word_at(data, at));
        }
    }
}

/// An IPv4 packet that is forwarded has a header checksum that its receiver accepts. Only
/// the hop count and the checksum differ from the packet that came in.
pub proof fn forwarded_header_is_valid(packet: Seq<u8>)
    requires
        packet.len() > 0,
        packet[0] / 16 == 4,
        forwarded(packet) is Some,
    ensures
        sums_to_ones(word_sum(forwarded(packet)->0.take(20), 0, -1)),
        forwarded(packet)->0.len() == packet.len(),
        forwarded(packet)->0[8] == packet[8] - 1,
        forall|i: int|
            0 <= i < packet.len() && i != 8 && i != 10 && i != 11 ==> forwarded(packet)->0[i]
                == packet[i],
{
    let hop = packet.update(8, (packet[8] - 1) as u8);
    let header = hop.take(20);
    let sum = ipv4_checksum(header);
    word_sum_of_written(header, 0, 10, sum);
    checksum_completes(word_sum(header, 0, 10));
    assert(forwarded(packet)->0.take(20) =~= with_word(header, 10, sum as nat));
}

/// An IPv6 packet that is forwarded differs from the packet that came in by its hop limit
/// alone, which is one less.
pub proof fn forwarded_v6_loses_one_hop(packet: Seq<u8>)
    requires
        packet.len() > 0,
        packet[0] / 16 == 6,
        forwarded(packet) is Some,
    ensures
        forwarded(packet)->0 == packet.update(7, (packet[7] - 1) as u8),
        packet[7] > 1,
{
}

/// The answer to an IPv4 packet that is too big has a header and a message whose checksums
/// its receiver accepts, and goes from the packet's destination to its source.
pub proof fn too_big_v4_is_valid(original: Seq<u8>, mtu: u16)
    requires
        original.len() >= 20,
    ensures
        ({
            let answer = too_big_v4(original, mtu)->0;
            &&& too_big_v4(original, mtu) is Some
            &&& 48 <= answer.len() <= 56
            &&& answer[2] * 256 + answer[3] == answer.len()
            &&& sums_to_ones(word_sum(answer.take(20), 0, -1))
            &&& sums_to_ones(word_sum(answer.skip(20), 0, -1))
            &&& answer.subrange(12, 16) == original.subrange(16, 20)
            &&& answer.subrange(16, 20) == original.subrange(12, 16)
        }),
{
    let quoted = original.take(if original.len() < 28 {
        original.len() as int
    } else {
        28
    });
    let total = (28 + quoted.len()) as nat;
    let answer = too_big_v4(original, mtu)->0;
    let header = seq![0x45u8, 0, high_byte(total), low_byte(total), 0, 0, 0, 0, 64, 1, 0, 0]
        + original.subrange(16, 20) + original.subrange(12, 16);
    let message = seq![3u8, 4, 0, 0, 0, 0, high_byte(mtu as nat), low_byte(mtu as nat)] + quoted;
    word_sum_of_written(header, 0, 10, ipv4_checksum(header));
    checksum_completes(word_sum(header, 0, 10));
    word_sum_of_written(message, 0, 2, message_checksum(message));
    checksum_completes(word_sum(message, 0, 2));
    assert(answer.take(20) =~= too_big_v4_header(original, total));
    assert(answer.skip(20) =~= too_big_v4_message(quoted, mtu));
    assert(answer.subrange(12, 16) =~= original.subrange(16, 20));
    assert(answer.subrange(16, 20) =~= original.subrange(12, 16));
}

/// The answer to an IPv6 packet that is too big has a message whose checksum its receiver
/// accepts, goes from the packet's destination to its source, and fits the smallest MTU.
pub proof fn too_big_v6_is_valid(original: Seq<u8>, mtu: u16)
    requires
        original.len() >= 40,
    ensures
        ({
            let answer = too_big_v6(original, mtu)->0;
            let src = answer.subrange(8, 24);
            let dst = answer.subrange(24, 40);
            let message = answer.skip(40);
            &&& too_big_v6(original, mtu) is Some
            &&& answer.len() <= 1280
            &&& answer[4] * 256 + answer[5] == answer.len() - 40
            &&& src == original.subrange(24, 40)
            &&& dst == original.subrange(8, 24)
            &&& sums_to_ones(
                pseudo_header_sum(src, dst, message.len()) + word_sum(message, 0, -1),
            )
        }),
{
    let quoted = original.take(if original.len() < 1232 {
        original.len() as int
    } else {
        1232
    });
    let src = original.subrange(24, 40);
    let dst = original.subrange(8, 24);
    let answer = too_big_v6(original, mtu)->0;
    let message = seq![2u8, 0, 0, 0, 0, 0, high_byte(mtu as nat), low_byte(mtu as nat)] + quoted;
    word_sum_of_written(message, 0, 2, message_checksum_v6(src, dst, message));
    checksum_completes(
        pseudo_header_sum(src, dst, message.len()) + word_sum(message, 0, 2),
    );
    assert(answer.skip(40) =~= too_big_v6_message(src, dst, quoted, mtu));
    assert(answer.subrange(8, 24) =~= src);
    assert(answer.subrange(24, 40) =~= dst);
}

/// A packet is sent on if and only if it is an IPv4 or an IPv6 packet with a whole header and at
/// least two hops left.
pub proof fn which_packets_are_sent_on(packet: Seq<u8>)
    ensures
        forwarded(packet) is Some <==> {
            ||| packet.len() >= 20 && 0x40 <= packet[0] <= 0x4f && packet[8] >= 2
            ||| packet.len() >= 40 && 0x60 <= packet[0] <= 0x6f && packet[7] >= 2
        },
        forwarded(packet) matches Some(sent) ==> sent.len() == packet.len(),
{
}

/// Folding a sum keeps its remainder by 65535 and leaves sixteen bits; only zero becomes zero.
pub proof fn folding_keeps_the_remainder(sum: nat)
    ensures
        folded(sum) <= 65535,
        folded(sum) % 65535 == sum % 65535,
        folded(sum) == 0 <==> sum == 0,
    decreases sum,
{
    if sum >= 65536 {
        let q = sum / 65536;
        let r = sum % 65536;
        assert(sum == 65536 * q + r);
        folding_keeps_the_remainder(r + q);
        assert((65535 * q + (r + q)) % 65535 == (r + q) % 65535) by {
            vstd::arithmetic::div_mod::lemma_mod_multiples_vanish(q as int, (r + q) as int, 65535);
        }
        assert(sum == 65535 * q + (r + q));
    }
}

/// The answer to an IPv4 packet that is too big is an ICMP message of type 3 and code 4 with the
/// MTU, which goes back to the sender and quotes the start of the packet.
pub proof fn too_big_v4_tells_the_mtu(original: Seq<u8>, mtu: u16)
    requires
        original.len() >= 20,
    ensures
        ({
            let answer = too_big_v4(original, mtu)->0;
            &&& answer[0] == 0x45 && answer[1] == 0 && answer[8] == 64 && answer[9] == 1
            &&& answer[4] == 0 && answer[5] == 0 && answer[6] == 0 && answer[7] == 0
            &&& answer[24] == 0 && answer[25] == 0
            &&& answer[20] == 3 && answer[21] == 4
            &&& answer[26] * 256 + answer[27] == mtu
            &&& answer.len() == 28 + if original.len() < 28 {
                original.len() as int
            } else {
                28
            }
            &&& forall|i: int| 28 <= i < answer.len() ==> #[trigger] answer[i] == original[i - 28]
            &&& forall|i: int| 12 <= i < 16 ==> #[trigger] answer[i] == original[i + 4]
            &&& forall|i: int| 16 <= i < 20 ==> #[trigger] answer[i] == original[i - 4]
        }),
        original[0] / 16 == 4 ==> too_big_answer(original, mtu) == too_big_v4(original, mtu),
        original[0] / 16 != 4 && original[0] / 16 != 6 ==> too_big_answer(original, mtu) is None,
{
}

/// The answer to an IPv6 packet that is too big is an ICMPv6 message of type 2 with the MTU, which
/// goes back to the sender and quotes as much of the packet as fits.
pub proof fn too_big_v6_tells_the_mtu(original: Seq<u8>, mtu: u16)
    requires
        original.len() >= 40,
    ensures
        ({
            let answer = too_big_v6(original, mtu)->0;
            &&& answer[0] == 0x60 && answer[6] == 58 && answer[7] == 64
            &&& answer[1] == 0 && answer[2] == 0 && answer[3] == 0
            &&& answer[40] == 2 && answer[41] == 0
            &&& answer[44] == 0 && answer[45] == 0 && answer[46] * 256 + answer[47] == mtu
            &&& answer.len() == 48 + if original.len() < 1232 {
                original.len() as int
            } else {
                1232
            }
            &&& forall|i: int| 48 <= i < answer.len() ==> #[trigger] answer[i] == original[i - 48]
            &&& forall|i: int| 8 <= i < 24 ==> #[trigger] answer[i] == original[i + 16]
            &&& forall|i: int| 24 <= i < 40 ==> #[trigger] answer[i] == original[i - 16]
        }),
        original[0] / 16 == 6 ==> too_big_answer(original, mtu) == too_big_v6(original, mtu),
{
}

/// Words are added up two bytes at a time, the high byte first; an odd last byte is a high byte. The
/// checksum is what the folded sum lacks to sixteen ones.
pub proof fn how_checksums_add_up(data: Seq<u8>, at: int, sum: nat)
    requires
        0 <= at < data.len(),
    ensures
        at + 1 < data.len() ==> word_sum(data, at, -1) == 256 * data[at] + data[at + 1] + word_sum(
            data,
            at + 2,
            -1,
        ),
        at + 1 == data.len() ==> word_sum(data, at, -1) == 256 * data[at],
        word_sum(data, data.len() as int, -1) == 0,
        word_sum(data, at, at) == word_sum(data, at + 2, at),
        checksum_of(sum) + folded(sum) == 65535,
{
    reveal_with_fuel(word_sum, 2);
    folding_keeps_the_remainder(sum);
}

/// A packet without a whole header is not answered.
pub proof fn broken_packets_are_not_answered(original: Seq<u8>, mtu: u16)
    requires
        original.len() < 20,
    ensures
        too_big_v4(original, mtu) is None,
        too_big_v6(original, mtu) is None,
        too_big_answer(original, mtu) is None,
{
}

} // verus!
