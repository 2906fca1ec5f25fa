//! The capsules of a MASQUE control stream: assigned addresses and advertised routes.
//!
//! A capsule is a type, a length and a payload. The type and the length are
//! variable-length integers.

use crate::addr::{ip_string, ipv4_text, ipv6_text, IpAddress};
use crate::text::{decimal, push_decimal, texts};
use crate::tunnel::masque::MasqueError;
use crate::tunnel::varint::{
    encoding_reads_back, leading_varint, read_varint, varint_bytes, VarintError,
};
use vstd::prelude::*;
use vstd::slice::slice_subrange;

verus! {

/// What is wrong with bytes that do not start with a variable-length integer.
pub open spec fn varint_fault(bytes: Seq<u8>) -> Seq<char> {
    if bytes.len() == 0 {
        "Empty buffer"@
    } else {
        "Buffer too short"@
    }
}

/// Reads the variable-length integer at the front of `buf`: its value and its length.
pub fn decode_varint(buf: &[u8]) -> (res: Result<(u64, usize), MasqueError>)
    ensures
        match res {
            Ok(pair) => leading_varint(buf@) == Some(pair) && 1 <= pair.1 <= 8 && pair.1
                <= buf@.len() && pair.0 < 4611686018427387904,
            Err(MasqueError::ConnectionError(text)) => leading_varint(buf@) is None && text@
                == varint_fault(buf@),
            Err(_) => false,
        },
{
    match read_varint(buf) {
        Ok(pair) => Ok(pair),
        Err(VarintError::Empty) => Err(
            MasqueError::ConnectionError(String::from_str("Empty buffer")),
        ),
        Err(VarintError::TooShort) => Err(
            MasqueError::ConnectionError(String::from_str("Buffer too short")),
        ),
    }
}

/// The variable-length integer at the front of `buf`, if `buf` holds all of it.
pub fn try_decode_varint(buf: &[u8]) -> (res: Option<(u64, usize)>)
    ensures
        res == leading_varint(buf@),
        res matches Some(pair) ==> 1 <= pair.1 <= 8 && pair.1 <= buf@.len() && pair.0
            < 4611686018427387904,
{
    match read_varint(buf) {
        Ok(pair) => Some(pair),
        Err(_) => None,
    }
}

/// The bytes `data[from..from + len]`, if they are there.
pub open spec fn part(data: Seq<u8>, from: int, len: int) -> Option<Seq<u8>> {
    if from + len <= data.len() {
        Some(data.subrange(from, from + len))
    } else {
        None
    }
}

/// The text of an address with the length of its prefix.
pub open spec fn prefix_text(ip: Seq<char>, prefix: u8) -> Seq<char> {
    ip + seq!['/'] + decimal(prefix as nat)
}

/// The text of a range of addresses and a protocol number.
pub open spec fn route_text(start: Seq<char>, end: Seq<char>, protocol: u8) -> Seq<char> {
    start + seq!['-'] + end + " proto="@ + decimal(protocol as nat)
}

/// The first entry of a list of assigned addresses: its text and its length, or what is
/// wrong with it. An entry is a request number, an IP version, an address and the length
/// of its prefix.
pub open spec fn address_entry(data: Seq<u8>) -> Result<(Seq<char>, int), Seq<char>> {
    match leading_varint(data) {
        None => Err(varint_fault(data)),
        Some((_, n)) => {
            let at = n as int;
            if at >= data.len() {
                Err("truncated AddressAssign capsule"@)
            } else if data[at] == 4 {
                match part(data, at + 1, 4) {
                    None => Err("truncated AddressAssign IPv4"@),
                    Some(ip) => if at + 5 >= data.len() {
                        Err("missing AddressAssign IPv4 prefix"@)
                    } else {
                        Ok((prefix_text(ipv4_text(ip), data[at + 5]), at + 6))
                    },
                }
            } else if data[at] == 6 {
                match part(data, at + 1, 16) {
                    None => Err("truncated AddressAssign IPv6"@),
                    Some(ip) => if at + 17 >= data.len() {
                        Err("missing AddressAssign IPv6 prefix"@)
                    } else {
                        Ok((prefix_text(ipv6_text(ip), data[at + 17]), at + 18))
                    },
                }
            } else {
                Err("invalid AddressAssign IP version: "@ + decimal(data[at] as nat))
            }
        },
    }
}

/// The first entry of a list of advertised routes: its text and its length, or what is
/// wrong with it. An entry is an IP version, a first and a last address, and a protocol
/// number.
pub open spec fn route_entry(data: Seq<u8>) -> Result<(Seq<char>, int), Seq<char>> {
    if data[0] == 4 {
        match (part(data, 1, 4), part(data, 5, 4)) {
            (Some(start), Some(end)) => if 9 >= data.len() {
                Err("missing RouteAdvertisement IPv4 protocol"@)
            } else {
                Ok((route_text(ipv4_text(start), ipv4_text(end), data[9]), 10))
            },
            _ => Err("truncated RouteAdvertisement IPv4"@),
        }
    } else if data[0] == 6 {
        match (part(data, 1, 16), part(data, 17, 16)) {
            (Some(start), Some(end)) => if 33 >= data.len() {
                Err("missing RouteAdvertisement IPv6 protocol"@)
            } else {
                Ok((route_text(ipv6_text(start), ipv6_text(end), data[33]), 34))
            },
            _ => Err("truncated RouteAdvertisement IPv6"@),
        }
    } else {
        Err("invalid RouteAdvertisement IP version: "@ + decimal(data[0] as nat))
    }
}

/// The texts of all the entries of a list, read by `entry` one after the other, or what
/// is wrong with the first one that cannot be read.
pub open spec fn entries(
    data: Seq<u8>,
    entry: spec_fn(Seq<u8>) -> Result<(Seq<char>, int), Seq<char>>,
) -> Result<Seq<Seq<char>>, Seq<char>>
    decreases data.len(),
{
    if data.len() == 0 {
        Ok(Seq::empty())
    } else {
        match entry(data) {
            Err(fault) => Err(fault),
            Ok((text, len)) => if 0 < len <= data.len() {
                match entries(data.skip(len), entry) {
                    Ok(rest) => Ok(seq![text] + rest),
                    Err(fault) => Err(fault),
                }
            } else {
                Ok(seq![text])
            },
        }
    }
}

/// The addresses in the payload of an address assignment.
pub open spec fn assigned_list(payload: Seq<u8>) -> Result<Seq<Seq<char>>, Seq<char>> {
    entries(payload, |data: Seq<u8>| address_entry(data))
}

/// The routes in the payload of a route advertisement.
pub open spec fn route_list(payload: Seq<u8>) -> Result<Seq<Seq<char>>, Seq<char>> {
    entries(payload, |data: Seq<u8>| route_entry(data))
}

/// Whether a parsed list is what the specification says of the payload.
pub open spec fn list_matches(
    res: Result<Vec<String>, MasqueError>,
    wanted: Result<Seq<Seq<char>>, Seq<char>>,
) -> bool {
    match res {
        Ok(list) => wanted matches Ok(all) && texts(list@) == all,
        Err(MasqueError::ConnectionError(text)) => wanted matches Err(fault) && text@ == fault,
        Err(_) => false,
    }
}

fn fault<T>(text: &str) -> (res: Result<T, MasqueError>)
    ensures
        res matches Err(MasqueError::ConnectionError(told)) && told@ == text@,
{
    Err(MasqueError::ConnectionError(String::from_str(text)))
}

fn version_fault<T>(text: &str, version: u8) -> (res: Result<T, MasqueError>)
    ensures
        res matches Err(MasqueError::ConnectionError(told)) && told@ == text@ + decimal(
            version as nat,
        ),
{
    let mut told: String = String::from_str(text);
    push_decimal(&mut told, version as u64);
    Err(MasqueError::ConnectionError(told))
}

/// The text of the IPv4 address at `at`.
fn ipv4_at(data: &[u8], at: usize) -> (text: String)
    requires
        at + 4 <= data@.len(),
    ensures
        text@ == ipv4_text(data@.subrange(at as int, at + 4)),
{
    let octets: [u8; 4] = [data[at], data[at + 1], data[at + 2], data[at + 3]];
    assert(octets@ =~= data@.subrange(at as int, at + 4));
    ip_string(IpAddress::V4(octets))
}

/// The text of the IPv6 address at `at`.
fn ipv6_at(data: &[u8], at: usize) -> (text: String)
    requires
        at + 16 <= data@.len(),
    ensures
        text@ == ipv6_text(data@.subrange(at as int, at + 16)),
{
    let mut octets: [u8; 16] = [0; 16];
    let mut i: usize = 0;
    let end: usize = data.len();
    while i < 16
        invariant
            i <= 16,
            at + 16 <= end == data@.len(),
            octets@.len() == 16,
            forall|k: int| 0 <= k < i ==> octets@[k] == data@[at + k],
        decreases 16 - i,
    {
        octets[i] = data[at + i];
        i += 1;
    }
    assert(octets@ =~= data@.subrange(at as int, at + 16));
    ip_string(IpAddress::V6(octets))
}

fn with_prefix(ip: String, prefix: u8) -> (text: String)
    ensures
        text@ == prefix_text(ip@, prefix),
{
    let mut text: String = ip;
    text.push('/');
    push_decimal(&mut text, prefix as u64);
    assert(text@ =~= prefix_text(ip@, prefix));
    text
}

fn with_range(start: String, end: String, protocol: u8) -> (text: String)
    ensures
        text@ == route_text(start@, end@, protocol),
{
    let mut text: String = start;
    text.push('-');
    text.append(end.as_str());
    text.append(" proto=");
    push_decimal(&mut text, protocol as u64);
    assert(text@ =~= route_text(start@, end@, protocol));
    text
}

fn read_address_entry(data: &[u8]) -> (res: Result<(String, usize), MasqueError>)
    requires
        data@.len() > 0,
    ensures
        match res {
            Ok((text, len)) => address_entry(data@) == Ok::<(Seq<char>, int), Seq<char>>(
                (text@, len as int),
            ) && 0 < len <= data@.len(),
            Err(MasqueError::ConnectionError(told)) => address_entry(data@) == Err::<
                (Seq<char>, int),
                Seq<char>,
            >(told@),
            Err(_) => false,
        },
{
    let at: usize = match decode_varint(data) {
        Ok((_, n)) => n,
        Err(e) => {
            return Err(e);
        },
    };
    if at >= data.len() {
        return fault("truncated AddressAssign capsule");
    }
    let version: u8 = data[at];
    let left: usize = data.len() - at;
    if version == 4 {
        if left < 5 {
            return fault("truncated AddressAssign IPv4");
        }
        if left < 6 {
            return fault("missing AddressAssign IPv4 prefix");
        }
        Ok((with_prefix(ipv4_at(data, at + 1), data[at + 5]), at + 6))
    } else if version == 6 {
        if left < 17 {
            return fault("truncated AddressAssign IPv6");
        }
        if left < 18 {
            return fault("missing AddressAssign IPv6 prefix");
        }
        Ok((with_prefix(ipv6_at(data, at + 1), data[at + 17]), at + 18))
    } else {
        version_fault("invalid AddressAssign IP version: ", version)
    }
}

fn read_route_entry(data: &[u8]) -> (res: Result<(String, usize), MasqueError>)
    requires
        data@.len() > 0,
    ensures
        match res {
            Ok((text, len)) => route_entry(data@) == Ok::<(Seq<char>, int), Seq<char>>(
                (text@, len as int),
            ) && 0 < len <= data@.len(),
            Err(MasqueError::ConnectionError(told)) => route_entry(data@) == Err::<
                (Seq<char>, int),
                Seq<char>,
            >(told@),
            Err(_) => false,
        },
{
    let version: u8 = data[0];
    if version == 4 {
        if data.len() < 9 {
            return fault("truncated RouteAdvertisement IPv4");
        }
        if data.len() < 10 {
            return fault("missing RouteAdvertisement IPv4 protocol");
        }
        Ok((with_range(ipv4_at(data, 1), ipv4_at(data, 5), data[9]), 10))
    } else if version == 6 {
        if data.len() < 33 {
            return fault("truncated RouteAdvertisement IPv6");
        }
        if data.len() < 34 {
            return fault("missing RouteAdvertisement IPv6 protocol");
        }
        Ok((with_range(ipv6_at(data, 1), ipv6_at(data, 17), data[33]), 34))
    } else {
        version_fault("invalid RouteAdvertisement IP version: ", version)
    }
}

/// Reads the payload of an address assignment.
pub fn parse_address_assign_capsule(payload: &[u8]) -> (res: Result<Vec<String>, MasqueError>)
    ensures
        list_matches(res, assigned_list(payload@)),
{
    let ghost reader = |data: Seq<u8>| address_entry(data);
    let mut offset: usize = 0;
    let mut addresses: Vec<String> = Vec::new();
    assert(payload@.skip(0) =~= payload@);
    assert(texts(addresses@) =~= Seq::<Seq<char>>::empty());
    while offset < payload.len()
        invariant
            offset <= payload@.len(),
            reader == (|data: Seq<u8>| address_entry(data)),
            assigned_list(payload@) == match entries(payload@.skip(offset as int), reader) {
                Ok(rest) => Ok(texts(addresses@) + rest),
                Err(fault) => Err(fault),
            },
        decreases payload@.len() - offset,
    {
        let rest = slice_subrange(payload, offset, payload.len());
        assert(rest@ =~= payload@.skip(offset as int));
        match read_address_entry(rest) {
            Ok((text, len)) => {
                let ghost before = addresses@;
                addresses.push(text);
                assert(texts(addresses@) =~= texts(before).push(text@));
                assert(rest@.skip(len as int) =~= payload@.skip(offset + len));
                proof {
                    if let Ok(tail) = entries(payload@.skip(offset + len), reader) {
                        assert(texts(before) + (seq![text@] + tail) =~= texts(addresses@) + tail);
                    }
                }
                offset = offset + len;
            },
            Err(e) => {
                return Err(e);
            },
        }
    }
    assert(payload@.skip(offset as int) =~= Seq::<u8>::empty());
    assert(texts(addresses@) + Seq::<Seq<char>>::empty() =~= texts(addresses@));
    Ok(addresses)
}

/// Reads the payload of a route advertisement.
pub fn parse_route_advertisement_capsule(payload: &[u8]) -> (res: Result<Vec<String>, MasqueError>)
    ensures
        list_matches(res, route_list(payload@)),
{
    let ghost reader = |data: Seq<u8>| route_entry(data);
    let mut offset: usize = 0;
    let mut routes: Vec<String> = Vec::new();
    assert(payload@.skip(0) =~= payload@);
    assert(texts(routes@) =~= Seq::<Seq<char>>::empty());
    while offset < payload.len()
        invariant
            offset <= payload@.len(),
            reader == (|data: Seq<u8>| route_entry(data)),
            route_list(payload@) == match entries(payload@.skip(offset as int), reader) {
                Ok(rest) => Ok(texts(routes@) + rest),
                Err(fault) => Err(fault),
            },
        decreases payload@.len() - offset,
    {
        let rest = slice_subrange(payload, offset, payload.len());
        assert(rest@ =~= payload@.skip(offset as int));
        match read_route_entry(rest) {
            Ok((text, len)) => {
                let ghost before = routes@;
                routes.push(text);
                assert(texts(routes@) =~= texts(before).push(text@));
                assert(rest@.skip(len as int) =~= payload@.skip(offset + len));
                proof {
                    if let Ok(tail) = entries(payload@.skip(offset + len), reader) {
                        assert(texts(before) + (seq![text@] + tail) =~= texts(routes@) + tail);
                    }
                }
                offset = offset + len;
            },
            Err(e) => {
                return Err(e);
            },
        }
    }
    assert(payload@.skip(offset as int) =~= Seq::<u8>::empty());
    assert(texts(routes@) + Seq::<Seq<char>>::empty() =~= texts(routes@));
    Ok(routes)
}

/// An assigned IPv4 address is read as its text, a slash and its prefix, whatever its request number
/// and whatever follows.
pub proof fn an_assigned_ipv4_is_read(id: u64, ip: Seq<u8>, prefix: u8, rest: Seq<u8>)
    requires
        id < 4611686018427387904,
        ip.len() == 4,
    ensures
        ({
            let entry = varint_bytes(id) + seq![4u8] + ip + seq![prefix];
            &&& address_entry(entry + rest) == Ok::<(Seq<char>, int), Seq<char>>(
                (ipv4_text(ip) + seq!['/'] + decimal(prefix as nat), entry.len() as int),
            )
            &&& assigned_list(rest) is Ok ==> assigned_list(entry + rest) == Ok::<
                Seq<Seq<char>>,
                Seq<char>,
            >(
                seq![ipv4_text(ip) + seq!['/'] + decimal(prefix as nat)] + assigned_list(
                    rest,
                )->Ok_0,
            )
        }),
        assigned_list(Seq::empty()) == Ok::<Seq<Seq<char>>, Seq<char>>(Seq::empty()),
{
    let entry = varint_bytes(id) + seq![4u8] + ip + seq![prefix];
    let data = entry + rest;
    let tail = seq![4u8] + ip + seq![prefix] + rest;
    assert(data =~= varint_bytes(id) + tail);
    encoding_reads_back(id, tail);
    let at = varint_bytes(id).len() as int;
    assert(data.subrange(at + 1, at + 5) =~= ip);
    assert(data.skip(entry.len() as int) =~= rest);
}

/// An assigned IPv6 address is read in the same way.
pub proof fn an_assigned_ipv6_is_read(id: u64, ip: Seq<u8>, prefix: u8, rest: Seq<u8>)
    requires
        id < 4611686018427387904,
        ip.len() == 16,
    ensures
        ({
            let entry = varint_bytes(id) + seq![6u8] + ip + seq![prefix];
            &&& address_entry(entry + rest) == Ok::<(Seq<char>, int), Seq<char>>(
                (ipv6_text(ip) + seq!['/'] + decimal(prefix as nat), entry.len() as int),
            )
            &&& assigned_list(rest) is Ok ==> assigned_list(entry + rest) == Ok::<
                Seq<Seq<char>>,
                Seq<char>,
            >(
                seq![ipv6_text(ip) + seq!['/'] + decimal(prefix as nat)] + assigned_list(
                    rest,
                )->Ok_0,
            )
        }),
{
    let entry = varint_bytes(id) + seq![6u8] + ip + seq![prefix];
    let data = entry + rest;
    let tail = seq![6u8] + ip + seq![prefix] + rest;
    assert(data =~= varint_bytes(id) + tail);
    encoding_reads_back(id, tail);
    let at = varint_bytes(id).len() as int;
    assert(data.subrange(at + 1, at + 17) =~= ip);
    assert(data.skip(entry.len() as int) =~= rest);
}

/// A route is read as its first and its last address and its protocol, and whatever follows is read
/// behind it.
pub proof fn a_route_is_read(start: Seq<u8>, end: Seq<u8>, protocol: u8, rest: Seq<u8>)
    requires
        start.len() == end.len(),
        start.len() == 4 || start.len() == 16,
    ensures
        ({
            let v4 = start.len() == 4;
            let entry = seq![
                if v4 {
                    4u8
                } else {
                    6u8
                },
            ] + start + end + seq![protocol];
            let text = (if v4 {
                ipv4_text(start) + seq!['-'] + ipv4_text(end)
            } else {
                ipv6_text(start) + seq!['-'] + ipv6_text(end)
            }) + " proto="@ + decimal(protocol as nat);
            &&& route_entry(entry + rest) == Ok::<(Seq<char>, int), Seq<char>>(
                (text, entry.len() as int),
            )
            &&& route_list(rest) is Ok ==> route_list(entry + rest) == Ok::<
                Seq<Seq<char>>,
                Seq<char>,
            >(seq![text] + route_list(rest)->Ok_0)
        }),
        route_list(Seq::empty()) == Ok::<Seq<Seq<char>>, Seq<char>>(Seq::empty()),
{
    let v4 = start.len() == 4;
    let entry = seq![
        if v4 {
            4u8
        } else {
            6u8
        },
    ] + start + end + seq![protocol];
    let data = entry + rest;
    let n = start.len() as int;
    assert(data.subrange(1, 1 + n) =~= start);
    assert(data.subrange(1 + n, 1 + n + n) =~= end);
    assert(data.skip(entry.len() as int) =~= rest);
}

/// A list is told as it was read, text by text, and a fault with its own words.
pub proof fn lists_are_told_as_read(
    res: Result<Vec<String>, MasqueError>,
    wanted: Result<Seq<Seq<char>>, Seq<char>>,
)
    requires
        list_matches(res, wanted),
    ensures
        res is Ok <==> wanted is Ok,
        res is Ok ==> res->Ok_0@.len() == wanted->Ok_0.len() && forall|i: int|
            0 <= i < wanted->Ok_0.len() ==> (#[trigger] res->Ok_0@[i])@ == wanted->Ok_0[i],
        res is Err ==> res->Err_0 is ConnectionError && res->Err_0->ConnectionError_0@
            == wanted->Err_0,
{
    if res is Ok {
        assert forall|i: int| 0 <= i < wanted->Ok_0.len() implies (#[trigger] res->Ok_0@[i])@
            == wanted->Ok_0[i] by {
            assert(texts(res->Ok_0@)[i] == wanted->Ok_0[i]);
        }
    }
}

/// An entry that ends too early, or of an unknown IP version, is a fault.
pub proof fn broken_entries_are_faults(id: u64, version: u8, rest: Seq<u8>)
    requires
        id < 4611686018427387904,
    ensures
        version != 4 && version != 6 ==> address_entry(varint_bytes(id) + (seq![version] + rest))
            is Err,
        version == 4 && rest.len() < 5 ==> address_entry(varint_bytes(id) + (seq![version] + rest))
            is Err,
        version == 6 && rest.len() < 17 ==> address_entry(varint_bytes(id) + (seq![version] + rest))
            is Err,
        version != 4 && version != 6 ==> route_entry(seq![version] + rest) is Err,
        version == 4 && rest.len() < 9 ==> route_entry(seq![version] + rest) is Err,
        version == 6 && rest.len() < 33 ==> route_entry(seq![version] + rest) is Err,
{
    encoding_reads_back(id, seq![version] + rest);
    let n = varint_bytes(id).len() as int;
    assert((varint_bytes(id) + (seq![version] + rest))[n] == version);
}

} // verus!
