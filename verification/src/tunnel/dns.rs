//! DNS through the tunnel: queries, responses and the list of servers.

use crate::addr::{parse_ip, reads_as, IpAddress};
use crate::text::{chars_of, find_char, index_of, trim, trimmed};
use hickory_proto::op::{Message, MessageType, OpCode, Query, ResponseCode};
use hickory_proto::rr::{Name, RData, RecordType};
use hickory_proto::serialize::binary::{BinDecodable, BinEncodable};
use vstd::prelude::*;

verus! {

/// The port of a DNS server.
pub const DNS_PORT: u16 = 53;

/// The first local port of DNS sockets.
pub const DNS_FIRST_LOCAL_PORT: u16 = 50000;

/// The kind of address that a query asks for.
#[derive(Debug, Clone, Copy, PartialEq, Eq, Structural)]
pub enum DnsRecordType {
    A,
    AAAA,
}

/// Why a name could not be resolved.
#[derive(Debug)]
pub enum DnsError {
    QueryFailed(String),
    Timeout,
    NoRecords,
    InvalidResponse,
    ChannelError,
    EncodeError(String),
    DecodeError(String),
    SocketError(String),
}

/// A DNS error as values.
pub enum DnsFault {
    QueryFailed(Seq<char>),
    Timeout,
    NoRecords,
    InvalidResponse,
    ChannelError,
    EncodeError(Seq<char>),
    DecodeError(Seq<char>),
    SocketError(Seq<char>),
}

impl View for DnsError {
    type V = DnsFault;

    open spec fn view(&self) -> DnsFault {
        match self {
            DnsError::QueryFailed(text) => DnsFault::QueryFailed(text@),
            DnsError::Timeout => DnsFault::Timeout,
            DnsError::NoRecords => DnsFault::NoRecords,
            DnsError::InvalidResponse => DnsFault::InvalidResponse,
            DnsError::ChannelError => DnsFault::ChannelError,
            DnsError::EncodeError(text) => DnsFault::EncodeError(text@),
            DnsError::DecodeError(text) => DnsFault::DecodeError(text@),
            DnsError::SocketError(text) => DnsFault::SocketError(text@),
        }
    }
}

impl Clone for DnsError {
    fn clone(&self) -> (copy: Self)
        ensures
            copy@ == self@,
    {
        match self {
            DnsError::QueryFailed(text) => DnsError::QueryFailed(text.clone()),
            DnsError::Timeout => DnsError::Timeout,
            DnsError::NoRecords => DnsError::NoRecords,
            DnsError::InvalidResponse => DnsError::InvalidResponse,
            DnsError::ChannelError => DnsError::ChannelError,
            DnsError::EncodeError(text) => DnsError::EncodeError(text.clone()),
            DnsError::DecodeError(text) => DnsError::DecodeError(text.clone()),
            DnsError::SocketError(text) => DnsError::SocketError(text.clone()),
        }
    }
}

/// An address that a name has, and for how many seconds.
#[derive(Debug, Clone, Copy, PartialEq, Eq)]
pub struct DnsRecord {
    pub address: IpAddress,
    pub ttl: u32,
}

/// What hickory makes of a query for `domain`, which asks for recursion or not: the bytes of the
/// message, or what is wrong with the encoding, or (outer error) what is wrong with the name.
pub uninterp spec fn hickory_query(id: u16, domain: Seq<char>, v6: bool, recursive: bool) -> Result<
    Result<Seq<u8>, Seq<char>>,
    Seq<char>,
>;

/// `Name::from_str` (through `parse`) and `Message::to_bytes` of hickory_proto, on a query for the A
/// (or AAAA) records of `domain` with this transaction number, which asks for recursion or not. The
/// result is a function of the four arguments.
#[verifier::external_body]
fn encode_query(id: u16, domain: &str, record_type: DnsRecordType, recursive: bool) -> (res: Result<
    Result<Vec<u8>, String>,
    String,
>)
    ensures
        match res {
            Ok(Ok(bytes)) => hickory_query(id, domain@, record_type is AAAA, recursive) == Ok::<
                Result<Seq<u8>, Seq<char>>,
                Seq<char>,
            >(Ok(bytes@)),
            Ok(Err(text)) => hickory_query(id, domain@, record_type is AAAA, recursive) == Ok::<
                Result<Seq<u8>, Seq<char>>,
                Seq<char>,
            >(Err(text@)),
            Err(text) => hickory_query(id, domain@, record_type is AAAA, recursive) == Err::<
                Result<Seq<u8>, Seq<char>>,
                Seq<char>,
            >(text@),
        },
{
    let name = domain.parse::<Name>().map_err(|e| e.to_string())?;
    let kind = match record_type {
        DnsRecordType::A => RecordType::A,
        DnsRecordType::AAAA => RecordType::AAAA,
    };
    let mut message = Message::new();
    message.set_id(id).set_message_type(MessageType::Query).set_op_code(OpCode::Query);
    message.set_recursion_desired(recursive).add_query(Query::query(name, kind));
    Ok(message.to_bytes().map_err(|e| e.to_string()))
}

/// The query for `domain`, given what hickory made of it.
pub open spec fn query_result(made: Result<Result<Seq<u8>, Seq<char>>, Seq<char>>) -> Result<
    Seq<u8>,
    DnsFault,
> {
    match made {
        Ok(Ok(bytes)) => Ok(bytes),
        Ok(Err(text)) => Err(DnsFault::EncodeError(text)),
        Err(text) => Err(DnsFault::EncodeError("invalid domain: "@ + text)),
    }
}

/// Whether a result is the one that is told of as values.
pub open spec fn bytes_match(res: Result<Vec<u8>, DnsError>, wanted: Result<Seq<u8>, DnsFault>) -> bool {
    match res {
        Ok(bytes) => wanted == Ok::<Seq<u8>, DnsFault>(bytes@),
        Err(e) => wanted == Err::<Seq<u8>, DnsFault>(e@),
    }
}

/// The values of what hickory made of a query.
pub open spec fn made_view(made: Result<Result<Vec<u8>, String>, String>) -> Result<
    Result<Seq<u8>, Seq<char>>,
    Seq<char>,
> {
    match made {
        Ok(Ok(bytes)) => Ok(Ok(bytes@)),
        Ok(Err(text)) => Ok(Err(text@)),
        Err(text) => Err(text@),
    }
}

/// The query, given what hickory made of it.
pub fn finish_query(made: Result<Result<Vec<u8>, String>, String>) -> (res: Result<Vec<u8>, DnsError>)
    ensures
        bytes_match(res, query_result(made_view(made))),
{
    match made {
        Ok(Ok(bytes)) => Ok(bytes),
        Ok(Err(text)) => Err(DnsError::EncodeError(text)),
        Err(text) => Err(
            DnsError::EncodeError(String::from_str("invalid domain: ").concat(text.as_str())),
        ),
    }
}

/// The next transaction number: a counter that starts anew after the largest number.
pub fn next_transaction_id(counter: &mut u16) -> (id: u16)
    ensures
        id == *old(counter),
        *final(counter) == if *old(counter) == u16::MAX {
            0
        } else {
            *old(counter) + 1
        },
{
    let id: u16 = *counter;
    *counter = id.wrapping_add(1);
    id
}

/// A query for the records of `domain`, with the next transaction number.
pub fn build_dns_query(counter: &mut u16, domain: &str, record_type: DnsRecordType) -> (res: (
    u16,
    Result<Vec<u8>, DnsError>,
))
    ensures
        res.0 == *old(counter),
        *final(counter) == if *old(counter) == u16::MAX {
            0
        } else {
            *old(counter) + 1
        },
        bytes_match(
            res.1,
            query_result(hickory_query(*old(counter), domain@, record_type is AAAA, true)),
        ),
{
    let id: u16 = next_transaction_id(counter);
    let made = encode_query(id, domain, record_type, true);
    (id, finish_query(made))
}

/// A DNS message: its number, whether it is a response, whether it reports success, how its
/// response code reads, and its answers with the addresses among them.
#[derive(Debug)]
pub struct DnsMessage {
    pub id: u16,
    pub is_response: bool,
    pub no_error: bool,
    pub response_code: String,
    pub answers: Vec<(Option<IpAddress>, u32)>,
}

/// A DNS message as values.
pub struct MessageView {
    pub id: u16,
    pub is_response: bool,
    pub no_error: bool,
    pub response_code: Seq<char>,
    pub answers: Seq<(Option<IpAddress>, u32)>,
}

impl View for DnsMessage {
    type V = MessageView;

    open spec fn view(&self) -> MessageView {
        MessageView {
            id: self.id,
            is_response: self.is_response,
            no_error: self.no_error,
            response_code: self.response_code@,
            answers: self.answers@,
        }
    }
}

/// The message that hickory reads from bytes, or what it says is wrong with them.
pub uninterp spec fn hickory_message(data: Seq<u8>) -> Result<MessageView, Seq<char>>;

/// `Message::from_bytes` of hickory_proto: a function of the bytes. Of each answer the
/// address, if it is an A or AAAA record, and the time to live are taken.
#[verifier::external_body]
fn decode_message(data: &[u8]) -> (res: Result<DnsMessage, String>)
    ensures
        match res {
            Ok(message) => hickory_message(data@) == Ok::<MessageView, Seq<char>>(message@),
            Err(text) => hickory_message(data@) == Err::<MessageView, Seq<char>>(text@),
        },
{
    let m = Message::from_bytes(data).map_err(|e| e.to_string())?;
    let (code, no_error) = (m.response_code(), m.response_code() == ResponseCode::NoError);
    let answers = m.answers().iter().map(|r| (match r.data() {
        RData::A(a) => Some(IpAddress::V4(a.0.octets())),
        RData::AAAA(a) => Some(IpAddress::V6(a.0.octets())),
        _ => None,
    }, r.ttl())).collect();
    let is_response = m.message_type() == MessageType::Response;
    Ok(DnsMessage { id: m.id(), is_response, no_error, response_code: format!("{:?}", code), answers })
}

/// The answers that are addresses, in their order.
pub open spec fn address_records(answers: Seq<(Option<IpAddress>, u32)>) -> Seq<DnsRecord>
    decreases answers.len(),
{
    if answers.len() == 0 {
        Seq::empty()
    } else {
        let rest = address_records(answers.drop_last());
        match answers.last().0 {
            Some(address) => rest.push(DnsRecord { address, ttl: answers.last().1 }),
            None => rest,
        }
    }
}

/// What a response brings: its addresses, or why there are none.
pub open spec fn response_records(message: MessageView) -> Result<Seq<DnsRecord>, DnsFault> {
    if !message.no_error {
        Err(DnsFault::QueryFailed("RCODE: "@ + message.response_code))
    } else if address_records(message.answers).len() == 0 {
        Err(DnsFault::NoRecords)
    } else {
        Ok(address_records(message.answers))
    }
}

/// Whether a list of records is the one that is told of as values.
pub open spec fn records_match(
    res: Result<Vec<DnsRecord>, DnsError>,
    wanted: Result<Seq<DnsRecord>, DnsFault>,
) -> bool {
    match res {
        Ok(list) => wanted == Ok::<Seq<DnsRecord>, DnsFault>(list@),
        Err(e) => wanted == Err::<Seq<DnsRecord>, DnsFault>(e@),
    }
}

/// The addresses of a response, or why there are none.
pub fn records_of(message: &DnsMessage) -> (res: Result<Vec<DnsRecord>, DnsError>)
    ensures
        records_match(res, response_records(message@)),
{
    if !message.no_error {
        return Err(
            DnsError::QueryFailed(
                String::from_str("RCODE: ").concat(message.response_code.as_str()),
            ),
        );
    }
    let mut records: Vec<DnsRecord> = Vec::new();
    let mut i: usize = 0;
    assert(message.answers@.take(0) =~= Seq::empty());
    while i < message.answers.len()
        invariant
            i <= message.answers@.len(),
            records@ == address_records(message.answers@.take(i as int)),
        decreases message.answers@.len() - i,
    {
        assert(message.answers@.take(i + 1).drop_last() =~= message.answers@.take(i as int));
        match message.answers[i].0 {
            Some(address) => {
                records.push(DnsRecord { address, ttl: message.answers[i].1 });
            },
            None => {},
        }
        i += 1;
    }
    assert(message.answers@.take(i as int) =~= message.answers@);
    if records.len() == 0 {
        Err(DnsError::NoRecords)
    } else {
        Ok(records)
    }
}

/// The transaction number of a response with what it brings. Bytes that are no DNS message, and
/// messages that are no response, are errors.
pub fn check_response(decoded: Result<DnsMessage, String>) -> (res: Result<
    (u16, Result<Vec<DnsRecord>, DnsError>),
    DnsError,
>)
    ensures
        match decoded {
            Err(text) => res matches Err(DnsError::DecodeError(told)) && told@ == text@,
            Ok(message) => if message.is_response {
                res matches Ok((id, records)) && id == message.id && records_match(
                    records,
                    response_records(message@),
                )
            } else {
                res matches Err(DnsError::InvalidResponse)
            },
        },
{
    match decoded {
        Err(text) => Err(DnsError::DecodeError(text)),
        Ok(message) => {
            if !message.is_response {
                return Err(DnsError::InvalidResponse);
            }
            Ok((message.id, records_of(&message)))
        },
    }
}

/// The transaction number of the response in `data`, with what it brings.
pub fn parse_dns_response_with_id(data: &[u8]) -> (res: Result<
    (u16, Result<Vec<DnsRecord>, DnsError>),
    DnsError,
>)
    ensures
        match hickory_message(data@) {
            Err(text) => res matches Err(DnsError::DecodeError(told)) && told@ == text,
            Ok(message) => if message.is_response {
                res matches Ok((id, records)) && id == message.id && records_match(
                    records,
                    response_records(message),
                )
            } else {
                res matches Err(DnsError::InvalidResponse)
            },
        },
{
    let decoded = decode_message(data);
    check_response(decoded)
}

/// The addresses in a response that must have the number `expected_id`.
pub fn check_addresses(decoded: Result<DnsMessage, String>, expected_id: u16) -> (res: Result<
    Vec<IpAddress>,
    DnsError,
>)
    ensures
        match decoded {
            Err(text) => res matches Err(DnsError::DecodeError(told)) && told@ == text@,
            Ok(message) => if message.id != expected_id || !message.is_response {
                res matches Err(DnsError::InvalidResponse)
            } else {
                match response_records(message@) {
                    Ok(records) => res matches Ok(list) && list@ == Seq::new(
                        records.len(),
                        |i: int| records[i].address,
                    ),
                    Err(fault) => res matches Err(e) && e@ == fault,
                }
            },
        },
{
    match decoded {
        Err(text) => Err(DnsError::DecodeError(text)),
        Ok(message) => {
            if message.id != expected_id || !message.is_response {
                return Err(DnsError::InvalidResponse);
            }
            match records_of(&message) {
                Ok(records) => Ok(addresses_of(&records)),
                Err(e) => Err(e),
            }
        },
    }
}

/// The addresses of a list of records.
pub fn addresses_of(records: &Vec<DnsRecord>) -> (list: Vec<IpAddress>)
    ensures
        list@ == Seq::new(records@.len(), |i: int| records@[i].address),
{
    let mut list: Vec<IpAddress> = Vec::new();
    let mut i: usize = 0;
    while i < records.len()
        invariant
            i <= records@.len(),
            list@ =~= Seq::new(i as nat, |k: int| records@[k].address),
        decreases records@.len() - i,
    {
        list.push(records[i].address);
        i += 1;
    }
    list
}

/// The addresses in the response in `data`, which must have the number `expected_id`.
pub fn parse_dns_response(data: &[u8], expected_id: u16) -> (res: Result<Vec<IpAddress>, DnsError>)
    ensures
        match hickory_message(data@) {
            Err(text) => res matches Err(DnsError::DecodeError(told)) && told@ == text,
            Ok(message) => if message.id != expected_id || !message.is_response {
                res matches Err(DnsError::InvalidResponse)
            } else {
                match response_records(message) {
                    Ok(records) => res matches Ok(list) && list@ == Seq::new(
                        records.len(),
                        |i: int| records[i].address,
                    ),
                    Err(fault) => res matches Err(e) && e@ == fault,
                }
            },
        },
{
    let decoded = decode_message(data);
    check_addresses(decoded, expected_id)
}

/// The next local port for a DNS socket: a counter that starts anew after the largest port.
pub fn get_dns_local_port(counter: &mut u16) -> (port: u16)
    ensures
        port == *old(counter),
        *final(counter) == if *old(counter) == u16::MAX {
            0
        } else {
            *old(counter) + 1
        },
{
    let port: u16 = *counter;
    *counter = port.wrapping_add(1);
    port
}

/// The DNS server that is asked where none is configured.
pub fn dns_server() -> (ip: IpAddress)
    ensures
        ip matches IpAddress::V4(octets) && octets@ == seq![1u8, 1, 1, 1],
{
    let octets: [u8; 4] = [1, 1, 1, 1];
    assert(octets@ =~= seq![1u8, 1, 1, 1]);
    IpAddress::V4(octets)
}

/// The port of a DNS server.
pub fn dns_port() -> (port: u16)
    ensures
        port == 53,
{
    DNS_PORT
}

/// The place that lies `offset` places behind `start`, going round.
pub open spec fn round_place(start: int, offset: int, len: int) -> int {
    if start + offset < len {
        start + offset
    } else {
        start + offset - len
    }
}

/// Which of a list of servers is asked: the first one of the wanted family, beginning at
/// `start` and going round.
pub open spec fn is_selected(
    servers: Seq<IpAddress>,
    start: int,
    prefer_ipv6: bool,
    chosen: int,
) -> bool {
    let len = servers.len() as int;
    exists|offset: int|
        0 <= offset < len && chosen == #[trigger] round_place(start, offset, len) && (
        servers[chosen] is V6) == prefer_ipv6 && forall|k: int|
            0 <= k < offset ==> (servers[#[trigger] round_place(start, k, len)] is V6)
                != prefer_ipv6
}

/// Selects the server for the next query. The turn passes on.
pub fn select_dns_server(counter: &mut usize, servers: &Vec<IpAddress>, prefer_ipv6: bool) -> (ip:
    IpAddress)
    ensures
        servers@.len() == 0 ==> (ip matches IpAddress::V4(octets) && octets@ == seq![1u8, 1, 1, 1])
            && *final(counter) == *old(counter),
        servers@.len() > 0 ==> *final(counter) == (if *old(counter) == usize::MAX {
            0
        } else {
            *old(counter) + 1
        }),
        servers@.len() > 0 ==> {
            let start = *old(counter) as int % servers@.len() as int;
            if exists|i: int|
                0 <= i < servers@.len() && (#[trigger] servers@[i] is V6) == prefer_ipv6 {
                exists|chosen: int|
                    #![trigger servers@[chosen]]
                    0 <= chosen < servers@.len() && is_selected(
                        servers@,
                        start,
                        prefer_ipv6,
                        chosen,
                    ) && ip == servers@[chosen]
            } else {
                ip == servers@[start]
            }
        },
{
    if servers.len() == 0 {
        return dns_server();
    }
    let len: usize = servers.len();
    let start: usize = *counter % len;
    *counter = counter.wrapping_add(1);
    let ghost after = *counter;
    let mut offset: usize = 0;
    let mut idx: usize = start;
    while offset < len
        invariant
            offset <= len == servers@.len(),
            start < len,
            idx < len,
            *counter == after,
            after == (if *old(counter) == usize::MAX {
                0
            } else {
                *old(counter) + 1
            }),
            start == *old(counter) as int % servers@.len() as int,
            offset < len ==> idx == round_place(start as int, offset as int, len as int),
            forall|k: int|
                0 <= k < offset ==> (servers@[#[trigger] round_place(
                    start as int,
                    k,
                    len as int,
                )] is V6) != prefer_ipv6,
        decreases len - offset,
    {
        let is_v6: bool = match servers[idx] {
            IpAddress::V6(_) => true,
            IpAddress::V4(_) => false,
        };
        if is_v6 == prefer_ipv6 {
            assert(is_selected(servers@, start as int, prefer_ipv6, idx as int));
            assert((servers@[idx as int] is V6) == prefer_ipv6);
            return servers[idx];
        }
        idx = if idx + 1 == len {
            0
        } else {
            idx + 1
        };
        offset += 1;
    }
    proof {
        assert forall|i: int| 0 <= i < servers@.len() implies (#[trigger] servers@[i] is V6)
            != prefer_ipv6 by {
            let k = if i >= start {
                i - start
            } else {
                i + len - start
            };
            assert(round_place(start as int, k, len as int) == i);
        }
    }
    servers[start]
}

/// The names in a text from `from` on, without the white space around them. Commas part them, and
/// what is empty is no name.
pub open spec fn names_in(text: Seq<char>, from: int) -> Seq<Seq<char>>
    decreases text.len() - from + 1,
    via names_in_shrinks
{
    if 0 <= from <= text.len() {
        let end = index_of(text, ',', from);
        let name = trimmed(text.subrange(from, end));
        (if name.len() == 0 {
            Seq::empty()
        } else {
            seq![name]
        }) + names_in(text, end + 1)
    } else {
        Seq::empty()
    }
}

#[via_fn]
proof fn names_in_shrinks(text: Seq<char>, from: int) {
    if 0 <= from <= text.len() {
        comma_bounds(text, from);
    }
}

proof fn comma_bounds(text: Seq<char>, from: int)
    requires
        0 <= from <= text.len(),
    ensures
        from <= index_of(text, ',', from) <= text.len(),
    decreases text.len() - from,
{
    if from < text.len() && text[from] != ',' {
        comma_bounds(text, from + 1);
    }
}

/// The names in all of the texts from the one at `at` on.
pub open spec fn server_names(list: Seq<String>, at: int) -> Seq<Seq<char>>
    decreases list.len() - at,
{
    if 0 <= at < list.len() {
        names_in(list[at]@, 0) + server_names(list, at + 1)
    } else {
        Seq::empty()
    }
}

/// Whether the addresses are what the first of the names stand for.
pub open spec fn stand_for(names: Seq<Seq<char>>, ips: Seq<IpAddress>) -> bool {
    &&& ips.len() <= names.len()
    &&& forall|i: int| 0 <= i < ips.len() ==> reads_as(#[trigger] names[i], Some(ips[i]))
}

/// What is said of the first of some names that is no DNS server.
pub open spec fn refuses_names(names: Seq<Seq<char>>, why: Seq<char>) -> bool {
    exists|ips: Seq<IpAddress>| #[trigger]
        stand_for(names, ips) && ips.len() < names.len() && reads_as(names[ips.len() as int], None)
            && why == "Invalid DNS server: "@ + names[ips.len() as int]
}

fn push_servers(text: &str, ips: &mut Vec<IpAddress>, names: Ghost<Seq<Seq<char>>>) -> (res: Result<
    (),
    String,
>)
    requires
        stand_for(names@, old(ips)@),
        names@.len() == old(ips)@.len(),
    ensures
        match res {
            Ok(_) => stand_for(names@ + names_in(text@, 0), final(ips)@) && final(ips)@.len()
                == (names@ + names_in(text@, 0)).len(),
            Err(why) => {
                let all = names@ + names_in(text@, 0);
                let n = final(ips)@.len();
                n < all.len() && stand_for(all, final(ips)@) && reads_as(all[n as int], None)
                    && why@ == "Invalid DNS server: "@ + all[n as int]
            },
        },
{
    let chars = chars_of(text);
    let mut from: usize = 0;
    let mut more: bool = true;
    let ghost all = names@ + names_in(text@, 0);
    let ghost mut seen = names@;
    while more
        invariant
            chars@ == text@,
            all == names@ + names_in(text@, 0),
            from <= chars@.len(),
            seen.len() == ips@.len(),
            stand_for(seen, ips@),
            more ==> all == seen + names_in(text@, from as int),
            !more ==> all == seen,
        decreases
                if more {
                    chars@.len() - from + 1
                } else {
                    0
                },
    {
        let end: usize = find_char(&chars, ',', from);
        let name = trim(&chars, from, end);
        let ghost rest = names_in(text@, end + 1);
        if chars_of(name.as_str()).len() > 0 {
            assert(all =~= seen.push(name@) + rest);
            assert(all[seen.len() as int] == name@);
            match parse_ip(name.as_str()) {
                Some(ip) => {
                    ips.push(ip);
                    proof {
                        seen = seen.push(name@);
                    }
                },
                None => {
                    assert(stand_for(all, ips@)) by {
                        assert forall|i: int| 0 <= i < ips@.len() implies reads_as(
                            #[trigger] all[i],
                            Some(ips@[i]),
                        ) by {
                            assert(all[i] == seen[i]);
                        }
                    }
                    return Err(String::from_str("Invalid DNS server: ").concat(name.as_str()));
                },
            }
        } else {
            assert(all =~= seen + rest);
        }
        if end < chars.len() {
            from = end + 1;
        } else {
            more = false;
            assert(rest =~= Seq::<Seq<char>>::empty());
            assert(all =~= seen);
        }
    }
    Ok(())
}

/// The addresses of the DNS servers that a list names.
pub fn parse_dns_servers(list: &Vec<String>) -> (res: Result<Vec<IpAddress>, String>)
    ensures
        match res {
            Ok(ips) => stand_for(server_names(list@, 0), ips@) && ips@.len() == server_names(
                list@,
                0,
            ).len(),
            Err(why) => refuses_names(server_names(list@, 0), why@),
        },
{
    let mut ips: Vec<IpAddress> = Vec::new();
    let mut at: usize = 0;
    let ghost all = server_names(list@, 0);
    let ghost mut seen = Seq::<Seq<char>>::empty();
    assert(all =~= seen + server_names(list@, 0));
    while at < list.len()
        invariant
            at <= list@.len(),
            all == server_names(list@, 0),
            all == seen + server_names(list@, at as int),
            seen.len() == ips@.len(),
            stand_for(seen, ips@),
        decreases list@.len() - at,
    {
        let ghost next = seen + names_in(list@[at as int]@, 0);
        let ghost rest = server_names(list@, at + 1);
        assert(all =~= next + rest);
        match push_servers(list[at].as_str(), &mut ips, Ghost(seen)) {
            Ok(_) => {},
            Err(why) => {
                assert(all[ips@.len() as int] == next[ips@.len() as int]);
                assert forall|i: int| 0 <= i < ips@.len() implies reads_as(
                    #[trigger] all[i],
                    Some(ips@[i]),
                ) by {
                    assert(all[i] == next[i]);
                }
                assert(stand_for(all, ips@));
                return Err(why);
            },
        }
        proof {
            seen = next;
        }
        at += 1;
    }
    assert(all =~= seen);
    Ok(ips)
}

/// How a DNS error reads.
pub open spec fn dns_fault_text(fault: DnsFault) -> Seq<char> {
    match fault {
        DnsFault::QueryFailed(why) => "query failed: "@ + why,
        DnsFault::Timeout => "timeout"@,
        DnsFault::NoRecords => "no records found"@,
        DnsFault::InvalidResponse => "invalid response"@,
        DnsFault::ChannelError => "channel error"@,
        DnsFault::EncodeError(why) => "encode error: "@ + why,
        DnsFault::DecodeError(why) => "decode error: "@ + why,
        DnsFault::SocketError(why) => "socket error: "@ + why,
    }
}

/// What looking a name up gives: its addresses, of which there must be some.
pub fn check_lookup(hostname: &str, found: Result<Vec<IpAddress>, String>) -> (res: Result<
    Vec<IpAddress>,
    String,
>)
    ensures
        match found {
            Ok(list) if list@.len() > 0 => res matches Ok(ips) && ips@ == list@,
            Ok(_) => res matches Err(why) && why@ == "No addresses found for "@ + hostname@,
            Err(e) => res matches Err(why) && why@ == "DNS resolution failed: "@ + e@,
        },
{
    match found {
        Ok(list) => if list.len() > 0 {
            Ok(list)
        } else {
            Err(String::from_str("No addresses found for ").concat(hostname))
        },
        Err(e) => Err(String::from_str("DNS resolution failed: ").concat(e.as_str())),
    }
}

impl DnsError {
    /// How the error reads.
    pub fn text(&self) -> (text: String)
        ensures
            text@ == dns_fault_text(self@),
    {
        match self {
            DnsError::QueryFailed(why) => String::from_str("query failed: ").concat(why.as_str()),
            DnsError::Timeout => String::from_str("timeout"),
            DnsError::NoRecords => String::from_str("no records found"),
            DnsError::InvalidResponse => String::from_str("invalid response"),
            DnsError::ChannelError => String::from_str("channel error"),
            DnsError::EncodeError(why) => String::from_str("encode error: ").concat(why.as_str()),
            DnsError::DecodeError(why) => String::from_str("decode error: ").concat(why.as_str()),
            DnsError::SocketError(why) => String::from_str("socket error: ").concat(why.as_str()),
        }
    }
}

/// The records of a response are its answers with an address, in their order, each with its time to
/// live.
pub proof fn answers_with_addresses_are_records(answers: Seq<(Option<IpAddress>, u32)>)
    ensures
        address_records(answers) == answers.filter(
            |answer: (Option<IpAddress>, u32)| answer.0 is Some,
        ).map_values(
            |answer: (Option<IpAddress>, u32)| DnsRecord { address: answer.0->0, ttl: answer.1 },
        ),
    decreases answers.len(),
{
    reveal(Seq::filter);
    let has_one = |answer: (Option<IpAddress>, u32)| answer.0 is Some;
    let record = |answer: (Option<IpAddress>, u32)|
        DnsRecord { address: answer.0->0, ttl: answer.1 };
    if answers.len() > 0 {
        answers_with_addresses_are_records(answers.drop_last());
        let rest = answers.drop_last().filter(has_one);
        assert(rest.push(answers.last()).map_values(record) =~= rest.map_values(record).push(
            record(answers.last()),
        ));
    }
    assert(address_records(answers) =~= answers.filter(has_one).map_values(record));
}

/// A response gives records if and only if it reports no error and has an address.
pub proof fn when_a_response_gives_records(message: MessageView)
    ensures
        response_records(message) is Ok <==> message.no_error && exists|i: int|
            0 <= i < message.answers.len() && (#[trigger] message.answers[i]).0 is Some,
        response_records(message) matches Ok(records) ==> records == address_records(
            message.answers,
        ),
        !message.no_error ==> response_records(message) == Err::<Seq<DnsRecord>, DnsFault>(
            DnsFault::QueryFailed("RCODE: "@ + message.response_code),
        ),
        message.no_error && response_records(message) is Err ==> response_records(message)->Err_0
            is NoRecords,
{
    some_answer_has_an_address(message.answers);
}

proof fn some_answer_has_an_address(answers: Seq<(Option<IpAddress>, u32)>)
    ensures
        address_records(answers).len() > 0 <==> exists|i: int|
            0 <= i < answers.len() && (#[trigger] answers[i]).0 is Some,
    decreases answers.len(),
{
    if answers.len() > 0 {
        let shorter = answers.drop_last();
        some_answer_has_an_address(shorter);
        assert forall|i: int| 0 <= i < shorter.len() implies answers[i] == #[trigger] shorter[i] by {}
        assert(answers[answers.len() - 1] == answers.last());
        if exists|i: int| 0 <= i < answers.len() && (#[trigger] answers[i]).0 is Some {
            let i = choose|i: int| 0 <= i < answers.len() && (#[trigger] answers[i]).0 is Some;
            if i < shorter.len() {
                assert(shorter[i].0 is Some);
            }
        }
        if exists|i: int| 0 <= i < shorter.len() && (#[trigger] shorter[i]).0 is Some {
            let i = choose|i: int| 0 <= i < shorter.len() && (#[trigger] shorter[i]).0 is Some;
            assert(answers[i].0 is Some);
        }
    }
}

/// Names of servers are set apart by commas: the first of a list is what stands before the first
/// comma, without the white space at its ends, and the others are those behind it. Empty places name
/// nothing.
pub proof fn names_are_set_apart_by_commas(first: Seq<char>, rest: Seq<char>)
    requires
        forall|i: int| 0 <= i < first.len() ==> #[trigger] first[i] != ',',
    ensures
        names_in(first, 0) == if trimmed(first).len() == 0 {
            Seq::empty()
        } else {
            seq![trimmed(first)]
        },
        names_in(first + seq![','] + rest, 0) == (if trimmed(first).len() == 0 {
            Seq::empty()
        } else {
            seq![trimmed(first)]
        }) + names_in(rest, 0),
{
    let n = first.len() as int;
    comma_is_at(first, 0, n);
    assert(first.subrange(0, n) =~= first);
    assert(names_in(first, n + 1) =~= Seq::empty());
    assert(names_in(first, 0) =~= if trimmed(first).len() == 0 {
        Seq::empty()
    } else {
        seq![trimmed(first)]
    });
    let text = first + seq![','] + rest;
    comma_is_at(text, 0, n);
    assert(text.subrange(0, n) =~= first);
    assert(text.skip(n + 1) =~= rest);
    names_further_on(text, rest, n + 1, 0);
}

proof fn comma_is_at(text: Seq<char>, from: int, at: int)
    requires
        0 <= from <= at <= text.len(),
        forall|i: int| from <= i < at ==> #[trigger] text[i] != ',',
        at < text.len() ==> text[at] == ',',
    ensures
        index_of(text, ',', from) == at,
    decreases at - from,
{
    if from < at {
        comma_is_at(text, from + 1, at);
    }
}

proof fn comma_further_on(text: Seq<char>, rest: Seq<char>, shift: int, from: int)
    requires
        0 <= shift,
        text.len() == shift + rest.len(),
        text.skip(shift) == rest,
        0 <= from <= rest.len(),
    ensures
        index_of(text, ',', shift + from) == shift + index_of(rest, ',', from),
    decreases rest.len() - from,
{
    if from < rest.len() {
        assert(rest[from] == text[shift + from]);
        if rest[from] != ',' {
            comma_further_on(text, rest, shift, from + 1);
        }
    }
}

proof fn names_further_on(text: Seq<char>, rest: Seq<char>, shift: int, from: int)
    requires
        0 <= shift,
        text.len() == shift + rest.len(),
        text.skip(shift) == rest,
        0 <= from,
    ensures
        names_in(text, shift + from) == names_in(rest, from),
    decreases rest.len() - from + 1,
{
    if from <= rest.len() {
        comma_further_on(text, rest, shift, from);
        comma_bounds(rest, from);
        let end = index_of(rest, ',', from);
        assert(text.subrange(shift + from, shift + end) =~= rest.subrange(from, end));
        names_further_on(text, rest, shift, end + 1);
    }
}

/// The servers of a list of texts are those of the first text and then those of the others.
pub proof fn every_text_names_servers(list: Seq<String>, at: int)
    requires
        0 <= at <= list.len(),
    ensures
        server_names(list, at) == list.skip(at).map_values(
            |text: String| names_in(text@, 0),
        ).flatten(),
    decreases list.len() - at,
{
    let names = |text: String| names_in(text@, 0);
    if at < list.len() {
        every_text_names_servers(list, at + 1);
        let all = list.skip(at).map_values(names);
        assert(all.drop_first() =~= list.skip(at + 1).map_values(names));
        assert(all.first() == names_in(list[at]@, 0));
    } else {
        assert(list.skip(at).map_values(names) =~= Seq::empty());
    }
}

/// Places are counted round the list.
pub proof fn places_go_round(start: int, offset: int, len: int)
    requires
        0 <= start < len,
        0 <= offset < len,
    ensures
        round_place(start, offset, len) == (start + offset) % len,
{
    if start + offset < len {
        vstd::arithmetic::div_mod::lemma_small_mod((start + offset) as nat, len as nat);
    } else {
        vstd::arithmetic::div_mod::lemma_mod_add_multiples_vanish(start + offset - len, len);
        vstd::arithmetic::div_mod::lemma_small_mod((start + offset - len) as nat, len as nat);
    }
}

/// A query is what hickory makes of it; what is wrong with its name or its encoding is told as such.
pub proof fn how_a_query_comes_out(bytes: Seq<u8>, why: Seq<char>)
    ensures
        query_result(Ok(Ok(bytes))) == Ok::<Seq<u8>, DnsFault>(bytes),
        query_result(Ok(Err(why))) == Err::<Seq<u8>, DnsFault>(DnsFault::EncodeError(why)),
        query_result(Err(why)) == Err::<Seq<u8>, DnsFault>(
            DnsFault::EncodeError("invalid domain: "@ + why),
        ),
{
}

/// Bytes and records are told as they are, and faults too.
pub proof fn results_are_told_as_they_are(
    made: Result<Vec<u8>, DnsError>,
    read: Result<Vec<DnsRecord>, DnsError>,
    bytes: Result<Seq<u8>, DnsFault>,
    records: Result<Seq<DnsRecord>, DnsFault>,
)
    ensures
        bytes_match(made, bytes) ==> (made is Ok <==> bytes is Ok) && (made is Ok ==> made->Ok_0@
            == bytes->Ok_0) && (made is Err ==> made->Err_0@ == bytes->Err_0),
        records_match(read, records) ==> (read is Ok <==> records is Ok) && (read is Ok
            ==> read->Ok_0@ == records->Ok_0) && (read is Err ==> read->Err_0@ == records->Err_0),
{
}

/// Addresses stand for the names of a list in their order. A list is refused for the first of its
/// names that is no address, and that one is told.
pub proof fn names_stand_for_addresses(names: Seq<Seq<char>>, ips: Seq<IpAddress>, why: Seq<char>)
    ensures
        stand_for(names, ips) ==> forall|i: int|
            0 <= i < ips.len() ==> reads_as(#[trigger] names[i], Some(ips[i])),
        refuses_names(names, why) ==> exists|n: int|
            0 <= n < names.len() && reads_as(#[trigger] names[n], None) && why
                == "Invalid DNS server: "@ + names[n] && forall|k: int|
                0 <= k < n ==> !reads_as(#[trigger] names[k], None),
{
    if refuses_names(names, why) {
        let found = choose|found: Seq<IpAddress>| #[trigger]
            stand_for(names, found) && found.len() < names.len() && reads_as(
                names[found.len() as int],
                None,
            ) && why == "Invalid DNS server: "@ + names[found.len() as int];
        let n = found.len() as int;
        assert forall|k: int| 0 <= k < n implies !reads_as(#[trigger] names[k], None) by {
            if reads_as(names[k], None) {
                crate::addr::address_is_unique(names[k], Some(found[k]), None);
            }
        }
        assert(reads_as(names[n], None));
    }
}

/// Each kind of fault reads with its own words before its reason.
pub proof fn how_dns_faults_read(fault: DnsFault)
    ensures
        fault matches DnsFault::QueryFailed(why) ==> dns_fault_text(fault) == "query failed: "@ + why,
        fault matches DnsFault::EncodeError(why) ==> dns_fault_text(fault) == "encode error: "@ + why,
        fault matches DnsFault::DecodeError(why) ==> dns_fault_text(fault) == "decode error: "@ + why,
        fault matches DnsFault::SocketError(why) ==> dns_fault_text(fault) == "socket error: "@ + why,
        fault is Timeout ==> dns_fault_text(fault) == "timeout"@,
        fault is NoRecords ==> dns_fault_text(fault) == "no records found"@,
        fault is InvalidResponse ==> dns_fault_text(fault) == "invalid response"@,
        fault is ChannelError ==> dns_fault_text(fault) == "channel error"@,
{
}

} // verus!
