use usque::addr::IpAddress;
use usque::manager::dns_cache::{
    dns_cache_get, dns_cache_get_all, dns_cache_insert, DnsCache,
};
use usque::manager::dns_ops::{DnsCounters, DnsDispatch, DnsReply, DnsState};
use usque::manager::ManagerError;
use usque::tunnel::dns::{
    addresses_of, build_dns_query, check_addresses, check_lookup, check_response, dns_port, dns_server,
    get_dns_local_port, next_transaction_id, parse_dns_response, parse_dns_response_with_id,
    select_dns_server, DnsError, DnsMessage, DnsRecord, DnsRecordType,
};

fn v4(last: u8) -> IpAddress {
    IpAddress::V4([192, 0, 2, last])
}

fn v6(last: u8) -> IpAddress {
    let mut octets = [0u8; 16];
    octets[0] = 0x20;
    octets[15] = last;
    IpAddress::V6(octets)
}

fn response(query: &[u8], code: u8, answers: &[(IpAddress, u32)]) -> Vec<u8> {
    let mut bytes = query.to_vec();
    bytes[2] = 0x81;
    bytes[3] = 0x80 | code;
    bytes[7] = answers.len() as u8;
    for (ip, ttl) in answers {
        bytes.extend_from_slice(&[0xc0, 12]);
        match ip {
            IpAddress::V4(octets) => {
                bytes.extend_from_slice(&[0, 1, 0, 1]);
                bytes.extend_from_slice(&ttl.to_be_bytes());
                bytes.extend_from_slice(&[0, 4]);
                bytes.extend_from_slice(octets);
            }
            IpAddress::V6(octets) => {
                bytes.extend_from_slice(&[0, 28, 0, 1]);
                bytes.extend_from_slice(&ttl.to_be_bytes());
                bytes.extend_from_slice(&[0, 16]);
                bytes.extend_from_slice(octets);
            }
        }
    }
    bytes
}

#[test]
fn a_query_asks_for_one_name() {
    let mut counter = 7u16;
    let (id, res) = build_dns_query(&mut counter, "example.com", DnsRecordType::A);
    assert_eq!(id, 7);
    assert_eq!(counter, 8);
    let query = res.unwrap();
    assert_eq!(&query[..12], &[0, 7, 1, 0, 0, 1, 0, 0, 0, 0, 0, 0]);
    assert_eq!(&query[12..], b"\x07example\x03com\x00\x00\x01\x00\x01");
    let (_, six) = build_dns_query(&mut counter, "example.com", DnsRecordType::AAAA);
    assert_eq!(&six.unwrap()[25..], &[0, 28, 0, 1]);
    let long = "a".repeat(64);
    match build_dns_query(&mut counter, &long, DnsRecordType::A).1 {
        Err(DnsError::EncodeError(text)) => assert!(text.starts_with("invalid domain: ")),
        _ => panic!("the label is too long"),
    }
}

#[test]
fn a_response_gives_addresses() {
    let mut counter = 7u16;
    let (id, res) = build_dns_query(&mut counter, "example.com", DnsRecordType::A);
    let query = res.unwrap();
    let bytes = response(&query, 0, &[(v4(1), 60), (v6(2), 30)]);
    assert_eq!(parse_dns_response(&bytes, id).unwrap(), vec![v4(1), v6(2)]);
    assert!(matches!(parse_dns_response(&bytes, id + 1), Err(DnsError::InvalidResponse)));
    let (found, records) = parse_dns_response_with_id(&bytes).unwrap();
    assert_eq!(found, id);
    let records = records.unwrap();
    assert_eq!(records[1].ttl, 30);
    assert_eq!(addresses_of(&records), vec![v4(1), v6(2)]);
    assert!(matches!(parse_dns_response(&query, id), Err(DnsError::InvalidResponse)));
    match parse_dns_response(&response(&query, 3, &[]), id) {
        Err(DnsError::QueryFailed(text)) => assert_eq!(text, "RCODE: NXDomain"),
        _ => panic!("the name does not exist"),
    }
    assert!(matches!(
        parse_dns_response(&response(&query, 0, &[]), id),
        Err(DnsError::NoRecords)
    ));
    assert!(matches!(parse_dns_response(&[1, 2, 3], id), Err(DnsError::DecodeError(_))));
}

#[test]
fn messages_are_checked() {
    let message = |is_response: bool, no_error: bool| DnsMessage {
        id: 9,
        is_response,
        no_error,
        response_code: "ServFail".to_string(),
        answers: vec![(None, 9), (Some(v4(1)), 5)],
    };
    assert!(check_response(Ok(message(false, true))).is_err());
    assert_eq!(check_response(Ok(message(true, true))).unwrap().1.unwrap().len(), 1);
    assert_eq!(check_addresses(Ok(message(true, true)), 9).unwrap(), vec![v4(1)]);
    assert_eq!(
        check_addresses(Ok(message(true, false)), 9).unwrap_err().text(),
        "query failed: RCODE: ServFail"
    );
    assert_eq!(
        check_addresses(Err("bad".to_string()), 9).unwrap_err().text(),
        "decode error: bad"
    );
}

#[test]
fn a_lookup_needs_an_address() {
    assert_eq!(check_lookup("a.b", Ok(vec![v4(1)])), Ok(vec![v4(1)]));
    assert_eq!(check_lookup("a.b", Ok(vec![])), Err("No addresses found for a.b".to_string()));
    assert_eq!(
        check_lookup("a.b", Err("no route".to_string())),
        Err("DNS resolution failed: no route".to_string())
    );
}

#[test]
fn counters_come_round() {
    let mut id = u16::MAX;
    assert_eq!(next_transaction_id(&mut id), u16::MAX);
    assert_eq!(id, 0);
    let mut port = 50000u16;
    assert_eq!(get_dns_local_port(&mut port), 50000);
    assert_eq!(port, 50001);
    assert_eq!(dns_port(), 53);
    assert_eq!(dns_server(), IpAddress::V4([1, 1, 1, 1]));
    let servers = vec![v4(1), v6(1), v4(2)];
    let mut turn = 0usize;
    assert_eq!(select_dns_server(&mut turn, &servers, false), v4(1));
    assert_eq!(select_dns_server(&mut turn, &servers, true), v6(1));
    assert_eq!(select_dns_server(&mut turn, &vec![], true), IpAddress::V4([1, 1, 1, 1]));
}

#[test]
fn the_cache_gives_back_what_is_still_valid() {
    let mut cache = DnsCache::new();
    let records = vec![
        DnsRecord { address: v4(1), ttl: 60 },
        DnsRecord { address: v6(1), ttl: 3600 },
    ];
    dns_cache_insert(&mut cache, "example.com".to_string(), &records, 0);
    assert_eq!(dns_cache_get(&cache, "example.com", false, 1), Some(v4(1)));
    assert_eq!(dns_cache_get(&cache, "example.com", true, 1), Some(v6(1)));
    assert_eq!(dns_cache_get(&cache, "example.org", true, 1), None);
    assert_eq!(dns_cache_get_all(&cache, "example.com", 1).unwrap(), vec![v4(1), v6(1)]);
    let later = 1_000_000_000u64 * 61;
    assert_eq!(dns_cache_get(&cache, "example.com", false, later), Some(v6(1)));
    let end = 1_000_000_000u64 * 4000;
    assert_eq!(dns_cache_get_all(&cache, "example.com", end), None);
}

fn ask(dns: &mut DnsState, counters: &mut DnsCounters, group: u32, t: DnsRecordType) -> Vec<u8> {
    match dns.dispatch_dns_query(counters, group, "example.com", t, 0) {
        DnsDispatch::Send { transaction_id, packet } => {
            assert!(dns.on_query_sent(group, t, transaction_id, true, false, 0).is_empty());
            packet
        }
        _ => panic!("the query can be built"),
    }
}

#[test]
fn the_preferred_family_answers_at_once() {
    let mut dns = DnsState::new();
    let mut counters = DnsCounters::new();
    let name = "example.com".to_string();
    let start = dns.start_dns_query(&mut counters, &name, true, 1, &vec![v4(9)], 0);
    assert!(dns.has_work());
    let a = ask(&mut dns, &mut counters, start.group_id, DnsRecordType::A);
    let aaaa = ask(&mut dns, &mut counters, start.group_id, DnsRecordType::AAAA);
    let replies = dns.process_dns_response(&response(&aaaa, 0, &[(v6(5), 60)]), 0);
    match &replies[..] {
        [DnsReply::One { responder: 1, address: Ok(ip) }] => assert_eq!(*ip, v6(5)),
        _ => panic!("the preferred address is there"),
    }
    assert!(dns.process_dns_response(&response(&a, 0, &[(v4(5), 60)]), 0).is_empty());
    assert_eq!(dns.group_count(), 0);
    assert_eq!(dns.cached_all("example.com", 1).unwrap(), vec![v4(5), v6(5)]);
    assert!(dns.process_dns_response(&response(&a, 0, &[(v4(6), 60)]), 0).is_empty());
    assert!(dns.process_dns_response(&[], 0).is_empty());
}

#[test]
fn all_addresses_are_waited_for() {
    let mut dns = DnsState::new();
    let mut counters = DnsCounters::new();
    let name = "example.com".to_string();
    let start = dns.start_dns_query_all(&mut counters, &name, 2, &vec![v4(9)], 0);
    let a = ask(&mut dns, &mut counters, start.group_id, DnsRecordType::A);
    let aaaa = ask(&mut dns, &mut counters, start.group_id, DnsRecordType::AAAA);
    assert!(dns.process_dns_response(&response(&a, 0, &[(v4(5), 60)]), 0).is_empty());
    let replies = dns.process_dns_response(&response(&aaaa, 3, &[]), 0);
    match &replies[..] {
        [DnsReply::All { responder: 2, addresses: Ok(list) }] => assert_eq!(*list, vec![v4(5)]),
        _ => panic!("both responses are there"),
    }
}

#[test]
fn a_name_without_answer_times_out() {
    let mut dns = DnsState::new();
    let mut counters = DnsCounters::new();
    let name = "example.com".to_string();
    let start = dns.start_dns_query(&mut counters, &name, true, 3, &vec![v4(9)], 0);
    ask(&mut dns, &mut counters, start.group_id, DnsRecordType::A);
    assert!(dns.expire_dns_groups(5_000_000_000).is_empty());
    let replies = dns.expire_dns_groups(5_000_000_001);
    match &replies[..] {
        [DnsReply::One { responder: 3, address: Err(ManagerError::Dns(e)) }] => {
            assert_eq!(e.text(), "timeout")
        }
        _ => panic!("the time is over"),
    }
    assert!(!dns.has_work());
}

#[test]
fn a_query_that_was_not_sent_has_failed() {
    let mut dns = DnsState::new();
    let mut counters = DnsCounters::new();
    let name = "example.com".to_string();
    let start = dns.start_dns_query(&mut counters, &name, false, 4, &vec![v4(9)], 0);
    assert!(dns.on_query_sent(start.group_id, DnsRecordType::A, 1, false, false, 0).is_empty());
    let replies = dns.on_query_sent(start.group_id, DnsRecordType::AAAA, 2, false, false, 0);
    match &replies[..] {
        [DnsReply::One { responder: 4, address: Err(e) }] => {
            assert_eq!(e.text(), "dns error: socket error: DNS A send failed")
        }
        _ => panic!("both queries failed"),
    }
}
