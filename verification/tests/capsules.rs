use usque::tunnel::capsule::{
    decode_varint, parse_address_assign_capsule, parse_route_advertisement_capsule,
    try_decode_varint,
};
use usque::tunnel::masque::{MasqueControlState, MasqueError};

fn encode_varint(mut value: u64) -> Vec<u8> {
    if value < 64 {
        vec![value as u8]
    } else if value < 16384 {
        value |= 0x4000;
        value.to_be_bytes()[6..].to_vec()
    } else if value < 1073741824 {
        value |= 0x8000_0000;
        value.to_be_bytes()[4..].to_vec()
    } else {
        value |= 0xc000_0000_0000_0000;
        value.to_be_bytes().to_vec()
    }
}

fn build_capsule(capsule_type: u64, payload: &[u8]) -> Vec<u8> {
    let mut bytes = Vec::new();
    bytes.extend_from_slice(&encode_varint(capsule_type));
    bytes.extend_from_slice(&encode_varint(payload.len() as u64));
    bytes.extend_from_slice(payload);
    bytes
}

#[test]
fn parses_address_assign_capsule() {
    let payload = [0x00, 0x04, 10, 0, 0, 2, 32];
    let addresses = parse_address_assign_capsule(&payload).unwrap();
    assert_eq!(addresses, vec!["10.0.0.2/32"]);
}

#[test]
fn parses_fragmented_control_capsules() {
    let mut control = MasqueControlState::new();
    let capsule = build_capsule(0x01, &[0x00, 0x04, 10, 0, 0, 2, 32]);
    let split = 3;
    control.recv_buf.extend_from_slice(&capsule[..split]);
    assert!(control.assigned_addresses.is_empty());
    control.recv_buf.extend_from_slice(&capsule[split..]);
    while let Some((capsule_type, capsule_type_len)) = try_decode_varint(&control.recv_buf) {
        let (capsule_len, capsule_len_len) =
            try_decode_varint(&control.recv_buf[capsule_type_len..]).unwrap();
        let frame_len = capsule_type_len + capsule_len_len + capsule_len as usize;
        let frame: Vec<u8> = control.recv_buf.drain(..frame_len).collect();
        control
            .process_capsule(capsule_type, &frame[capsule_type_len + capsule_len_len..])
            .unwrap();
    }
    assert_eq!(control.assigned_addresses, ["10.0.0.2/32"]);
}

#[test]
fn ignores_unknown_capsules() {
    let mut control = MasqueControlState::new();
    let capsule = build_capsule(0xdead, &[1, 2, 3]);
    control.recv_buf.extend_from_slice(&capsule);
    let (capsule_type, capsule_type_len) = try_decode_varint(&control.recv_buf).unwrap();
    let (capsule_len, capsule_len_len) =
        try_decode_varint(&control.recv_buf[capsule_type_len..]).unwrap();
    let frame_len = capsule_type_len + capsule_len_len + capsule_len as usize;
    let frame: Vec<u8> = control.recv_buf.drain(..frame_len).collect();
    control
        .process_capsule(capsule_type, &frame[capsule_type_len + capsule_len_len..])
        .unwrap();
    assert!(control.assigned_addresses.is_empty());
    assert!(control.advertised_routes.is_empty());
}

#[test]
fn capsules_may_come_byte_by_byte() {
    let mut control = MasqueControlState::new();
    let capsule = build_capsule(0x01, &[0x00, 0x04, 10, 0, 0, 2, 32]);
    for byte in capsule.iter() {
        control.process_control_chunk(&[*byte], false).unwrap();
    }
    assert_eq!(control.assigned_addresses, ["10.0.0.2/32"]);
}

#[test]
fn an_ipv6_address_is_assigned_as_text() {
    let mut payload = vec![0x00, 0x06];
    payload.extend_from_slice(&[0x26, 0x06, 0x47, 0, 0, 0, 0, 0, 0, 0, 0, 0, 0, 0, 0, 1]);
    payload.push(128);
    assert_eq!(parse_address_assign_capsule(&payload).unwrap(), vec!["2606:4700::1/128"]);
}

#[test]
fn short_capsules_are_refused() {
    assert!(parse_address_assign_capsule(&[0x00, 0x04, 10, 0]).is_err());
    assert!(parse_route_advertisement_capsule(&[0x04, 10]).is_err());
    match decode_varint(&[]) {
        Err(MasqueError::ConnectionError(text)) => assert_eq!(text, "Empty buffer"),
        _ => panic!("nothing is no number"),
    }
    match decode_varint(&[0x40]) {
        Err(MasqueError::ConnectionError(text)) => assert_eq!(text, "Buffer too short"),
        _ => panic!("half a number is no number"),
    }
    assert_eq!(decode_varint(&[0x7b, 0xbd, 9]).unwrap(), (15293, 2));
}
