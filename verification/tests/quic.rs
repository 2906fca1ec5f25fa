use p256::ecdsa::signature::Signer;
use p256::ecdsa::SigningKey;
use p256::pkcs8::EncodePublicKey;
use x509_cert::certificate::{Certificate, TbsCertificate, Version};
use x509_cert::der::asn1::{BitString, ObjectIdentifier};
use x509_cert::der::{Decode, Encode};
use x509_cert::name::Name;
use x509_cert::serial_number::SerialNumber;
use x509_cert::spki::{AlgorithmIdentifierOwned, SubjectPublicKeyInfoOwned};
use x509_cert::time::Validity;
use usque::tunnel::masque::{bind_address, check_peer_key, connect_ip_headers, SocketTuning};
use usque::tunnel::quic::{
    handshake_alive, handshake_step, is_enobufs, key_matches, max_pacing_rate, perf_stats,
    verify_peer_public_key, CongestionControl, HandshakeStep, HandshakeTuning, PathFigures,
    QuicConfig, QuicSendStatus, SendAction, SendPump, UdpSend,
};
use usque::vars::Vars;

fn vars(list: &[(&str, &str)]) -> Vars {
    Vars { entries: list.iter().map(|(n, v)| (n.to_string(), v.to_string())).collect() }
}

fn certificate(key: &SigningKey) -> (Vec<u8>, Vec<u8>) {
    let public = key.verifying_key().to_public_key_der().unwrap().as_bytes().to_vec();
    let spki = SubjectPublicKeyInfoOwned::from_der(&public).unwrap();
    let algorithm = AlgorithmIdentifierOwned {
        oid: ObjectIdentifier::new_unwrap("1.2.840.10045.4.3.2"),
        parameters: None,
    };
    let tbs = TbsCertificate {
        version: Version::V3,
        serial_number: SerialNumber::new(&[1u8]).unwrap(),
        signature: algorithm.clone(),
        issuer: Name::default(),
        validity: Validity::from_now(std::time::Duration::from_secs(60)).unwrap(),
        subject: Name::default(),
        subject_public_key_info: spki,
        issuer_unique_id: None,
        subject_unique_id: None,
        extensions: None,
    };
    let signed: p256::ecdsa::DerSignature = key.sign(&tbs.to_der().unwrap());
    let cert = Certificate {
        tbs_certificate: tbs,
        signature_algorithm: algorithm,
        signature: BitString::from_bytes(signed.as_bytes()).unwrap(),
    };
    (cert.to_der().unwrap(), public)
}

#[test]
fn only_the_pinned_key_is_accepted() {
    let (cert, key) = certificate(&SigningKey::from_slice(&[7u8; 32]).unwrap());
    let (_, other) = certificate(&SigningKey::from_slice(&[8u8; 32]).unwrap());
    assert!(verify_peer_public_key(&cert, &key));
    assert!(!verify_peer_public_key(&cert, &other));
    assert!(!verify_peer_public_key(&vec![1, 2, 3], &key));
    assert!(check_peer_key(Some(&key), Some(&cert)).is_ok());
    assert_eq!(
        check_peer_key(Some(&other), Some(&cert)).unwrap_err().text(),
        "QUIC error: public key mismatch"
    );
    assert!(check_peer_key(None, Some(&cert)).is_ok());
    assert!(key_matches(&Some(vec![1]), &vec![1]));
    assert!(!key_matches(&None, &vec![]));
}

#[test]
fn algorithms_have_names() {
    assert_eq!(CongestionControl::from_name("Cubic").unwrap(), CongestionControl::Cubic);
    assert_eq!(CongestionControl::from_name("BBRv2").unwrap(), CongestionControl::Bbr2);
    assert_eq!(CongestionControl::from_lowercase("reno", "RENO").unwrap().name(), "reno");
    assert!(CongestionControl::from_lowercase("RENO", "RENO").is_err());
    assert_eq!(CongestionControl::default(), CongestionControl::Bbr2);
}

#[test]
fn the_connection_has_its_settings() {
    let config = QuicConfig::default();
    assert_eq!(config.max_datagram_size(), 1350);
    assert_eq!(QuicConfig { initial_packet_size: 1400, ..config }.max_datagram_size(), 1400);
    let rate = "USQUE_QUIC_MAX_PACING_RATE_MBPS";
    assert_eq!(max_pacing_rate(&vars(&[(rate, "100")])), Ok(Some(100_000_000)));
    assert_eq!(max_pacing_rate(&vars(&[(rate, "0")])), Ok(None));
    assert_eq!(
        max_pacing_rate(&vars(&[(rate, "18446744073709551615")])),
        Err(18446744073709551615)
    );
    assert!(is_enobufs(Some(105)) || is_enobufs(Some(55)));
    assert!(!is_enobufs(None));
    assert_eq!(bind_address(true), "0.0.0.0:0");
    assert_eq!(bind_address(false), "[::]:0");
    assert_eq!(connect_ip_headers()[1], (":protocol", "cf-connect-ip"));
    let tuning = SocketTuning::from_env(&vars(&[]));
    assert!(tuning.recv_buffer > 0);
    assert!(HandshakeTuning::from_env(&vars(&[])).buffer_size > 0);
}

#[test]
fn a_handshake_ends_in_time() {
    assert_eq!(handshake_step(true, 5, 4).unwrap(), HandshakeStep::Done);
    assert_eq!(handshake_step(false, 4, 4).unwrap(), HandshakeStep::Receive);
    assert_eq!(handshake_step(false, 5, 4).unwrap_err().text(), "handshake timeout");
    assert!(handshake_alive(false).is_ok());
    assert!(handshake_alive(true).is_err());
}

#[test]
fn the_active_path_is_reported() {
    let path = |active: bool, cwnd: usize| PathFigures {
        active,
        rtt_ms: u128::MAX,
        cwnd,
        lost: 1,
        total_pto_count: 2,
        delivery_rate: 3,
        dgram_recv: 4,
        dgram_sent: 5,
    };
    assert!(perf_stats(&vec![]).is_none());
    let stats = perf_stats(&vec![path(false, 1), path(true, 2)]).unwrap();
    assert_eq!(stats.cwnd, 2);
    assert_eq!(stats.rtt_ms, u64::MAX);
}

#[test]
fn a_packet_that_cannot_go_is_held_back() {
    let mut pump = SendPump::new();
    let mut status = QuicSendStatus::default();
    let packet = vec![1u8, 2, 3];
    assert_eq!(pump.next_action(0, &mut status), SendAction::Produce);
    pump.on_produced_sent(&packet, 0, UdpSend::WouldBlock, &mut status).unwrap();
    assert!(status.blocked);
    assert!(pump.has_pending_send());
    assert_eq!(pump.pending_send_packets(), 1);
    let mut again = QuicSendStatus::default();
    assert_eq!(pump.next_action(0, &mut again), SendAction::SendPending);
    pump.on_pending_sent(UdpSend::Sent(3), &mut again).unwrap();
    assert_eq!((again.packets_sent, again.bytes_sent), (1, 3));
    assert!(!pump.has_pending_send());
    pump.on_produced(&packet, 100, 50, &mut again);
    assert!(again.paced);
    assert_eq!(pump.next_send_at(50), Some(100));
}
