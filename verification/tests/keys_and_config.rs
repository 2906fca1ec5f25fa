use base64::Engine;
use usque::config::{exact_bytes, read_error, strip_pem, Config, WgConfig, WgConfigError};
use usque::crypto::{
    choose_scalar, generate_ec_key_pair, generate_random_serial, generate_random_wg_pubkey,
    generate_wg_key_pair, key_pair_of, public_key, read_private_key, serial_text,
    time_as_cf_string, wg_key_pair_of, wg_pubkey_text, CryptoError,
};

fn wg() -> WgConfig {
    WgConfig {
        device_id: "device".to_string(),
        private_key: "AAAAAAAAAAAAAAAAAAAAAAAAAAAAAAAAAAAAAAAAAAA=".to_string(),
        token: "token=with:marks".to_string(),
        client_id: "AQID".to_string(),
        account_type: "free".to_string(),
        mtu: 1280,
        peer_public_key: "bmXOC+F1FxEMF9dyiK2H5/1SUtzH0JuVo51h2wPfgyo=".to_string(),
        endpoint: "162.159.193.10:2408".to_string(),
        endpoint6: Some("[2606:4700:d0::a29f:c001]:2408".to_string()),
        keepalive: 30,
        address: "172.16.0.2/32".to_string(),
        address6: None,
        dns: "1.1.1.1".to_string(),
    }
}

#[test]
fn a_saved_configuration_is_loaded_again() {
    let saved = wg().save();
    assert!(saved.contains("[Account]"));
    assert!(saved.contains("KeepAlive=30"));
    let loaded = WgConfig::load("warp.conf", saved).unwrap();
    assert_eq!(loaded.device_id, "device");
    assert_eq!(loaded.token, "token=with:marks");
    assert_eq!(loaded.mtu, 1280);
    assert_eq!(loaded.endpoint6, Some("[2606:4700:d0::a29f:c001]:2408".to_string()));
    assert_eq!(loaded.address6, None);
    assert_eq!(loaded.ipv4_address(), "172.16.0.2");
    assert_eq!(loaded.ipv6_address(), None);
    assert_eq!(loaded.get_client_id_bytes().unwrap(), [1, 2, 3]);
    assert_eq!(loaded.get_private_key_bytes().unwrap(), [0u8; 32]);
    assert_eq!(loaded.get_peer_public_key_bytes().unwrap()[0], 0x6e);
    assert_eq!(loaded.get_endpoint_addr().unwrap().address.port, 2408);
}

#[test]
fn missing_values_have_stand_ins_or_are_reported() {
    let text = "[Account]\nDevice = d\nPrivateKey = k\nToken = t\nClientId = c\n\
                [Peer]\nPublicKey = p\nEndpoint = e\n[Interface]\nAddress = a\n[Device]\nMTU = x\n";
    let loaded = WgConfig::load("f", text.to_string()).unwrap();
    assert_eq!(loaded.account_type, "free");
    assert_eq!((loaded.mtu, loaded.keepalive), (1280, 30));
    assert_eq!(loaded.dns, "1.1.1.1");
    assert_eq!(loaded.endpoint6, None);
    assert_eq!(
        WgConfig::load("f", "[Account]\nDevice = d\n".to_string()).unwrap_err().text(),
        "missing field: [Account] PrivateKey"
    );
    assert_eq!(
        WgConfig::load("f", "[Account\n".to_string()).unwrap_err().text(),
        "parse error: couldn't read f: line 1: Found opening bracket for section name but no closing bracket"
    );
    assert_eq!(read_error("f", "gone").text(), "parse error: couldn't read f: gone");
    assert_eq!(
        loaded.get_endpoint_addr().unwrap_err().text(),
        "invalid value: [Peer] Endpoint: invalid socket address syntax"
    );
    assert!(matches!(loaded.get_client_id_bytes(), Err(WgConfigError::Base64(_))));
}

#[test]
fn keys_must_have_their_length() {
    let mut config = wg();
    config.client_id = "AQIDBA==".to_string();
    assert_eq!(
        config.get_client_id_bytes().unwrap_err().text(),
        "invalid value: [Account] ClientId: expected 3 bytes, got 4"
    );
    let short: Result<[u8; 2], WgConfigError> = exact_bytes(Ok(vec![1]), "S", "K");
    assert_eq!(short.unwrap_err().text(), "invalid value: [S] K: expected 2 bytes, got 1");
    config.address = "10.0.0.2".to_string();
    config.address6 = Some("fd00::2/128".to_string());
    assert_eq!(config.ipv4_address(), "10.0.0.2");
    assert_eq!(config.ipv6_address(), Some("fd00::2"));
}

#[test]
fn a_new_key_pair_signs_with_its_own_number() {
    let pair = generate_ec_key_pair().unwrap();
    assert_eq!(pair.scalar.len(), 32);
    assert_eq!(read_private_key(&pair.private_key_der).unwrap(), pair.scalar);
    assert_eq!(public_key(&pair.scalar).unwrap(), pair.public_key_der);
    let again = key_pair_of(pair.scalar.clone()).unwrap();
    assert_eq!(again.private_key_der, pair.private_key_der);
    assert!(matches!(key_pair_of(vec![0; 32]), Err(CryptoError::EncodeError(_))));
    assert!(read_private_key(&[1, 2, 3]).is_err());
    assert_eq!(choose_scalar(Some(vec![1]), Ok(vec![2])).unwrap(), vec![1]);
    assert_eq!(choose_scalar(None, Ok(vec![2])).unwrap(), vec![2]);
    assert_eq!(choose_scalar(None, Err("no".to_string())).unwrap_err(), "no");
}

#[test]
fn a_wireguard_key_pair_belongs_together() {
    let mut private_key = vec![0u8; 32];
    private_key[0] = 9;
    private_key[31] = 64;
    let pair = wg_key_pair_of(private_key.clone());
    assert_eq!(pair.private_key, private_key);
    let mut bytes = [0u8; 32];
    bytes.copy_from_slice(&private_key);
    let secret = gotatun::x25519::StaticSecret::from(bytes);
    let public = gotatun::x25519::PublicKey::from(&secret);
    let expected = base64::engine::general_purpose::STANDARD.encode(public.as_bytes());
    assert_eq!(pair.public_key_base64, expected);
    let fresh = generate_wg_key_pair().unwrap();
    assert_eq!(fresh.private_key.len(), 32);
    assert_eq!(
        fresh.public_key_base64,
        wg_key_pair_of(fresh.private_key.clone()).public_key_base64
    );
    assert_ne!(fresh.public_key_base64, pair.public_key_base64);
}

#[test]
fn random_texts_have_their_form() {
    assert_eq!(wg_pubkey_text(&[0; 32]), "AAAAAAAAAAAAAAAAAAAAAAAAAAAAAAAAAAAAAAAAAAA=");
    assert_eq!(serial_text(&[0, 1, 0x2f, 0xa0, 0xff, 7, 8, 9]), "00012fa0ff070809");
    let key = generate_random_wg_pubkey().unwrap();
    assert_eq!(key.len(), 44);
    assert!(key.ends_with('='));
    let serial = generate_random_serial().unwrap();
    assert_eq!(serial.len(), 16);
    assert!(serial.chars().all(|c| c.is_ascii_hexdigit() && !c.is_ascii_uppercase()));
    assert_ne!(generate_random_serial().unwrap(), serial);
}

#[test]
fn times_are_written_for_cloudflare() {
    assert_eq!(
        time_as_cf_string(0, 123_456_789, 3600).unwrap(),
        "1970-01-01T01:00:00.123+01:00"
    );
    assert_eq!(time_as_cf_string(0, 0, 0).unwrap(), "1970-01-01T00:00:00.000+00:00");
    assert!(time_as_cf_string(0, 0, 100_000).is_none());
    assert!(time_as_cf_string(i64::MAX, 0, 0).is_none());
}

#[test]
fn a_public_key_is_read_without_its_borders() {
    let pem = "-----BEGIN PUBLIC KEY-----\r\nAQID\r\nBAUG\n-----END PUBLIC KEY-----\n";
    assert_eq!(strip_pem(pem), "AQIDBAUG");
    let mut config = Config::default();
    config.endpoint_pub_key = pem.to_string();
    assert_eq!(config.get_endpoint_pub_key_der().unwrap(), vec![1, 2, 3, 4, 5, 6]);
    config.endpoint_pub_key = "!".to_string();
    assert!(config
        .get_endpoint_pub_key_der()
        .unwrap_err()
        .text()
        .starts_with("failed to parse config file: failed to decode endpoint public key: "));
    assert_eq!(strip_pem("----\nx\r"), "----x\r");
}

#[test]
fn a_configuration_without_a_key_cannot_sign() {
    let mut config = Config::default();
    assert!(config.get_private_key_der().unwrap().is_empty());
    assert!(config.get_signing_key().unwrap_err().text().starts_with("crypto error: "));
    config.private_key = "%".to_string();
    assert!(config
        .get_signing_key()
        .unwrap_err()
        .text()
        .starts_with("failed to parse config file: failed to decode private key: "));
}
