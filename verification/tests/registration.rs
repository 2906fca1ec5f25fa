use usque::api::{
    check_reply, Account, AccountConfig, AccountData, Addresses, ApiClientError,
    CloudflareClient, Endpoint, InterfaceConfig, Peer,
};
use usque::config::Config;
use usque::crypto::key_pair_of;
use usque::register::{
    account_token, enroll_name, enrolled_config, kept_keys, keys_to_enroll, masque_config,
    new_keys, v4_server_text, v6_server_text, wg_config,
};

fn account() -> AccountData {
    AccountData {
        id: "id".to_string(),
        account: Account { license: None },
        config: AccountConfig {
            client_id: Some("AQID".to_string()),
            peers: Some(vec![Peer {
                public_key: "key".to_string(),
                endpoint: Some(Endpoint {
                    v4: Some("162.159.192.1:0".to_string()),
                    v6: Some("[2606:4700:d0::a29f:c001]:0".to_string()),
                }),
            }]),
            interface_config: Some(InterfaceConfig {
                addresses: Some(Addresses {
                    v4: Some("172.16.0.2".to_string()),
                    v6: Some("fd00::2".to_string()),
                }),
            }),
        },
        token: Some("token".to_string()),
    }
}

#[test]
fn a_registration_becomes_a_configuration() {
    let config = masque_config("token".to_string(), &[1, 2, 3], &account()).unwrap();
    assert_eq!(config.private_key, "AQID");
    assert_eq!(config.endpoint_v4, "162.159.192.1:0");
    assert_eq!(config.endpoint_pub_key, "key");
    assert_eq!(config.license, "");
    assert_eq!(config.access_token, "token");
    assert_eq!(config.ipv6, "fd00::2");
    assert_eq!(account_token(&account()).unwrap(), "token");
    assert_eq!(enroll_name(None), "usque-rs");
    assert_eq!(enroll_name(Some("box")), "box");
}

#[test]
fn gaps_in_a_registration_are_reported() {
    let mut a = account();
    a.token = None;
    assert_eq!(account_token(&a).unwrap_err(), "No token in response");
    assert_eq!(wg_config(&[0; 32], &a).unwrap_err(), "No token in response");
    let mut b = account();
    b.config.peers = Some(vec![]);
    assert_eq!(
        masque_config("t".to_string(), &[], &b).unwrap_err(),
        "No endpoint info in response"
    );
    assert_eq!(wg_config(&[0; 32], &b).unwrap_err(), "No peer info in response");
    let mut c = account();
    c.config.peers.as_mut().unwrap()[0].public_key = "  ".to_string();
    assert_eq!(
        masque_config("t".to_string(), &[], &c).unwrap_err(),
        "No endpoint public key in response"
    );
    let mut d = account();
    d.config.interface_config = None;
    assert_eq!(
        masque_config("t".to_string(), &[], &d).unwrap_err(),
        "No interface addresses in response"
    );
    assert_eq!(wg_config(&[0; 32], &d).unwrap_err(), "No interface addresses in response");
    let mut e = account();
    e.config.client_id = None;
    assert_eq!(wg_config(&[0; 32], &e).unwrap_err(), "No client_id in response");
    let mut f = account();
    f.config.peers.as_mut().unwrap()[0].endpoint = None;
    assert_eq!(wg_config(&[0; 32], &f).unwrap_err(), "No endpoint v4 in response");
    let mut g = account();
    g.config.interface_config =
        Some(InterfaceConfig { addresses: Some(Addresses { v4: None, v6: None }) });
    assert_eq!(wg_config(&[0; 32], &g).unwrap_err(), "No IPv4 address in response");
}

#[test]
fn a_wireguard_registration_fills_in_the_port() {
    let config = wg_config(&[0; 32], &account()).unwrap();
    assert_eq!(config.endpoint, "162.159.192.1:2408");
    assert_eq!(config.endpoint6.unwrap(), "[2606:4700:d0::a29f:c001]:2408");
    assert_eq!(config.address, "172.16.0.2/32");
    assert_eq!(config.address6.unwrap(), "fd00::2/128");
    assert_eq!(config.client_id, "AQID");
    assert_eq!((config.mtu, config.keepalive), (1280, 30));
}

#[test]
fn servers_are_written_with_a_port() {
    assert_eq!(v4_server_text("1.2.3.4:500"), "1.2.3.4:500");
    assert_eq!(v4_server_text("1.2.3.4"), "1.2.3.4:2408");
    assert_eq!(v4_server_text("engage.example"), "engage.example:2408");
    assert_eq!(v4_server_text("::1"), "[::1]:2408");
    assert_eq!(v6_server_text("[::1]:500"), "[::1]:500");
    assert_eq!(v6_server_text("[::1]"), "[::1]:2408");
    assert_eq!(v6_server_text("::1"), "[::1]:2408");
    assert_eq!(v6_server_text("1.2.3.4:0"), "1.2.3.4:2408");
    assert_eq!(v6_server_text("[name]:x"), "[name]:2408");
}

#[test]
fn an_enrollment_keeps_what_the_reply_does_not_say() {
    let mut kept = Config::default();
    kept.endpoint_v4 = "1.2.3.4".to_string();
    kept.endpoint_pub_key = "old".to_string();
    kept.license = "licence".to_string();
    kept.access_token = "token".to_string();
    kept.ipv4 = "10.0.0.2".to_string();
    let mut reply = account();
    reply.config.peers = None;
    reply.config.interface_config = None;
    let config = enrolled_config(&kept, &[1, 2, 3], &reply).unwrap();
    assert_eq!(config.endpoint_v4, "1.2.3.4");
    assert_eq!(config.endpoint_pub_key, "old");
    assert_eq!(config.license, "licence");
    assert_eq!(config.id, "id");
    kept.ipv4 = " ".to_string();
    assert_eq!(
        enrolled_config(&kept, &[], &reply).unwrap_err(),
        "No interface addresses in response or existing config"
    );
    kept.endpoint_pub_key = String::new();
    assert_eq!(
        enrolled_config(&kept, &[], &reply).unwrap_err(),
        "No endpoint public key in response or existing config"
    );
    kept.endpoint_v4 = String::new();
    assert_eq!(
        enrolled_config(&kept, &[], &reply).unwrap_err(),
        "No endpoint info in response or existing config"
    );
}

#[test]
fn an_enrollment_keeps_its_key_or_gets_a_new_one() {
    let mut scalar = vec![0u8; 32];
    scalar[31] = 7;
    let pair = key_pair_of(scalar).unwrap();
    let config =
        masque_config("token".to_string(), &pair.private_key_der, &account()).unwrap();
    let keys = kept_keys(&config).unwrap();
    assert_eq!(keys.private_key_der, pair.private_key_der);
    assert_eq!(keys.public_key_der, pair.public_key_der);
    let fresh = new_keys().unwrap();
    assert_ne!(fresh.public_key_der, pair.public_key_der);
    let mut number = vec![0u8; 32];
    number[31] = 7;
    let made = keys_to_enroll(key_pair_of(number)).unwrap();
    assert_eq!(made.private_key_der, keys.private_key_der);
    assert_eq!(made.public_key_der, keys.public_key_der);
    assert!(keys_to_enroll(key_pair_of(vec![0; 32]))
        .unwrap_err()
        .starts_with("failed to encode key: "));
    let broken = masque_config("token".to_string(), &[1, 2, 3], &account()).unwrap();
    assert!(kept_keys(&broken).unwrap_err().starts_with("crypto error: "));
}

#[test]
fn requests_go_to_the_service() {
    let client = CloudflareClient::new();
    assert_eq!(client.base_url, "https://api.cloudflareclient.com/v0a4471");
    let (request, registration) =
        client.register("PC", "en_US", Some("jwt"), "now".to_string()).unwrap();
    assert_eq!(request.url, "https://api.cloudflareclient.com/v0a4471/reg");
    assert_eq!(request.headers.len(), 5);
    assert_eq!(request.headers[0].name, "User-Agent");
    assert_eq!(request.headers[0].value, "WARP for Android");
    assert_eq!(request.headers[4].value, "jwt");
    assert_eq!(registration.key_type, "curve25519");
    assert_eq!(registration.tun_type, "wireguard");
    assert_eq!(registration.serial.len(), 16);
    let (plain, own) = client
        .register_wg("key".to_string(), "PC", "en_US", None, "now".to_string())
        .unwrap();
    assert_eq!(plain.headers.len(), 4);
    assert_eq!(own.key, "key");
    let (request, update) = client.enroll_key("id", "token", &[1, 2, 3], Some("box"));
    assert_eq!(request.url, "https://api.cloudflareclient.com/v0a4471/reg/id");
    assert_eq!(request.headers[4].name, "Authorization");
    assert_eq!(request.headers[4].value, "Bearer token");
    assert_eq!(update.key, "AQID");
    assert_eq!(update.key_type, "secp256r1");
    assert_eq!(update.tun_type, "masque");
    assert_eq!(update.name, Some("box".to_string()));
}

#[test]
fn a_reply_without_success_is_an_error() {
    assert!(check_reply("registration", true, "200 OK", "").is_ok());
    assert_eq!(
        check_reply("registration", false, "403 Forbidden", "no").unwrap_err().text(),
        "API error: registration failed: 403 Forbidden - no"
    );
    assert_eq!(
        ApiClientError::RequestError("x".to_string()).text(),
        "HTTP request failed: x"
    );
}
