use usque::addr::IpAddress;
use usque::cli::{SocksMode, SocksOptions};
use usque::config::{Config, WgConfig};
use usque::manager::runloop::{
    masque_mtu, quic_settings, should_yield, stack_addresses, turn_step, wg_setup, CycleQueue,
    DirtyCycle, LifeAction, LifeEvent, Maintainer, Phase, TurnStep, Wake,
};
use usque::manager::commands::{DisconnectedReply, ManagerCommand};
use usque::manager::tunables::ManagerTunables;
use usque::socks::{
    congestion_control, env_bool, is_yes, keepalive_too_long, listen_address, masque_params,
    proxy_auth, wg_params, worker_count, ConnectionParams, SocksServerOptions,
    SocksServerWgOptions, TunnelEnv,
};
use usque::tunnel::dns::parse_dns_servers;
use usque::tunnel::quic::CongestionControl;
use usque::tunnel::stack::StackTunables;
use usque::vars::Vars;

fn vars(list: &[(&str, &str)]) -> Vars {
    Vars { entries: list.iter().map(|(n, v)| (n.to_string(), v.to_string())).collect() }
}

fn options() -> SocksServerOptions {
    SocksServerOptions {
        bind: "0.0.0.0".to_string(),
        port: 1080,
        config_path: "config.json".to_string(),
        username: None,
        password: None,
        sni: "name".to_string(),
        dns_servers: vec!["9.9.9.10".to_string()],
        connect_port: 443,
        keepalive: 30,
        initial_packet_size: 1242,
        mtu: 1280,
    }
}

fn config() -> Config {
    let mut cfg = Config::default();
    cfg.endpoint_v4 = "162.159.198.1:2408".to_string();
    cfg.endpoint_pub_key = "AQID".to_string();
    cfg.ipv4 = "172.16.0.2".to_string();
    cfg
}

fn params(v: &Vars, cfg: &Config, options: &SocksServerOptions) -> Result<ConnectionParams, String> {
    masque_params(
        options,
        v,
        cfg,
        vec![1],
        vec![2],
        ManagerTunables::from_env(v),
        StackTunables::from_env(v),
    )
}

#[test]
fn a_masque_tunnel_has_its_parameters() {
    let p = params(&vars(&[]), &config(), &options()).unwrap();
    assert_eq!(p.endpoint.address.ip, IpAddress::V4([162, 159, 198, 1]));
    assert_eq!(p.endpoint.address.port, 443);
    assert_eq!(p.endpoint_pub_key, Some(vec![1, 2, 3]));
    assert_eq!(p.tcp_buffer_size, 65536);
    assert_eq!(p.quic_idle_timeout_ms, 90000);
    assert_eq!(p.congestion_control, CongestionControl::Cubic);
    assert_eq!(p.ipv6, None);
    assert!(!p.perf_enabled);
    let quic = quic_settings(&p);
    assert_eq!(quic.idle_timeout, 90000);
    assert_eq!(quic.initial_packet_size, 1242);
    assert_eq!(stack_addresses(&p), (Some("172.16.0.2"), None));
    assert_eq!(wg_setup(&p).unwrap_err(), "WG private key not set");
}

#[test]
fn what_a_masque_tunnel_cannot_do_without_is_reported() {
    let none = vars(&[]);
    let mut cfg = config();
    cfg.endpoint_v4 = " ".to_string();
    assert_eq!(params(&none, &cfg, &options()).unwrap_err(), "No endpoint configured");
    cfg.endpoint_v6 = "nonsense".to_string();
    assert_eq!(
        params(&none, &cfg, &options()).unwrap_err(),
        "Invalid endpoint address: nonsense"
    );
    cfg.endpoint_v6 = "2606:4700::1".to_string();
    assert!(params(&none, &cfg, &options()).is_ok());
    cfg.endpoint_pub_key = String::new();
    assert_eq!(
        params(&none, &cfg, &options()).unwrap_err(),
        "Endpoint public key is required for security"
    );
    let mut odd = options();
    odd.dns_servers = vec!["1.1.1.1, dns".to_string()];
    assert_eq!(params(&none, &config(), &odd).unwrap_err(), "Invalid DNS server: dns");
    assert_eq!(
        params(&vars(&[("USQUE_CC", "x")]), &config(), &options()).unwrap_err(),
        "Unknown congestion control algorithm: x. Valid options: reno, cubic, bbr2"
    );
}

fn wg_options() -> SocksServerWgOptions {
    SocksServerWgOptions {
        bind: "0.0.0.0".to_string(),
        port: 1080,
        config_path: "warp.conf".to_string(),
        username: None,
        password: None,
        dns_servers: vec!["9.9.9.10".to_string(), "149.112.112.10".to_string()],
        mtu: 0,
    }
}

fn wg_cfg() -> WgConfig {
    WgConfig {
        device_id: "d".to_string(),
        private_key: "AAAAAAAAAAAAAAAAAAAAAAAAAAAAAAAAAAAAAAAAAAA=".to_string(),
        token: "t".to_string(),
        client_id: "AQID".to_string(),
        account_type: "free".to_string(),
        mtu: 1400,
        peer_public_key: "AAAAAAAAAAAAAAAAAAAAAAAAAAAAAAAAAAAAAAAAAAA=".to_string(),
        endpoint: "1.2.3.4:0".to_string(),
        endpoint6: None,
        keepalive: 30,
        address: "172.16.0.2/32".to_string(),
        address6: Some("fd00::2/128".to_string()),
        dns: " ".to_string(),
    }
}

fn wg(v: &Vars, cfg: &WgConfig) -> Result<ConnectionParams, String> {
    wg_params(&wg_options(), v, cfg, ManagerTunables::from_env(v), StackTunables::from_env(v))
}

#[test]
fn a_wireguard_tunnel_has_its_parameters() {
    let p = wg(&vars(&[("USQUE_PERF", "Yes")]), &wg_cfg()).unwrap();
    assert_eq!(p.endpoint.address.port, 2408);
    assert_eq!(p.mtu, 1400);
    assert_eq!(p.dns_servers.len(), 2);
    assert_eq!(p.ipv6, Some("fd00::2".to_string()));
    assert!(p.perf_enabled);
    let setup = wg_setup(&p).unwrap();
    assert_eq!(setup.client_id, [1, 2, 3]);
    assert_eq!(setup.keepalive, Some(30));
    assert_eq!(setup.mtu, 1400);
    let mut cfg = wg_cfg();
    cfg.dns = "1.0.0.1".to_string();
    assert_eq!(
        wg(&vars(&[]), &cfg).unwrap().dns_servers,
        vec![IpAddress::V4([1, 0, 0, 1])]
    );
    cfg.client_id = "AQ==".to_string();
    assert_eq!(
        wg(&vars(&[]), &cfg).unwrap_err(),
        "invalid value: [Account] ClientId: expected 3 bytes, got 1"
    );
}

#[test]
fn the_environment_sets_the_tunnel() {
    let env = TunnelEnv::from_env(&vars(&[
        ("USQUE_TCP_BUFFER_SIZE", "2097152"),
        ("USQUE_TUNNEL_WORKERS", "0"),
        ("USQUE_PERF", "no"),
        ("USQUE_PERF_INTERVAL_SECS", "x"),
    ]));
    assert_eq!(env.tcp_buffer_size, 2097152);
    assert_eq!(env.tunnel_workers, 0);
    assert!(!env.perf_enabled);
    assert_eq!(env.perf_interval_secs, 5);
    assert_eq!(worker_count(0, 16), 4);
    assert_eq!(worker_count(0, 0), 1);
    assert_eq!(worker_count(0, 3), 3);
    assert_eq!(worker_count(9, 3), 9);
    assert!(env_bool(&vars(&[("X", "TRUE")]), "X", false));
    assert!(env_bool(&vars(&[]), "X", true));
    assert!(is_yes("on"));
    assert!(!is_yes("TRUE"));
    assert_eq!(
        congestion_control(&vars(&[("USQUE_CC", "BBR")])).unwrap(),
        CongestionControl::Bbr2
    );
    assert!(keepalive_too_long(90, 90000));
    assert!(!keepalive_too_long(30, 90000));
    assert!(keepalive_too_long(u64::MAX, u64::MAX));
}

#[test]
fn a_name_needs_a_password() {
    assert!(proxy_auth(None, Some("p".to_string())).unwrap().is_none());
    let auth = proxy_auth(Some("u".to_string()), Some("p".to_string())).unwrap().unwrap();
    assert_eq!((auth.username, auth.password), ("u".to_string(), "p".to_string()));
    assert_eq!(
        proxy_auth(Some("u".to_string()), None).unwrap_err(),
        "Password is required when username is set"
    );
    assert_eq!(listen_address("127.0.0.1", 1080).unwrap().address.port, 1080);
    assert_eq!(listen_address("host", 1080).unwrap_err(), "invalid socket address syntax");
}

#[test]
fn dns_servers_may_stand_in_one_text() {
    assert_eq!(
        parse_dns_servers(&vec!["1.1.1.1, ::1,".to_string(), " 8.8.8.8 ".to_string()])
            .unwrap()
            .len(),
        3
    );
    assert_eq!(parse_dns_servers(&vec![]).unwrap(), vec![]);
    assert_eq!(
        parse_dns_servers(&vec!["1.1.1.1,1.1".to_string()]).unwrap_err(),
        "Invalid DNS server: 1.1"
    );
}

#[test]
fn a_mode_becomes_options() {
    let mode = SocksMode::Wg {
        bind: "b".to_string(),
        port: 1,
        config: "c".to_string(),
        username: None,
        password: None,
        dns: vec![],
        mtu: 2,
    };
    match mode.into_options() {
        SocksOptions::Wg(o) => assert_eq!((o.bind, o.config_path, o.mtu), ("b".to_string(), "c".to_string(), 2)),
        _ => panic!("the tunnel is WireGuard"),
    }
}

#[test]
fn packets_fit_their_datagrams() {
    assert_eq!(masque_mtu(Some(1203), 1280), 1200);
    assert_eq!(masque_mtu(Some(1500), 1280), 1280);
    assert_eq!(masque_mtu(Some(1500), 0), 1497);
    assert_eq!(masque_mtu(Some(2), 1280), 0);
    assert_eq!(masque_mtu(None, 0), 1280);
}

#[test]
fn a_tunnel_is_made_again_after_a_growing_pause() {
    let mut m = Maintainer::new();
    assert!(matches!(m.on_event(LifeEvent::ConnectFailed), LifeAction::Pause(500..=1499)));
    assert!(matches!(
        m.on_event(LifeEvent::Command(ManagerCommand::GetSocketState { handle: 1, response: 9 })),
        LifeAction::Answer(DisconnectedReply::Closed(9))
    ));
    assert!(matches!(m.on_event(LifeEvent::UdpSend), LifeAction::Wait));
    assert!(matches!(m.on_event(LifeEvent::PauseOver), LifeAction::Connect));
    assert!(matches!(m.on_event(LifeEvent::ConnectFailed), LifeAction::Pause(1000..=2999)));
    assert!(matches!(m.on_event(LifeEvent::PauseOver), LifeAction::Connect));
    assert!(matches!(m.on_event(LifeEvent::Established), LifeAction::Run));
    assert!(matches!(m.on_event(LifeEvent::Disconnected), LifeAction::Pause(500..=1499)));
    assert!(matches!(m.on_event(LifeEvent::CommandsClosed), LifeAction::Stop));
    assert_eq!(m.phase, Phase::Stopped);
}

#[test]
fn a_pass_goes_through_every_queue() {
    let tunables = ManagerTunables {
        socket_event_batch_budget: 2,
        cmd_batch_budget: 0,
        udp_batch_budget: 1,
        udp_batch_read_budget: 1,
        ..ManagerTunables::default()
    };
    let mut cycle = DirtyCycle::new(&tunables);
    assert_eq!(cycle.next_queue(), Some(CycleQueue::SocketEvents));
    cycle.on_item(false);
    assert_eq!(cycle.next_queue(), Some(CycleQueue::SocketEvents));
    cycle.on_item(false);
    assert_eq!(cycle.next_queue(), Some(CycleQueue::UdpSends));
    cycle.on_empty();
    assert_eq!(cycle.next_queue(), Some(CycleQueue::Incoming));
    cycle.on_item(true);
    assert_eq!(cycle.next_queue(), None);
    assert_eq!(cycle.socket_events, 2);
    assert!(cycle.handled_incoming);
    assert_eq!(turn_step(Wake::Incoming { handled: true }), TurnStep::Cycle { flush_first: true });
    assert_eq!(turn_step(Wake::PollTimer), TurnStep::Poll);
    assert!(should_yield(Some(1_000_000), false, 0, 0, 0));
    assert!(!should_yield(Some(1_000_001), false, 5, 0, 0));
    assert!(should_yield(None, true, 0, 1, 0));
}
