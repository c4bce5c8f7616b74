use chat_relay::bind::{bind_listener, interface_field, BindError, BindStep};
use chat_relay::settings::{
    address_env, admits, bool_env, configure, optional_env, private_ip, vpn_ingress, EnvVar, IpAddr,
    Setting, Settings, StartupError, VpnIngress,
};

const SECRET: &str = "00112233445566778899aabbccddeeff00112233445566778899AABBCCDDEEFF";

fn present(text: &str) -> EnvVar {
    EnvVar::Present(text.to_string())
}

fn v4(a: u8, b: u8, c: u8, d: u8) -> IpAddr {
    IpAddr::V4(u32::from_be_bytes([a, b, c, d]))
}

fn local() -> Settings {
    Settings {
        require_auth_token: EnvVar::Missing,
        allow_unauthenticated_non_loopback: EnvVar::Missing,
        auth_token: present(SECRET),
        addr: Some(v4(127, 0, 0, 1)),
        vpn_only: EnvVar::Missing,
        vpn_interface: EnvVar::Missing,
        vpn_gateway: EnvVar::Missing,
        vpn_gateway_ip: None,
        tls_cert: EnvVar::Missing,
        tls_key: EnvVar::Missing,
    }
}

fn remote() -> Settings {
    Settings {
        addr: Some(v4(192, 168, 1, 2)),
        tls_cert: present("cert.pem"),
        tls_key: present("key.pem"),
        ..local()
    }
}

fn behind_vpn() -> Settings {
    Settings {
        require_auth_token: present("false"),
        vpn_only: present("true"),
        vpn_interface: present("wg0"),
        ..remote()
    }
}

fn refusal(settings: Settings) -> StartupError {
    configure(&settings).err().expect("a refusal")
}

#[test]
fn booleans_are_true_or_false() {
    let setting = Setting::VpnOnly;
    assert_eq!(bool_env(setting, &present("true"), false), Ok(true));
    assert_eq!(bool_env(setting, &present("false"), true), Ok(false));
    assert_eq!(bool_env(setting, &EnvVar::Missing, true), Ok(true));
    assert_eq!(bool_env(setting, &EnvVar::Missing, false), Ok(false));
    for value in [present(""), present("TRUE"), present("1"), EnvVar::NotUnicode] {
        let error = bool_env(setting, &value, true).unwrap_err();
        assert_eq!(error, StartupError::NotBoolean(setting));
        assert_eq!(error.message(), "CHAT_RELAY_VPN_ONLY must be true or false");
    }
}

#[test]
fn optional_variables_can_be_empty() {
    let setting = Setting::VpnInterface;
    assert_eq!(optional_env(setting, &present("wg0")), Ok(Some("wg0".to_string())));
    assert_eq!(optional_env(setting, &present("")), Ok(None));
    assert_eq!(optional_env(setting, &EnvVar::Missing), Ok(None));
    let error = optional_env(setting, &EnvVar::NotUnicode).unwrap_err();
    assert_eq!(error.message(), "CHAT_RELAY_VPN_INTERFACE must be valid UTF-8");
}

#[test]
fn private_addresses() {
    for ip in [
        v4(10, 0, 0, 0),
        v4(10, 255, 255, 255),
        v4(172, 16, 0, 0),
        v4(172, 31, 255, 255),
        v4(192, 168, 0, 0),
        v4(192, 168, 255, 255),
        IpAddr::V6(0xfc00 << 112),
        IpAddr::V6((0xfe00 << 112) - 1),
    ] {
        assert!(private_ip(ip));
    }
    for ip in [
        v4(9, 255, 255, 255),
        v4(11, 0, 0, 0),
        v4(172, 15, 255, 255),
        v4(172, 32, 0, 0),
        v4(192, 167, 255, 255),
        v4(192, 169, 0, 0),
        v4(127, 0, 0, 1),
        IpAddr::V6(1),
        IpAddr::V6((0xfc00 << 112) - 1),
        IpAddr::V6(0xfe00 << 112),
    ] {
        assert!(!private_ip(ip));
    }
}

#[test]
fn loopback_and_unspecified_addresses() {
    assert!(v4(127, 0, 0, 0).is_loopback());
    assert!(v4(127, 255, 255, 255).is_loopback());
    assert!(!v4(126, 255, 255, 255).is_loopback());
    assert!(!v4(128, 0, 0, 0).is_loopback());
    assert!(IpAddr::V6(1).is_loopback());
    assert!(!IpAddr::V6(2).is_loopback());
    assert!(v4(0, 0, 0, 0).is_unspecified());
    assert!(!v4(0, 0, 0, 1).is_unspecified());
    assert!(IpAddr::V6(0).is_unspecified());
    assert!(v4(1, 2, 3, 4).is_ipv4());
    assert!(!IpAddr::V6(0).is_ipv4());
}

#[test]
fn the_argument_names_the_address_first() {
    let argument = Some("[::1]:1".to_string());
    assert_eq!(address_env(argument, present("10.0.0.1:2")), "[::1]:1");
    assert_eq!(address_env(None, present("10.0.0.1:2")), "10.0.0.1:2");
    assert_eq!(address_env(None, EnvVar::Missing), "127.0.0.1:6697");
    assert_eq!(address_env(None, EnvVar::NotUnicode), "127.0.0.1:6697");
}

#[test]
fn a_local_relay_needs_its_secret_only() {
    let config = configure(&local()).ok().expect("a configuration");
    assert_eq!(config.auth_token.as_deref(), Some(SECRET));
    assert!(config.ingress.is_none() && config.tls.is_none());
    let open = Settings {
        require_auth_token: present("false"),
        auth_token: EnvVar::NotUnicode,
        ..local()
    };
    assert!(configure(&open).ok().expect("a configuration").auth_token.is_none());
}

#[test]
fn secrets_are_hexadecimal() {
    let missing = Settings { auth_token: EnvVar::Missing, ..local() };
    assert_eq!(refusal(missing), StartupError::AuthTokenMissing);
    let unreadable = Settings { auth_token: EnvVar::NotUnicode, ..local() };
    assert_eq!(refusal(unreadable).message(), "CHAT_RELAY_AUTH_TOKEN required");
    for text in ["", "0", &SECRET[1..], &SECRET.replace('f', "g"), &format!("{SECRET}0")] {
        let settings = Settings { auth_token: present(text), ..local() };
        assert_eq!(
            refusal(settings).message(),
            "CHAT_RELAY_AUTH_TOKEN must be 64 hexadecimal characters"
        );
    }
}

#[test]
fn the_address_has_to_be_one() {
    let settings = Settings { addr: None, ..local() };
    assert_eq!(refusal(settings).message(), "CHAT_RELAY_ADDR must be IP:port");
}

#[test]
fn tls_is_needed_off_the_host() {
    let config = configure(&remote()).ok().expect("a configuration");
    let tls = config.tls.expect("TLS");
    assert_eq!((tls.cert.as_str(), tls.key.as_str()), ("cert.pem", "key.pem"));
    for (cert, key) in [
        (EnvVar::Missing, EnvVar::Missing),
        (present(""), present("")),
        (present("cert.pem"), EnvVar::Missing),
        (EnvVar::Missing, present("key.pem")),
        (present("cert.pem"), present("")),
        (EnvVar::NotUnicode, EnvVar::NotUnicode),
    ] {
        let settings = Settings { tls_cert: cert, tls_key: key, ..remote() };
        assert_eq!(
            refusal(settings).message(),
            "TLS certificate and key required for non-loopback bind"
        );
    }
    let empty = Settings { tls_cert: present(""), tls_key: present(""), ..local() };
    assert!(configure(&empty).ok().expect("a configuration").tls.is_none());
    let half = Settings { tls_cert: present("cert.pem"), ..local() };
    assert_eq!(refusal(half), StartupError::TlsMissing);
    let both = Settings { tls_cert: present("c"), tls_key: present("k"), ..local() };
    assert!(configure(&both).ok().expect("a configuration").tls.is_some());
}

#[test]
fn a_relay_without_secret_is_guarded_or_declared_open() {
    let open = Settings { require_auth_token: present("false"), ..remote() };
    assert_eq!(
        refusal(open).message(),
        "token-free non-loopback bind requires VPN-only ingress or CHAT_RELAY_ALLOW_UNAUTHENTICATED_NON_LOOPBACK=true"
    );
    let declared = Settings {
        require_auth_token: present("false"),
        allow_unauthenticated_non_loopback: present("true"),
        ..remote()
    };
    assert!(configure(&declared).is_ok());
    assert!(configure(&behind_vpn()).is_ok());
}

#[test]
fn the_first_failing_check_decides() {
    let settings = Settings {
        require_auth_token: present("maybe"),
        allow_unauthenticated_non_loopback: present("maybe"),
        addr: None,
        ..local()
    };
    assert_eq!(refusal(settings), StartupError::NotBoolean(Setting::RequireAuthToken));
    let settings = Settings {
        allow_unauthenticated_non_loopback: present("maybe"),
        auth_token: EnvVar::Missing,
        ..local()
    };
    assert_eq!(
        refusal(settings),
        StartupError::NotBoolean(Setting::AllowUnauthenticatedNonLoopback)
    );
    let settings = Settings { addr: None, vpn_only: present("maybe"), ..local() };
    assert_eq!(refusal(settings), StartupError::AddressInvalid);
    let settings = Settings { vpn_only: present("maybe"), ..local() };
    assert_eq!(refusal(settings), StartupError::NotBoolean(Setting::VpnOnly));
}

#[test]
fn vpn_settings_need_the_switch() {
    let settings = Settings { vpn_interface: present("wg0"), ..local() };
    assert_eq!(
        refusal(settings).message(),
        "VPN ingress settings require CHAT_RELAY_VPN_ONLY=true"
    );
    let settings = Settings { vpn_gateway: present("10.0.0.1"), ..local() };
    assert_eq!(refusal(settings), StartupError::VpnNotEnabled);
    let settings = Settings { vpn_interface: present(""), vpn_gateway: present(""), ..local() };
    assert!(configure(&settings).ok().expect("a configuration").ingress.is_none());
    let settings = Settings { vpn_gateway: EnvVar::NotUnicode, ..local() };
    assert_eq!(refusal(settings), StartupError::NotUnicode(Setting::VpnGatewayIp));
}

#[test]
fn a_vpn_listener_is_specific() {
    for addr in [v4(127, 0, 0, 1), v4(0, 0, 0, 0), IpAddr::V6(1), IpAddr::V6(0)] {
        let settings = Settings { addr: Some(addr), ..behind_vpn() };
        assert_eq!(refusal(settings).message(), "VPN-only bind must select a non-loopback IP");
    }
}

#[test]
fn vpn_interfaces_have_names() {
    let missing = Settings { vpn_interface: EnvVar::Missing, ..behind_vpn() };
    assert_eq!(refusal(missing).message(), "CHAT_RELAY_VPN_INTERFACE required");
    for name in ["", ".wg0", "wg 0", "wg/0", "abcdefghijklmnop", "w\u{e9}"] {
        let read = vpn_ingress(
            v4(10, 0, 0, 1),
            true,
            &present(name),
            &EnvVar::Missing,
            None,
        );
        let expected = if name.is_empty() {
            StartupError::VpnInterfaceMissing
        } else {
            StartupError::VpnInterfaceInvalid
        };
        assert_eq!(read.err(), Some(expected));
    }
    for name in ["w", "wg0.1-a_B", "abcdefghijklmno"] {
        let read = vpn_ingress(
            v4(10, 0, 0, 1),
            true,
            &present(name),
            &EnvVar::Missing,
            None,
        );
        let vpn = read.ok().flatten().expect("an ingress");
        assert_eq!(vpn.interface, name);
        assert!(vpn.gateway.is_none());
    }
    assert_eq!(
        StartupError::VpnInterfaceInvalid.message(),
        "invalid VPN interface name"
    );
}

#[test]
fn vpn_gateways_are_private_and_of_the_same_family() {
    let with = |gateway_ip| Settings {
        vpn_gateway: present("gateway"),
        vpn_gateway_ip: gateway_ip,
        ..behind_vpn()
    };
    assert_eq!(refusal(with(None)).message(), "invalid CHAT_RELAY_VPN_GATEWAY_IP");
    assert_eq!(
        refusal(with(Some(IpAddr::V6(0xfc00 << 112)))).message(),
        "VPN gateway and listener IP families differ"
    );
    assert_eq!(
        refusal(with(Some(v4(8, 8, 8, 8)))).message(),
        "gateway ingress requires private listener and gateway IPs"
    );
    let public = Settings {
        addr: Some(v4(8, 8, 8, 8)),
        ..with(Some(v4(10, 0, 0, 1)))
    };
    assert_eq!(refusal(public), StartupError::VpnNotPrivate);
    let ingress = configure(&with(Some(v4(10, 0, 0, 1)))).ok().expect("a configuration").ingress;
    assert_eq!(ingress.as_ref().and_then(|vpn| vpn.gateway), Some(v4(10, 0, 0, 1)));
    assert!(admits(&ingress, v4(10, 0, 0, 1)));
    assert!(!admits(&ingress, v4(10, 0, 0, 2)));
}

#[test]
fn anybody_is_let_in_where_there_is_no_gateway() {
    assert!(admits(&None, v4(8, 8, 8, 8)));
    let direct = Some(VpnIngress { interface: "wg0".to_string(), gateway: None });
    assert!(admits(&direct, v4(8, 8, 8, 8)));
}

fn run(ingress: &Option<VpnIngress>, ipv4: bool, linux: bool, hardware: u16) -> Vec<BindStep> {
    let mut steps: Vec<BindStep> = Vec::new();
    loop {
        let step = bind_listener(ingress, ipv4, linux, steps.last().copied(), hardware);
        steps.push(step);
        if matches!(
            step,
            BindStep::ListenOpenly | BindStep::Listen { .. } | BindStep::Fail(_)
        ) {
            return steps;
        }
    }
}

#[test]
fn steps_to_a_listener() {
    assert_eq!(run(&None, true, true, 0), vec![BindStep::ListenOpenly]);
    assert_eq!(run(&None, true, false, 0), vec![BindStep::ListenOpenly]);
    let direct = Some(VpnIngress { interface: "wg0".to_string(), gateway: None });
    assert_eq!(
        run(&direct, true, true, 0xfffe),
        vec![
            BindStep::Open { ipv4: true },
            BindStep::Inspect,
            BindStep::Attach,
            BindStep::Bind,
            BindStep::Listen { backlog: 1024 },
        ]
    );
    assert_eq!(
        run(&direct, false, true, 1),
        vec![
            BindStep::Open { ipv4: false },
            BindStep::Inspect,
            BindStep::Fail(BindError::NotATunnel),
        ]
    );
    assert_eq!(
        run(&direct, true, false, 0),
        vec![BindStep::Fail(BindError::NoDeviceBinding)]
    );
    let gateway = Some(VpnIngress {
        interface: "eth0".to_string(),
        gateway: Some(v4(10, 0, 0, 1)),
    });
    for hardware in [0, 1, 0xfffe] {
        assert_eq!(
            run(&gateway, true, true, hardware),
            vec![
                BindStep::Open { ipv4: true },
                BindStep::Attach,
                BindStep::Bind,
                BindStep::Listen { backlog: 1024 },
            ]
        );
    }
    assert_eq!(
        BindError::NotATunnel.message(),
        "direct VPN ingress requires a tunnel interface"
    );
    assert_eq!(
        BindError::NoDeviceBinding.message(),
        "VPN ingress requires Linux SO_BINDTODEVICE"
    );
}

#[test]
fn interface_names_are_padded_with_zeros() {
    assert_eq!(
        interface_field("wg0"),
        vec![b'w', b'g', b'0', 0, 0, 0, 0, 0, 0, 0, 0, 0, 0, 0, 0, 0]
    );
    assert_eq!(interface_field("abcdefghijklmnopq"), b"abcdefghijklmnop".to_vec());
}
