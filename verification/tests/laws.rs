use openvpn_conf::parser::{read_openvpn_config, Failure, PanicCause};

const FULL: &str = "client\ndev tun\nresolv-retry infinite\nnobind\npersist-key\npersist-tun\n\
verb 3\nremote-cert-tls server\nping 10\nping-restart 60\nsndbuf 524288\nrcvbuf 524288\n\
cipher AES-256-GCM\ntls-cipher TLS-DHE-RSA-WITH-AES-256-GCM-SHA384\n";

#[test]
fn reading_consumes_whole_lines() {
    for tail in ["", "<ca>\n", "remote 10.0.0.1 1194", "\n\n"] {
        for text in [format!("{}{}", FULL, tail), format!("{}{}", FULL.replace('\n', "\r\n"), tail)] {
            let (rest, _) = read_openvpn_config(&text).unwrap();
            assert_eq!(rest, tail);
            let read = &text[..text.len() - rest.len()];
            assert!(!read.is_empty());
            assert!(read.ends_with('\n'));
        }
    }
}

#[test]
fn only_free_values_can_lack_a_conversion() {
    let variants = [
        FULL.replace("dev tun", "dev tan"),
        FULL.replace("dev tun", "dev tunnel"),
        FULL.replace("remote-cert-tls server", "remote-cert-tls serve"),
        FULL.replace("remote-cert-tls server", "remote-cert-tls peer"),
        FULL.replace("resolv-retry infinite", "resolv-retry 4294967296"),
        FULL.replace("cipher AES-256-GCM", "cipher AES-512-GCM"),
        FULL.replace("SHA384\n", "SHA512\n"),
    ];
    for text in variants.iter() {
        if let Err(Failure::Panic(c)) = read_openvpn_config(text) {
            assert!(
                c == PanicCause::ResolvRetry || c == PanicCause::Cipher || c == PanicCause::TlsCipher,
                "{:?}",
                c
            );
        }
    }
    assert!(matches!(read_openvpn_config(&variants[4]), Err(Failure::Panic(PanicCause::ResolvRetry))));
    assert!(matches!(read_openvpn_config(&variants[0]), Err(Failure::Parse(_))));
    assert!(matches!(read_openvpn_config(&variants[2]), Err(Failure::Parse(_))));
}

use openvpn_conf::config::{
    Cipher, ConfigType, DevType, OpenVPNConfig, RemoteCertTLS, ResolvRetry, TLSCipher,
};
use openvpn_conf::parser::parse_openvpn_config;

/// The canonical text of a configuration, written by hand.
fn canonical(
    client: bool,
    dev: &str,
    resolv: &str,
    flags: [bool; 3],
    numbers: [u32; 5],
    remote: &str,
    cipher: &str,
    tls: &str,
) -> String {
    let mut s = String::new();
    if client {
        s.push_str("client\n");
    }
    s.push_str(&format!("dev {}\nresolv-retry {}\n", dev, resolv));
    for (on, kw) in flags.iter().zip(["nobind", "persist-key", "persist-tun"]) {
        if *on {
            s.push_str(kw);
            s.push('\n');
        }
    }
    s.push_str(&format!(
        "verb {}\nremote-cert-tls {}\nping {}\nping-restart {}\nsndbuf {}\nrcvbuf {}\ncipher {}\ntls-cipher {}\n",
        numbers[0], remote, numbers[1], numbers[2], numbers[3], numbers[4], cipher, tls
    ));
    s
}

#[test]
fn canonical_text_reads_back_for_every_flag_combination() {
    for bits in 0..16u32 {
        let client = bits & 8 != 0;
        let flags = [bits & 4 != 0, bits & 2 != 0, bits & 1 != 0];
        let text = canonical(client, "tap", "0", flags, [0, 1, 22, 333, u32::MAX], "client", "none", "TLS_AES_128_GCM_SHA256");
        for tail in ["", "remote vpn.example.net 1194\n", "\r\n"] {
            let input = format!("{}{}", text, tail);
            let (rest, config) = parse_openvpn_config(&input).unwrap();
            assert_eq!(rest, tail);
            assert_eq!(
                config,
                OpenVPNConfig {
                    config_type: if client { ConfigType::Client } else { ConfigType::Server },
                    dev: DevType::Tap,
                    resolv_retry: ResolvRetry::Seconds(0),
                    nobind: flags[0],
                    persist_key: flags[1],
                    persist_tun: flags[2],
                    verb: 0,
                    remote_cert_tls: RemoteCertTLS::Client,
                    ping: 1,
                    ping_restart: 22,
                    sndbuf: 333,
                    rcvbuf: u32::MAX,
                    cipher: Cipher::NONE,
                    tls_cipher: TLSCipher::TLS_AES_128_GCM_SHA256,
                }
            );
        }
    }
}

#[test]
fn canonical_text_reads_back_for_every_name() {
    let ciphers = [
        "none", "AES-128-CBC", "AES-128-CFB", "AES-128-CFB1", "AES-128-CFB8", "AES-128-GCM",
        "AES-128-OFB", "AES-192-CBC", "AES-192-CFB", "AES-192-CFB1", "AES-192-CFB8", "AES-192-GCM",
        "AES-192-OFB", "AES-256-CBC", "AES-256-CFB", "AES-256-CFB1", "AES-256-CFB8", "AES-256-GCM",
        "AES-256-OFB",
    ];
    for name in ciphers {
        let text = canonical(true, "tun", "infinite", [true, true, true], [3, 10, 60, 1, 2], "server", name, "TLS_AES_256_GCM_SHA384");
        let (rest, config) = parse_openvpn_config(&text).unwrap();
        assert_eq!(rest, "");
        assert_eq!(config.cipher, Cipher::from(name));
        assert_eq!(config.resolv_retry, ResolvRetry::Infinite);
        assert_eq!(config.dev, DevType::Tun);
        assert_eq!(config.remote_cert_tls, RemoteCertTLS::Server);
    }
    let suites = [
        "TLS_CHACHA20_POLY1305_SHA256",
        "TLS-ECDHE-ECDSA-WITH-CHACHA20-POLY1305-SHA256",
        "TLS-DHE-RSA-WITH-AES-128-CBC-SHA",
    ];
    for name in suites {
        let text = canonical(false, "tun", "7", [false, true, false], [3, 10, 60, 1, 2], "server", "AES-256-GCM", name);
        let (_, config) = parse_openvpn_config(&text).unwrap();
        assert_eq!(config.tls_cipher, TLSCipher::from(name));
        assert!(!config.nobind && config.persist_key && !config.persist_tun);
    }
}

#[test]
fn appended_text_only_changes_the_remainder() {
    let base = format!("{}rest\n", FULL);
    let (rem, config) = parse_openvpn_config(&base).unwrap();
    for t in ["", "x", "\r", "dev tap\n", "é"] {
        let text = format!("{}{}", base, t);
        let (rem2, config2) = parse_openvpn_config(&text).unwrap();
        assert_eq!(rem2, format!("{}{}", rem, t));
        assert_eq!(config2, config);
    }
}

#[test]
fn crlf_endings_read_the_same() {
    let base = format!("{}tail\nmore\n", FULL);
    let (rem, config) = parse_openvpn_config(&base).unwrap();
    let text = base.replace('\n', "\r\n");
    let (rem2, config2) = parse_openvpn_config(&text).unwrap();
    assert_eq!(rem2, rem.replace('\n', "\r\n"));
    assert_eq!(config2, config);
}

#[test]
fn blank_runs_after_keywords_are_free() {
    let (rem, config) = parse_openvpn_config(FULL).unwrap();
    for (line, kw) in [
        ("dev tun", "dev"),
        ("resolv-retry infinite", "resolv-retry"),
        ("verb 3", "verb"),
        ("remote-cert-tls server", "remote-cert-tls"),
        ("ping 10", "ping"),
        ("ping-restart 60", "ping-restart"),
        ("sndbuf 524288", "sndbuf"),
        ("rcvbuf 524288", "rcvbuf"),
        ("cipher AES-256-GCM", "cipher"),
        ("tls-cipher TLS-DHE", "tls-cipher"),
    ] {
        for blanks in ["\t", "  ", " \t \t"] {
            let new_line = line.replacen(' ', blanks, 1);
            let text = FULL.replacen(&format!("\n{}", line), &format!("\n{}", new_line), 1);
            assert_ne!(text, FULL, "{}", kw);
            let (rem2, config2) = parse_openvpn_config(&text).unwrap();
            assert_eq!(rem2, rem);
            assert_eq!(config2, config);
        }
    }
}
