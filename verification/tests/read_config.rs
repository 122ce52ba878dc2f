use openvpn_conf::config::{
    Cipher, ConfigType, DevType, OpenVPNConfig, RemoteCertTLS, ResolvRetry, TLSCipher,
};
use openvpn_conf::parser::{parse_openvpn_config, read_openvpn_config, Failure, PanicCause};
use openvpn_conf::text::ErrorKind;

const FULL: &str = "client\n\
dev tun\n\
resolv-retry infinite\n\
nobind\n\
persist-key\n\
persist-tun\n\
verb 3\n\
remote-cert-tls server\n\
ping 10\n\
ping-restart 60\n\
sndbuf 524288\n\
rcvbuf 524288\n\
cipher AES-256-GCM\n\
tls-cipher TLS-DHE-RSA-WITH-AES-256-GCM-SHA384\n";

fn full_config() -> OpenVPNConfig {
    OpenVPNConfig {
        config_type: ConfigType::Client,
        dev: DevType::Tun,
        resolv_retry: ResolvRetry::Infinite,
        nobind: true,
        persist_key: true,
        persist_tun: true,
        verb: 3,
        remote_cert_tls: RemoteCertTLS::Server,
        ping: 10,
        ping_restart: 60,
        sndbuf: 524288,
        rcvbuf: 524288,
        cipher: Cipher::AES_256_GCM,
        tls_cipher: TLSCipher::TLS_DHE_RSA_WITH_AES_256_GCM_SHA384,
    }
}

#[test]
fn reads_a_full_client_configuration() {
    let (rest, config) = parse_openvpn_config(FULL).unwrap();
    assert_eq!(rest, "");
    assert_eq!(config, full_config());
}

#[test]
fn gives_back_the_text_after_the_configuration() {
    let text = format!("{}<ca>\n-----BEGIN CERTIFICATE-----\n", FULL);
    let (rest, config) = parse_openvpn_config(&text).unwrap();
    assert_eq!(rest, "<ca>\n-----BEGIN CERTIFICATE-----\n");
    assert_eq!(config, full_config());
}

#[test]
fn accepts_crlf_line_endings() {
    let text = FULL.replace('\n', "\r\n");
    let (rest, config) = parse_openvpn_config(&text).unwrap();
    assert_eq!(rest, "");
    assert_eq!(config, full_config());
}

#[test]
fn optional_lines_may_be_left_out() {
    let text = "dev tap\n\
resolv-retry 5\n\
verb 0\n\
remote-cert-tls client\n\
ping 1\n\
ping-restart 2\n\
sndbuf 0\n\
rcvbuf 007\n\
cipher none\n\
tls-cipher TLS_AES_128_GCM_SHA256\n";
    let (rest, config) = parse_openvpn_config(text).unwrap();
    assert_eq!(rest, "");
    assert_eq!(config.config_type, ConfigType::Server);
    assert_eq!(config.dev, DevType::Tap);
    assert_eq!(config.resolv_retry, ResolvRetry::Seconds(5));
    assert!(!config.nobind);
    assert!(!config.persist_key);
    assert!(!config.persist_tun);
    assert_eq!(config.verb, 0);
    assert_eq!(config.remote_cert_tls, RemoteCertTLS::Client);
    assert_eq!(config.ping, 1);
    assert_eq!(config.ping_restart, 2);
    assert_eq!(config.sndbuf, 0);
    assert_eq!(config.rcvbuf, 7);
    assert_eq!(config.cipher, Cipher::NONE);
    assert_eq!(config.tls_cipher, TLSCipher::TLS_AES_128_GCM_SHA256);
}

#[test]
fn tabs_and_several_blanks_separate_keyword_and_value() {
    let text = FULL.replace("verb 3", "verb \t 3").replace("dev tun", "dev\ttun");
    let (_, config) = parse_openvpn_config(&text).unwrap();
    assert_eq!(config, full_config());
}

#[test]
fn a_client_word_without_line_ending_is_not_the_client_line() {
    // `client` must be followed by a line ending; otherwise the optional
    // line is absent and the `dev` line is expected at the very start.
    let text = format!("client dev tun\n{}", &FULL["client\ndev tun\n".len()..]);
    let e = parse_openvpn_config(&text).unwrap_err();
    assert_eq!(e.code, ErrorKind::Tag);
    assert_eq!(e.input, text.as_str());
}

#[test]
fn missing_dev_line_is_a_tag_error_where_it_was_expected() {
    let text = "client\nresolv-retry infinite\n";
    let e = parse_openvpn_config(text).unwrap_err();
    assert_eq!(e.code, ErrorKind::Tag);
    assert_eq!(e.input, "resolv-retry infinite\n");
}

#[test]
fn keyword_without_blank_is_a_space_error() {
    let text = "dev\n";
    let e = parse_openvpn_config(text).unwrap_err();
    assert_eq!(e.code, ErrorKind::Space);
    assert_eq!(e.input, "\n");
}

#[test]
fn unknown_device_is_a_tag_error_at_the_value() {
    let text = "dev tunnel0\n";
    // `tun` matches the start of `tunnel0`, then a line ending is missing.
    let e = parse_openvpn_config(text).unwrap_err();
    assert_eq!(e.code, ErrorKind::CrLf);
    assert_eq!(e.input, "nel0\n");

    let e = parse_openvpn_config("dev eth0\n").unwrap_err();
    assert_eq!(e.code, ErrorKind::Tag);
    assert_eq!(e.input, "eth0\n");
}

#[test]
fn resolv_retry_needs_infinite_or_digits() {
    let e = parse_openvpn_config("dev tun\nresolv-retry forever\n").unwrap_err();
    assert_eq!(e.code, ErrorKind::Digit);
    assert_eq!(e.input, "forever\n");
}

#[test]
fn missing_final_line_ending_is_a_crlf_error() {
    let text = FULL.trim_end_matches('\n');
    let e = parse_openvpn_config(text).unwrap_err();
    assert_eq!(e.code, ErrorKind::CrLf);
    assert_eq!(e.input, "");
}

#[test]
fn number_too_large_for_u32_is_a_mapres_error() {
    let text = FULL.replace("sndbuf 524288", "sndbuf 4294967296");
    let e = parse_openvpn_config(&text).unwrap_err();
    assert_eq!(e.code, ErrorKind::MapRes);
    assert!(e.input.starts_with("4294967296\nrcvbuf"));
}

#[test]
fn largest_u32_is_accepted() {
    let text = FULL.replace("sndbuf 524288", "sndbuf 4294967295");
    let (_, config) = parse_openvpn_config(&text).unwrap();
    assert_eq!(config.sndbuf, u32::MAX);
}

#[test]
fn number_followed_by_other_text_is_a_crlf_error() {
    let text = FULL.replace("ping 10", "ping 10s");
    let e = parse_openvpn_config(&text).unwrap_err();
    assert_eq!(e.code, ErrorKind::CrLf);
    assert!(e.input.starts_with("s\nping-restart"));
}

#[test]
fn lone_carriage_return_in_cipher_value_is_a_tag_error() {
    let text = FULL.replace("cipher AES-256-GCM\n", "cipher AES\r256\n");
    let e = parse_openvpn_config(&text).unwrap_err();
    assert_eq!(e.code, ErrorKind::Tag);
    assert!(e.input.starts_with("AES\r256\ntls-cipher"));
}

#[test]
fn unknown_cipher_is_reported_as_having_no_conversion() {
    let text = FULL.replace("cipher AES-256-GCM", "cipher BF-CBC");
    match read_openvpn_config(&text) {
        Err(Failure::Panic(cause)) => assert_eq!(cause, PanicCause::Cipher),
        other => panic!("unexpected result: {:?}", other),
    }
}

#[test]
fn unknown_tls_cipher_is_reported_as_having_no_conversion() {
    // The dashed spelling is the known one for this suite.
    let text = FULL.replace(
        "TLS-DHE-RSA-WITH-AES-256-GCM-SHA384",
        "TLS_DHE_RSA_WITH_AES_256_GCM_SHA384",
    );
    match read_openvpn_config(&text) {
        Err(Failure::Panic(cause)) => assert_eq!(cause, PanicCause::TlsCipher),
        other => panic!("unexpected result: {:?}", other),
    }
}

#[test]
fn oversized_resolv_retry_is_reported_as_having_no_conversion() {
    let text = FULL.replace("resolv-retry infinite", "resolv-retry 99999999999");
    match read_openvpn_config(&text) {
        Err(Failure::Panic(cause)) => assert_eq!(cause, PanicCause::ResolvRetry),
        other => panic!("unexpected result: {:?}", other),
    }
}

#[test]
fn syntax_error_comes_before_a_missing_conversion() {
    // The cipher line is read in full before its value is converted, so a
    // missing line ending wins over the unknown name.
    let end = FULL.find("cipher AES").unwrap();
    let text = format!("{}cipher BF-CBC", &FULL[..end]);
    match read_openvpn_config(&text) {
        Err(Failure::Parse(e)) => {
            assert_eq!(e.code, ErrorKind::CrLf);
            assert_eq!(e.input, "");
        }
        other => panic!("unexpected result: {:?}", other),
    }
}

#[test]
fn read_agrees_with_parse_on_success() {
    let a = read_openvpn_config(FULL).unwrap();
    let b = parse_openvpn_config(FULL).unwrap();
    assert_eq!(a.0, b.0);
    assert_eq!(a.1, b.1);
}

#[test]
fn non_ascii_text_after_the_configuration_is_kept_whole() {
    let text = format!("{}# réseau privé ✓\n", FULL);
    let (rest, _) = parse_openvpn_config(&text).unwrap();
    assert_eq!(rest, "# réseau privé ✓\n");
}
