use openvpn_conf::config::{Cipher, ConfigType, DevType, RemoteCertTLS, ResolvRetry, TLSCipher};
use openvpn_conf::parser::{
    cipher_line, dev_line, parse_cipher, parse_config_type, parse_dev, parse_flag_line, parse_nobind,
    parse_number_line, parse_persist_key, parse_persist_tun, parse_ping, parse_ping_restart,
    parse_rcvbuf, parse_remote_cert_tls, parse_resolv_retry, parse_sndbuf, parse_tls_cipher,
    parse_verb, remote_cert_tls_line, resolv_retry_line, tls_cipher_line,
};
use openvpn_conf::text::ErrorKind;

#[test]
fn config_type_line() {
    assert_eq!(parse_config_type("client\ndev").unwrap(), ("dev", ConfigType::Client));
    assert_eq!(parse_config_type("client\r\ndev").unwrap(), ("dev", ConfigType::Client));
    assert_eq!(parse_config_type("dev tun\n").unwrap(), ("dev tun\n", ConfigType::Server));
    assert_eq!(parse_config_type("client").unwrap(), ("client", ConfigType::Server));
    assert_eq!(parse_config_type("clientx\n").unwrap(), ("clientx\n", ConfigType::Server));
    assert_eq!(parse_config_type("").unwrap(), ("", ConfigType::Server));
}

#[test]
fn dev_line_values() {
    assert_eq!(parse_dev("dev tun\nx").unwrap(), ("x", DevType::Tun));
    assert_eq!(parse_dev("dev  tap\r\n").unwrap(), ("", DevType::Tap));
    assert_eq!(dev_line("dev tap\n").unwrap(), ("", "tap"));
    let e = parse_dev("dev tun \n").unwrap_err();
    assert_eq!((e.input, e.code), (" \n", ErrorKind::CrLf));
    let e = parse_dev("dew tun\n").unwrap_err();
    assert_eq!((e.input, e.code), ("dew tun\n", ErrorKind::Tag));
    let e = parse_dev("dev").unwrap_err();
    assert_eq!((e.input, e.code), ("", ErrorKind::Space));
}

#[test]
fn resolv_retry_line_values() {
    assert_eq!(parse_resolv_retry("resolv-retry infinite\n").unwrap(), ("", ResolvRetry::Infinite));
    assert_eq!(parse_resolv_retry("resolv-retry 30\n").unwrap(), ("", ResolvRetry::Seconds(30)));
    assert_eq!(resolv_retry_line("resolv-retry 0030\n").unwrap(), ("", "0030"));
    assert_eq!(resolv_retry_line("resolv-retry 99999999999\n").unwrap(), ("", "99999999999"));
    let e = parse_resolv_retry("resolv-retry infinity\n").unwrap_err();
    assert_eq!((e.input, e.code), ("infinity\n", ErrorKind::Digit));
    let e = parse_resolv_retry("resolv-retry infinitely\n").unwrap_err();
    assert_eq!((e.input, e.code), ("ly\n", ErrorKind::CrLf));
    let e = parse_resolv_retry("resolv-retry -1\n").unwrap_err();
    assert_eq!((e.input, e.code), ("-1\n", ErrorKind::Digit));
}

#[test]
fn flag_lines() {
    assert_eq!(parse_nobind("nobind\nverb").unwrap(), ("verb", true));
    assert_eq!(parse_nobind("verb 3\n").unwrap(), ("verb 3\n", false));
    assert_eq!(parse_persist_key("persist-key\r\n").unwrap(), ("", true));
    assert_eq!(parse_persist_key("persist-key \n").unwrap(), ("persist-key \n", false));
    assert_eq!(parse_persist_tun("persist-tun\n").unwrap(), ("", true));
    assert_eq!(parse_persist_tun("persist-key\n").unwrap(), ("persist-key\n", false));
    assert_eq!(parse_flag_line("float\n", "float").unwrap(), ("", true));
}

#[test]
fn number_lines() {
    assert_eq!(parse_verb("verb 3\n").unwrap(), ("", 3));
    assert_eq!(parse_ping("ping 10\n").unwrap(), ("", 10));
    assert_eq!(parse_ping_restart("ping-restart 60\n").unwrap(), ("", 60));
    assert_eq!(parse_sndbuf("sndbuf 524288\n").unwrap(), ("", 524288));
    assert_eq!(parse_rcvbuf("rcvbuf\t\t0\r\n").unwrap(), ("", 0));
    assert_eq!(parse_number_line("mssfix 1450\n", "mssfix").unwrap(), ("", 1450));
    // `ping` does not read the `ping-restart` line.
    let e = parse_ping("ping-restart 60\n").unwrap_err();
    assert_eq!((e.input, e.code), ("-restart 60\n", ErrorKind::Space));
    let e = parse_verb("verb x\n").unwrap_err();
    assert_eq!((e.input, e.code), ("x\n", ErrorKind::Digit));
    let e = parse_verb("verb +3\n").unwrap_err();
    assert_eq!((e.input, e.code), ("+3\n", ErrorKind::Digit));
    let e = parse_verb("verb 4294967296\n").unwrap_err();
    assert_eq!((e.input, e.code), ("4294967296\n", ErrorKind::MapRes));
    assert_eq!(parse_verb("verb 4294967295\n").unwrap(), ("", 4294967295));
}

#[test]
fn remote_cert_tls_line_values() {
    assert_eq!(parse_remote_cert_tls("remote-cert-tls server\n").unwrap(), ("", RemoteCertTLS::Server));
    assert_eq!(parse_remote_cert_tls("remote-cert-tls client\n").unwrap(), ("", RemoteCertTLS::Client));
    assert_eq!(remote_cert_tls_line("remote-cert-tls client\n").unwrap(), ("", "client"));
    let e = parse_remote_cert_tls("remote-cert-tls peer\n").unwrap_err();
    assert_eq!((e.input, e.code), ("peer\n", ErrorKind::Tag));
}

#[test]
fn cipher_lines() {
    assert_eq!(parse_cipher("cipher AES-128-CBC\n").unwrap(), ("", Cipher::AES_128_CBC));
    assert_eq!(cipher_line("cipher some thing\r\n").unwrap(), ("", "some thing"));
    assert_eq!(cipher_line("cipher \n").unwrap(), ("", ""));
    let e = cipher_line("cipher a\rb\n").unwrap_err();
    assert_eq!((e.input, e.code), ("a\rb\n", ErrorKind::Tag));
    let e = cipher_line("cipher AES-128-CBC").unwrap_err();
    assert_eq!((e.input, e.code), ("", ErrorKind::CrLf));
    assert_eq!(
        parse_tls_cipher("tls-cipher TLS_CHACHA20_POLY1305_SHA256\n").unwrap(),
        ("", TLSCipher::TLS_CHACHA20_POLY1305_SHA256)
    );
    assert_eq!(tls_cipher_line("tls-cipher x y\n").unwrap(), ("", "x y"));
    let e = tls_cipher_line("tls-ciphers x\n").unwrap_err();
    assert_eq!((e.input, e.code), ("s x\n", ErrorKind::Space));
}
