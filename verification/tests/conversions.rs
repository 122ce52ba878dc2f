use openvpn_conf::config::{Cipher, ConfigType, DevType, RemoteCertTLS, ResolvRetry, TLSCipher};
use openvpn_conf::number::parse_u32;
use openvpn_conf::text::str_eq;

const CIPHERS: [(&str, Cipher); 19] = [
    ("none", Cipher::NONE),
    ("AES-128-CBC", Cipher::AES_128_CBC),
    ("AES-128-CFB", Cipher::AES_128_CFB),
    ("AES-128-CFB1", Cipher::AES_128_CFB1),
    ("AES-128-CFB8", Cipher::AES_128_CFB8),
    ("AES-128-GCM", Cipher::AES_128_GCM),
    ("AES-128-OFB", Cipher::AES_128_OFB),
    ("AES-192-CBC", Cipher::AES_192_CBC),
    ("AES-192-CFB", Cipher::AES_192_CFB),
    ("AES-192-CFB1", Cipher::AES_192_CFB1),
    ("AES-192-CFB8", Cipher::AES_192_CFB8),
    ("AES-192-GCM", Cipher::AES_192_GCM),
    ("AES-192-OFB", Cipher::AES_192_OFB),
    ("AES-256-CBC", Cipher::AES_256_CBC),
    ("AES-256-CFB", Cipher::AES_256_CFB),
    ("AES-256-CFB1", Cipher::AES_256_CFB1),
    ("AES-256-CFB8", Cipher::AES_256_CFB8),
    ("AES-256-GCM", Cipher::AES_256_GCM),
    ("AES-256-OFB", Cipher::AES_256_OFB),
];

const TLS_CIPHERS: [(&str, TLSCipher); 23] = [
    ("TLS_AES_256_GCM_SHA384", TLSCipher::TLS_AES_256_GCM_SHA384),
    ("TLS_CHACHA20_POLY1305_SHA256", TLSCipher::TLS_CHACHA20_POLY1305_SHA256),
    ("TLS_AES_128_GCM_SHA256", TLSCipher::TLS_AES_128_GCM_SHA256),
    ("TLS-ECDHE-ECDSA-WITH-AES-256-GCM-SHA384", TLSCipher::TLS_ECDHE_ECDSA_WITH_AES_256_GCM_SHA384),
    ("TLS-ECDHE-RSA-WITH-AES-256-GCM-SHA384", TLSCipher::TLS_ECDHE_RSA_WITH_AES_256_GCM_SHA384),
    ("TLS-DHE-RSA-WITH-AES-256-GCM-SHA384", TLSCipher::TLS_DHE_RSA_WITH_AES_256_GCM_SHA384),
    ("TLS-ECDHE-ECDSA-WITH-CHACHA20-POLY1305-SHA256", TLSCipher::TLS_ECDHE_ECDSA_WITH_CHACHA20_POLY1305_SHA256),
    ("TLS-ECDHE-RSA-WITH-CHACHA20-POLY1305-SHA256", TLSCipher::TLS_ECDHE_RSA_WITH_CHACHA20_POLY1305_SHA256),
    ("TLS-DHE-RSA-WITH-CHACHA20-POLY1305-SHA256", TLSCipher::TLS_DHE_RSA_WITH_CHACHA20_POLY1305_SHA256),
    ("TLS-ECDHE-ECDSA-WITH-AES-128-GCM-SHA256", TLSCipher::TLS_ECDHE_ECDSA_WITH_AES_128_GCM_SHA256),
    ("TLS-ECDHE-RSA-WITH-AES-128-GCM-SHA256", TLSCipher::TLS_ECDHE_RSA_WITH_AES_128_GCM_SHA256),
    ("TLS-DHE-RSA-WITH-AES-128-GCM-SHA256", TLSCipher::TLS_DHE_RSA_WITH_AES_128_GCM_SHA256),
    ("TLS-ECDHE-ECDSA-WITH-AES-256-CBC-SHA384", TLSCipher::TLS_ECDHE_ECDSA_WITH_AES_256_CBC_SHA384),
    ("TLS-ECDHE-RSA-WITH-AES-256-CBC-SHA384", TLSCipher::TLS_ECDHE_RSA_WITH_AES_256_CBC_SHA384),
    ("TLS-ECDHE-ECDSA-WITH-AES-128-CBC-SHA256", TLSCipher::TLS_ECDHE_ECDSA_WITH_AES_128_CBC_SHA256),
    ("TLS-ECDHE-RSA-WITH-AES-128-CBC-SHA256", TLSCipher::TLS_ECDHE_RSA_WITH_AES_128_CBC_SHA256),
    ("TLS-DHE-RSA-WITH-AES-128-CBC-SHA256", TLSCipher::TLS_DHE_RSA_WITH_AES_128_CBC_SHA256),
    ("TLS-ECDHE-ECDSA-WITH-AES-256-CBC-SHA", TLSCipher::TLS_ECDHE_ECDSA_WITH_AES_256_CBC_SHA),
    ("TLS-ECDHE-RSA-WITH-AES-256-CBC-SHA", TLSCipher::TLS_ECDHE_RSA_WITH_AES_256_CBC_SHA),
    ("TLS-DHE-RSA-WITH-AES-256-CBC-SHA", TLSCipher::TLS_DHE_RSA_WITH_AES_256_CBC_SHA),
    ("TLS-ECDHE-ECDSA-WITH-AES-128-CBC-SHA", TLSCipher::TLS_ECDHE_ECDSA_WITH_AES_128_CBC_SHA),
    ("TLS-ECDHE-RSA-WITH-AES-128-CBC-SHA", TLSCipher::TLS_ECDHE_RSA_WITH_AES_128_CBC_SHA),
    ("TLS-DHE-RSA-WITH-AES-128-CBC-SHA", TLSCipher::TLS_DHE_RSA_WITH_AES_128_CBC_SHA),
];

#[test]
fn every_cipher_name_converts_to_its_variant() {
    for (name, cipher) in CIPHERS {
        assert_eq!(Cipher::from(name), cipher, "{}", name);
        assert_eq!(Cipher::checked_from(name), Some(cipher));
    }
}

#[test]
fn cipher_names_are_exact() {
    for name in ["", "aes-256-gcm", "AES-256-GCM ", "AES256GCM", "None", "BF-CBC"] {
        assert_eq!(Cipher::checked_from(name), None, "{:?}", name);
    }
}

#[test]
fn every_tls_cipher_name_converts_to_its_variant() {
    for (name, suite) in TLS_CIPHERS {
        assert_eq!(TLSCipher::from(name), suite, "{}", name);
        assert_eq!(TLSCipher::checked_from(name), Some(suite));
    }
}

#[test]
fn tls_cipher_names_are_exact() {
    for name in [
        "TLS-AES-256-GCM-SHA384",
        "TLS_ECDHE_RSA_WITH_AES_128_CBC_SHA",
        "tls_aes_256_gcm_sha384",
        "",
    ] {
        assert_eq!(TLSCipher::checked_from(name), None, "{:?}", name);
    }
}

#[test]
fn cipher_variants_are_distinct() {
    for (i, (_, a)) in CIPHERS.iter().enumerate() {
        for (j, (_, b)) in CIPHERS.iter().enumerate() {
            assert_eq!(i == j, a == b);
        }
    }
    for (i, (_, a)) in TLS_CIPHERS.iter().enumerate() {
        for (j, (_, b)) in TLS_CIPHERS.iter().enumerate() {
            assert_eq!(i == j, a == b);
        }
    }
}

#[test]
fn device_and_certificate_kinds() {
    assert_eq!(DevType::from("tun"), DevType::Tun);
    assert_eq!(DevType::from("tap"), DevType::Tap);
    assert_eq!(RemoteCertTLS::from("client"), RemoteCertTLS::Client);
    assert_eq!(RemoteCertTLS::from("server"), RemoteCertTLS::Server);
}

#[test]
fn config_type_from_presence() {
    assert_eq!(ConfigType::from(Some("client")), ConfigType::Client);
    assert_eq!(ConfigType::from(Some("anything")), ConfigType::Client);
    assert_eq!(ConfigType::from(None), ConfigType::Server);
}

#[test]
fn resolv_retry_values() {
    assert_eq!(ResolvRetry::from("infinite"), ResolvRetry::Infinite);
    assert_eq!(ResolvRetry::from("0"), ResolvRetry::Seconds(0));
    assert_eq!(ResolvRetry::from("+15"), ResolvRetry::Seconds(15));
    assert_eq!(ResolvRetry::checked_from("Infinite"), None);
    assert_eq!(ResolvRetry::checked_from("4294967296"), None);
    assert_eq!(ResolvRetry::checked_from("4294967295"), Some(ResolvRetry::Seconds(u32::MAX)));
}

#[test]
fn u32_reading_matches_std() {
    let cases = [
        "", "+", "-", "0", "00", "007", "+0", "+7", "++7", "-7", "7+", " 7", "7 ", "12a",
        "4294967295", "+4294967295", "04294967295", "4294967296", "18446744073709551616",
        "99999999999999999999", "٣",
    ];
    for c in cases {
        assert_eq!(parse_u32(c), c.parse::<u32>().ok(), "{:?}", c);
    }
}

#[test]
fn u32_reading_exact_values() {
    assert_eq!(parse_u32("524288"), Some(524288));
    assert_eq!(parse_u32("+42"), Some(42));
    assert_eq!(parse_u32("4294967296"), None);
    assert_eq!(parse_u32("x"), None);
}

#[test]
fn text_equality() {
    assert!(str_eq("tun", "tun"));
    assert!(!str_eq("tun", "tap"));
    assert!(!str_eq("tun", "tun0"));
    assert!(str_eq("", ""));
    assert!(str_eq("réseau", "réseau"));
}

#[test]
fn config_type_into() {
    let a: ConfigType = Some("client").into();
    let b: ConfigType = None.into();
    assert_eq!(a, ConfigType::Client);
    assert_eq!(b, ConfigType::Server);
}
