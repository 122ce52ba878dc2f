//! The configuration record and the conversions from the text of a value
//! to the enumerations it is made of.
use vstd::prelude::*;
use vstd::string::StringSliceAdditionalSpecFns;
use crate::number::{parse_u32, spec_parse_u32};
use crate::text::str_eq;
use crate::laws::{
    law_cipher_read_only_from_its_name, law_every_cipher_has_its_name,
    law_every_tls_cipher_has_its_name, law_tls_cipher_read_only_from_its_name,
};

verus! {

/// A client configuration, one field per directive line.
#[derive(Debug, Clone, Copy, PartialEq, Eq, Structural)]
pub struct OpenVPNConfig {
    pub config_type: ConfigType,
    pub dev: DevType,
    pub resolv_retry: ResolvRetry,
    pub nobind: bool,
    pub persist_key: bool,
    pub persist_tun: bool,
    pub verb: u32,
    pub remote_cert_tls: RemoteCertTLS,
    pub ping: u32,
    pub ping_restart: u32,
    pub sndbuf: u32,
    pub rcvbuf: u32,
    pub cipher: Cipher,
    pub tls_cipher: TLSCipher,
}

/// The virtual network device (`dev`).
#[derive(Debug, Clone, Copy, PartialEq, Eq, Structural)]
pub enum DevType {
    Tun,
    Tap,
}

impl DevType {
    /// The text that names this device type.
    pub open spec fn name(self) -> Seq<u8> {
        match self {
            DevType::Tun => "tun".spec_bytes(),
            DevType::Tap => "tap".spec_bytes(),
        }
    }

    /// The device type that the text with bytes `b` names, if any.
    pub open spec fn named(b: Seq<u8>) -> Option<DevType> {
        if b == "tun".spec_bytes() {
            Some(DevType::Tun)
        } else if b == "tap".spec_bytes() {
            Some(DevType::Tap)
        } else {
            None
        }
    }

    /// The device type named `s` (`"tun"` or `"tap"`).
    pub fn from(s: &str) -> (r: DevType)
        requires
            DevType::named(s.spec_bytes()) is Some,
        ensures
            DevType::named(s.spec_bytes()) == Some(r),
            s.spec_bytes() == r.name(),
    {
        if str_eq(s, "tun") {
            DevType::Tun
        } else {
            DevType::Tap
        }
    }
}

/// Whether the configuration is a client's (it starts with `client`) or not.
#[derive(Debug, Clone, Copy, PartialEq, Eq, Structural)]
pub enum ConfigType {
    Client,
    Server,
}

/// `Client` when the `client` directive was found, `Server` otherwise.
impl<'a> From<Option<&'a str>> for ConfigType {
    fn from(value: Option<&'a str>) -> (r: ConfigType) {
        match value {
            Some(_) => ConfigType::Client,
            None => ConfigType::Server,
        }
    }
}

impl<'a> vstd::std_specs::convert::FromSpecImpl<Option<&'a str>> for ConfigType {
    open spec fn obeys_from_spec() -> bool {
        true
    }

    open spec fn from_spec(value: Option<&'a str>) -> ConfigType {
        if value is Some {
            ConfigType::Client
        } else {
            ConfigType::Server
        }
    }
}

/// How long to retry resolving the server's name (`resolv-retry`).
#[derive(Debug, Clone, Copy, PartialEq, Eq, Structural)]
pub enum ResolvRetry {
    Seconds(u32),
    Infinite,
}

impl ResolvRetry {
    /// The retry setting that the text with bytes `b` denotes, if any:
    /// `infinite`, or a number of seconds as `u32::from_str` reads it.
    pub open spec fn named(b: Seq<u8>) -> Option<ResolvRetry> {
        if b == "infinite".spec_bytes() {
            Some(ResolvRetry::Infinite)
        } else {
            match spec_parse_u32(b) {
                Some(n) => Some(ResolvRetry::Seconds(n)),
                None => None,
            }
        }
    }

    /// The retry setting denoted by `s`, or `None` when `s` denotes none.
    pub fn checked_from(s: &str) -> (r: Option<ResolvRetry>)
        ensures
            r == ResolvRetry::named(s.spec_bytes()),
    {
        if str_eq(s, "infinite") {
            Some(ResolvRetry::Infinite)
        } else {
            match parse_u32(s) {
                Some(n) => Some(ResolvRetry::Seconds(n)),
                None => None,
            }
        }
    }

    /// The retry setting denoted by `s` (`"infinite"` or a number of seconds).
    pub fn from(s: &str) -> (r: ResolvRetry)
        requires
            ResolvRetry::named(s.spec_bytes()) is Some,
        ensures
            ResolvRetry::named(s.spec_bytes()) == Some(r),
    {
        ResolvRetry::checked_from(s).unwrap()
    }
}

/// Which kind of peer certificate to require (`remote-cert-tls`).
#[derive(Debug, Clone, Copy, PartialEq, Eq, Structural)]
pub enum RemoteCertTLS {
    Client,
    Server,
}

impl RemoteCertTLS {
    /// The text that names this certificate kind.
    pub open spec fn name(self) -> Seq<u8> {
        match self {
            RemoteCertTLS::Client => "client".spec_bytes(),
            RemoteCertTLS::Server => "server".spec_bytes(),
        }
    }

    /// The certificate kind that the text with bytes `b` names, if any.
    pub open spec fn named(b: Seq<u8>) -> Option<RemoteCertTLS> {
        if b == "client".spec_bytes() {
            Some(RemoteCertTLS::Client)
        } else if b == "server".spec_bytes() {
            Some(RemoteCertTLS::Server)
        } else {
            None
        }
    }

    /// The certificate kind named `s` (`"client"` or `"server"`).
    pub fn from(s: &str) -> (r: RemoteCertTLS)
        requires
            RemoteCertTLS::named(s.spec_bytes()) is Some,
        ensures
            RemoteCertTLS::named(s.spec_bytes()) == Some(r),
            s.spec_bytes() == r.name(),
    {
        if str_eq(s, "client") {
            RemoteCertTLS::Client
        } else {
            RemoteCertTLS::Server
        }
    }
}

/// The data channel cipher (`cipher`).
#[allow(non_camel_case_types)]
#[derive(Debug, Clone, Copy, PartialEq, Eq, Structural)]
pub enum Cipher {
    NONE,
    AES_128_CBC,
    AES_128_CFB,
    AES_128_CFB1,
    AES_128_CFB8,
    AES_128_GCM,
    AES_128_OFB,
    AES_192_CBC,
    AES_192_CFB,
    AES_192_CFB1,
    AES_192_CFB8,
    AES_192_GCM,
    AES_192_OFB,
    AES_256_CBC,
    AES_256_CFB,
    AES_256_CFB1,
    AES_256_CFB8,
    AES_256_GCM,
    AES_256_OFB,
}

impl Cipher {
    /// The text that names this cipher.
    pub open spec fn name(self) -> Seq<u8> {
        match self {
            Cipher::NONE => "none".spec_bytes(),
            Cipher::AES_128_CBC => "AES-128-CBC".spec_bytes(),
            Cipher::AES_128_CFB => "AES-128-CFB".spec_bytes(),
            Cipher::AES_128_CFB1 => "AES-128-CFB1".spec_bytes(),
            Cipher::AES_128_CFB8 => "AES-128-CFB8".spec_bytes(),
            Cipher::AES_128_GCM => "AES-128-GCM".spec_bytes(),
            Cipher::AES_128_OFB => "AES-128-OFB".spec_bytes(),
            Cipher::AES_192_CBC => "AES-192-CBC".spec_bytes(),
            Cipher::AES_192_CFB => "AES-192-CFB".spec_bytes(),
            Cipher::AES_192_CFB1 => "AES-192-CFB1".spec_bytes(),
            Cipher::AES_192_CFB8 => "AES-192-CFB8".spec_bytes(),
            Cipher::AES_192_GCM => "AES-192-GCM".spec_bytes(),
            Cipher::AES_192_OFB => "AES-192-OFB".spec_bytes(),
            Cipher::AES_256_CBC => "AES-256-CBC".spec_bytes(),
            Cipher::AES_256_CFB => "AES-256-CFB".spec_bytes(),
            Cipher::AES_256_CFB1 => "AES-256-CFB1".spec_bytes(),
            Cipher::AES_256_CFB8 => "AES-256-CFB8".spec_bytes(),
            Cipher::AES_256_GCM => "AES-256-GCM".spec_bytes(),
            Cipher::AES_256_OFB => "AES-256-OFB".spec_bytes(),
        }
    }

    /// The cipher that the text with bytes `b` names, if any.
    pub open spec fn named(b: Seq<u8>) -> Option<Cipher> {
        if b == "none".spec_bytes() {
            Some(Cipher::NONE)
        } else if b == "AES-128-CBC".spec_bytes() {
            Some(Cipher::AES_128_CBC)
        } else if b == "AES-128-CFB".spec_bytes() {
            Some(Cipher::AES_128_CFB)
        } else if b == "AES-128-CFB1".spec_bytes() {
            Some(Cipher::AES_128_CFB1)
        } else if b == "AES-128-CFB8".spec_bytes() {
            Some(Cipher::AES_128_CFB8)
        } else if b == "AES-128-GCM".spec_bytes() {
            Some(Cipher::AES_128_GCM)
        } else if b == "AES-128-OFB".spec_bytes() {
            Some(Cipher::AES_128_OFB)
        } else if b == "AES-192-CBC".spec_bytes() {
            Some(Cipher::AES_192_CBC)
        } else if b == "AES-192-CFB".spec_bytes() {
            Some(Cipher::AES_192_CFB)
        } else if b == "AES-192-CFB1".spec_bytes() {
            Some(Cipher::AES_192_CFB1)
        } else if b == "AES-192-CFB8".spec_bytes() {
            Some(Cipher::AES_192_CFB8)
        } else if b == "AES-192-GCM".spec_bytes() {
            Some(Cipher::AES_192_GCM)
        } else if b == "AES-192-OFB".spec_bytes() {
            Some(Cipher::AES_192_OFB)
        } else if b == "AES-256-CBC".spec_bytes() {
            Some(Cipher::AES_256_CBC)
        } else if b == "AES-256-CFB".spec_bytes() {
            Some(Cipher::AES_256_CFB)
        } else if b == "AES-256-CFB1".spec_bytes() {
            Some(Cipher::AES_256_CFB1)
        } else if b == "AES-256-CFB8".spec_bytes() {
            Some(Cipher::AES_256_CFB8)
        } else if b == "AES-256-GCM".spec_bytes() {
            Some(Cipher::AES_256_GCM)
        } else if b == "AES-256-OFB".spec_bytes() {
            Some(Cipher::AES_256_OFB)
        } else {
            None
        }
    }
    /// The cipher named `s`, or `None` when `s` names none.
    pub fn checked_from(s: &str) -> (r: Option<Cipher>)
        ensures
            r == Cipher::named(s.spec_bytes()),
            r matches Some(c) ==> s.spec_bytes() == c.name(),
            forall|c: Cipher| s.spec_bytes() == #[trigger] c.name() ==> r == Some(c),
    {
        proof {
            law_cipher_read_only_from_its_name(s.spec_bytes());
            assert forall|c: Cipher| s.spec_bytes() == #[trigger] c.name() implies Cipher::named(
                s.spec_bytes(),
            ) == Some(c) by {
                law_every_cipher_has_its_name(c);
            }
        }
        if str_eq(s, "none") {
            Some(Cipher::NONE)
        } else if str_eq(s, "AES-128-CBC") {
            Some(Cipher::AES_128_CBC)
        } else if str_eq(s, "AES-128-CFB") {
            Some(Cipher::AES_128_CFB)
        } else if str_eq(s, "AES-128-CFB1") {
            Some(Cipher::AES_128_CFB1)
        } else if str_eq(s, "AES-128-CFB8") {
            Some(Cipher::AES_128_CFB8)
        } else if str_eq(s, "AES-128-GCM") {
            Some(Cipher::AES_128_GCM)
        } else if str_eq(s, "AES-128-OFB") {
            Some(Cipher::AES_128_OFB)
        } else if str_eq(s, "AES-192-CBC") {
            Some(Cipher::AES_192_CBC)
        } else if str_eq(s, "AES-192-CFB") {
            Some(Cipher::AES_192_CFB)
        } else if str_eq(s, "AES-192-CFB1") {
            Some(Cipher::AES_192_CFB1)
        } else if str_eq(s, "AES-192-CFB8") {
            Some(Cipher::AES_192_CFB8)
        } else if str_eq(s, "AES-192-GCM") {
            Some(Cipher::AES_192_GCM)
        } else if str_eq(s, "AES-192-OFB") {
            Some(Cipher::AES_192_OFB)
        } else if str_eq(s, "AES-256-CBC") {
            Some(Cipher::AES_256_CBC)
        } else if str_eq(s, "AES-256-CFB") {
            Some(Cipher::AES_256_CFB)
        } else if str_eq(s, "AES-256-CFB1") {
            Some(Cipher::AES_256_CFB1)
        } else if str_eq(s, "AES-256-CFB8") {
            Some(Cipher::AES_256_CFB8)
        } else if str_eq(s, "AES-256-GCM") {
            Some(Cipher::AES_256_GCM)
        } else if str_eq(s, "AES-256-OFB") {
            Some(Cipher::AES_256_OFB)
        } else {
            None
        }
    }

    /// The cipher named `s` (such as `"AES-256-GCM"`).
    pub fn from(s: &str) -> (r: Cipher)
        requires
            Cipher::named(s.spec_bytes()) is Some,
        ensures
            Cipher::named(s.spec_bytes()) == Some(r),
            s.spec_bytes() == r.name(),
    {
        Cipher::checked_from(s).unwrap()
    }
}

/// The control channel cipher suite (`tls-cipher`).
#[allow(non_camel_case_types)]
#[derive(Debug, Clone, Copy, PartialEq, Eq, Structural)]
pub enum TLSCipher {
    TLS_AES_256_GCM_SHA384,
    TLS_CHACHA20_POLY1305_SHA256,
    TLS_AES_128_GCM_SHA256,
    TLS_ECDHE_ECDSA_WITH_AES_256_GCM_SHA384,
    TLS_ECDHE_RSA_WITH_AES_256_GCM_SHA384,
    TLS_DHE_RSA_WITH_AES_256_GCM_SHA384,
    TLS_ECDHE_ECDSA_WITH_CHACHA20_POLY1305_SHA256,
    TLS_ECDHE_RSA_WITH_CHACHA20_POLY1305_SHA256,
    TLS_DHE_RSA_WITH_CHACHA20_POLY1305_SHA256,
    TLS_ECDHE_ECDSA_WITH_AES_128_GCM_SHA256,
    TLS_ECDHE_RSA_WITH_AES_128_GCM_SHA256,
    TLS_DHE_RSA_WITH_AES_128_GCM_SHA256,
    TLS_ECDHE_ECDSA_WITH_AES_256_CBC_SHA384,
    TLS_ECDHE_RSA_WITH_AES_256_CBC_SHA384,
    TLS_ECDHE_ECDSA_WITH_AES_128_CBC_SHA256,
    TLS_ECDHE_RSA_WITH_AES_128_CBC_SHA256,
    TLS_DHE_RSA_WITH_AES_128_CBC_SHA256,
    TLS_ECDHE_ECDSA_WITH_AES_256_CBC_SHA,
    TLS_ECDHE_RSA_WITH_AES_256_CBC_SHA,
    TLS_DHE_RSA_WITH_AES_256_CBC_SHA,
    TLS_ECDHE_ECDSA_WITH_AES_128_CBC_SHA,
    TLS_ECDHE_RSA_WITH_AES_128_CBC_SHA,
    TLS_DHE_RSA_WITH_AES_128_CBC_SHA,
}

impl TLSCipher {
    /// The text that names this cipher suite.
    pub open spec fn name(self) -> Seq<u8> {
        match self {
            TLSCipher::TLS_AES_256_GCM_SHA384 => "TLS_AES_256_GCM_SHA384".spec_bytes(),
            TLSCipher::TLS_CHACHA20_POLY1305_SHA256 => "TLS_CHACHA20_POLY1305_SHA256".spec_bytes(),
            TLSCipher::TLS_AES_128_GCM_SHA256 => "TLS_AES_128_GCM_SHA256".spec_bytes(),
            TLSCipher::TLS_ECDHE_ECDSA_WITH_AES_256_GCM_SHA384 => "TLS-ECDHE-ECDSA-WITH-AES-256-GCM-SHA384".spec_bytes(),
            TLSCipher::TLS_ECDHE_RSA_WITH_AES_256_GCM_SHA384 => "TLS-ECDHE-RSA-WITH-AES-256-GCM-SHA384".spec_bytes(),
            TLSCipher::TLS_DHE_RSA_WITH_AES_256_GCM_SHA384 => "TLS-DHE-RSA-WITH-AES-256-GCM-SHA384".spec_bytes(),
            TLSCipher::TLS_ECDHE_ECDSA_WITH_CHACHA20_POLY1305_SHA256 => "TLS-ECDHE-ECDSA-WITH-CHACHA20-POLY1305-SHA256".spec_bytes(),
            TLSCipher::TLS_ECDHE_RSA_WITH_CHACHA20_POLY1305_SHA256 => "TLS-ECDHE-RSA-WITH-CHACHA20-POLY1305-SHA256".spec_bytes(),
            TLSCipher::TLS_DHE_RSA_WITH_CHACHA20_POLY1305_SHA256 => "TLS-DHE-RSA-WITH-CHACHA20-POLY1305-SHA256".spec_bytes(),
            TLSCipher::TLS_ECDHE_ECDSA_WITH_AES_128_GCM_SHA256 => "TLS-ECDHE-ECDSA-WITH-AES-128-GCM-SHA256".spec_bytes(),
            TLSCipher::TLS_ECDHE_RSA_WITH_AES_128_GCM_SHA256 => "TLS-ECDHE-RSA-WITH-AES-128-GCM-SHA256".spec_bytes(),
            TLSCipher::TLS_DHE_RSA_WITH_AES_128_GCM_SHA256 => "TLS-DHE-RSA-WITH-AES-128-GCM-SHA256".spec_bytes(),
            TLSCipher::TLS_ECDHE_ECDSA_WITH_AES_256_CBC_SHA384 => "TLS-ECDHE-ECDSA-WITH-AES-256-CBC-SHA384".spec_bytes(),
            TLSCipher::TLS_ECDHE_RSA_WITH_AES_256_CBC_SHA384 => "TLS-ECDHE-RSA-WITH-AES-256-CBC-SHA384".spec_bytes(),
            TLSCipher::TLS_ECDHE_ECDSA_WITH_AES_128_CBC_SHA256 => "TLS-ECDHE-ECDSA-WITH-AES-128-CBC-SHA256".spec_bytes(),
            TLSCipher::TLS_ECDHE_RSA_WITH_AES_128_CBC_SHA256 => "TLS-ECDHE-RSA-WITH-AES-128-CBC-SHA256".spec_bytes(),
            TLSCipher::TLS_DHE_RSA_WITH_AES_128_CBC_SHA256 => "TLS-DHE-RSA-WITH-AES-128-CBC-SHA256".spec_bytes(),
            TLSCipher::TLS_ECDHE_ECDSA_WITH_AES_256_CBC_SHA => "TLS-ECDHE-ECDSA-WITH-AES-256-CBC-SHA".spec_bytes(),
            TLSCipher::TLS_ECDHE_RSA_WITH_AES_256_CBC_SHA => "TLS-ECDHE-RSA-WITH-AES-256-CBC-SHA".spec_bytes(),
            TLSCipher::TLS_DHE_RSA_WITH_AES_256_CBC_SHA => "TLS-DHE-RSA-WITH-AES-256-CBC-SHA".spec_bytes(),
            TLSCipher::TLS_ECDHE_ECDSA_WITH_AES_128_CBC_SHA => "TLS-ECDHE-ECDSA-WITH-AES-128-CBC-SHA".spec_bytes(),
            TLSCipher::TLS_ECDHE_RSA_WITH_AES_128_CBC_SHA => "TLS-ECDHE-RSA-WITH-AES-128-CBC-SHA".spec_bytes(),
            TLSCipher::TLS_DHE_RSA_WITH_AES_128_CBC_SHA => "TLS-DHE-RSA-WITH-AES-128-CBC-SHA".spec_bytes(),
        }
    }

    /// The cipher suite that the text with bytes `b` names, if any.
    pub open spec fn named(b: Seq<u8>) -> Option<TLSCipher> {
        if b == "TLS_AES_256_GCM_SHA384".spec_bytes() {
            Some(TLSCipher::TLS_AES_256_GCM_SHA384)
        } else if b == "TLS_CHACHA20_POLY1305_SHA256".spec_bytes() {
            Some(TLSCipher::TLS_CHACHA20_POLY1305_SHA256)
        } else if b == "TLS_AES_128_GCM_SHA256".spec_bytes() {
            Some(TLSCipher::TLS_AES_128_GCM_SHA256)
        } else if b == "TLS-ECDHE-ECDSA-WITH-AES-256-GCM-SHA384".spec_bytes() {
            Some(TLSCipher::TLS_ECDHE_ECDSA_WITH_AES_256_GCM_SHA384)
        } else if b == "TLS-ECDHE-RSA-WITH-AES-256-GCM-SHA384".spec_bytes() {
            Some(TLSCipher::TLS_ECDHE_RSA_WITH_AES_256_GCM_SHA384)
        } else if b == "TLS-DHE-RSA-WITH-AES-256-GCM-SHA384".spec_bytes() {
            Some(TLSCipher::TLS_DHE_RSA_WITH_AES_256_GCM_SHA384)
        } else if b == "TLS-ECDHE-ECDSA-WITH-CHACHA20-POLY1305-SHA256".spec_bytes() {
            Some(TLSCipher::TLS_ECDHE_ECDSA_WITH_CHACHA20_POLY1305_SHA256)
        } else if b == "TLS-ECDHE-RSA-WITH-CHACHA20-POLY1305-SHA256".spec_bytes() {
            Some(TLSCipher::TLS_ECDHE_RSA_WITH_CHACHA20_POLY1305_SHA256)
        } else if b == "TLS-DHE-RSA-WITH-CHACHA20-POLY1305-SHA256".spec_bytes() {
            Some(TLSCipher::TLS_DHE_RSA_WITH_CHACHA20_POLY1305_SHA256)
        } else if b == "TLS-ECDHE-ECDSA-WITH-AES-128-GCM-SHA256".spec_bytes() {
            Some(TLSCipher::TLS_ECDHE_ECDSA_WITH_AES_128_GCM_SHA256)
        } else if b == "TLS-ECDHE-RSA-WITH-AES-128-GCM-SHA256".spec_bytes() {
            Some(TLSCipher::TLS_ECDHE_RSA_WITH_AES_128_GCM_SHA256)
        } else if b == "TLS-DHE-RSA-WITH-AES-128-GCM-SHA256".spec_bytes() {
            Some(TLSCipher::TLS_DHE_RSA_WITH_AES_128_GCM_SHA256)
        } else if b == "TLS-ECDHE-ECDSA-WITH-AES-256-CBC-SHA384".spec_bytes() {
            Some(TLSCipher::TLS_ECDHE_ECDSA_WITH_AES_256_CBC_SHA384)
        } else if b == "TLS-ECDHE-RSA-WITH-AES-256-CBC-SHA384".spec_bytes() {
            Some(TLSCipher::TLS_ECDHE_RSA_WITH_AES_256_CBC_SHA384)
        } else if b == "TLS-ECDHE-ECDSA-WITH-AES-128-CBC-SHA256".spec_bytes() {
            Some(TLSCipher::TLS_ECDHE_ECDSA_WITH_AES_128_CBC_SHA256)
        } else if b == "TLS-ECDHE-RSA-WITH-AES-128-CBC-SHA256".spec_bytes() {
            Some(TLSCipher::TLS_ECDHE_RSA_WITH_AES_128_CBC_SHA256)
        } else if b == "TLS-DHE-RSA-WITH-AES-128-CBC-SHA256".spec_bytes() {
            Some(TLSCipher::TLS_DHE_RSA_WITH_AES_128_CBC_SHA256)
        } else if b == "TLS-ECDHE-ECDSA-WITH-AES-256-CBC-SHA".spec_bytes() {
            Some(TLSCipher::TLS_ECDHE_ECDSA_WITH_AES_256_CBC_SHA)
        } else if b == "TLS-ECDHE-RSA-WITH-AES-256-CBC-SHA".spec_bytes() {
            Some(TLSCipher::TLS_ECDHE_RSA_WITH_AES_256_CBC_SHA)
        } else if b == "TLS-DHE-RSA-WITH-AES-256-CBC-SHA".spec_bytes() {
            Some(TLSCipher::TLS_DHE_RSA_WITH_AES_256_CBC_SHA)
        } else if b == "TLS-ECDHE-ECDSA-WITH-AES-128-CBC-SHA".spec_bytes() {
            Some(TLSCipher::TLS_ECDHE_ECDSA_WITH_AES_128_CBC_SHA)
        } else if b == "TLS-ECDHE-RSA-WITH-AES-128-CBC-SHA".spec_bytes() {
            Some(TLSCipher::TLS_ECDHE_RSA_WITH_AES_128_CBC_SHA)
        } else if b == "TLS-DHE-RSA-WITH-AES-128-CBC-SHA".spec_bytes() {
            Some(TLSCipher::TLS_DHE_RSA_WITH_AES_128_CBC_SHA)
        } else {
            None
        }
    }
    /// The cipher suite named `s`, or `None` when `s` names none.
    pub fn checked_from(s: &str) -> (r: Option<TLSCipher>)
        ensures
            r == TLSCipher::named(s.spec_bytes()),
            r matches Some(c) ==> s.spec_bytes() == c.name(),
            forall|c: TLSCipher| s.spec_bytes() == #[trigger] c.name() ==> r == Some(c),
    {
        proof {
            law_tls_cipher_read_only_from_its_name(s.spec_bytes());
            assert forall|c: TLSCipher| s.spec_bytes() == #[trigger] c.name() implies TLSCipher::named(
                s.spec_bytes(),
            ) == Some(c) by {
                law_every_tls_cipher_has_its_name(c);
            }
        }
        if str_eq(s, "TLS_AES_256_GCM_SHA384") {
            Some(TLSCipher::TLS_AES_256_GCM_SHA384)
        } else if str_eq(s, "TLS_CHACHA20_POLY1305_SHA256") {
            Some(TLSCipher::TLS_CHACHA20_POLY1305_SHA256)
        } else if str_eq(s, "TLS_AES_128_GCM_SHA256") {
            Some(TLSCipher::TLS_AES_128_GCM_SHA256)
        } else if str_eq(s, "TLS-ECDHE-ECDSA-WITH-AES-256-GCM-SHA384") {
            Some(TLSCipher::TLS_ECDHE_ECDSA_WITH_AES_256_GCM_SHA384)
        } else if str_eq(s, "TLS-ECDHE-RSA-WITH-AES-256-GCM-SHA384") {
            Some(TLSCipher::TLS_ECDHE_RSA_WITH_AES_256_GCM_SHA384)
        } else if str_eq(s, "TLS-DHE-RSA-WITH-AES-256-GCM-SHA384") {
            Some(TLSCipher::TLS_DHE_RSA_WITH_AES_256_GCM_SHA384)
        } else if str_eq(s, "TLS-ECDHE-ECDSA-WITH-CHACHA20-POLY1305-SHA256") {
            Some(TLSCipher::TLS_ECDHE_ECDSA_WITH_CHACHA20_POLY1305_SHA256)
        } else if str_eq(s, "TLS-ECDHE-RSA-WITH-CHACHA20-POLY1305-SHA256") {
            Some(TLSCipher::TLS_ECDHE_RSA_WITH_CHACHA20_POLY1305_SHA256)
        } else if str_eq(s, "TLS-DHE-RSA-WITH-CHACHA20-POLY1305-SHA256") {
            Some(TLSCipher::TLS_DHE_RSA_WITH_CHACHA20_POLY1305_SHA256)
        } else if str_eq(s, "TLS-ECDHE-ECDSA-WITH-AES-128-GCM-SHA256") {
            Some(TLSCipher::TLS_ECDHE_ECDSA_WITH_AES_128_GCM_SHA256)
        } else if str_eq(s, "TLS-ECDHE-RSA-WITH-AES-128-GCM-SHA256") {
            Some(TLSCipher::TLS_ECDHE_RSA_WITH_AES_128_GCM_SHA256)
        } else if str_eq(s, "TLS-DHE-RSA-WITH-AES-128-GCM-SHA256") {
            Some(TLSCipher::TLS_DHE_RSA_WITH_AES_128_GCM_SHA256)
        } else if str_eq(s, "TLS-ECDHE-ECDSA-WITH-AES-256-CBC-SHA384") {
            Some(TLSCipher::TLS_ECDHE_ECDSA_WITH_AES_256_CBC_SHA384)
        } else if str_eq(s, "TLS-ECDHE-RSA-WITH-AES-256-CBC-SHA384") {
            Some(TLSCipher::TLS_ECDHE_RSA_WITH_AES_256_CBC_SHA384)
        } else if str_eq(s, "TLS-ECDHE-ECDSA-WITH-AES-128-CBC-SHA256") {
            Some(TLSCipher::TLS_ECDHE_ECDSA_WITH_AES_128_CBC_SHA256)
        } else if str_eq(s, "TLS-ECDHE-RSA-WITH-AES-128-CBC-SHA256") {
            Some(TLSCipher::TLS_ECDHE_RSA_WITH_AES_128_CBC_SHA256)
        } else if str_eq(s, "TLS-DHE-RSA-WITH-AES-128-CBC-SHA256") {
            Some(TLSCipher::TLS_DHE_RSA_WITH_AES_128_CBC_SHA256)
        } else if str_eq(s, "TLS-ECDHE-ECDSA-WITH-AES-256-CBC-SHA") {
            Some(TLSCipher::TLS_ECDHE_ECDSA_WITH_AES_256_CBC_SHA)
        } else if str_eq(s, "TLS-ECDHE-RSA-WITH-AES-256-CBC-SHA") {
            Some(TLSCipher::TLS_ECDHE_RSA_WITH_AES_256_CBC_SHA)
        } else if str_eq(s, "TLS-DHE-RSA-WITH-AES-256-CBC-SHA") {
            Some(TLSCipher::TLS_DHE_RSA_WITH_AES_256_CBC_SHA)
        } else if str_eq(s, "TLS-ECDHE-ECDSA-WITH-AES-128-CBC-SHA") {
            Some(TLSCipher::TLS_ECDHE_ECDSA_WITH_AES_128_CBC_SHA)
        } else if str_eq(s, "TLS-ECDHE-RSA-WITH-AES-128-CBC-SHA") {
            Some(TLSCipher::TLS_ECDHE_RSA_WITH_AES_128_CBC_SHA)
        } else if str_eq(s, "TLS-DHE-RSA-WITH-AES-128-CBC-SHA") {
            Some(TLSCipher::TLS_DHE_RSA_WITH_AES_128_CBC_SHA)
        } else {
            None
        }
    }

    /// The cipher suite named `s` (such as `"TLS_AES_256_GCM_SHA384"`).
    pub fn from(s: &str) -> (r: TLSCipher)
        requires
            TLSCipher::named(s.spec_bytes()) is Some,
        ensures
            TLSCipher::named(s.spec_bytes()) == Some(r),
            s.spec_bytes() == r.name(),
    {
        TLSCipher::checked_from(s).unwrap()
    }
}

} // verus!
