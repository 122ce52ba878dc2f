//! The canonical text of a configuration: one line per directive, a single
//! space between keyword and value, numbers in plain decimal, `"\n"` line
//! endings, optional lines only when their flag is set. Every configuration
//! reads back from its canonical text, whatever text follows it.
use vstd::prelude::*;
use vstd::string::StringSliceAdditionalSpecFns;
use crate::config::{Cipher, ConfigType, DevType, OpenVPNConfig, RemoteCertTLS, ResolvRetry, TLSCipher};
use vstd::seq_lib::lemma_concat_associative;
use crate::laws::{
    law_every_cipher_has_its_name, law_every_dev_type_has_its_name,
    law_every_remote_cert_tls_has_its_name, law_every_tls_cipher_has_its_name,
};
use crate::number::{decimal_text, lemma_decimal_text, spec_parse_u32, unsigned_digits};
use crate::parser::{
    after_keyword, spec_cipher, spec_config_type, spec_dev, spec_flag_line, spec_nobind,
    spec_number_line, spec_openvpn_config, spec_persist_key, spec_persist_tun, spec_remote_cert_tls,
    spec_resolv_retry, spec_tls_cipher, value_start, Outcome,
};
use crate::text::{
    digit1_spec, in_class, lemma_run_end_exact, lemma_tag_here, lemma_tag_mismatch, line_ending_spec,
    not_line_ending_spec, space1_spec, tag_spec, ByteClass, ErrorKind, LF, SP,
};

verus! {

broadcast use vstd::string::is_ascii_spec_bytes;

/// A line made of the keyword `kw`, one space, the value text `v` and a
/// line feed.
pub open spec fn keyed_text(kw: Seq<u8>, v: Seq<u8>) -> Seq<u8> {
    kw + seq![SP] + v + seq![LF]
}

/// The line holding only the keyword `kw` when `on`, nothing otherwise.
pub open spec fn flag_text(on: bool, kw: Seq<u8>) -> Seq<u8> {
    if on {
        kw + seq![LF]
    } else {
        Seq::empty()
    }
}

/// The text of a `resolv-retry` value.
pub open spec fn resolv_retry_text(r: ResolvRetry) -> Seq<u8> {
    match r {
        ResolvRetry::Infinite => "infinite".spec_bytes(),
        ResolvRetry::Seconds(n) => decimal_text(n as nat),
    }
}

/// The canonical text of configuration `c`.
pub open spec fn config_text(c: OpenVPNConfig) -> Seq<u8> {
    flag_text(c.config_type == ConfigType::Client, "client".spec_bytes())
    + (keyed_text("dev".spec_bytes(), c.dev.name())
    + (keyed_text("resolv-retry".spec_bytes(), resolv_retry_text(c.resolv_retry))
    + (flag_text(c.nobind, "nobind".spec_bytes())
    + (flag_text(c.persist_key, "persist-key".spec_bytes())
    + (flag_text(c.persist_tun, "persist-tun".spec_bytes())
    + (keyed_text("verb".spec_bytes(), decimal_text(c.verb as nat))
    + (keyed_text("remote-cert-tls".spec_bytes(), c.remote_cert_tls.name())
    + (keyed_text("ping".spec_bytes(), decimal_text(c.ping as nat))
    + (keyed_text("ping-restart".spec_bytes(), decimal_text(c.ping_restart as nat))
    + (keyed_text("sndbuf".spec_bytes(), decimal_text(c.sndbuf as nat))
    + (keyed_text("rcvbuf".spec_bytes(), decimal_text(c.rcvbuf as nat))
    + (keyed_text("cipher".spec_bytes(), c.cipher.name())
    + keyed_text("tls-cipher".spec_bytes(), c.tls_cipher.name())))))))))))))
}

/// A value text that a line can hold: not empty, not starting with a blank,
/// and without line breaks.
pub open spec fn plain_value(v: Seq<u8>) -> bool {
    &&& v.len() > 0
    &&& !in_class(ByteClass::Blank, v[0])
    &&& forall|j: int| 0 <= j < v.len() ==> in_class(ByteClass::InLine, #[trigger] v[j])
}

// ---------------------------------------------------------------------------
// Numbers

proof fn lemma_decimal_text_reads_back(n: nat)
    requires
        n <= u32::MAX,
    ensures
        spec_parse_u32(decimal_text(n)) == Some(n as u32),
        plain_value(decimal_text(n)),
{
    lemma_decimal_text(n);
    let d = decimal_text(n);
    assert(in_class(ByteClass::Digit, d[0]));
    assert(unsigned_digits(d) == d);
    assert forall|j: int| 0 <= j < d.len() implies in_class(ByteClass::InLine, #[trigger] d[j]) by {
        assert(in_class(ByteClass::Digit, d[j]));
    }
}

// ---------------------------------------------------------------------------
// Recognisers on canonical text

proof fn lemma_keyword_then_value(kw: Seq<u8>, v: Seq<u8>, r: Seq<u8>)
    requires
        plain_value(v),
    ensures
        after_keyword(keyed_text(kw, v) + r, kw) == Ok::<Seq<u8>, (Seq<u8>, ErrorKind)>(v + (seq![LF] + r)),
        value_start(keyed_text(kw, v) + r, kw) == v + (seq![LF] + r),
{
    let s = keyed_text(kw, v) + r;
    let s1 = seq![SP] + (v + (seq![LF] + r));
    assert(s =~= kw + s1);
    lemma_tag_here(kw, s1);
    lemma_run_end_exact(s1, 0, 1, ByteClass::Blank);
    assert(s1.skip(1) =~= v + (seq![LF] + r));
    assert(space1_spec(s1) == Ok::<(Seq<u8>, Seq<u8>), ErrorKind>((v + (seq![LF] + r), s1.take(1))));
}

proof fn lemma_line_ending_here(r: Seq<u8>)
    ensures
        line_ending_spec(seq![LF] + r) matches Ok((rest, _)) && rest == r,
{
    assert((seq![LF] + r).skip(1) =~= r);
}

proof fn lemma_free_text_here(v: Seq<u8>, r: Seq<u8>)
    requires
        plain_value(v),
    ensures
        not_line_ending_spec(v + (seq![LF] + r)) == Ok::<(Seq<u8>, Seq<u8>), ErrorKind>((seq![LF] + r, v)),
{
    let s = v + (seq![LF] + r);
    lemma_run_end_exact(s, 0, v.len() as int, ByteClass::InLine);
    assert(s.take(v.len() as int) =~= v);
    assert(s.skip(v.len() as int) =~= seq![LF] + r);
}

proof fn lemma_digits_here(n: nat, r: Seq<u8>)
    requires
        n <= u32::MAX,
    ensures
        digit1_spec(decimal_text(n) + (seq![LF] + r)) == Ok::<(Seq<u8>, Seq<u8>), ErrorKind>((seq![LF] + r, decimal_text(n))),
{
    let d = decimal_text(n);
    lemma_decimal_text(n);
    let s = d + (seq![LF] + r);
    lemma_run_end_exact(s, 0, d.len() as int, ByteClass::Digit);
    assert(s.take(d.len() as int) =~= d);
    assert(s.skip(d.len() as int) =~= seq![LF] + r);
}

// ---------------------------------------------------------------------------
// Lines

proof fn lemma_flag_present(kw: Seq<u8>, r: Seq<u8>)
    ensures
        spec_flag_line(flag_text(true, kw) + r, kw) == Outcome::Done(r, true),
{
    assert(flag_text(true, kw) + r =~= kw + (seq![LF] + r));
    lemma_tag_here(kw, seq![LF] + r);
    lemma_line_ending_here(r);
}

proof fn lemma_flag_absent(kw: Seq<u8>, r: Seq<u8>)
    requires
        tag_spec(r, kw) is Err,
    ensures
        spec_flag_line(flag_text(false, kw) + r, kw) == Outcome::Done(r, false),
{
    assert(flag_text(false, kw) + r =~= r);
}

proof fn lemma_number_line_here(kw: Seq<u8>, n: nat, r: Seq<u8>)
    requires
        n <= u32::MAX,
    ensures
        spec_number_line(keyed_text(kw, decimal_text(n)) + r, kw) == Outcome::Done(r, n as u32),
{
    lemma_decimal_text_reads_back(n);
    lemma_keyword_then_value(kw, decimal_text(n), r);
    lemma_digits_here(n, r);
    lemma_line_ending_here(r);
}

proof fn lemma_cipher_name_plain(c: Cipher)
    ensures
        plain_value(c.name()),
{
    match c {
        Cipher::NONE => {
            assert(plain_value("none".spec_bytes())) by {
                reveal_strlit("none");
                assert(vstd::string::is_ascii("none"));
            }
        },
        Cipher::AES_128_CBC => {
            assert(plain_value("AES-128-CBC".spec_bytes())) by {
                reveal_strlit("AES-128-CBC");
                assert(vstd::string::is_ascii("AES-128-CBC"));
            }
        },
        Cipher::AES_128_CFB => {
            assert(plain_value("AES-128-CFB".spec_bytes())) by {
                reveal_strlit("AES-128-CFB");
                assert(vstd::string::is_ascii("AES-128-CFB"));
            }
        },
        Cipher::AES_128_CFB1 => {
            assert(plain_value("AES-128-CFB1".spec_bytes())) by {
                reveal_strlit("AES-128-CFB1");
                assert(vstd::string::is_ascii("AES-128-CFB1"));
            }
        },
        Cipher::AES_128_CFB8 => {
            assert(plain_value("AES-128-CFB8".spec_bytes())) by {
                reveal_strlit("AES-128-CFB8");
                assert(vstd::string::is_ascii("AES-128-CFB8"));
            }
        },
        Cipher::AES_128_GCM => {
            assert(plain_value("AES-128-GCM".spec_bytes())) by {
                reveal_strlit("AES-128-GCM");
                assert(vstd::string::is_ascii("AES-128-GCM"));
            }
        },
        Cipher::AES_128_OFB => {
            assert(plain_value("AES-128-OFB".spec_bytes())) by {
                reveal_strlit("AES-128-OFB");
                assert(vstd::string::is_ascii("AES-128-OFB"));
            }
        },
        Cipher::AES_192_CBC => {
            assert(plain_value("AES-192-CBC".spec_bytes())) by {
                reveal_strlit("AES-192-CBC");
                assert(vstd::string::is_ascii("AES-192-CBC"));
            }
        },
        Cipher::AES_192_CFB => {
            assert(plain_value("AES-192-CFB".spec_bytes())) by {
                reveal_strlit("AES-192-CFB");
                assert(vstd::string::is_ascii("AES-192-CFB"));
            }
        },
        Cipher::AES_192_CFB1 => {
            assert(plain_value("AES-192-CFB1".spec_bytes())) by {
                reveal_strlit("AES-192-CFB1");
                assert(vstd::string::is_ascii("AES-192-CFB1"));
            }
        },
        Cipher::AES_192_CFB8 => {
            assert(plain_value("AES-192-CFB8".spec_bytes())) by {
                reveal_strlit("AES-192-CFB8");
                assert(vstd::string::is_ascii("AES-192-CFB8"));
            }
        },
        Cipher::AES_192_GCM => {
            assert(plain_value("AES-192-GCM".spec_bytes())) by {
                reveal_strlit("AES-192-GCM");
                assert(vstd::string::is_ascii("AES-192-GCM"));
            }
        },
        Cipher::AES_192_OFB => {
            assert(plain_value("AES-192-OFB".spec_bytes())) by {
                reveal_strlit("AES-192-OFB");
                assert(vstd::string::is_ascii("AES-192-OFB"));
            }
        },
        Cipher::AES_256_CBC => {
            assert(plain_value("AES-256-CBC".spec_bytes())) by {
                reveal_strlit("AES-256-CBC");
                assert(vstd::string::is_ascii("AES-256-CBC"));
            }
        },
        Cipher::AES_256_CFB => {
            assert(plain_value("AES-256-CFB".spec_bytes())) by {
                reveal_strlit("AES-256-CFB");
                assert(vstd::string::is_ascii("AES-256-CFB"));
            }
        },
        Cipher::AES_256_CFB1 => {
            assert(plain_value("AES-256-CFB1".spec_bytes())) by {
                reveal_strlit("AES-256-CFB1");
                assert(vstd::string::is_ascii("AES-256-CFB1"));
            }
        },
        Cipher::AES_256_CFB8 => {
            assert(plain_value("AES-256-CFB8".spec_bytes())) by {
                reveal_strlit("AES-256-CFB8");
                assert(vstd::string::is_ascii("AES-256-CFB8"));
            }
        },
        Cipher::AES_256_GCM => {
            assert(plain_value("AES-256-GCM".spec_bytes())) by {
                reveal_strlit("AES-256-GCM");
                assert(vstd::string::is_ascii("AES-256-GCM"));
            }
        },
        Cipher::AES_256_OFB => {
            assert(plain_value("AES-256-OFB".spec_bytes())) by {
                reveal_strlit("AES-256-OFB");
                assert(vstd::string::is_ascii("AES-256-OFB"));
            }
        },
    }
}

proof fn lemma_tls_cipher_name_plain(c: TLSCipher)
    ensures
        plain_value(c.name()),
{
    match c {
        TLSCipher::TLS_AES_256_GCM_SHA384 => {
            assert(plain_value("TLS_AES_256_GCM_SHA384".spec_bytes())) by {
                reveal_strlit("TLS_AES_256_GCM_SHA384");
                assert(vstd::string::is_ascii("TLS_AES_256_GCM_SHA384"));
            }
        },
        TLSCipher::TLS_CHACHA20_POLY1305_SHA256 => {
            assert(plain_value("TLS_CHACHA20_POLY1305_SHA256".spec_bytes())) by {
                reveal_strlit("TLS_CHACHA20_POLY1305_SHA256");
                assert(vstd::string::is_ascii("TLS_CHACHA20_POLY1305_SHA256"));
            }
        },
        TLSCipher::TLS_AES_128_GCM_SHA256 => {
            assert(plain_value("TLS_AES_128_GCM_SHA256".spec_bytes())) by {
                reveal_strlit("TLS_AES_128_GCM_SHA256");
                assert(vstd::string::is_ascii("TLS_AES_128_GCM_SHA256"));
            }
        },
        TLSCipher::TLS_ECDHE_ECDSA_WITH_AES_256_GCM_SHA384 => {
            assert(plain_value("TLS-ECDHE-ECDSA-WITH-AES-256-GCM-SHA384".spec_bytes())) by {
                reveal_strlit("TLS-ECDHE-ECDSA-WITH-AES-256-GCM-SHA384");
                assert(vstd::string::is_ascii("TLS-ECDHE-ECDSA-WITH-AES-256-GCM-SHA384"));
            }
        },
        TLSCipher::TLS_ECDHE_RSA_WITH_AES_256_GCM_SHA384 => {
            assert(plain_value("TLS-ECDHE-RSA-WITH-AES-256-GCM-SHA384".spec_bytes())) by {
                reveal_strlit("TLS-ECDHE-RSA-WITH-AES-256-GCM-SHA384");
                assert(vstd::string::is_ascii("TLS-ECDHE-RSA-WITH-AES-256-GCM-SHA384"));
            }
        },
        TLSCipher::TLS_DHE_RSA_WITH_AES_256_GCM_SHA384 => {
            assert(plain_value("TLS-DHE-RSA-WITH-AES-256-GCM-SHA384".spec_bytes())) by {
                reveal_strlit("TLS-DHE-RSA-WITH-AES-256-GCM-SHA384");
                assert(vstd::string::is_ascii("TLS-DHE-RSA-WITH-AES-256-GCM-SHA384"));
            }
        },
        TLSCipher::TLS_ECDHE_ECDSA_WITH_CHACHA20_POLY1305_SHA256 => {
            assert(plain_value("TLS-ECDHE-ECDSA-WITH-CHACHA20-POLY1305-SHA256".spec_bytes())) by {
                reveal_strlit("TLS-ECDHE-ECDSA-WITH-CHACHA20-POLY1305-SHA256");
                assert(vstd::string::is_ascii("TLS-ECDHE-ECDSA-WITH-CHACHA20-POLY1305-SHA256"));
            }
        },
        TLSCipher::TLS_ECDHE_RSA_WITH_CHACHA20_POLY1305_SHA256 => {
            assert(plain_value("TLS-ECDHE-RSA-WITH-CHACHA20-POLY1305-SHA256".spec_bytes())) by {
                reveal_strlit("TLS-ECDHE-RSA-WITH-CHACHA20-POLY1305-SHA256");
                assert(vstd::string::is_ascii("TLS-ECDHE-RSA-WITH-CHACHA20-POLY1305-SHA256"));
            }
        },
        TLSCipher::TLS_DHE_RSA_WITH_CHACHA20_POLY1305_SHA256 => {
            assert(plain_value("TLS-DHE-RSA-WITH-CHACHA20-POLY1305-SHA256".spec_bytes())) by {
                reveal_strlit("TLS-DHE-RSA-WITH-CHACHA20-POLY1305-SHA256");
                assert(vstd::string::is_ascii("TLS-DHE-RSA-WITH-CHACHA20-POLY1305-SHA256"));
            }
        },
        TLSCipher::TLS_ECDHE_ECDSA_WITH_AES_128_GCM_SHA256 => {
            assert(plain_value("TLS-ECDHE-ECDSA-WITH-AES-128-GCM-SHA256".spec_bytes())) by {
                reveal_strlit("TLS-ECDHE-ECDSA-WITH-AES-128-GCM-SHA256");
                assert(vstd::string::is_ascii("TLS-ECDHE-ECDSA-WITH-AES-128-GCM-SHA256"));
            }
        },
        TLSCipher::TLS_ECDHE_RSA_WITH_AES_128_GCM_SHA256 => {
            assert(plain_value("TLS-ECDHE-RSA-WITH-AES-128-GCM-SHA256".spec_bytes())) by {
                reveal_strlit("TLS-ECDHE-RSA-WITH-AES-128-GCM-SHA256");
                assert(vstd::string::is_ascii("TLS-ECDHE-RSA-WITH-AES-128-GCM-SHA256"));
            }
        },
        TLSCipher::TLS_DHE_RSA_WITH_AES_128_GCM_SHA256 => {
            assert(plain_value("TLS-DHE-RSA-WITH-AES-128-GCM-SHA256".spec_bytes())) by {
                reveal_strlit("TLS-DHE-RSA-WITH-AES-128-GCM-SHA256");
                assert(vstd::string::is_ascii("TLS-DHE-RSA-WITH-AES-128-GCM-SHA256"));
            }
        },
        TLSCipher::TLS_ECDHE_ECDSA_WITH_AES_256_CBC_SHA384 => {
            assert(plain_value("TLS-ECDHE-ECDSA-WITH-AES-256-CBC-SHA384".spec_bytes())) by {
                reveal_strlit("TLS-ECDHE-ECDSA-WITH-AES-256-CBC-SHA384");
                assert(vstd::string::is_ascii("TLS-ECDHE-ECDSA-WITH-AES-256-CBC-SHA384"));
            }
        },
        TLSCipher::TLS_ECDHE_RSA_WITH_AES_256_CBC_SHA384 => {
            assert(plain_value("TLS-ECDHE-RSA-WITH-AES-256-CBC-SHA384".spec_bytes())) by {
                reveal_strlit("TLS-ECDHE-RSA-WITH-AES-256-CBC-SHA384");
                assert(vstd::string::is_ascii("TLS-ECDHE-RSA-WITH-AES-256-CBC-SHA384"));
            }
        },
        TLSCipher::TLS_ECDHE_ECDSA_WITH_AES_128_CBC_SHA256 => {
            assert(plain_value("TLS-ECDHE-ECDSA-WITH-AES-128-CBC-SHA256".spec_bytes())) by {
                reveal_strlit("TLS-ECDHE-ECDSA-WITH-AES-128-CBC-SHA256");
                assert(vstd::string::is_ascii("TLS-ECDHE-ECDSA-WITH-AES-128-CBC-SHA256"));
            }
        },
        TLSCipher::TLS_ECDHE_RSA_WITH_AES_128_CBC_SHA256 => {
            assert(plain_value("TLS-ECDHE-RSA-WITH-AES-128-CBC-SHA256".spec_bytes())) by {
                reveal_strlit("TLS-ECDHE-RSA-WITH-AES-128-CBC-SHA256");
                assert(vstd::string::is_ascii("TLS-ECDHE-RSA-WITH-AES-128-CBC-SHA256"));
            }
        },
        TLSCipher::TLS_DHE_RSA_WITH_AES_128_CBC_SHA256 => {
            assert(plain_value("TLS-DHE-RSA-WITH-AES-128-CBC-SHA256".spec_bytes())) by {
                reveal_strlit("TLS-DHE-RSA-WITH-AES-128-CBC-SHA256");
                assert(vstd::string::is_ascii("TLS-DHE-RSA-WITH-AES-128-CBC-SHA256"));
            }
        },
        TLSCipher::TLS_ECDHE_ECDSA_WITH_AES_256_CBC_SHA => {
            assert(plain_value("TLS-ECDHE-ECDSA-WITH-AES-256-CBC-SHA".spec_bytes())) by {
                reveal_strlit("TLS-ECDHE-ECDSA-WITH-AES-256-CBC-SHA");
                assert(vstd::string::is_ascii("TLS-ECDHE-ECDSA-WITH-AES-256-CBC-SHA"));
            }
        },
        TLSCipher::TLS_ECDHE_RSA_WITH_AES_256_CBC_SHA => {
            assert(plain_value("TLS-ECDHE-RSA-WITH-AES-256-CBC-SHA".spec_bytes())) by {
                reveal_strlit("TLS-ECDHE-RSA-WITH-AES-256-CBC-SHA");
                assert(vstd::string::is_ascii("TLS-ECDHE-RSA-WITH-AES-256-CBC-SHA"));
            }
        },
        TLSCipher::TLS_DHE_RSA_WITH_AES_256_CBC_SHA => {
            assert(plain_value("TLS-DHE-RSA-WITH-AES-256-CBC-SHA".spec_bytes())) by {
                reveal_strlit("TLS-DHE-RSA-WITH-AES-256-CBC-SHA");
                assert(vstd::string::is_ascii("TLS-DHE-RSA-WITH-AES-256-CBC-SHA"));
            }
        },
        TLSCipher::TLS_ECDHE_ECDSA_WITH_AES_128_CBC_SHA => {
            assert(plain_value("TLS-ECDHE-ECDSA-WITH-AES-128-CBC-SHA".spec_bytes())) by {
                reveal_strlit("TLS-ECDHE-ECDSA-WITH-AES-128-CBC-SHA");
                assert(vstd::string::is_ascii("TLS-ECDHE-ECDSA-WITH-AES-128-CBC-SHA"));
            }
        },
        TLSCipher::TLS_ECDHE_RSA_WITH_AES_128_CBC_SHA => {
            assert(plain_value("TLS-ECDHE-RSA-WITH-AES-128-CBC-SHA".spec_bytes())) by {
                reveal_strlit("TLS-ECDHE-RSA-WITH-AES-128-CBC-SHA");
                assert(vstd::string::is_ascii("TLS-ECDHE-RSA-WITH-AES-128-CBC-SHA"));
            }
        },
        TLSCipher::TLS_DHE_RSA_WITH_AES_128_CBC_SHA => {
            assert(plain_value("TLS-DHE-RSA-WITH-AES-128-CBC-SHA".spec_bytes())) by {
                reveal_strlit("TLS-DHE-RSA-WITH-AES-128-CBC-SHA");
                assert(vstd::string::is_ascii("TLS-DHE-RSA-WITH-AES-128-CBC-SHA"));
            }
        },
    }
}

proof fn lemma_config_type_here(k: ConfigType, r: Seq<u8>)
    requires
        r.len() > 0,
        r[0] == 0x64,
    ensures
        spec_config_type(flag_text(k == ConfigType::Client, "client".spec_bytes()) + r) == Outcome::Done(r, k),
{
    reveal_strlit("client");
    assert(vstd::string::is_ascii("client"));
    if k == ConfigType::Client {
        lemma_flag_present("client".spec_bytes(), r);
    } else {
        lemma_tag_mismatch(r, "client".spec_bytes(), 0);
        lemma_flag_absent("client".spec_bytes(), r);
        assert(flag_text(false, "client".spec_bytes()) + r =~= r);
    }
}

proof fn lemma_dev_here(d: DevType, r: Seq<u8>)
    ensures
        spec_dev(keyed_text("dev".spec_bytes(), d.name()) + r) == Outcome::Done(r, d),
{
    reveal_strlit("tun");
    reveal_strlit("tap");
    assert(vstd::string::is_ascii("tun"));
    assert(vstd::string::is_ascii("tap"));
    law_every_dev_type_has_its_name(d);
    let v = d.name();
    assert(plain_value(v));
    lemma_keyword_then_value("dev".spec_bytes(), v, r);
    lemma_tag_here(v, seq![LF] + r);
    if d == DevType::Tap {
        lemma_tag_mismatch(v + (seq![LF] + r), "tun".spec_bytes(), 1);
    }
    lemma_line_ending_here(r);
}

proof fn lemma_remote_cert_tls_here(k: RemoteCertTLS, r: Seq<u8>)
    ensures
        spec_remote_cert_tls(keyed_text("remote-cert-tls".spec_bytes(), k.name()) + r) == Outcome::Done(r, k),
{
    reveal_strlit("client");
    reveal_strlit("server");
    assert(vstd::string::is_ascii("client"));
    assert(vstd::string::is_ascii("server"));
    law_every_remote_cert_tls_has_its_name(k);
    let v = k.name();
    assert(plain_value(v));
    lemma_keyword_then_value("remote-cert-tls".spec_bytes(), v, r);
    lemma_tag_here(v, seq![LF] + r);
    if k == RemoteCertTLS::Server {
        lemma_tag_mismatch(v + (seq![LF] + r), "client".spec_bytes(), 0);
    }
    lemma_line_ending_here(r);
}

proof fn lemma_resolv_retry_here(x: ResolvRetry, r: Seq<u8>)
    ensures
        spec_resolv_retry(keyed_text("resolv-retry".spec_bytes(), resolv_retry_text(x)) + r) == Outcome::Done(r, x),
{
    reveal_strlit("infinite");
    assert(vstd::string::is_ascii("infinite"));
    let v = resolv_retry_text(x);
    match x {
        ResolvRetry::Infinite => {
            assert(plain_value(v));
            lemma_keyword_then_value("resolv-retry".spec_bytes(), v, r);
            lemma_tag_here(v, seq![LF] + r);
        },
        ResolvRetry::Seconds(n) => {
            lemma_decimal_text_reads_back(n as nat);
            lemma_keyword_then_value("resolv-retry".spec_bytes(), v, r);
            lemma_tag_mismatch(v + (seq![LF] + r), "infinite".spec_bytes(), 0);
            lemma_digits_here(n as nat, r);
            assert(v[0] != "infinite".spec_bytes()[0]);
        },
    }
    lemma_line_ending_here(r);
}

proof fn lemma_cipher_here(c: Cipher, r: Seq<u8>)
    ensures
        spec_cipher(keyed_text("cipher".spec_bytes(), c.name()) + r) == Outcome::Done(r, c),
{
    lemma_cipher_name_plain(c);
    law_every_cipher_has_its_name(c);
    lemma_keyword_then_value("cipher".spec_bytes(), c.name(), r);
    lemma_free_text_here(c.name(), r);
    lemma_line_ending_here(r);
}

proof fn lemma_tls_cipher_here(c: TLSCipher, r: Seq<u8>)
    ensures
        spec_tls_cipher(keyed_text("tls-cipher".spec_bytes(), c.name()) + r) == Outcome::Done(r, c),
{
    lemma_tls_cipher_name_plain(c);
    law_every_tls_cipher_has_its_name(c);
    lemma_keyword_then_value("tls-cipher".spec_bytes(), c.name(), r);
    lemma_free_text_here(c.name(), r);
    lemma_line_ending_here(r);
}


proof fn lemma_flag_text_then(on: bool, kw: Seq<u8>, r: Seq<u8>)
    ensures
        flag_text(on, kw) + r == (if on { kw + (seq![LF] + r) } else { r }),
{
    if on {
        assert(flag_text(on, kw) + r =~= kw + (seq![LF] + r));
    } else {
        assert(flag_text(on, kw) + r =~= r);
    }
}

proof fn lemma_keyed_text_starts_with(kw: Seq<u8>, v: Seq<u8>, r: Seq<u8>, i: int)
    requires
        0 <= i < kw.len(),
    ensures
        (keyed_text(kw, v) + r)[i] == kw[i],
{
}

proof fn lemma_config_text_then(c: OpenVPNConfig, t: Seq<u8>)
    ensures
        config_text(c) + t
            == flag_text(c.config_type == ConfigType::Client, "client".spec_bytes())
            + (keyed_text("dev".spec_bytes(), c.dev.name())
            + (keyed_text("resolv-retry".spec_bytes(), resolv_retry_text(c.resolv_retry))
            + (flag_text(c.nobind, "nobind".spec_bytes())
            + (flag_text(c.persist_key, "persist-key".spec_bytes())
            + (flag_text(c.persist_tun, "persist-tun".spec_bytes())
            + (keyed_text("verb".spec_bytes(), decimal_text(c.verb as nat))
            + (keyed_text("remote-cert-tls".spec_bytes(), c.remote_cert_tls.name())
            + (keyed_text("ping".spec_bytes(), decimal_text(c.ping as nat))
            + (keyed_text("ping-restart".spec_bytes(), decimal_text(c.ping_restart as nat))
            + (keyed_text("sndbuf".spec_bytes(), decimal_text(c.sndbuf as nat))
            + (keyed_text("rcvbuf".spec_bytes(), decimal_text(c.rcvbuf as nat))
            + (keyed_text("cipher".spec_bytes(), c.cipher.name())
            + (keyed_text("tls-cipher".spec_bytes(), c.tls_cipher.name()) + t))))))))))))),
{
    let a14 = keyed_text("tls-cipher".spec_bytes(), c.tls_cipher.name());
    let a13 = keyed_text("cipher".spec_bytes(), c.cipher.name());
    let a12 = keyed_text("rcvbuf".spec_bytes(), decimal_text(c.rcvbuf as nat));
    let a11 = keyed_text("sndbuf".spec_bytes(), decimal_text(c.sndbuf as nat));
    let a10 = keyed_text("ping-restart".spec_bytes(), decimal_text(c.ping_restart as nat));
    let a9 = keyed_text("ping".spec_bytes(), decimal_text(c.ping as nat));
    let a8 = keyed_text("remote-cert-tls".spec_bytes(), c.remote_cert_tls.name());
    let a7 = keyed_text("verb".spec_bytes(), decimal_text(c.verb as nat));
    let a6 = flag_text(c.persist_tun, "persist-tun".spec_bytes());
    let a5 = flag_text(c.persist_key, "persist-key".spec_bytes());
    let a4 = flag_text(c.nobind, "nobind".spec_bytes());
    let a3 = keyed_text("resolv-retry".spec_bytes(), resolv_retry_text(c.resolv_retry));
    let a2 = keyed_text("dev".spec_bytes(), c.dev.name());
    let a1 = flag_text(c.config_type == ConfigType::Client, "client".spec_bytes());
    let b13 = a13 + a14;
    let b12 = a12 + b13;
    let b11 = a11 + b12;
    let b10 = a10 + b11;
    let b9 = a9 + b10;
    let b8 = a8 + b9;
    let b7 = a7 + b8;
    let b6 = a6 + b7;
    let b5 = a5 + b6;
    let b4 = a4 + b5;
    let b3 = a3 + b4;
    let b2 = a2 + b3;
    lemma_concat_associative(a1, b2, t);
    lemma_concat_associative(a2, b3, t);
    lemma_concat_associative(a3, b4, t);
    lemma_concat_associative(a4, b5, t);
    lemma_concat_associative(a5, b6, t);
    lemma_concat_associative(a6, b7, t);
    lemma_concat_associative(a7, b8, t);
    lemma_concat_associative(a8, b9, t);
    lemma_concat_associative(a9, b10, t);
    lemma_concat_associative(a10, b11, t);
    lemma_concat_associative(a11, b12, t);
    lemma_concat_associative(a12, b13, t);
    lemma_concat_associative(a13, a14, t);
}

proof fn lemma_keyword_first_bytes()
    ensures
        "dev".spec_bytes().len() > 0,
        "dev".spec_bytes()[0] == 0x64,
        "verb".spec_bytes().len() > 0,
        "verb".spec_bytes()[0] == 0x76,
{
    reveal_strlit("dev");
    reveal_strlit("verb");
    assert(vstd::string::is_ascii("dev"));
    assert(vstd::string::is_ascii("verb"));
}

/// The three optional flag lines, in front of text that starts with `v`.
proof fn lemma_flags_here(nobind: bool, persist_key: bool, persist_tun: bool, r: Seq<u8>)
    requires
        r.len() > 0,
        r[0] == 0x76,
    ensures
        ({
            let r6 = flag_text(persist_tun, "persist-tun".spec_bytes()) + r;
            let r5 = flag_text(persist_key, "persist-key".spec_bytes()) + r6;
            let r4 = flag_text(nobind, "nobind".spec_bytes()) + r5;
            &&& spec_nobind(r4) == Outcome::Done(r5, nobind)
            &&& spec_persist_key(r5) == Outcome::Done(r6, persist_key)
            &&& spec_persist_tun(r6) == Outcome::Done(r, persist_tun)
        }),
{
    reveal_strlit("nobind");
    reveal_strlit("persist-key");
    reveal_strlit("persist-tun");
    assert(vstd::string::is_ascii("nobind"));
    assert(vstd::string::is_ascii("persist-key"));
    assert(vstd::string::is_ascii("persist-tun"));
    let nb = "nobind".spec_bytes();
    let pk = "persist-key".spec_bytes();
    let pt = "persist-tun".spec_bytes();
    let r6 = flag_text(persist_tun, pt) + r;
    let r5 = flag_text(persist_key, pk) + r6;
    lemma_flag_text_then(persist_tun, pt, r);
    lemma_flag_text_then(persist_key, pk, r6);
    if nobind {
        lemma_flag_present(nb, r5);
    } else {
        lemma_tag_mismatch(r5, nb, 0);
        lemma_flag_absent(nb, r5);
    }
    if persist_key {
        lemma_flag_present(pk, r6);
    } else {
        if persist_tun {
            lemma_tag_mismatch(r6, pk, 8);
        } else {
            lemma_tag_mismatch(r6, pk, 0);
        }
        lemma_flag_absent(pk, r6);
    }
    if persist_tun {
        lemma_flag_present(pt, r);
    } else {
        lemma_tag_mismatch(r, pt, 0);
        lemma_flag_absent(pt, r);
    }
}

/// Every configuration reads back from its canonical text, whatever text
/// follows it: reading stops right after the last line of the canonical
/// text and gives back exactly the text that follows.
#[verifier::rlimit(40)]
pub proof fn law_canonical_text_reads_back(c: OpenVPNConfig, t: Seq<u8>)
    ensures
        spec_openvpn_config(config_text(c) + t) == Outcome::Done(t, c),
{
    let r14 = keyed_text("tls-cipher".spec_bytes(), c.tls_cipher.name()) + t;
    let r13 = keyed_text("cipher".spec_bytes(), c.cipher.name()) + r14;
    let r12 = keyed_text("rcvbuf".spec_bytes(), decimal_text(c.rcvbuf as nat)) + r13;
    let r11 = keyed_text("sndbuf".spec_bytes(), decimal_text(c.sndbuf as nat)) + r12;
    let r10 = keyed_text("ping-restart".spec_bytes(), decimal_text(c.ping_restart as nat)) + r11;
    let r9 = keyed_text("ping".spec_bytes(), decimal_text(c.ping as nat)) + r10;
    let r8 = keyed_text("remote-cert-tls".spec_bytes(), c.remote_cert_tls.name()) + r9;
    let r7 = keyed_text("verb".spec_bytes(), decimal_text(c.verb as nat)) + r8;
    let r6 = flag_text(c.persist_tun, "persist-tun".spec_bytes()) + r7;
    let r5 = flag_text(c.persist_key, "persist-key".spec_bytes()) + r6;
    let r4 = flag_text(c.nobind, "nobind".spec_bytes()) + r5;
    let r3 = keyed_text("resolv-retry".spec_bytes(), resolv_retry_text(c.resolv_retry)) + r4;
    let r2 = keyed_text("dev".spec_bytes(), c.dev.name()) + r3;
    let r1 = flag_text(c.config_type == ConfigType::Client, "client".spec_bytes()) + r2;
    lemma_config_text_then(c, t);
    assert(config_text(c) + t == r1);

    lemma_keyword_first_bytes();
    lemma_keyed_text_starts_with("dev".spec_bytes(), c.dev.name(), r3, 0);
    lemma_keyed_text_starts_with("verb".spec_bytes(), decimal_text(c.verb as nat), r8, 0);
    lemma_config_type_here(c.config_type, r2);
    lemma_dev_here(c.dev, r3);
    lemma_resolv_retry_here(c.resolv_retry, r4);
    lemma_flags_here(c.nobind, c.persist_key, c.persist_tun, r7);
    lemma_number_line_here("verb".spec_bytes(), c.verb as nat, r8);
    lemma_remote_cert_tls_here(c.remote_cert_tls, r9);
    lemma_number_line_here("ping".spec_bytes(), c.ping as nat, r10);
    lemma_number_line_here("ping-restart".spec_bytes(), c.ping_restart as nat, r11);
    lemma_number_line_here("sndbuf".spec_bytes(), c.sndbuf as nat, r12);
    lemma_number_line_here("rcvbuf".spec_bytes(), c.rcvbuf as nat, r13);
    lemma_cipher_here(c.cipher, r14);
    lemma_tls_cipher_here(c.tls_cipher, t);
}

} // verus!
