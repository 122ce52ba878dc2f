//! Properties of the configuration grammar and of the name tables as a whole.
use vstd::prelude::*;
use vstd::string::StringSliceAdditionalSpecFns;
use crate::config::{Cipher, DevType, RemoteCertTLS, ResolvRetry, TLSCipher};
use crate::number::{
    decimal_text, law_u32_numeral_reads_back, law_u32_read_only_from_its_numeral, zeros, PLUS,
};
use crate::parser::{
    after_keyword, either, keyed_line, number_spec, spec_cipher, spec_config_type, spec_dev,
    spec_flag_line, spec_nobind, spec_number_line, spec_openvpn_config, spec_persist_key,
    spec_persist_tun, spec_ping, spec_ping_restart, spec_rcvbuf, spec_remote_cert_tls,
    spec_resolv_retry, spec_sndbuf, spec_tls_cipher, spec_verb, value_start, value_then_line_end,
    Outcome, PanicCause,
};
use crate::text::{
    digit1_spec, lemma_run_end_bounds, line_ending_spec, not_line_ending_spec, tag_spec, ByteClass,
    Lexed, LF,
};

verus! {

broadcast use vstd::string::is_ascii_spec_bytes;

/// `rest` is what is left of `s` after a prefix of it.
pub open spec fn is_suffix(s: Seq<u8>, rest: Seq<u8>) -> bool {
    &&& rest.len() <= s.len()
    &&& rest == s.skip(s.len() - rest.len())
}

/// `rest` is what is left of `s` after a non-empty prefix of it that ends
/// with a line feed.
pub open spec fn after_full_lines(s: Seq<u8>, rest: Seq<u8>) -> bool {
    &&& rest.len() < s.len()
    &&& rest == s.skip(s.len() - rest.len())
    &&& s[s.len() - rest.len() - 1] == LF
}

proof fn lemma_suffix_suffix(a: Seq<u8>, b: Seq<u8>, c: Seq<u8>)
    requires
        is_suffix(a, b),
        is_suffix(b, c),
    ensures
        is_suffix(a, c),
{
    assert(c =~= a.skip(a.len() - c.len()));
}

proof fn lemma_suffix_lines(a: Seq<u8>, b: Seq<u8>, c: Seq<u8>)
    requires
        is_suffix(a, b),
        after_full_lines(b, c),
    ensures
        after_full_lines(a, c),
{
    assert(c =~= a.skip(a.len() - c.len()));
    assert(a[a.len() - c.len() - 1] == b[b.len() - c.len() - 1]);
}

proof fn lemma_lines_suffix(a: Seq<u8>, b: Seq<u8>, c: Seq<u8>)
    requires
        after_full_lines(a, b),
        is_suffix(b, c),
    ensures
        is_suffix(a, c),
{
    assert(c =~= a.skip(a.len() - c.len()));
}

proof fn lemma_line_ending_ends_line(s: Seq<u8>)
    ensures
        line_ending_spec(s) matches Ok((r, _)) ==> after_full_lines(s, r),
{
}

proof fn lemma_tag_suffix(s: Seq<u8>, t: Seq<u8>)
    ensures
        tag_spec(s, t) matches Ok((r, _)) ==> is_suffix(s, r),
{
}

proof fn lemma_after_keyword_suffix(s: Seq<u8>, kw: Seq<u8>)
    ensures
        after_keyword(s, kw) matches Ok(v) ==> is_suffix(s, v),
{
    if let Ok((s1, _)) = tag_spec(s, kw) {
        lemma_run_end_bounds(s1, 0, ByteClass::Blank);
        if let Ok(v) = after_keyword(s, kw) {
            lemma_suffix_suffix(s, s1, v);
        }
    }
}

proof fn lemma_value_line_ends_line(v: Seq<u8>, value: Lexed)
    requires
        value matches Ok((r, _)) ==> is_suffix(v, r),
    ensures
        value_then_line_end(v, value) matches Ok((t, _)) ==> after_full_lines(v, t),
{
    if let Ok((r, _)) = value {
        lemma_line_ending_ends_line(r);
        if let Ok((t, _)) = value_then_line_end(v, value) {
            lemma_suffix_lines(v, r, t);
        }
    }
}

proof fn lemma_keyed_line_ends_line(s: Seq<u8>, kw: Seq<u8>, value: Lexed)
    requires
        value matches Ok((r, _)) ==> is_suffix(value_start(s, kw), r),
    ensures
        keyed_line(s, kw, value) matches Ok((t, _)) ==> after_full_lines(s, t),
{
    lemma_after_keyword_suffix(s, kw);
    if let Ok(v) = after_keyword(s, kw) {
        lemma_value_line_ends_line(v, value);
        if let Ok((t, _)) = keyed_line(s, kw, value) {
            lemma_suffix_lines(s, v, t);
        }
    }
}

proof fn lemma_flag_line_suffix(s: Seq<u8>, kw: Seq<u8>)
    ensures
        spec_flag_line(s, kw) matches Outcome::Done(r, _) ==> is_suffix(s, r),
{
    if let Ok((s1, _)) = tag_spec(s, kw) {
        lemma_line_ending_ends_line(s1);
        if let Ok((s2, _)) = line_ending_spec(s1) {
            lemma_suffix_lines(s, s1, s2);
        }
    }
    assert(s =~= s.skip(0));
}

proof fn lemma_number_line_ends_line(s: Seq<u8>, kw: Seq<u8>)
    ensures
        spec_number_line(s, kw) matches Outcome::Done(r, _) ==> after_full_lines(s, r),
{
    lemma_after_keyword_suffix(s, kw);
    if let Ok(v) = after_keyword(s, kw) {
        lemma_run_end_bounds(v, 0, ByteClass::Digit);
        if let Ok((r, _)) = number_spec(v) {
            lemma_line_ending_ends_line(r);
            if let Ok((t, _)) = line_ending_spec(r) {
                lemma_suffix_lines(v, r, t);
                lemma_suffix_lines(s, v, t);
            }
        }
    }
}

/// Each value lexer leaves a suffix of the bytes it reads.
proof fn lemma_lexers_suffix(v: Seq<u8>, t: Seq<u8>)
    ensures
        tag_spec(v, t) matches Ok((r, _)) ==> is_suffix(v, r),
        digit1_spec(v) matches Ok((r, _)) ==> is_suffix(v, r),
        not_line_ending_spec(v) matches Ok((r, _)) ==> is_suffix(v, r),
{
    lemma_run_end_bounds(v, 0, ByteClass::Digit);
    lemma_run_end_bounds(v, 0, ByteClass::InLine);
}

proof fn lemma_config_type_suffix(s: Seq<u8>)
    ensures
        spec_config_type(s) matches Outcome::Done(r, _) ==> is_suffix(s, r),
{
    lemma_flag_line_suffix(s, "client".spec_bytes());
    assert(s =~= s.skip(0));
}

proof fn lemma_nobind_suffix(s: Seq<u8>)
    ensures
        spec_nobind(s) matches Outcome::Done(r, _) ==> is_suffix(s, r),
{
    lemma_flag_line_suffix(s, "nobind".spec_bytes());
}

proof fn lemma_persist_key_suffix(s: Seq<u8>)
    ensures
        spec_persist_key(s) matches Outcome::Done(r, _) ==> is_suffix(s, r),
{
    lemma_flag_line_suffix(s, "persist-key".spec_bytes());
}

proof fn lemma_persist_tun_suffix(s: Seq<u8>)
    ensures
        spec_persist_tun(s) matches Outcome::Done(r, _) ==> is_suffix(s, r),
{
    lemma_flag_line_suffix(s, "persist-tun".spec_bytes());
}

proof fn lemma_two_tags_line(s: Seq<u8>, kw: Seq<u8>, a: Seq<u8>, b: Seq<u8>)
    ensures
        ({
            let v = value_start(s, kw);
            keyed_line(s, kw, either(tag_spec(v, a), tag_spec(v, b))) matches Ok((t, _)) ==> after_full_lines(s, t)
        }),
{
    let v = value_start(s, kw);
    lemma_lexers_suffix(v, a);
    lemma_lexers_suffix(v, b);
    lemma_keyed_line_ends_line(s, kw, either(tag_spec(v, a), tag_spec(v, b)));
}

proof fn lemma_dev_ends_line(s: Seq<u8>)
    ensures
        spec_dev(s) matches Outcome::Done(r, _) ==> after_full_lines(s, r),
{
    lemma_two_tags_line(s, "dev".spec_bytes(), "tun".spec_bytes(), "tap".spec_bytes());
}

proof fn lemma_remote_cert_tls_ends_line(s: Seq<u8>)
    ensures
        spec_remote_cert_tls(s) matches Outcome::Done(r, _) ==> after_full_lines(s, r),
{
    lemma_two_tags_line(s, "remote-cert-tls".spec_bytes(), "client".spec_bytes(), "server".spec_bytes());
}

proof fn lemma_resolv_retry_ends_line(s: Seq<u8>)
    ensures
        spec_resolv_retry(s) matches Outcome::Done(r, _) ==> after_full_lines(s, r),
{
    let kw = "resolv-retry".spec_bytes();
    let v = value_start(s, kw);
    lemma_lexers_suffix(v, "infinite".spec_bytes());
    lemma_keyed_line_ends_line(s, kw, either(tag_spec(v, "infinite".spec_bytes()), digit1_spec(v)));
}

proof fn lemma_free_text_line(s: Seq<u8>, kw: Seq<u8>)
    ensures
        keyed_line(s, kw, not_line_ending_spec(value_start(s, kw))) matches Ok((t, _)) ==> after_full_lines(s, t),
{
    let v = value_start(s, kw);
    lemma_lexers_suffix(v, kw);
    lemma_keyed_line_ends_line(s, kw, not_line_ending_spec(v));
}

proof fn lemma_cipher_ends_line(s: Seq<u8>)
    ensures
        spec_cipher(s) matches Outcome::Done(r, _) ==> after_full_lines(s, r),
{
    lemma_free_text_line(s, "cipher".spec_bytes());
}

proof fn lemma_tls_cipher_ends_line(s: Seq<u8>)
    ensures
        spec_tls_cipher(s) matches Outcome::Done(r, _) ==> after_full_lines(s, r),
{
    lemma_free_text_line(s, "tls-cipher".spec_bytes());
}

proof fn lemma_verb_ends_line(s: Seq<u8>)
    ensures
        spec_verb(s) matches Outcome::Done(r, _) ==> after_full_lines(s, r),
{
    lemma_number_line_ends_line(s, "verb".spec_bytes());
}

proof fn lemma_ping_ends_line(s: Seq<u8>)
    ensures
        spec_ping(s) matches Outcome::Done(r, _) ==> after_full_lines(s, r),
{
    lemma_number_line_ends_line(s, "ping".spec_bytes());
}

proof fn lemma_ping_restart_ends_line(s: Seq<u8>)
    ensures
        spec_ping_restart(s) matches Outcome::Done(r, _) ==> after_full_lines(s, r),
{
    lemma_number_line_ends_line(s, "ping-restart".spec_bytes());
}

proof fn lemma_sndbuf_ends_line(s: Seq<u8>)
    ensures
        spec_sndbuf(s) matches Outcome::Done(r, _) ==> after_full_lines(s, r),
{
    lemma_number_line_ends_line(s, "sndbuf".spec_bytes());
}

proof fn lemma_rcvbuf_ends_line(s: Seq<u8>)
    ensures
        spec_rcvbuf(s) matches Outcome::Done(r, _) ==> after_full_lines(s, r),
{
    lemma_number_line_ends_line(s, "rcvbuf".spec_bytes());
}

/// Reading a configuration consumes whole lines from the front of the
/// text: when it succeeds, the text is what was read followed by the
/// remainder that is given back, and what was read is not empty and ends
/// with a line feed.
pub proof fn law_config_reads_whole_lines(s: Seq<u8>)
    ensures
        spec_openvpn_config(s) matches Outcome::Done(rest, _) ==> after_full_lines(s, rest),
{
    assert(s =~= s.skip(0));
    if let Outcome::Done(s1, _) = spec_config_type(s) {
        lemma_config_type_suffix(s);
        lemma_suffix_suffix(s, s, s1);
        if let Outcome::Done(s2, _) = spec_dev(s1) {
            lemma_dev_ends_line(s1);
            lemma_suffix_lines(s, s1, s2);
            if let Outcome::Done(s3, _) = spec_resolv_retry(s2) {
                lemma_resolv_retry_ends_line(s2);
                lemma_suffix_lines(s, s2, s3);
                if let Outcome::Done(s4, _) = spec_nobind(s3) {
                    lemma_nobind_suffix(s3);
                    lemma_suffix_suffix(s, s3, s4);
                    if let Outcome::Done(s5, _) = spec_persist_key(s4) {
                        lemma_persist_key_suffix(s4);
                        lemma_suffix_suffix(s, s4, s5);
                        if let Outcome::Done(s6, _) = spec_persist_tun(s5) {
                            lemma_persist_tun_suffix(s5);
                            lemma_suffix_suffix(s, s5, s6);
                            if let Outcome::Done(s7, _) = spec_verb(s6) {
                                lemma_verb_ends_line(s6);
                                lemma_suffix_lines(s, s6, s7);
                                if let Outcome::Done(s8, _) = spec_remote_cert_tls(s7) {
                                    lemma_remote_cert_tls_ends_line(s7);
                                    lemma_suffix_lines(s, s7, s8);
                                    if let Outcome::Done(s9, _) = spec_ping(s8) {
                                        lemma_ping_ends_line(s8);
                                        lemma_suffix_lines(s, s8, s9);
                                        if let Outcome::Done(s10, _) = spec_ping_restart(s9) {
                                            lemma_ping_restart_ends_line(s9);
                                            lemma_suffix_lines(s, s9, s10);
                                            if let Outcome::Done(s11, _) = spec_sndbuf(s10) {
                                                lemma_sndbuf_ends_line(s10);
                                                lemma_suffix_lines(s, s10, s11);
                                                if let Outcome::Done(s12, _) = spec_rcvbuf(s11) {
                                                    lemma_rcvbuf_ends_line(s11);
                                                    lemma_suffix_lines(s, s11, s12);
                                                    if let Outcome::Done(s13, _) = spec_cipher(s12) {
                                                        lemma_cipher_ends_line(s12);
                                                        lemma_suffix_lines(s, s12, s13);
                                                        if let Outcome::Done(s14, _) = spec_tls_cipher(s13) {
                                                            lemma_tls_cipher_ends_line(s13);
                                                            lemma_suffix_lines(s, s13, s14);
                                                        }
                                                    }
                                                }
                                            }
                                        }
                                    }
                                }
                            }
                        }
                    }
                }
            }
        }
    }
}

/// The `dev` and `remote-cert-tls` values always have a conversion: the
/// grammar lets through only the names that the conversion knows.
pub proof fn law_dev_and_remote_cert_tls_always_convert(s: Seq<u8>)
    ensures
        !(spec_dev(s) is Panicked),
        !(spec_remote_cert_tls(s) is Panicked),
{
    let v = value_start(s, "dev".spec_bytes());
    let w = value_start(s, "remote-cert-tls".spec_bytes());
    assert(tag_spec(v, "tun".spec_bytes()) matches Ok((_, m)) ==> m == "tun".spec_bytes());
    assert(tag_spec(v, "tap".spec_bytes()) matches Ok((_, m)) ==> m == "tap".spec_bytes());
    assert(tag_spec(w, "client".spec_bytes()) matches Ok((_, m)) ==> m == "client".spec_bytes());
    assert(tag_spec(w, "server".spec_bytes()) matches Ok((_, m)) ==> m == "server".spec_bytes());
}

/// Reading a whole configuration stops for want of a conversion only at the
/// `resolv-retry`, `cipher` or `tls-cipher` value.
pub proof fn law_config_panics_only_on_free_values(s: Seq<u8>)
    ensures
        spec_openvpn_config(s) matches Outcome::Panicked(c) ==> (c == PanicCause::ResolvRetry
            || c == PanicCause::Cipher || c == PanicCause::TlsCipher),
{
    if let Outcome::Done(s1, _) = spec_config_type(s) {
        law_dev_and_remote_cert_tls_always_convert(s1);
        if let Outcome::Done(s2, _) = spec_dev(s1) {
            if let Outcome::Done(s3, _) = spec_resolv_retry(s2) {
                if let Outcome::Done(s4, _) = spec_nobind(s3) {
                    if let Outcome::Done(s5, _) = spec_persist_key(s4) {
                        if let Outcome::Done(s6, _) = spec_persist_tun(s5) {
                            if let Outcome::Done(s7, _) = spec_verb(s6) {
                                law_dev_and_remote_cert_tls_always_convert(s7);
                                if let Outcome::Done(s8, _) = spec_remote_cert_tls(s7) {
                                    if let Outcome::Done(s9, _) = spec_ping(s8) {
                                        if let Outcome::Done(s10, _) = spec_ping_restart(s9) {
                                            if let Outcome::Done(s11, _) = spec_sndbuf(s10) {
                                                if let Outcome::Done(s12, _) = spec_rcvbuf(s11) {
                                                    if let Outcome::Done(s13, _) = spec_cipher(s12) {
                                                        if let Outcome::Done(s14, _) = spec_tls_cipher(s13) {
                                                        }
                                                    }
                                                }
                                            }
                                        }
                                    }
                                }
                            }
                        }
                    }
                }
            }
        }
    }
}

/// Every device type has a name, and that name converts back to it.
pub proof fn law_every_dev_type_has_its_name(d: DevType)
    ensures
        DevType::named(d.name()) == Some(d),
{
    reveal_strlit("tun");
    reveal_strlit("tap");
    assert(vstd::string::is_ascii("tun"));
    assert(vstd::string::is_ascii("tap"));
    assert("tap".spec_bytes()[1] != "tun".spec_bytes()[1]);
}

/// Every certificate kind has a name, and that name converts back to it.
pub proof fn law_every_remote_cert_tls_has_its_name(k: RemoteCertTLS)
    ensures
        RemoteCertTLS::named(k.name()) == Some(k),
{
    reveal_strlit("client");
    reveal_strlit("server");
    assert(vstd::string::is_ascii("client"));
    assert(vstd::string::is_ascii("server"));
    assert("server".spec_bytes()[0] != "client".spec_bytes()[0]);
}

/// Byte `i` of `b`, or zero past its end.
spec fn byte_at(b: Seq<u8>, i: int) -> u8 {
    if 0 <= i < b.len() {
        b[i]
    } else {
        0
    }
}

/// What tells the cipher names apart: the length and a few bytes.
spec fn cipher_fingerprint(b: Seq<u8>) -> (nat, u8, u8, u8, u8)
{
    (b.len(), byte_at(b, 5), byte_at(b, 8), byte_at(b, 9), byte_at(b, 11))
}

/// The tell-tale bytes of every cipher name.
proof fn lemma_cipher_fingerprints()
    ensures
        cipher_fingerprint("none".spec_bytes()) == (4nat, 0u8, 0u8, 0u8, 0u8),
        cipher_fingerprint("AES-128-CBC".spec_bytes()) == (11nat, 50u8, 67u8, 66u8, 0u8),
        cipher_fingerprint("AES-128-CFB".spec_bytes()) == (11nat, 50u8, 67u8, 70u8, 0u8),
        cipher_fingerprint("AES-128-CFB1".spec_bytes()) == (12nat, 50u8, 67u8, 70u8, 49u8),
        cipher_fingerprint("AES-128-CFB8".spec_bytes()) == (12nat, 50u8, 67u8, 70u8, 56u8),
        cipher_fingerprint("AES-128-GCM".spec_bytes()) == (11nat, 50u8, 71u8, 67u8, 0u8),
        cipher_fingerprint("AES-128-OFB".spec_bytes()) == (11nat, 50u8, 79u8, 70u8, 0u8),
        cipher_fingerprint("AES-192-CBC".spec_bytes()) == (11nat, 57u8, 67u8, 66u8, 0u8),
        cipher_fingerprint("AES-192-CFB".spec_bytes()) == (11nat, 57u8, 67u8, 70u8, 0u8),
        cipher_fingerprint("AES-192-CFB1".spec_bytes()) == (12nat, 57u8, 67u8, 70u8, 49u8),
        cipher_fingerprint("AES-192-CFB8".spec_bytes()) == (12nat, 57u8, 67u8, 70u8, 56u8),
        cipher_fingerprint("AES-192-GCM".spec_bytes()) == (11nat, 57u8, 71u8, 67u8, 0u8),
        cipher_fingerprint("AES-192-OFB".spec_bytes()) == (11nat, 57u8, 79u8, 70u8, 0u8),
        cipher_fingerprint("AES-256-CBC".spec_bytes()) == (11nat, 53u8, 67u8, 66u8, 0u8),
        cipher_fingerprint("AES-256-CFB".spec_bytes()) == (11nat, 53u8, 67u8, 70u8, 0u8),
        cipher_fingerprint("AES-256-CFB1".spec_bytes()) == (12nat, 53u8, 67u8, 70u8, 49u8),
        cipher_fingerprint("AES-256-CFB8".spec_bytes()) == (12nat, 53u8, 67u8, 70u8, 56u8),
        cipher_fingerprint("AES-256-GCM".spec_bytes()) == (11nat, 53u8, 71u8, 67u8, 0u8),
        cipher_fingerprint("AES-256-OFB".spec_bytes()) == (11nat, 53u8, 79u8, 70u8, 0u8),
{
    assert(cipher_fingerprint("none".spec_bytes()) == (4nat, 0u8, 0u8, 0u8, 0u8)) by {
        reveal_strlit("none");
        assert(vstd::string::is_ascii("none"));
    }
    assert(cipher_fingerprint("AES-128-CBC".spec_bytes()) == (11nat, 50u8, 67u8, 66u8, 0u8)) by {
        reveal_strlit("AES-128-CBC");
        assert(vstd::string::is_ascii("AES-128-CBC"));
    }
    assert(cipher_fingerprint("AES-128-CFB".spec_bytes()) == (11nat, 50u8, 67u8, 70u8, 0u8)) by {
        reveal_strlit("AES-128-CFB");
        assert(vstd::string::is_ascii("AES-128-CFB"));
    }
    assert(cipher_fingerprint("AES-128-CFB1".spec_bytes()) == (12nat, 50u8, 67u8, 70u8, 49u8)) by {
        reveal_strlit("AES-128-CFB1");
        assert(vstd::string::is_ascii("AES-128-CFB1"));
    }
    assert(cipher_fingerprint("AES-128-CFB8".spec_bytes()) == (12nat, 50u8, 67u8, 70u8, 56u8)) by {
        reveal_strlit("AES-128-CFB8");
        assert(vstd::string::is_ascii("AES-128-CFB8"));
    }
    assert(cipher_fingerprint("AES-128-GCM".spec_bytes()) == (11nat, 50u8, 71u8, 67u8, 0u8)) by {
        reveal_strlit("AES-128-GCM");
        assert(vstd::string::is_ascii("AES-128-GCM"));
    }
    assert(cipher_fingerprint("AES-128-OFB".spec_bytes()) == (11nat, 50u8, 79u8, 70u8, 0u8)) by {
        reveal_strlit("AES-128-OFB");
        assert(vstd::string::is_ascii("AES-128-OFB"));
    }
    assert(cipher_fingerprint("AES-192-CBC".spec_bytes()) == (11nat, 57u8, 67u8, 66u8, 0u8)) by {
        reveal_strlit("AES-192-CBC");
        assert(vstd::string::is_ascii("AES-192-CBC"));
    }
    assert(cipher_fingerprint("AES-192-CFB".spec_bytes()) == (11nat, 57u8, 67u8, 70u8, 0u8)) by {
        reveal_strlit("AES-192-CFB");
        assert(vstd::string::is_ascii("AES-192-CFB"));
    }
    assert(cipher_fingerprint("AES-192-CFB1".spec_bytes()) == (12nat, 57u8, 67u8, 70u8, 49u8)) by {
        reveal_strlit("AES-192-CFB1");
        assert(vstd::string::is_ascii("AES-192-CFB1"));
    }
    assert(cipher_fingerprint("AES-192-CFB8".spec_bytes()) == (12nat, 57u8, 67u8, 70u8, 56u8)) by {
        reveal_strlit("AES-192-CFB8");
        assert(vstd::string::is_ascii("AES-192-CFB8"));
    }
    assert(cipher_fingerprint("AES-192-GCM".spec_bytes()) == (11nat, 57u8, 71u8, 67u8, 0u8)) by {
        reveal_strlit("AES-192-GCM");
        assert(vstd::string::is_ascii("AES-192-GCM"));
    }
    assert(cipher_fingerprint("AES-192-OFB".spec_bytes()) == (11nat, 57u8, 79u8, 70u8, 0u8)) by {
        reveal_strlit("AES-192-OFB");
        assert(vstd::string::is_ascii("AES-192-OFB"));
    }
    assert(cipher_fingerprint("AES-256-CBC".spec_bytes()) == (11nat, 53u8, 67u8, 66u8, 0u8)) by {
        reveal_strlit("AES-256-CBC");
        assert(vstd::string::is_ascii("AES-256-CBC"));
    }
    assert(cipher_fingerprint("AES-256-CFB".spec_bytes()) == (11nat, 53u8, 67u8, 70u8, 0u8)) by {
        reveal_strlit("AES-256-CFB");
        assert(vstd::string::is_ascii("AES-256-CFB"));
    }
    assert(cipher_fingerprint("AES-256-CFB1".spec_bytes()) == (12nat, 53u8, 67u8, 70u8, 49u8)) by {
        reveal_strlit("AES-256-CFB1");
        assert(vstd::string::is_ascii("AES-256-CFB1"));
    }
    assert(cipher_fingerprint("AES-256-CFB8".spec_bytes()) == (12nat, 53u8, 67u8, 70u8, 56u8)) by {
        reveal_strlit("AES-256-CFB8");
        assert(vstd::string::is_ascii("AES-256-CFB8"));
    }
    assert(cipher_fingerprint("AES-256-GCM".spec_bytes()) == (11nat, 53u8, 71u8, 67u8, 0u8)) by {
        reveal_strlit("AES-256-GCM");
        assert(vstd::string::is_ascii("AES-256-GCM"));
    }
    assert(cipher_fingerprint("AES-256-OFB".spec_bytes()) == (11nat, 53u8, 79u8, 70u8, 0u8)) by {
        reveal_strlit("AES-256-OFB");
        assert(vstd::string::is_ascii("AES-256-OFB"));
    }
}

/// Every cipher has a name, and that name converts back to it.
pub proof fn law_every_cipher_has_its_name(c: Cipher)
    ensures
        Cipher::named(c.name()) == Some(c),
{
    lemma_cipher_fingerprints();
}

/// What tells the cipher suite names apart: the length and a few bytes.
spec fn suite_fingerprint(b: Seq<u8>) -> (nat, u8, u8, u8)
{
    (b.len(), byte_at(b, 21), byte_at(b, 25), byte_at(b, 29))
}

/// The tell-tale bytes of the cipher suite names, part 1.
proof fn lemma_suite_fingerprints_1()
    ensures
        suite_fingerprint("TLS_AES_256_GCM_SHA384".spec_bytes()) == (22nat, 52u8, 0u8, 0u8),
        suite_fingerprint("TLS_CHACHA20_POLY1305_SHA256".spec_bytes()) == (28nat, 95u8, 50u8, 0u8),
        suite_fingerprint("TLS_AES_128_GCM_SHA256".spec_bytes()) == (22nat, 54u8, 0u8, 0u8),
        suite_fingerprint("TLS-ECDHE-ECDSA-WITH-AES-256-GCM-SHA384".spec_bytes()) == (39nat, 65u8, 50u8, 71u8),
        suite_fingerprint("TLS-ECDHE-RSA-WITH-AES-256-GCM-SHA384".spec_bytes()) == (37nat, 83u8, 54u8, 77u8),
        suite_fingerprint("TLS-DHE-RSA-WITH-AES-256-GCM-SHA384".spec_bytes()) == (35nat, 50u8, 71u8, 83u8),
        suite_fingerprint("TLS-ECDHE-ECDSA-WITH-CHACHA20-POLY1305-SHA256".spec_bytes()) == (45nat, 67u8, 72u8, 45u8),
        suite_fingerprint("TLS-ECDHE-RSA-WITH-CHACHA20-POLY1305-SHA256".spec_bytes()) == (43nat, 65u8, 50u8, 79u8),
{
    assert(suite_fingerprint("TLS_AES_256_GCM_SHA384".spec_bytes()) == (22nat, 52u8, 0u8, 0u8)) by {
        reveal_strlit("TLS_AES_256_GCM_SHA384");
        assert(vstd::string::is_ascii("TLS_AES_256_GCM_SHA384"));
    }
    assert(suite_fingerprint("TLS_CHACHA20_POLY1305_SHA256".spec_bytes()) == (28nat, 95u8, 50u8, 0u8)) by {
        reveal_strlit("TLS_CHACHA20_POLY1305_SHA256");
        assert(vstd::string::is_ascii("TLS_CHACHA20_POLY1305_SHA256"));
    }
    assert(suite_fingerprint("TLS_AES_128_GCM_SHA256".spec_bytes()) == (22nat, 54u8, 0u8, 0u8)) by {
        reveal_strlit("TLS_AES_128_GCM_SHA256");
        assert(vstd::string::is_ascii("TLS_AES_128_GCM_SHA256"));
    }
    assert(suite_fingerprint("TLS-ECDHE-ECDSA-WITH-AES-256-GCM-SHA384".spec_bytes()) == (39nat, 65u8, 50u8, 71u8)) by {
        reveal_strlit("TLS-ECDHE-ECDSA-WITH-AES-256-GCM-SHA384");
        assert(vstd::string::is_ascii("TLS-ECDHE-ECDSA-WITH-AES-256-GCM-SHA384"));
    }
    assert(suite_fingerprint("TLS-ECDHE-RSA-WITH-AES-256-GCM-SHA384".spec_bytes()) == (37nat, 83u8, 54u8, 77u8)) by {
        reveal_strlit("TLS-ECDHE-RSA-WITH-AES-256-GCM-SHA384");
        assert(vstd::string::is_ascii("TLS-ECDHE-RSA-WITH-AES-256-GCM-SHA384"));
    }
    assert(suite_fingerprint("TLS-DHE-RSA-WITH-AES-256-GCM-SHA384".spec_bytes()) == (35nat, 50u8, 71u8, 83u8)) by {
        reveal_strlit("TLS-DHE-RSA-WITH-AES-256-GCM-SHA384");
        assert(vstd::string::is_ascii("TLS-DHE-RSA-WITH-AES-256-GCM-SHA384"));
    }
    assert(suite_fingerprint("TLS-ECDHE-ECDSA-WITH-CHACHA20-POLY1305-SHA256".spec_bytes()) == (45nat, 67u8, 72u8, 45u8)) by {
        reveal_strlit("TLS-ECDHE-ECDSA-WITH-CHACHA20-POLY1305-SHA256");
        assert(vstd::string::is_ascii("TLS-ECDHE-ECDSA-WITH-CHACHA20-POLY1305-SHA256"));
    }
    assert(suite_fingerprint("TLS-ECDHE-RSA-WITH-CHACHA20-POLY1305-SHA256".spec_bytes()) == (43nat, 65u8, 50u8, 79u8)) by {
        reveal_strlit("TLS-ECDHE-RSA-WITH-CHACHA20-POLY1305-SHA256");
        assert(vstd::string::is_ascii("TLS-ECDHE-RSA-WITH-CHACHA20-POLY1305-SHA256"));
    }
}

/// The tell-tale bytes of the cipher suite names, part 2.
proof fn lemma_suite_fingerprints_2()
    ensures
        suite_fingerprint("TLS-DHE-RSA-WITH-CHACHA20-POLY1305-SHA256".spec_bytes()) == (41nat, 72u8, 45u8, 89u8),
        suite_fingerprint("TLS-ECDHE-ECDSA-WITH-AES-128-GCM-SHA256".spec_bytes()) == (39nat, 65u8, 49u8, 71u8),
        suite_fingerprint("TLS-ECDHE-RSA-WITH-AES-128-GCM-SHA256".spec_bytes()) == (37nat, 83u8, 56u8, 77u8),
        suite_fingerprint("TLS-DHE-RSA-WITH-AES-128-GCM-SHA256".spec_bytes()) == (35nat, 49u8, 71u8, 83u8),
        suite_fingerprint("TLS-ECDHE-ECDSA-WITH-AES-256-CBC-SHA384".spec_bytes()) == (39nat, 65u8, 50u8, 67u8),
        suite_fingerprint("TLS-ECDHE-RSA-WITH-AES-256-CBC-SHA384".spec_bytes()) == (37nat, 83u8, 54u8, 67u8),
        suite_fingerprint("TLS-ECDHE-ECDSA-WITH-AES-128-CBC-SHA256".spec_bytes()) == (39nat, 65u8, 49u8, 67u8),
        suite_fingerprint("TLS-ECDHE-RSA-WITH-AES-128-CBC-SHA256".spec_bytes()) == (37nat, 83u8, 56u8, 67u8),
{
    assert(suite_fingerprint("TLS-DHE-RSA-WITH-CHACHA20-POLY1305-SHA256".spec_bytes()) == (41nat, 72u8, 45u8, 89u8)) by {
        reveal_strlit("TLS-DHE-RSA-WITH-CHACHA20-POLY1305-SHA256");
        assert(vstd::string::is_ascii("TLS-DHE-RSA-WITH-CHACHA20-POLY1305-SHA256"));
    }
    assert(suite_fingerprint("TLS-ECDHE-ECDSA-WITH-AES-128-GCM-SHA256".spec_bytes()) == (39nat, 65u8, 49u8, 71u8)) by {
        reveal_strlit("TLS-ECDHE-ECDSA-WITH-AES-128-GCM-SHA256");
        assert(vstd::string::is_ascii("TLS-ECDHE-ECDSA-WITH-AES-128-GCM-SHA256"));
    }
    assert(suite_fingerprint("TLS-ECDHE-RSA-WITH-AES-128-GCM-SHA256".spec_bytes()) == (37nat, 83u8, 56u8, 77u8)) by {
        reveal_strlit("TLS-ECDHE-RSA-WITH-AES-128-GCM-SHA256");
        assert(vstd::string::is_ascii("TLS-ECDHE-RSA-WITH-AES-128-GCM-SHA256"));
    }
    assert(suite_fingerprint("TLS-DHE-RSA-WITH-AES-128-GCM-SHA256".spec_bytes()) == (35nat, 49u8, 71u8, 83u8)) by {
        reveal_strlit("TLS-DHE-RSA-WITH-AES-128-GCM-SHA256");
        assert(vstd::string::is_ascii("TLS-DHE-RSA-WITH-AES-128-GCM-SHA256"));
    }
    assert(suite_fingerprint("TLS-ECDHE-ECDSA-WITH-AES-256-CBC-SHA384".spec_bytes()) == (39nat, 65u8, 50u8, 67u8)) by {
        reveal_strlit("TLS-ECDHE-ECDSA-WITH-AES-256-CBC-SHA384");
        assert(vstd::string::is_ascii("TLS-ECDHE-ECDSA-WITH-AES-256-CBC-SHA384"));
    }
    assert(suite_fingerprint("TLS-ECDHE-RSA-WITH-AES-256-CBC-SHA384".spec_bytes()) == (37nat, 83u8, 54u8, 67u8)) by {
        reveal_strlit("TLS-ECDHE-RSA-WITH-AES-256-CBC-SHA384");
        assert(vstd::string::is_ascii("TLS-ECDHE-RSA-WITH-AES-256-CBC-SHA384"));
    }
    assert(suite_fingerprint("TLS-ECDHE-ECDSA-WITH-AES-128-CBC-SHA256".spec_bytes()) == (39nat, 65u8, 49u8, 67u8)) by {
        reveal_strlit("TLS-ECDHE-ECDSA-WITH-AES-128-CBC-SHA256");
        assert(vstd::string::is_ascii("TLS-ECDHE-ECDSA-WITH-AES-128-CBC-SHA256"));
    }
    assert(suite_fingerprint("TLS-ECDHE-RSA-WITH-AES-128-CBC-SHA256".spec_bytes()) == (37nat, 83u8, 56u8, 67u8)) by {
        reveal_strlit("TLS-ECDHE-RSA-WITH-AES-128-CBC-SHA256");
        assert(vstd::string::is_ascii("TLS-ECDHE-RSA-WITH-AES-128-CBC-SHA256"));
    }
}

/// The tell-tale bytes of the cipher suite names, part 3.
proof fn lemma_suite_fingerprints_3()
    ensures
        suite_fingerprint("TLS-DHE-RSA-WITH-AES-128-CBC-SHA256".spec_bytes()) == (35nat, 49u8, 67u8, 83u8),
        suite_fingerprint("TLS-ECDHE-ECDSA-WITH-AES-256-CBC-SHA".spec_bytes()) == (36nat, 65u8, 50u8, 67u8),
        suite_fingerprint("TLS-ECDHE-RSA-WITH-AES-256-CBC-SHA".spec_bytes()) == (34nat, 83u8, 54u8, 67u8),
        suite_fingerprint("TLS-DHE-RSA-WITH-AES-256-CBC-SHA".spec_bytes()) == (32nat, 50u8, 67u8, 83u8),
        suite_fingerprint("TLS-ECDHE-ECDSA-WITH-AES-128-CBC-SHA".spec_bytes()) == (36nat, 65u8, 49u8, 67u8),
        suite_fingerprint("TLS-ECDHE-RSA-WITH-AES-128-CBC-SHA".spec_bytes()) == (34nat, 83u8, 56u8, 67u8),
        suite_fingerprint("TLS-DHE-RSA-WITH-AES-128-CBC-SHA".spec_bytes()) == (32nat, 49u8, 67u8, 83u8),
{
    assert(suite_fingerprint("TLS-DHE-RSA-WITH-AES-128-CBC-SHA256".spec_bytes()) == (35nat, 49u8, 67u8, 83u8)) by {
        reveal_strlit("TLS-DHE-RSA-WITH-AES-128-CBC-SHA256");
        assert(vstd::string::is_ascii("TLS-DHE-RSA-WITH-AES-128-CBC-SHA256"));
    }
    assert(suite_fingerprint("TLS-ECDHE-ECDSA-WITH-AES-256-CBC-SHA".spec_bytes()) == (36nat, 65u8, 50u8, 67u8)) by {
        reveal_strlit("TLS-ECDHE-ECDSA-WITH-AES-256-CBC-SHA");
        assert(vstd::string::is_ascii("TLS-ECDHE-ECDSA-WITH-AES-256-CBC-SHA"));
    }
    assert(suite_fingerprint("TLS-ECDHE-RSA-WITH-AES-256-CBC-SHA".spec_bytes()) == (34nat, 83u8, 54u8, 67u8)) by {
        reveal_strlit("TLS-ECDHE-RSA-WITH-AES-256-CBC-SHA");
        assert(vstd::string::is_ascii("TLS-ECDHE-RSA-WITH-AES-256-CBC-SHA"));
    }
    assert(suite_fingerprint("TLS-DHE-RSA-WITH-AES-256-CBC-SHA".spec_bytes()) == (32nat, 50u8, 67u8, 83u8)) by {
        reveal_strlit("TLS-DHE-RSA-WITH-AES-256-CBC-SHA");
        assert(vstd::string::is_ascii("TLS-DHE-RSA-WITH-AES-256-CBC-SHA"));
    }
    assert(suite_fingerprint("TLS-ECDHE-ECDSA-WITH-AES-128-CBC-SHA".spec_bytes()) == (36nat, 65u8, 49u8, 67u8)) by {
        reveal_strlit("TLS-ECDHE-ECDSA-WITH-AES-128-CBC-SHA");
        assert(vstd::string::is_ascii("TLS-ECDHE-ECDSA-WITH-AES-128-CBC-SHA"));
    }
    assert(suite_fingerprint("TLS-ECDHE-RSA-WITH-AES-128-CBC-SHA".spec_bytes()) == (34nat, 83u8, 56u8, 67u8)) by {
        reveal_strlit("TLS-ECDHE-RSA-WITH-AES-128-CBC-SHA");
        assert(vstd::string::is_ascii("TLS-ECDHE-RSA-WITH-AES-128-CBC-SHA"));
    }
    assert(suite_fingerprint("TLS-DHE-RSA-WITH-AES-128-CBC-SHA".spec_bytes()) == (32nat, 49u8, 67u8, 83u8)) by {
        reveal_strlit("TLS-DHE-RSA-WITH-AES-128-CBC-SHA");
        assert(vstd::string::is_ascii("TLS-DHE-RSA-WITH-AES-128-CBC-SHA"));
    }
}

/// Every cipher suite has a name, and that name converts back to it.
pub proof fn law_every_tls_cipher_has_its_name(c: TLSCipher)
    ensures
        TLSCipher::named(c.name()) == Some(c),
{
    lemma_suite_fingerprints_1();
    lemma_suite_fingerprints_2();
    lemma_suite_fingerprints_3();
}

/// A device type is read only from its own name: any text that converts to
/// a device type is that device type's name, so no other text is accepted.
pub proof fn law_dev_type_read_only_from_its_name(b: Seq<u8>)
    ensures
        DevType::named(b) matches Some(d) ==> b == d.name(),
{
}

/// A certificate kind is read only from its own name.
pub proof fn law_remote_cert_tls_read_only_from_its_name(b: Seq<u8>)
    ensures
        RemoteCertTLS::named(b) matches Some(k) ==> b == k.name(),
{
}

/// A cipher is read only from its own name: any text that converts to a
/// cipher is that cipher's name, so every text other than the names of the
/// ciphers has no conversion.
pub proof fn law_cipher_read_only_from_its_name(b: Seq<u8>)
    ensures
        Cipher::named(b) matches Some(c) ==> b == c.name(),
{
}

/// A cipher suite is read only from its own name.
pub proof fn law_tls_cipher_read_only_from_its_name(b: Seq<u8>)
    ensures
        TLSCipher::named(b) matches Some(c) ==> b == c.name(),
{
}

/// A retry setting is read only from its own text: `infinite` from
/// `infinite` alone, and a number of seconds only from the numeral of that
/// number, possibly after a `+` and leading zeros.
pub proof fn law_resolv_retry_read_only_from_its_text(b: Seq<u8>)
    ensures
        ResolvRetry::named(b) matches Some(ResolvRetry::Infinite) ==> b == "infinite".spec_bytes(),
        ResolvRetry::named(b) matches Some(ResolvRetry::Seconds(n)) ==> exists|k: nat|
            b == zeros(k) + decimal_text(n as nat) || b == seq![PLUS] + zeros(k) + decimal_text(
                n as nat,
            ),
{
    law_u32_read_only_from_its_numeral(b);
}

/// `infinite` reads as `Infinite`, and the numeral of a number of seconds
/// (after any leading zeros, with or without a `+`) reads as that number.
pub proof fn law_resolv_retry_text_reads_back(n: u32, k: nat)
    ensures
        ResolvRetry::named("infinite".spec_bytes()) == Some(ResolvRetry::Infinite),
        ResolvRetry::named(zeros(k) + decimal_text(n as nat)) == Some(ResolvRetry::Seconds(n)),
        ResolvRetry::named(seq![PLUS] + zeros(k) + decimal_text(n as nat)) == Some(
            ResolvRetry::Seconds(n),
        ),
{
    law_u32_numeral_reads_back(n, k);
    reveal_strlit("infinite");
    assert(vstd::string::is_ascii("infinite"));
    let inf = "infinite".spec_bytes();
    assert(inf[0] == 0x69u8);
    let a = zeros(k) + decimal_text(n as nat);
    let p = seq![PLUS] + zeros(k) + decimal_text(n as nat);
    assert(p[0] == PLUS);
    assert(a != inf) by {
        if a == inf {
            crate::number::lemma_decimal_text(n as nat);
            if k == 0 {
                assert(a[0] == decimal_text(n as nat)[0]);
            }
        }
    }
}

} // verus!
