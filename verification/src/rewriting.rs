//! What a recognised line depends on: its keyword, its value and nothing
//! else. The blank run after the keyword, the kind of line ending and the
//! text after the line can each be exchanged without changing what is read.
//! From this follow three laws of a whole configuration: text appended
//! after it, `"\r\n"` in place of every `"\n"`, and another blank run after a
//! keyword leave the configuration that is read unchanged.
use vstd::prelude::*;
use vstd::string::StringSliceAdditionalSpecFns;
use crate::config::OpenVPNConfig;
use crate::parser::{
    after_keyword, cipher_line_spec, dev_line_spec, either, keyed_line, remote_cert_tls_line_spec,
    resolv_retry_line_spec, spec_cipher, spec_config_type, spec_dev, spec_flag_line, spec_nobind,
    spec_number_line, spec_openvpn_config, spec_persist_key, spec_persist_tun, spec_ping,
    spec_ping_restart, spec_rcvbuf, spec_remote_cert_tls, spec_resolv_retry, spec_sndbuf,
    spec_tls_cipher, spec_verb, tls_cipher_line_spec, value_start, value_text, LineText, Outcome,
};
use crate::text::{
    digit1_spec, in_class, lemma_run_end_exact, lemma_run_end_props, lemma_tag_here,
    lemma_tag_mismatch, line_ending_spec, not_line_ending_spec, run_end, space1_spec, tag_spec,
    ByteClass, ErrorKind, Lexed, CR, LF, SP,
};

verus! {

broadcast use vstd::string::is_ascii_spec_bytes;

/// `e` is a line ending.
pub open spec fn is_eol(e: Seq<u8>) -> bool {
    e == seq![LF] || e == seq![CR, LF]
}

/// `x` holds no carriage return or line feed.
pub open spec fn no_break(x: Seq<u8>) -> bool {
    forall|i: int| 0 <= i < x.len() ==> in_class(ByteClass::InLine, #[trigger] x[i])
}

/// `b` is a non-empty run of spaces and tabs.
pub open spec fn blank_run(b: Seq<u8>) -> bool {
    &&& b.len() > 0
    &&& forall|i: int| 0 <= i < b.len() ==> in_class(ByteClass::Blank, #[trigger] b[i])
}

/// `m` can follow a blank run without extending it.
pub open spec fn starts_unblank(m: Seq<u8>) -> bool {
    m.len() > 0 ==> !in_class(ByteClass::Blank, m[0])
}

/// A key-value line: keyword, blanks, value, line ending, then the rest.
pub open spec fn keyed_text_of(kw: Seq<u8>, b: Seq<u8>, m: Seq<u8>, e: Seq<u8>, r: Seq<u8>) -> Seq<u8> {
    kw + (b + (m + (e + r)))
}

/// The blank run after keyword `kw` at the start of `s`.
pub open spec fn line_blanks(s: Seq<u8>, kw: Seq<u8>) -> Seq<u8> {
    let s1 = s.skip(kw.len() as int);
    s1.take(run_end(s1, 0, ByteClass::Blank))
}

/// The line ending at the start of `u`.
pub open spec fn line_end_of(u: Seq<u8>) -> Seq<u8> {
    if u.len() > 0 && u[0] == LF {
        seq![LF]
    } else {
        seq![CR, LF]
    }
}

/// The line ending of a recognised key-value line with value `m`.
pub open spec fn keyed_line_end(s: Seq<u8>, kw: Seq<u8>, m: Seq<u8>) -> Seq<u8> {
    line_end_of(value_start(s, kw).skip(m.len() as int))
}

/// A recognised key-value line is its keyword, a blank run, its value, a
/// line ending and the rest.
pub proof fn lemma_keyed_line_shape(s: Seq<u8>, kw: Seq<u8>, value: Lexed)
    requires
        keyed_line(s, kw, value) is Ok,
        value matches Ok((u, m)) ==> value_start(s, kw) == m + u,
    ensures
        ({
            let r = keyed_line(s, kw, value)->Ok_0.0;
            let m = keyed_line(s, kw, value)->Ok_0.1;
            let b = line_blanks(s, kw);
            let e = keyed_line_end(s, kw, m);
            &&& s == keyed_text_of(kw, b, m, e, r)
            &&& blank_run(b)
            &&& starts_unblank(m + (e + r))
            &&& is_eol(e)
            &&& value == Lexed::Ok((e + r, m))
        }),
{
    let (r, m) = keyed_line(s, kw, value)->Ok_0;
    let s1 = s.skip(kw.len() as int);
    let n = run_end(s1, 0, ByteClass::Blank);
    lemma_run_end_props(s1, 0, ByteClass::Blank);
    let v = value_start(s, kw);
    assert(v == s1.skip(n));
    let (u, m2) = value->Ok_0;
    assert(m2 == m);
    let e = keyed_line_end(s, kw, m);
    assert(v.skip(m.len() as int) =~= u);
    assert(u == e + r) by {
        assert(line_ending_spec(u) is Ok);
        if u[0] == LF {
            assert(u =~= seq![LF] + u.skip(1));
        } else {
            assert(u =~= seq![CR, LF] + u.skip(2));
        }
    }
    assert(s =~= keyed_text_of(kw, line_blanks(s, kw), m, e, r));
}

/// A key-value line built from a keyword, any blank run, a value that does
/// not start with a blank, and any line ending, is recognised with that
/// value when the value lexer recognises it.
pub proof fn lemma_keyed_line_build(kw: Seq<u8>, b: Seq<u8>, m: Seq<u8>, e: Seq<u8>, r: Seq<u8>, value: Lexed)
    requires
        blank_run(b),
        is_eol(e),
        starts_unblank(m + (e + r)),
        value == Lexed::Ok((e + r, m)),
    ensures
        value_start(keyed_text_of(kw, b, m, e, r), kw) == m + (e + r),
        keyed_line(keyed_text_of(kw, b, m, e, r), kw, value) == LineText::Ok((r, m)),
{
    let s = keyed_text_of(kw, b, m, e, r);
    let s1 = b + (m + (e + r));
    lemma_tag_here(kw, s1);
    lemma_run_end_exact(s1, 0, b.len() as int, ByteClass::Blank);
    assert(s1.skip(b.len() as int) =~= m + (e + r));
    assert(space1_spec(s1) == Lexed::Ok((m + (e + r), s1.take(b.len() as int))));
    assert(after_keyword(s, kw) == Ok::<Seq<u8>, (Seq<u8>, ErrorKind)>(m + (e + r)));
    if e == seq![LF] {
        assert((e + r).skip(1) =~= r);
    } else {
        assert((e + r).skip(2) =~= r);
    }
}

/// Every byte of `w` is printable on a line and not a blank.
pub open spec fn plain_word(w: Seq<u8>) -> bool {
    forall|i: int| 0 <= i < w.len() ==> in_class(ByteClass::InLine, #[trigger] w[i]) && !in_class(ByteClass::Blank, w[i])
}

/// The parts of a recognised key-value line of `s` with keyword `kw`, value
/// `m` and rest `r`.
pub open spec fn keyed_parts(s: Seq<u8>, kw: Seq<u8>, m: Seq<u8>, r: Seq<u8>) -> bool {
    let b = line_blanks(s, kw);
    let e = keyed_line_end(s, kw, m);
    &&& s == keyed_text_of(kw, b, m, e, r)
    &&& blank_run(b)
    &&& is_eol(e)
    &&& no_break(m)
    &&& starts_unblank(m + (e + r))
}

proof fn lemma_grammar_words_1()
    ensures
        plain_word("client".spec_bytes()),
        "client".spec_bytes().len() == 6,
        "client".spec_bytes()[0] == 0x63,
        plain_word("dev".spec_bytes()),
        "dev".spec_bytes().len() == 3,
        "dev".spec_bytes()[0] == 0x64,
        plain_word("tun".spec_bytes()),
        "tun".spec_bytes().len() == 3,
        plain_word("tap".spec_bytes()),
        "tap".spec_bytes().len() == 3,
        plain_word("resolv-retry".spec_bytes()),
        plain_word("infinite".spec_bytes()),
        "infinite".spec_bytes().len() > 0,
        "infinite".spec_bytes()[0] == 0x69,
{
    assert((plain_word("client".spec_bytes())) && ("client".spec_bytes().len() == 6) && ("client".spec_bytes()[0] == 0x63)) by {
        reveal_strlit("client");
        assert(vstd::string::is_ascii("client"));
    }
    assert((plain_word("dev".spec_bytes())) && ("dev".spec_bytes().len() == 3) && ("dev".spec_bytes()[0] == 0x64)) by {
        reveal_strlit("dev");
        assert(vstd::string::is_ascii("dev"));
    }
    assert((plain_word("tun".spec_bytes())) && ("tun".spec_bytes().len() == 3)) by {
        reveal_strlit("tun");
        assert(vstd::string::is_ascii("tun"));
    }
    assert((plain_word("tap".spec_bytes())) && ("tap".spec_bytes().len() == 3)) by {
        reveal_strlit("tap");
        assert(vstd::string::is_ascii("tap"));
    }
    assert((plain_word("resolv-retry".spec_bytes()))) by {
        reveal_strlit("resolv-retry");
        assert(vstd::string::is_ascii("resolv-retry"));
    }
    assert((plain_word("infinite".spec_bytes())) && ("infinite".spec_bytes().len() > 0) && ("infinite".spec_bytes()[0] == 0x69)) by {
        reveal_strlit("infinite");
        assert(vstd::string::is_ascii("infinite"));
    }
}

proof fn lemma_grammar_words_2()
    ensures
        plain_word("nobind".spec_bytes()),
        "nobind".spec_bytes().len() == 6,
        "nobind".spec_bytes()[0] == 0x6e,
        plain_word("persist-key".spec_bytes()),
        "persist-key".spec_bytes().len() == 11,
        "persist-key".spec_bytes()[0] == 0x70,
        "persist-key".spec_bytes()[8] == 0x6b,
        plain_word("persist-tun".spec_bytes()),
        "persist-tun".spec_bytes().len() == 11,
        "persist-tun".spec_bytes()[0] == 0x70,
        "persist-tun".spec_bytes()[8] == 0x74,
        plain_word("verb".spec_bytes()),
        "verb".spec_bytes().len() == 4,
        "verb".spec_bytes()[0] == 0x76,
        plain_word("remote-cert-tls".spec_bytes()),
        plain_word("server".spec_bytes()),
        "server".spec_bytes().len() == 6,
{
    assert((plain_word("nobind".spec_bytes())) && ("nobind".spec_bytes().len() == 6) && ("nobind".spec_bytes()[0] == 0x6e)) by {
        reveal_strlit("nobind");
        assert(vstd::string::is_ascii("nobind"));
    }
    assert((plain_word("persist-key".spec_bytes())) && ("persist-key".spec_bytes().len() == 11) && ("persist-key".spec_bytes()[0] == 0x70) && ("persist-key".spec_bytes()[8] == 0x6b)) by {
        reveal_strlit("persist-key");
        assert(vstd::string::is_ascii("persist-key"));
    }
    assert((plain_word("persist-tun".spec_bytes())) && ("persist-tun".spec_bytes().len() == 11) && ("persist-tun".spec_bytes()[0] == 0x70) && ("persist-tun".spec_bytes()[8] == 0x74)) by {
        reveal_strlit("persist-tun");
        assert(vstd::string::is_ascii("persist-tun"));
    }
    assert((plain_word("verb".spec_bytes())) && ("verb".spec_bytes().len() == 4) && ("verb".spec_bytes()[0] == 0x76)) by {
        reveal_strlit("verb");
        assert(vstd::string::is_ascii("verb"));
    }
    assert((plain_word("remote-cert-tls".spec_bytes()))) by {
        reveal_strlit("remote-cert-tls");
        assert(vstd::string::is_ascii("remote-cert-tls"));
    }
    assert((plain_word("server".spec_bytes())) && ("server".spec_bytes().len() == 6)) by {
        reveal_strlit("server");
        assert(vstd::string::is_ascii("server"));
    }
}

proof fn lemma_grammar_words_3()
    ensures
        plain_word("ping".spec_bytes()),
        plain_word("ping-restart".spec_bytes()),
        plain_word("sndbuf".spec_bytes()),
        plain_word("rcvbuf".spec_bytes()),
        plain_word("cipher".spec_bytes()),
        plain_word("tls-cipher".spec_bytes()),
{
    assert((plain_word("ping".spec_bytes()))) by {
        reveal_strlit("ping");
        assert(vstd::string::is_ascii("ping"));
    }
    assert((plain_word("ping-restart".spec_bytes()))) by {
        reveal_strlit("ping-restart");
        assert(vstd::string::is_ascii("ping-restart"));
    }
    assert((plain_word("sndbuf".spec_bytes()))) by {
        reveal_strlit("sndbuf");
        assert(vstd::string::is_ascii("sndbuf"));
    }
    assert((plain_word("rcvbuf".spec_bytes()))) by {
        reveal_strlit("rcvbuf");
        assert(vstd::string::is_ascii("rcvbuf"));
    }
    assert((plain_word("cipher".spec_bytes()))) by {
        reveal_strlit("cipher");
        assert(vstd::string::is_ascii("cipher"));
    }
    assert((plain_word("tls-cipher".spec_bytes()))) by {
        reveal_strlit("tls-cipher");
        assert(vstd::string::is_ascii("tls-cipher"));
    }
}

/// The words of the grammar.
pub proof fn lemma_grammar_words()
    ensures
        plain_word("client".spec_bytes()),
        plain_word("dev".spec_bytes()),
        plain_word("tun".spec_bytes()),
        plain_word("tap".spec_bytes()),
        plain_word("resolv-retry".spec_bytes()),
        plain_word("infinite".spec_bytes()),
        plain_word("nobind".spec_bytes()),
        plain_word("persist-key".spec_bytes()),
        plain_word("persist-tun".spec_bytes()),
        plain_word("verb".spec_bytes()),
        plain_word("remote-cert-tls".spec_bytes()),
        plain_word("server".spec_bytes()),
        plain_word("ping".spec_bytes()),
        plain_word("ping-restart".spec_bytes()),
        plain_word("sndbuf".spec_bytes()),
        plain_word("rcvbuf".spec_bytes()),
        plain_word("cipher".spec_bytes()),
        plain_word("tls-cipher".spec_bytes()),
        "tun".spec_bytes().len() == 3,
        "tap".spec_bytes().len() == 3,
        "client".spec_bytes().len() == 6,
        "server".spec_bytes().len() == 6,
        "infinite".spec_bytes().len() > 0,
        "infinite".spec_bytes()[0] == 0x69,
        "client".spec_bytes()[0] == 0x63,
        "dev".spec_bytes().len() == 3,
        "dev".spec_bytes()[0] == 0x64,
        "nobind".spec_bytes().len() == 6,
        "nobind".spec_bytes()[0] == 0x6e,
        "persist-key".spec_bytes().len() == 11,
        "persist-key".spec_bytes()[0] == 0x70,
        "persist-key".spec_bytes()[8] == 0x6b,
        "persist-tun".spec_bytes().len() == 11,
        "persist-tun".spec_bytes()[0] == 0x70,
        "persist-tun".spec_bytes()[8] == 0x74,
        "verb".spec_bytes().len() == 4,
        "verb".spec_bytes()[0] == 0x76,
{
    lemma_grammar_words_1();
    lemma_grammar_words_2();
    lemma_grammar_words_3();
}

// ---------------------------------------------------------------------------
// Value lexers

proof fn lemma_tag_value(v: Seq<u8>, t: Seq<u8>, x: Seq<u8>)
    requires
        tag_spec(v, t) is Ok,
    ensures
        ({
            let (u, m) = tag_spec(v, t)->Ok_0;
            &&& v == m + u
            &&& m == t
            &&& tag_spec(m + x, t) == Lexed::Ok((x, m))
        }),
{
    let (u, m) = tag_spec(v, t)->Ok_0;
    assert(v =~= m + u);
    lemma_tag_here(m, x);
}

proof fn lemma_tag_still_fails(v: Seq<u8>, t: Seq<u8>, m: Seq<u8>, u: Seq<u8>, x: Seq<u8>)
    requires
        tag_spec(v, t) is Err,
        v == m + u,
        t.len() <= m.len(),
    ensures
        tag_spec(m + x, t) is Err,
{
    assert(v.take(t.len() as int) =~= (m + x).take(t.len() as int));
}

proof fn lemma_digit_value(v: Seq<u8>, x: Seq<u8>)
    requires
        digit1_spec(v) is Ok,
        x.len() > 0,
        !in_class(ByteClass::Digit, x[0]),
    ensures
        ({
            let (u, m) = digit1_spec(v)->Ok_0;
            &&& v == m + u
            &&& m.len() > 0
            &&& forall|i: int| 0 <= i < m.len() ==> in_class(ByteClass::Digit, #[trigger] m[i])
            &&& digit1_spec(m + x) == Lexed::Ok((x, m))
        }),
{
    let (u, m) = digit1_spec(v)->Ok_0;
    lemma_run_end_props(v, 0, ByteClass::Digit);
    assert(v =~= m + u);
    assert forall|i: int| 0 <= i < m.len() implies in_class(ByteClass::Digit, #[trigger] m[i]) by {
        assert(m[i] == v[i]);
    }
    lemma_run_end_exact(m + x, 0, m.len() as int, ByteClass::Digit);
    assert((m + x).take(m.len() as int) =~= m);
    assert((m + x).skip(m.len() as int) =~= x);
}

proof fn lemma_free_text_value(v: Seq<u8>, e: Seq<u8>, r: Seq<u8>)
    requires
        not_line_ending_spec(v) is Ok,
        is_eol(e),
    ensures
        ({
            let (u, m) = not_line_ending_spec(v)->Ok_0;
            &&& v == m + u
            &&& no_break(m)
            &&& not_line_ending_spec(m + (e + r)) == Lexed::Ok((e + r, m))
        }),
{
    let (u, m) = not_line_ending_spec(v)->Ok_0;
    lemma_run_end_props(v, 0, ByteClass::InLine);
    assert(v =~= m + u);
    assert forall|i: int| 0 <= i < m.len() implies in_class(ByteClass::InLine, #[trigger] m[i]) by {
        assert(m[i] == v[i]);
    }
    let w = m + (e + r);
    lemma_run_end_exact(w, 0, m.len() as int, ByteClass::InLine);
    assert(w.take(m.len() as int) =~= m);
    assert(w.skip(m.len() as int) =~= e + r);
}

// ---------------------------------------------------------------------------
// Lines

/// A value text that can stand in a rebuilt line: it lexes the same in front
/// of any line ending.
proof fn lemma_unblank_moves(m: Seq<u8>, e: Seq<u8>, r: Seq<u8>, e2: Seq<u8>, r2: Seq<u8>)
    requires
        starts_unblank(m + (e + r)),
        is_eol(e2),
    ensures
        starts_unblank(m + (e2 + r2)),
{
    if m.len() > 0 {
        assert((m + (e + r))[0] == m[0]);
        assert((m + (e2 + r2))[0] == m[0]);
    } else {
        assert((m + (e2 + r2))[0] == e2[0]);
    }
}

/// The `dev` line depends only on its value.
pub proof fn lemma_dev_moves(s: Seq<u8>, b2: Seq<u8>, e2: Seq<u8>, r2: Seq<u8>)
    requires
        spec_dev(s) is Done,
        blank_run(b2),
        is_eol(e2),
    ensures
        ({
            let kw = "dev".spec_bytes();
            let m = value_text(dev_line_spec(s));
            &&& keyed_parts(s, kw, m, spec_dev(s)->Done_0)
            &&& spec_dev(keyed_text_of(kw, b2, m, e2, r2)) == Outcome::Done(r2, spec_dev(s)->Done_1)
        }),
{
    lemma_grammar_words();
    let kw = "dev".spec_bytes();
    let (t1, t2) = ("tun".spec_bytes(), "tap".spec_bytes());
    let v = value_start(s, kw);
    let value = either(tag_spec(v, t1), tag_spec(v, t2));
    let x = e2 + r2;
    if tag_spec(v, t1) is Ok {
        lemma_tag_value(v, t1, x);
    } else {
        lemma_tag_value(v, t2, x);
        let (u, m) = tag_spec(v, t2)->Ok_0;
        lemma_tag_still_fails(v, t1, m, u, x);
    }
    lemma_keyed_line_shape(s, kw, value);
    let (r, m) = keyed_line(s, kw, value)->Ok_0;
    let e = keyed_line_end(s, kw, m);
    lemma_unblank_moves(m, e, r, e2, r2);
    let v2 = m + x;
    lemma_keyed_line_build(kw, b2, m, e2, r2, either(tag_spec(v2, t1), tag_spec(v2, t2)));
}

/// The `remote-cert-tls` line depends only on its value.
pub proof fn lemma_remote_cert_tls_moves(s: Seq<u8>, b2: Seq<u8>, e2: Seq<u8>, r2: Seq<u8>)
    requires
        spec_remote_cert_tls(s) is Done,
        blank_run(b2),
        is_eol(e2),
    ensures
        ({
            let kw = "remote-cert-tls".spec_bytes();
            let m = value_text(remote_cert_tls_line_spec(s));
            &&& keyed_parts(s, kw, m, spec_remote_cert_tls(s)->Done_0)
            &&& spec_remote_cert_tls(keyed_text_of(kw, b2, m, e2, r2)) == Outcome::Done(r2, spec_remote_cert_tls(s)->Done_1)
        }),
{
    lemma_grammar_words();
    let kw = "remote-cert-tls".spec_bytes();
    let (t1, t2) = ("client".spec_bytes(), "server".spec_bytes());
    let v = value_start(s, kw);
    let value = either(tag_spec(v, t1), tag_spec(v, t2));
    let x = e2 + r2;
    if tag_spec(v, t1) is Ok {
        lemma_tag_value(v, t1, x);
    } else {
        lemma_tag_value(v, t2, x);
        let (u, m) = tag_spec(v, t2)->Ok_0;
        lemma_tag_still_fails(v, t1, m, u, x);
    }
    lemma_keyed_line_shape(s, kw, value);
    let (r, m) = keyed_line(s, kw, value)->Ok_0;
    let e = keyed_line_end(s, kw, m);
    lemma_unblank_moves(m, e, r, e2, r2);
    let v2 = m + x;
    lemma_keyed_line_build(kw, b2, m, e2, r2, either(tag_spec(v2, t1), tag_spec(v2, t2)));
}

/// The `resolv-retry` line depends only on its value.
pub proof fn lemma_resolv_retry_moves(s: Seq<u8>, b2: Seq<u8>, e2: Seq<u8>, r2: Seq<u8>)
    requires
        spec_resolv_retry(s) is Done,
        blank_run(b2),
        is_eol(e2),
    ensures
        ({
            let kw = "resolv-retry".spec_bytes();
            let m = value_text(resolv_retry_line_spec(s));
            &&& keyed_parts(s, kw, m, spec_resolv_retry(s)->Done_0)
            &&& spec_resolv_retry(keyed_text_of(kw, b2, m, e2, r2)) == Outcome::Done(r2, spec_resolv_retry(s)->Done_1)
        }),
{
    lemma_grammar_words();
    let kw = "resolv-retry".spec_bytes();
    let t1 = "infinite".spec_bytes();
    let v = value_start(s, kw);
    let value = either(tag_spec(v, t1), digit1_spec(v));
    let x = e2 + r2;
    assert(!in_class(ByteClass::Digit, x[0]));
    if tag_spec(v, t1) is Ok {
        lemma_tag_value(v, t1, x);
    } else {
        lemma_digit_value(v, x);
        let (u, m) = digit1_spec(v)->Ok_0;
        assert(in_class(ByteClass::Digit, m[0]));
        lemma_tag_mismatch(m + x, t1, 0);
    }
    lemma_keyed_line_shape(s, kw, value);
    let (r, m) = keyed_line(s, kw, value)->Ok_0;
    let e = keyed_line_end(s, kw, m);
    lemma_unblank_moves(m, e, r, e2, r2);
    let v2 = m + x;
    lemma_keyed_line_build(kw, b2, m, e2, r2, either(tag_spec(v2, t1), digit1_spec(v2)));
}

/// A number line depends only on its keyword and value.
pub proof fn lemma_number_line_moves(s: Seq<u8>, kw: Seq<u8>, b2: Seq<u8>, e2: Seq<u8>, r2: Seq<u8>)
    requires
        spec_number_line(s, kw) is Done,
        blank_run(b2),
        is_eol(e2),
    ensures
        ({
            let v = value_start(s, kw);
            let m = digit1_spec(v)->Ok_0.1;
            &&& keyed_parts(s, kw, m, spec_number_line(s, kw)->Done_0)
            &&& spec_number_line(keyed_text_of(kw, b2, m, e2, r2), kw) == Outcome::Done(r2, spec_number_line(s, kw)->Done_1)
        }),
{
    let v = value_start(s, kw);
    let value = digit1_spec(v);
    let x = e2 + r2;
    assert(!in_class(ByteClass::Digit, x[0]));
    lemma_digit_value(v, x);
    let (u, m) = digit1_spec(v)->Ok_0;
    assert(keyed_line(s, kw, value) is Ok);
    lemma_keyed_line_shape(s, kw, value);
    let r = keyed_line(s, kw, value)->Ok_0.0;
    let e = keyed_line_end(s, kw, m);
    lemma_unblank_moves(m, e, r, e2, r2);
    let v2 = m + x;
    lemma_keyed_line_build(kw, b2, m, e2, r2, digit1_spec(v2));
    assert forall|i: int| 0 <= i < m.len() implies in_class(ByteClass::InLine, #[trigger] m[i]) by {
        assert(in_class(ByteClass::Digit, m[i]));
    }
}

proof fn lemma_free_text_line_moves(s: Seq<u8>, kw: Seq<u8>, b2: Seq<u8>, e2: Seq<u8>, r2: Seq<u8>)
    requires
        keyed_line(s, kw, not_line_ending_spec(value_start(s, kw))) is Ok,
        blank_run(b2),
        is_eol(e2),
    ensures
        ({
            let line = keyed_line(s, kw, not_line_ending_spec(value_start(s, kw)));
            let (r, m) = line->Ok_0;
            &&& keyed_parts(s, kw, m, r)
            &&& keyed_line(keyed_text_of(kw, b2, m, e2, r2), kw, not_line_ending_spec(m + (e2 + r2))) == LineText::Ok((r2, m))
            &&& value_start(keyed_text_of(kw, b2, m, e2, r2), kw) == m + (e2 + r2)
        }),
{
    let v = value_start(s, kw);
    let value = not_line_ending_spec(v);
    assert(value is Ok);
    lemma_free_text_value(v, e2, r2);
    lemma_keyed_line_shape(s, kw, value);
    let (r, m) = keyed_line(s, kw, value)->Ok_0;
    let e = keyed_line_end(s, kw, m);
    lemma_unblank_moves(m, e, r, e2, r2);
    lemma_keyed_line_build(kw, b2, m, e2, r2, not_line_ending_spec(m + (e2 + r2)));
}

/// The `cipher` line depends only on its value.
pub proof fn lemma_cipher_moves(s: Seq<u8>, b2: Seq<u8>, e2: Seq<u8>, r2: Seq<u8>)
    requires
        spec_cipher(s) is Done,
        blank_run(b2),
        is_eol(e2),
    ensures
        ({
            let kw = "cipher".spec_bytes();
            let m = value_text(cipher_line_spec(s));
            &&& keyed_parts(s, kw, m, spec_cipher(s)->Done_0)
            &&& spec_cipher(keyed_text_of(kw, b2, m, e2, r2)) == Outcome::Done(r2, spec_cipher(s)->Done_1)
        }),
{
    lemma_free_text_line_moves(s, "cipher".spec_bytes(), b2, e2, r2);
}

/// The `tls-cipher` line depends only on its value.
pub proof fn lemma_tls_cipher_moves(s: Seq<u8>, b2: Seq<u8>, e2: Seq<u8>, r2: Seq<u8>)
    requires
        spec_tls_cipher(s) is Done,
        blank_run(b2),
        is_eol(e2),
    ensures
        ({
            let kw = "tls-cipher".spec_bytes();
            let m = value_text(tls_cipher_line_spec(s));
            &&& keyed_parts(s, kw, m, spec_tls_cipher(s)->Done_0)
            &&& spec_tls_cipher(keyed_text_of(kw, b2, m, e2, r2)) == Outcome::Done(r2, spec_tls_cipher(s)->Done_1)
        }),
{
    lemma_free_text_line_moves(s, "tls-cipher".spec_bytes(), b2, e2, r2);
}

/// A flag line that is there depends only on its keyword.
pub proof fn lemma_flag_present_moves(s: Seq<u8>, kw: Seq<u8>, e2: Seq<u8>, r2: Seq<u8>)
    requires
        spec_flag_line(s, kw) matches Outcome::Done(_, true),
        is_eol(e2),
    ensures
        ({
            let r = spec_flag_line(s, kw)->Done_0;
            let e = line_end_of(s.skip(kw.len() as int));
            &&& s == kw + (e + r)
            &&& is_eol(e)
            &&& spec_flag_line(kw + (e2 + r2), kw) == Outcome::Done(r2, true)
        }),
{
    let (s1, _) = tag_spec(s, kw)->Ok_0;
    assert(s1 =~= s.skip(kw.len() as int));
    let r = spec_flag_line(s, kw)->Done_0;
    let e = line_end_of(s1);
    if s1[0] == LF {
        assert(s1 =~= e + r);
    } else {
        assert(s1 =~= e + r);
    }
    assert(s =~= kw + (e + r));
    lemma_tag_here(kw, e2 + r2);
    if e2 == seq![LF] {
        assert((e2 + r2).skip(1) =~= r2);
    } else {
        assert((e2 + r2).skip(2) =~= r2);
    }
}

/// A flag line that is not there stays absent where a byte of the text in
/// front of its keyword differs from it.
pub proof fn lemma_flag_absent_moves(s: Seq<u8>, kw: Seq<u8>, i: int)
    requires
        0 <= i < kw.len(),
        i < s.len(),
        s[i] != kw[i],
    ensures
        spec_flag_line(s, kw) == Outcome::Done(s, false),
{
    lemma_tag_mismatch(s, kw, i);
}

// ---------------------------------------------------------------------------
// Whole configurations

/// The keyword of line `k` of a configuration (0 is `client`, 13 is
/// `tls-cipher`).
pub open spec fn line_keyword(k: int) -> Seq<u8> {
    if k == 0 {
        "client".spec_bytes()
    } else if k == 1 {
        "dev".spec_bytes()
    } else if k == 2 {
        "resolv-retry".spec_bytes()
    } else if k == 3 {
        "nobind".spec_bytes()
    } else if k == 4 {
        "persist-key".spec_bytes()
    } else if k == 5 {
        "persist-tun".spec_bytes()
    } else if k == 6 {
        "verb".spec_bytes()
    } else if k == 7 {
        "remote-cert-tls".spec_bytes()
    } else if k == 8 {
        "ping".spec_bytes()
    } else if k == 9 {
        "ping-restart".spec_bytes()
    } else if k == 10 {
        "sndbuf".spec_bytes()
    } else if k == 11 {
        "rcvbuf".spec_bytes()
    } else if k == 12 {
        "cipher".spec_bytes()
    } else {
        "tls-cipher".spec_bytes()
    }
}

/// Line `k` is one of the optional lines holding only their keyword.
pub open spec fn is_flag_line(k: int) -> bool {
    k == 0 || k == 3 || k == 4 || k == 5
}

/// Line `k` is a key-value line.
pub open spec fn is_keyed_line(k: int) -> bool {
    0 <= k < 14 && !is_flag_line(k)
}

/// The text that the reader of line `k` leaves of `x`.
pub open spec fn rest_after(k: int, x: Seq<u8>) -> Seq<u8> {
    if is_flag_line(k) {
        spec_flag_line(x, line_keyword(k))->Done_0
    } else if k == 1 {
        spec_dev(x)->Done_0
    } else if k == 2 {
        spec_resolv_retry(x)->Done_0
    } else if k == 7 {
        spec_remote_cert_tls(x)->Done_0
    } else if k == 12 {
        spec_cipher(x)->Done_0
    } else if k == 13 {
        spec_tls_cipher(x)->Done_0
    } else {
        spec_number_line(x, line_keyword(k))->Done_0
    }
}

/// Where line `k` starts in a configuration read from `s`.
pub open spec fn stage(s: Seq<u8>, k: int) -> Seq<u8>
    decreases k,
{
    if k <= 0 {
        s
    } else {
        rest_after(k - 1, stage(s, k - 1))
    }
}

/// The value text of key-value line `k` at the start of `x`.
pub open spec fn line_value(k: int, x: Seq<u8>) -> Seq<u8> {
    if k == 1 {
        value_text(dev_line_spec(x))
    } else if k == 2 {
        value_text(resolv_retry_line_spec(x))
    } else if k == 7 {
        value_text(remote_cert_tls_line_spec(x))
    } else if k == 12 {
        value_text(cipher_line_spec(x))
    } else if k == 13 {
        value_text(tls_cipher_line_spec(x))
    } else {
        digit1_spec(value_start(x, line_keyword(k)))->Ok_0.1
    }
}

/// Whether optional line `k` is there at the start of `x`.
pub open spec fn flag_present(k: int, x: Seq<u8>) -> bool {
    spec_flag_line(x, line_keyword(k))->Done_1
}

/// The blank run of key-value line `k` at the start of `x`.
pub open spec fn line_blank_run(k: int, x: Seq<u8>) -> Seq<u8> {
    line_blanks(x, line_keyword(k))
}

/// The line ending of line `k` at the start of `x`.
pub open spec fn line_ending_of(k: int, x: Seq<u8>) -> Seq<u8> {
    if is_flag_line(k) {
        line_end_of(x.skip(line_keyword(k).len() as int))
    } else {
        keyed_line_end(x, line_keyword(k), line_value(k, x))
    }
}

/// Line `k` as read from `x`, written with blank run `b` and line ending
/// `e`, followed by `rest`.
pub open spec fn rebuilt_line(k: int, x: Seq<u8>, b: Seq<u8>, e: Seq<u8>, rest: Seq<u8>) -> Seq<u8> {
    if is_flag_line(k) {
        if flag_present(k, x) {
            line_keyword(k) + (e + rest)
        } else {
            rest
        }
    } else {
        keyed_text_of(line_keyword(k), b, line_value(k, x), e, rest)
    }
}

/// The configuration read from `s`, written from line `k` on with blank runs
/// `bl` and line endings `el`, followed by `tail`.
pub open spec fn rebuilt(s: Seq<u8>, bl: Seq<Seq<u8>>, el: Seq<Seq<u8>>, tail: Seq<u8>, k: int) -> Seq<u8>
    decreases 14 - k,
{
    if k >= 14 {
        tail
    } else {
        rebuilt_line(k, stage(s, k), bl[k], el[k], rebuilt(s, bl, el, tail, k + 1))
    }
}

/// Blank runs and line endings fit to write a configuration with.
pub open spec fn layout_ok(bl: Seq<Seq<u8>>, el: Seq<Seq<u8>>) -> bool {
    &&& bl.len() == 14
    &&& el.len() == 14
    &&& forall|k: int| is_keyed_line(k) ==> blank_run(#[trigger] bl[k])
    &&& forall|k: int| 0 <= k < 14 ==> is_eol(#[trigger] el[k])
}

/// The lines of a configuration that is read, one after the other.
pub proof fn lemma_stages(s: Seq<u8>)
    requires
        spec_openvpn_config(s) is Done,
    ensures
        ({
            let c = spec_openvpn_config(s)->Done_1;
            &&& spec_config_type(stage(s, 0)) == Outcome::Done(stage(s, 1), c.config_type)
            &&& spec_dev(stage(s, 1)) == Outcome::Done(stage(s, 2), c.dev)
            &&& spec_resolv_retry(stage(s, 2)) == Outcome::Done(stage(s, 3), c.resolv_retry)
            &&& spec_nobind(stage(s, 3)) == Outcome::Done(stage(s, 4), c.nobind)
            &&& spec_persist_key(stage(s, 4)) == Outcome::Done(stage(s, 5), c.persist_key)
            &&& spec_persist_tun(stage(s, 5)) == Outcome::Done(stage(s, 6), c.persist_tun)
            &&& spec_verb(stage(s, 6)) == Outcome::Done(stage(s, 7), c.verb)
            &&& spec_remote_cert_tls(stage(s, 7)) == Outcome::Done(stage(s, 8), c.remote_cert_tls)
            &&& spec_ping(stage(s, 8)) == Outcome::Done(stage(s, 9), c.ping)
            &&& spec_ping_restart(stage(s, 9)) == Outcome::Done(stage(s, 10), c.ping_restart)
            &&& spec_sndbuf(stage(s, 10)) == Outcome::Done(stage(s, 11), c.sndbuf)
            &&& spec_rcvbuf(stage(s, 11)) == Outcome::Done(stage(s, 12), c.rcvbuf)
            &&& spec_cipher(stage(s, 12)) == Outcome::Done(stage(s, 13), c.cipher)
            &&& spec_tls_cipher(stage(s, 13)) == Outcome::Done(stage(s, 14), c.tls_cipher)
            &&& spec_openvpn_config(s)->Done_0 == stage(s, 14)
        }),
{
    let s0 = stage(s, 0);
    let s1 = stage(s, 1);
    let s2 = stage(s, 2);
    let s3 = stage(s, 3);
    let s4 = stage(s, 4);
    let s5 = stage(s, 5);
    let s6 = stage(s, 6);
    let s7 = stage(s, 7);
    let s8 = stage(s, 8);
    let s9 = stage(s, 9);
    let s10 = stage(s, 10);
    let s11 = stage(s, 11);
    let s12 = stage(s, 12);
    let s13 = stage(s, 13);
    let s14 = stage(s, 14);
    assert(s0 == s);
    assert(s1 == rest_after(0, s0));
    assert(s2 == rest_after(1, s1));
    assert(s3 == rest_after(2, s2));
    assert(s4 == rest_after(3, s3));
    assert(s5 == rest_after(4, s4));
    assert(s6 == rest_after(5, s5));
    assert(s7 == rest_after(6, s6));
    assert(s8 == rest_after(7, s7));
    assert(s9 == rest_after(8, s8));
    assert(s10 == rest_after(9, s9));
    assert(s11 == rest_after(10, s10));
    assert(s12 == rest_after(11, s11));
    assert(s13 == rest_after(12, s12));
    assert(s14 == rest_after(13, s13));
}

/// Fourteen lines read one after the other make a configuration.
pub proof fn lemma_chain(x: Seq<Seq<u8>>, c: OpenVPNConfig)
    requires
        x.len() == 15,
        spec_config_type(x[0]) == Outcome::Done(x[1], c.config_type),
        spec_dev(x[1]) == Outcome::Done(x[2], c.dev),
        spec_resolv_retry(x[2]) == Outcome::Done(x[3], c.resolv_retry),
        spec_nobind(x[3]) == Outcome::Done(x[4], c.nobind),
        spec_persist_key(x[4]) == Outcome::Done(x[5], c.persist_key),
        spec_persist_tun(x[5]) == Outcome::Done(x[6], c.persist_tun),
        spec_verb(x[6]) == Outcome::Done(x[7], c.verb),
        spec_remote_cert_tls(x[7]) == Outcome::Done(x[8], c.remote_cert_tls),
        spec_ping(x[8]) == Outcome::Done(x[9], c.ping),
        spec_ping_restart(x[9]) == Outcome::Done(x[10], c.ping_restart),
        spec_sndbuf(x[10]) == Outcome::Done(x[11], c.sndbuf),
        spec_rcvbuf(x[11]) == Outcome::Done(x[12], c.rcvbuf),
        spec_cipher(x[12]) == Outcome::Done(x[13], c.cipher),
        spec_tls_cipher(x[13]) == Outcome::Done(x[14], c.tls_cipher),
    ensures
        spec_openvpn_config(x[0]) == Outcome::Done(x[14], c),
{
}

/// The reader of line `k` reads `x`.
pub open spec fn reads(k: int, x: Seq<u8>) -> bool {
    if is_flag_line(k) {
        true
    } else if k == 1 {
        spec_dev(x) is Done
    } else if k == 2 {
        spec_resolv_retry(x) is Done
    } else if k == 7 {
        spec_remote_cert_tls(x) is Done
    } else if k == 12 {
        spec_cipher(x) is Done
    } else if k == 13 {
        spec_tls_cipher(x) is Done
    } else {
        spec_number_line(x, line_keyword(k)) is Done
    }
}

/// The reader of line `k` reads from `y` what it reads from `x`, leaving
/// `rest`.
pub open spec fn reads_like(k: int, x: Seq<u8>, y: Seq<u8>, rest: Seq<u8>) -> bool {
    if k == 0 {
        spec_config_type(y) == Outcome::Done(rest, spec_config_type(x)->Done_1)
    } else if is_flag_line(k) {
        spec_flag_line(y, line_keyword(k)) == Outcome::Done(rest, spec_flag_line(x, line_keyword(k))->Done_1)
    } else if k == 1 {
        spec_dev(y) == Outcome::Done(rest, spec_dev(x)->Done_1)
    } else if k == 2 {
        spec_resolv_retry(y) == Outcome::Done(rest, spec_resolv_retry(x)->Done_1)
    } else if k == 7 {
        spec_remote_cert_tls(y) == Outcome::Done(rest, spec_remote_cert_tls(x)->Done_1)
    } else if k == 12 {
        spec_cipher(y) == Outcome::Done(rest, spec_cipher(x)->Done_1)
    } else if k == 13 {
        spec_tls_cipher(y) == Outcome::Done(rest, spec_tls_cipher(x)->Done_1)
    } else {
        spec_number_line(y, line_keyword(k)) == Outcome::Done(rest, spec_number_line(x, line_keyword(k))->Done_1)
    }
}

/// A key-value line that is read can be written with another blank run,
/// another line ending and another rest, and reads the same.
pub proof fn lemma_keyed_line_moves(k: int, x: Seq<u8>, b: Seq<u8>, e: Seq<u8>, rest: Seq<u8>)
    requires
        is_keyed_line(k),
        reads(k, x),
        blank_run(b),
        is_eol(e),
    ensures
        keyed_parts(x, line_keyword(k), line_value(k, x), rest_after(k, x)),
        reads_like(k, x, rebuilt_line(k, x, b, e, rest), rest),
{
    if k == 1 {
        lemma_dev_moves(x, b, e, rest);
    } else if k == 2 {
        lemma_resolv_retry_moves(x, b, e, rest);
    } else if k == 7 {
        lemma_remote_cert_tls_moves(x, b, e, rest);
    } else if k == 12 {
        lemma_cipher_moves(x, b, e, rest);
    } else if k == 13 {
        lemma_tls_cipher_moves(x, b, e, rest);
    } else {
        lemma_number_line_moves(x, line_keyword(k), b, e, rest);
    }
}

/// An optional line can be written with another line ending and another
/// rest, and reads the same, when the rest, if the line is not there,
/// differs from its keyword at byte `i`.
pub proof fn lemma_flag_line_moves(k: int, x: Seq<u8>, e: Seq<u8>, rest: Seq<u8>, i: int)
    requires
        is_flag_line(k),
        is_eol(e),
        !flag_present(k, x) ==> 0 <= i < line_keyword(k).len() && i < rest.len() && rest[i] != line_keyword(k)[i],
    ensures
        flag_present(k, x) ==> x == line_keyword(k) + (line_ending_of(k, x) + rest_after(k, x)) && is_eol(line_ending_of(k, x)),
        !flag_present(k, x) ==> rest_after(k, x) == x,
        reads_like(k, x, rebuilt_line(k, x, seq![], e, rest), rest),
{
    let kw = line_keyword(k);
    if flag_present(k, x) {
        lemma_flag_present_moves(x, kw, e, rest);
    } else {
        lemma_flag_absent_moves(rest, kw, i);
    }
}

proof fn lemma_keyed_reads_rebuilt(s: Seq<u8>, bl: Seq<Seq<u8>>, el: Seq<Seq<u8>>, tail: Seq<u8>, k: int)
    requires
        is_keyed_line(k),
        reads(k, stage(s, k)),
        layout_ok(bl, el),
    ensures
        reads_like(k, stage(s, k), rebuilt(s, bl, el, tail, k), rebuilt(s, bl, el, tail, k + 1)),
        rebuilt(s, bl, el, tail, k) == keyed_text_of(
            line_keyword(k),
            bl[k],
            line_value(k, stage(s, k)),
            el[k],
            rebuilt(s, bl, el, tail, k + 1),
        ),
{
    assert(blank_run(bl[k]));
    assert(is_eol(el[k]));
    lemma_keyed_line_moves(k, stage(s, k), bl[k], el[k], rebuilt(s, bl, el, tail, k + 1));
}

proof fn lemma_flag_reads_rebuilt(s: Seq<u8>, bl: Seq<Seq<u8>>, el: Seq<Seq<u8>>, tail: Seq<u8>, k: int, i: int)
    requires
        is_flag_line(k),
        layout_ok(bl, el),
        !flag_present(k, stage(s, k)) ==> ({
            let r = rebuilt(s, bl, el, tail, k + 1);
            0 <= i < line_keyword(k).len() && i < r.len() && r[i] != line_keyword(k)[i]
        }),
    ensures
        reads_like(k, stage(s, k), rebuilt(s, bl, el, tail, k), rebuilt(s, bl, el, tail, k + 1)),
        flag_present(k, stage(s, k)) ==> rebuilt(s, bl, el, tail, k) == line_keyword(k) + (el[k] + rebuilt(s, bl, el, tail, k + 1)),
        !flag_present(k, stage(s, k)) ==> rebuilt(s, bl, el, tail, k) == rebuilt(s, bl, el, tail, k + 1),
{
    assert(is_eol(el[k]));
    lemma_flag_line_moves(k, stage(s, k), el[k], rebuilt(s, bl, el, tail, k + 1), i);
}

proof fn lemma_first_bytes(kw: Seq<u8>, x: Seq<u8>, i: int)
    requires
        0 <= i < kw.len(),
    ensures
        (kw + x)[i] == kw[i],
        (kw + x).len() > i,
{
}

/// A configuration that is read, written with any blank runs and line
/// endings and followed by any text, reads as the same configuration and
/// leaves that text.
#[verifier::rlimit(50)]
pub proof fn lemma_rebuilt_reads(s: Seq<u8>, bl: Seq<Seq<u8>>, el: Seq<Seq<u8>>, tail: Seq<u8>)
    requires
        spec_openvpn_config(s) is Done,
        layout_ok(bl, el),
    ensures
        spec_openvpn_config(rebuilt(s, bl, el, tail, 0)) == Outcome::Done(tail, spec_openvpn_config(s)->Done_1),
{
    lemma_stages(s);
    lemma_grammar_words();
    let c = spec_openvpn_config(s)->Done_1;
    let n = Seq::new(15, |k: int| rebuilt(s, bl, el, tail, k));
    lemma_keyed_reads_rebuilt(s, bl, el, tail, 1);
    lemma_keyed_reads_rebuilt(s, bl, el, tail, 2);
    lemma_keyed_reads_rebuilt(s, bl, el, tail, 6);
    lemma_keyed_reads_rebuilt(s, bl, el, tail, 7);
    lemma_keyed_reads_rebuilt(s, bl, el, tail, 8);
    lemma_keyed_reads_rebuilt(s, bl, el, tail, 9);
    lemma_keyed_reads_rebuilt(s, bl, el, tail, 10);
    lemma_keyed_reads_rebuilt(s, bl, el, tail, 11);
    lemma_keyed_reads_rebuilt(s, bl, el, tail, 12);
    lemma_keyed_reads_rebuilt(s, bl, el, tail, 13);
    let n1 = rebuilt(s, bl, el, tail, 1);
    let n4 = rebuilt(s, bl, el, tail, 4);
    let n5 = rebuilt(s, bl, el, tail, 5);
    let n6 = rebuilt(s, bl, el, tail, 6);
    lemma_first_bytes("dev".spec_bytes(), bl[1] + (line_value(1, stage(s, 1)) + (el[1] + rebuilt(s, bl, el, tail, 2))), 0);
    lemma_first_bytes("verb".spec_bytes(), bl[6] + (line_value(6, stage(s, 6)) + (el[6] + rebuilt(s, bl, el, tail, 7))), 0);
    lemma_flag_reads_rebuilt(s, bl, el, tail, 0, 0);
    lemma_flag_reads_rebuilt(s, bl, el, tail, 5, 0);
    if flag_present(5, stage(s, 5)) {
        lemma_first_bytes("persist-tun".spec_bytes(), el[5] + n6, 8);
        lemma_first_bytes("persist-tun".spec_bytes(), el[5] + n6, 0);
        lemma_flag_reads_rebuilt(s, bl, el, tail, 4, 8);
    } else {
        lemma_flag_reads_rebuilt(s, bl, el, tail, 4, 0);
    }
    if flag_present(4, stage(s, 4)) {
        lemma_first_bytes("persist-key".spec_bytes(), el[4] + n5, 0);
    }
    lemma_flag_reads_rebuilt(s, bl, el, tail, 3, 0);
    lemma_chain(n, c);
}

// ---------------------------------------------------------------------------
// The layout a configuration was written with

/// The blank runs of the key-value lines of the configuration read from `s`.
pub open spec fn original_blanks(s: Seq<u8>) -> Seq<Seq<u8>> {
    Seq::new(14, |k: int| if is_keyed_line(k) { line_blank_run(k, stage(s, k)) } else { seq![SP] })
}

/// The line endings of the lines of the configuration read from `s`.
pub open spec fn original_endings(s: Seq<u8>) -> Seq<Seq<u8>> {
    Seq::new(14, |k: int| line_ending_of(k, stage(s, k)))
}

proof fn lemma_flag_shape(k: int, x: Seq<u8>)
    requires
        is_flag_line(k),
    ensures
        flag_present(k, x) ==> x == line_keyword(k) + (line_ending_of(k, x) + rest_after(k, x)) && is_eol(line_ending_of(k, x)),
        !flag_present(k, x) ==> rest_after(k, x) == x,
{
    if flag_present(k, x) {
        lemma_flag_present_moves(x, line_keyword(k), seq![LF], Seq::empty());
    } else {
        let kw = line_keyword(k);
        if tag_spec(x, kw) is Ok {
            let (s1, _) = tag_spec(x, kw)->Ok_0;
            assert(line_ending_spec(s1) is Err);
        }
    }
}

/// Each line of a configuration that is read is read.
proof fn lemma_stage_reads(s: Seq<u8>, k: int)
    requires
        spec_openvpn_config(s) is Done,
        0 <= k < 14,
    ensures
        reads(k, stage(s, k)),
{
    lemma_stages(s);
    if k == 1 {
    } else if k == 2 {
    } else if k == 6 {
    } else if k == 7 {
    } else if k == 8 {
    } else if k == 9 {
    } else if k == 10 {
    } else if k == 11 {
    } else if k == 12 {
    } else if k == 13 {
    }
}

/// Each line of a configuration that is read is the line written with the
/// layout it was read with, followed by the rest.
pub proof fn lemma_stage_shape(s: Seq<u8>, k: int)
    requires
        spec_openvpn_config(s) is Done,
        0 <= k < 14,
    ensures
        stage(s, k + 1) == rest_after(k, stage(s, k)),
        stage(s, k) == rebuilt_line(k, stage(s, k), original_blanks(s)[k], original_endings(s)[k], stage(s, k + 1)),
        is_eol(original_endings(s)[k]),
        is_keyed_line(k) ==> blank_run(original_blanks(s)[k]) && no_break(line_value(k, stage(s, k))),
{
    lemma_stage_reads(s, k);
    let x = stage(s, k);
    assert(stage(s, k + 1) == rest_after(k, x));
    if is_flag_line(k) {
        lemma_flag_shape(k, x);
    } else {
        assert(reads(k, x));
        lemma_keyed_line_moves(k, x, seq![SP], seq![LF], Seq::empty());
    }
}

/// The layout a configuration was read with is fit to write it with.
pub proof fn lemma_original_layout_ok(s: Seq<u8>)
    requires
        spec_openvpn_config(s) is Done,
    ensures
        layout_ok(original_blanks(s), original_endings(s)),
{
    assert forall|k: int| is_keyed_line(k) implies blank_run(#[trigger] original_blanks(s)[k]) by {
        lemma_stage_shape(s, k);
    }
    assert forall|k: int| 0 <= k < 14 implies is_eol(#[trigger] original_endings(s)[k]) by {
        lemma_stage_shape(s, k);
    }
}

proof fn lemma_rebuilt_line_then(k: int, x: Seq<u8>, b: Seq<u8>, e: Seq<u8>, r: Seq<u8>, t: Seq<u8>)
    ensures
        rebuilt_line(k, x, b, e, r + t) == rebuilt_line(k, x, b, e, r) + t,
{
    if is_flag_line(k) {
        if flag_present(k, x) {
            assert(line_keyword(k) + (e + (r + t)) =~= line_keyword(k) + (e + r) + t);
        }
    } else {
        let kw = line_keyword(k);
        let m = line_value(k, x);
        assert(keyed_text_of(kw, b, m, e, r + t) =~= keyed_text_of(kw, b, m, e, r) + t);
    }
}

/// Written with the layout it was read with and followed by `t`, a
/// configuration is its text followed by `t`.
proof fn lemma_rebuilt_original(s: Seq<u8>, t: Seq<u8>, k: int)
    requires
        spec_openvpn_config(s) is Done,
        0 <= k <= 14,
    ensures
        rebuilt(s, original_blanks(s), original_endings(s), stage(s, 14) + t, k) == stage(s, k) + t,
    decreases 14 - k,
{
    if k < 14 {
        lemma_rebuilt_original(s, t, k + 1);
        lemma_stage_shape(s, k);
        lemma_rebuilt_line_then(k, stage(s, k), original_blanks(s)[k], original_endings(s)[k], stage(s, k + 1), t);
    }
}

/// Text appended after a configuration that is read changes only what is
/// left after it: the same configuration is read, and the remainder is the
/// old remainder followed by the appended text.
pub proof fn law_appended_text_is_left_over(s: Seq<u8>, t: Seq<u8>)
    ensures
        spec_openvpn_config(s) matches Outcome::Done(rem, c) ==> spec_openvpn_config(s + t) == Outcome::Done(rem + t, c),
{
    if spec_openvpn_config(s) is Done {
        lemma_stages(s);
        lemma_original_layout_ok(s);
        lemma_rebuilt_original(s, t, 0);
        lemma_rebuilt_reads(s, original_blanks(s), original_endings(s), stage(s, 14) + t);
    }
}

// ---------------------------------------------------------------------------
// Line endings

/// `x` with every line feed written as a carriage return and a line feed.
pub open spec fn lf_to_crlf(x: Seq<u8>) -> Seq<u8>
    decreases x.len(),
{
    if x.len() == 0 {
        Seq::empty()
    } else if x[0] == LF {
        seq![CR, LF] + lf_to_crlf(x.drop_first())
    } else {
        seq![x[0]] + lf_to_crlf(x.drop_first())
    }
}

/// `x` holds no carriage return.
pub open spec fn no_cr(x: Seq<u8>) -> bool {
    forall|i: int| 0 <= i < x.len() ==> #[trigger] x[i] != CR
}

proof fn lemma_crlf_concat(a: Seq<u8>, b: Seq<u8>)
    ensures
        lf_to_crlf(a + b) == lf_to_crlf(a) + lf_to_crlf(b),
    decreases a.len(),
{
    if a.len() == 0 {
        assert(a + b =~= b);
    } else {
        assert((a + b).drop_first() =~= a.drop_first() + b);
        lemma_crlf_concat(a.drop_first(), b);
        assert((a + b)[0] == a[0]);
        if a[0] == LF {
            assert(seq![CR, LF] + (lf_to_crlf(a.drop_first()) + lf_to_crlf(b)) =~= seq![CR, LF] + lf_to_crlf(a.drop_first()) + lf_to_crlf(b));
        } else {
            assert(seq![a[0]] + (lf_to_crlf(a.drop_first()) + lf_to_crlf(b)) =~= seq![a[0]] + lf_to_crlf(a.drop_first()) + lf_to_crlf(b));
        }
    }
}

proof fn lemma_crlf_no_lf(a: Seq<u8>)
    requires
        forall|i: int| 0 <= i < a.len() ==> #[trigger] a[i] != LF,
    ensures
        lf_to_crlf(a) == a,
    decreases a.len(),
{
    if a.len() > 0 {
        lemma_crlf_no_lf(a.drop_first());
        assert(a[0] != LF);
        assert(seq![a[0]] + a.drop_first() =~= a);
    }
}

proof fn lemma_crlf_lf()
    ensures
        lf_to_crlf(seq![LF]) == seq![CR, LF],
{
    let x = seq![LF];
    assert(x.drop_first() =~= Seq::<u8>::empty());
    assert(lf_to_crlf(Seq::<u8>::empty()) == Seq::<u8>::empty());
    assert(x[0] == LF);
    assert(seq![CR, LF] + Seq::<u8>::empty() =~= seq![CR, LF]);
}

proof fn lemma_no_lf_of_plain(w: Seq<u8>)
    requires
        forall|i: int| 0 <= i < w.len() ==> in_class(ByteClass::InLine, #[trigger] w[i]),
    ensures
        lf_to_crlf(w) == w,
{
    assert forall|i: int| 0 <= i < w.len() implies #[trigger] w[i] != LF by {
        assert(in_class(ByteClass::InLine, w[i]));
    }
    lemma_crlf_no_lf(w);
}

/// A key-value line without carriage returns ends with a line feed, and
/// writing its line feeds as carriage return and line feed only changes its
/// line ending and what follows.
proof fn lemma_keyed_text_crlf(kw: Seq<u8>, b: Seq<u8>, m: Seq<u8>, e: Seq<u8>, r: Seq<u8>)
    requires
        plain_word(kw),
        blank_run(b),
        no_break(m),
        is_eol(e),
        no_cr(keyed_text_of(kw, b, m, e, r)),
    ensures
        no_cr(r),
        lf_to_crlf(keyed_text_of(kw, b, m, e, r)) == keyed_text_of(kw, b, m, seq![CR, LF], lf_to_crlf(r)),
{
    let x = keyed_text_of(kw, b, m, e, r);
    let p = (kw.len() + b.len() + m.len()) as int;
    if e == seq![CR, LF] {
        assert(x[p] == CR);
    }
    assert(e == seq![LF]);
    assert forall|i: int| 0 <= i < r.len() implies #[trigger] r[i] != CR by {
        assert(r[i] == x[p + 1 + i]);
    }
    assert forall|i: int| 0 <= i < kw.len() implies in_class(ByteClass::InLine, #[trigger] kw[i]) by {
        assert(in_class(ByteClass::InLine, kw[i]) && !in_class(ByteClass::Blank, kw[i]));
    }
    assert forall|i: int| 0 <= i < b.len() implies in_class(ByteClass::InLine, #[trigger] b[i]) by {
        assert(in_class(ByteClass::Blank, b[i]));
    }
    lemma_no_lf_of_plain(kw);
    lemma_no_lf_of_plain(b);
    lemma_no_lf_of_plain(m);
    lemma_crlf_lf();
    lemma_crlf_concat(kw, b + (m + (e + r)));
    lemma_crlf_concat(b, m + (e + r));
    lemma_crlf_concat(m, e + r);
    lemma_crlf_concat(e, r);
}

/// The same for an optional line that is there.
proof fn lemma_flag_text_crlf(kw: Seq<u8>, e: Seq<u8>, r: Seq<u8>)
    requires
        plain_word(kw),
        is_eol(e),
        no_cr(kw + (e + r)),
    ensures
        no_cr(r),
        lf_to_crlf(kw + (e + r)) == kw + (seq![CR, LF] + lf_to_crlf(r)),
{
    let x = kw + (e + r);
    let p = kw.len() as int;
    if e == seq![CR, LF] {
        assert(x[p] == CR);
    }
    assert(e == seq![LF]);
    assert forall|i: int| 0 <= i < r.len() implies #[trigger] r[i] != CR by {
        assert(r[i] == x[p + 1 + i]);
    }
    assert forall|i: int| 0 <= i < kw.len() implies in_class(ByteClass::InLine, #[trigger] kw[i]) by {
        assert(in_class(ByteClass::InLine, kw[i]) && !in_class(ByteClass::Blank, kw[i]));
    }
    lemma_no_lf_of_plain(kw);
    lemma_crlf_lf();
    lemma_crlf_concat(kw, e + r);
    lemma_crlf_concat(e, r);
}

/// The keywords of the lines are plain words.
proof fn lemma_line_keyword_plain(k: int)
    requires
        0 <= k < 14,
    ensures
        plain_word(line_keyword(k)),
{
    lemma_grammar_words();
    if k == 0 {
    } else if k == 1 {
    } else if k == 2 {
    } else if k == 3 {
    } else if k == 4 {
    } else if k == 5 {
    } else if k == 6 {
    } else if k == 7 {
    } else if k == 8 {
    } else if k == 9 {
    } else if k == 10 {
    } else if k == 11 {
    } else if k == 12 {
    } else {
    }
}

/// A line ending in text without carriage returns is a line feed, and the
/// line reads with a carriage return in front of it.
proof fn lemma_stage_crlf(s: Seq<u8>, k: int)
    requires
        spec_openvpn_config(s) is Done,
        0 <= k < 14,
        no_cr(stage(s, k)),
    ensures
        no_cr(stage(s, k + 1)),
        lf_to_crlf(stage(s, k)) == rebuilt_line(k, stage(s, k), original_blanks(s)[k], seq![CR, LF], lf_to_crlf(stage(s, k + 1))),
{
    lemma_stage_shape(s, k);
    lemma_line_keyword_plain(k);
    let x = stage(s, k);
    let r = stage(s, k + 1);
    let kw = line_keyword(k);
    let e = original_endings(s)[k];
    if is_flag_line(k) {
        if flag_present(k, x) {
            lemma_flag_text_crlf(kw, e, r);
        }
    } else {
        lemma_keyed_text_crlf(kw, original_blanks(s)[k], line_value(k, x), e, r);
    }
}

/// Line feeds written as carriage return and line feed throughout.
pub open spec fn crlf_endings() -> Seq<Seq<u8>> {
    Seq::new(14, |k: int| seq![CR, LF])
}

proof fn lemma_rebuilt_crlf(s: Seq<u8>, k: int)
    requires
        spec_openvpn_config(s) is Done,
        0 <= k <= 14,
        no_cr(stage(s, k)),
    ensures
        rebuilt(s, original_blanks(s), crlf_endings(), lf_to_crlf(stage(s, 14)), k) == lf_to_crlf(stage(s, k)),
    decreases 14 - k,
{
    if k < 14 {
        lemma_stage_crlf(s, k);
        lemma_rebuilt_crlf(s, k + 1);
    }
}

/// `"\n"` and `"\r\n"` line endings are interchangeable: in a configuration
/// without carriage returns that is read, writing every line feed as a
/// carriage return and a line feed reads the same configuration, and leaves
/// the old remainder written the same way.
pub proof fn law_crlf_line_endings(s: Seq<u8>)
    ensures
        no_cr(s) && spec_openvpn_config(s) is Done ==> ({
            let rem = spec_openvpn_config(s)->Done_0;
            let c = spec_openvpn_config(s)->Done_1;
            spec_openvpn_config(lf_to_crlf(s)) == Outcome::Done(lf_to_crlf(rem), c)
        }),
{
    if no_cr(s) && spec_openvpn_config(s) is Done {
        lemma_stages(s);
        lemma_original_layout_ok(s);
        assert(layout_ok(original_blanks(s), crlf_endings()));
        assert(stage(s, 0) == s);
        lemma_rebuilt_crlf(s, 0);
        lemma_rebuilt_reads(s, original_blanks(s), crlf_endings(), lf_to_crlf(stage(s, 14)));
    }
}

// ---------------------------------------------------------------------------
// Blank runs

/// `s` with the blank run after the keyword of key-value line `j` of the
/// configuration read from it replaced by `b2`.
pub open spec fn with_blank_run(s: Seq<u8>, j: int, b2: Seq<u8>) -> Seq<u8> {
    let x = stage(s, j);
    let kw = line_keyword(j);
    s.take(s.len() - x.len()) + (kw + (b2 + x.skip((kw.len() + line_blank_run(j, x).len()) as int)))
}

proof fn lemma_stage_prefix(s: Seq<u8>, k: int)
    requires
        spec_openvpn_config(s) is Done,
        0 <= k < 14,
    ensures
        stage(s, k) == rebuilt_line(k, stage(s, k), original_blanks(s)[k], original_endings(s)[k], Seq::empty())
            + stage(s, k + 1),
{
    lemma_stage_shape(s, k);
    lemma_rebuilt_line_then(k, stage(s, k), original_blanks(s)[k], original_endings(s)[k], Seq::empty(), stage(s, k + 1));
    assert(Seq::<u8>::empty() + stage(s, k + 1) =~= stage(s, k + 1));
}

proof fn lemma_stage_len(s: Seq<u8>, k: int, j: int)
    requires
        spec_openvpn_config(s) is Done,
        0 <= k <= j <= 14,
    ensures
        stage(s, k).len() >= stage(s, j).len(),
    decreases j - k,
{
    if k < j {
        lemma_stage_prefix(s, k);
        lemma_stage_len(s, k + 1, j);
    }
}

proof fn lemma_rebuilt_agree(
    s: Seq<u8>,
    bl: Seq<Seq<u8>>,
    bl2: Seq<Seq<u8>>,
    el: Seq<Seq<u8>>,
    tail: Seq<u8>,
    k: int,
)
    requires
        0 <= k <= 14,
        forall|i: int| k <= i < 14 ==> bl[i] == bl2[i],
    ensures
        rebuilt(s, bl, el, tail, k) == rebuilt(s, bl2, el, tail, k),
    decreases 14 - k,
{
    if k < 14 {
        lemma_rebuilt_agree(s, bl, bl2, el, tail, k + 1);
        assert(bl[k] == bl2[k]);
    }
}

proof fn lemma_rebuilt_after(s: Seq<u8>, bl: Seq<Seq<u8>>, j: int)
    requires
        spec_openvpn_config(s) is Done,
        0 <= j < 14,
        forall|i: int| j < i < 14 ==> bl[i] == original_blanks(s)[i],
    ensures
        rebuilt(s, bl, original_endings(s), stage(s, 14), j + 1) == stage(s, j + 1),
{
    lemma_rebuilt_agree(s, bl, original_blanks(s), original_endings(s), stage(s, 14), j + 1);
    lemma_rebuilt_original(s, Seq::empty(), j + 1);
    assert(stage(s, 14) + Seq::<u8>::empty() =~= stage(s, 14));
    assert(stage(s, j + 1) + Seq::<u8>::empty() =~= stage(s, j + 1));
}

proof fn lemma_rebuilt_before(s: Seq<u8>, bl: Seq<Seq<u8>>, j: int, k: int)
    requires
        spec_openvpn_config(s) is Done,
        0 <= k <= j < 14,
        bl.len() == 14,
        forall|i: int| 0 <= i < j ==> bl[i] == original_blanks(s)[i],
    ensures
        rebuilt(s, bl, original_endings(s), stage(s, 14), k)
            == stage(s, k).take(stage(s, k).len() - stage(s, j).len()) + rebuilt(s, bl, original_endings(s), stage(s, 14), j),
    decreases j - k,
{
    let el = original_endings(s);
    let tail = stage(s, 14);
    if k == j {
        assert(stage(s, k).take(0) =~= Seq::<u8>::empty());
        assert(Seq::<u8>::empty() + rebuilt(s, bl, el, tail, j) =~= rebuilt(s, bl, el, tail, j));
    } else {
        lemma_rebuilt_before(s, bl, j, k + 1);
        lemma_stage_prefix(s, k);
        lemma_stage_len(s, k + 1, j);
        let p = rebuilt_line(k, stage(s, k), original_blanks(s)[k], el[k], Seq::empty());
        let n1 = rebuilt(s, bl, el, tail, k + 1);
        lemma_rebuilt_line_then(k, stage(s, k), original_blanks(s)[k], el[k], Seq::empty(), n1);
        assert(Seq::<u8>::empty() + n1 =~= n1);
        let x1 = stage(s, k + 1);
        let l1 = x1.len() - stage(s, j).len();
        assert((p + x1).take(p.len() + l1) =~= p + x1.take(l1));
        assert(p + (x1.take(l1) + rebuilt(s, bl, el, tail, j)) =~= p + x1.take(l1) + rebuilt(s, bl, el, tail, j));
    }
}

proof fn lemma_remainder_is_last_stage(s: Seq<u8>)
    requires
        spec_openvpn_config(s) is Done,
    ensures
        spec_openvpn_config(s)->Done_0 == stage(s, 14),
{
    lemma_stages(s);
}

#[verifier::rlimit(60)]
proof fn lemma_rebuilt_is_with_blank_run(s: Seq<u8>, j: int, b2: Seq<u8>)
    requires
        spec_openvpn_config(s) is Done,
        is_keyed_line(j),
    ensures
        rebuilt(s, original_blanks(s).update(j, b2), original_endings(s), stage(s, 14), 0) == with_blank_run(s, j, b2),
{
    let ob = original_blanks(s);
    let el = original_endings(s);
    let bl = ob.update(j, b2);
    let tail = stage(s, 14);
    lemma_rebuilt_after(s, bl, j);
    lemma_rebuilt_before(s, bl, j, 0);
    lemma_stage_shape(s, j);
    let x = stage(s, j);
    let kw = line_keyword(j);
    let m = line_value(j, x);
    let e = el[j];
    assert(x == keyed_text_of(kw, ob[j], m, e, stage(s, j + 1)));
    assert(x.skip((kw.len() + line_blank_run(j, x).len()) as int) =~= m + (e + stage(s, j + 1)));
    assert(rebuilt(s, bl, el, tail, j) == keyed_text_of(kw, b2, m, e, stage(s, j + 1)));
    assert(stage(s, 0) == s);
}

/// The blank run after the keyword of a key-value line is free: replacing
/// it with any other non-empty run of spaces and tabs reads the same
/// configuration and leaves the same remainder.
pub proof fn law_blank_run_after_keyword_is_free(s: Seq<u8>, j: int, b2: Seq<u8>)
    requires
        is_keyed_line(j),
        blank_run(b2),
    ensures
        spec_openvpn_config(s) is Done ==> spec_openvpn_config(with_blank_run(s, j, b2)) == spec_openvpn_config(s),
{
    if spec_openvpn_config(s) is Done {
        lemma_original_layout_ok(s);
        let bl = original_blanks(s).update(j, b2);
        let el = original_endings(s);
        assert(layout_ok(bl, el));
        lemma_rebuilt_reads(s, bl, el, stage(s, 14));
        lemma_rebuilt_is_with_blank_run(s, j, b2);
        lemma_remainder_is_last_stage(s);
    }
}

} // verus!
