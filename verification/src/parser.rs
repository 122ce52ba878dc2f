//! The configuration grammar.
//!
//! A configuration is a fixed sequence of lines, each ended by `"\n"` or
//! `"\r\n"`:
//!
//! ```text
//! [client]
//! dev tun|tap
//! resolv-retry infinite|<digits>
//! [nobind]
//! [persist-key]
//! [persist-tun]
//! verb <digits>
//! remote-cert-tls client|server
//! ping <digits>
//! ping-restart <digits>
//! sndbuf <digits>
//! rcvbuf <digits>
//! cipher <name>
//! tls-cipher <name>
//! ```
//!
//! Bracketed lines are optional; between a keyword and its value stand one
//! or more spaces or tabs. Every function reads from the start of its input
//! and gives back the text that follows what it read.
//!
//! Three values are converted after their line has been read, and the
//! conversion has no answer for some texts: a `resolv-retry` number that
//! does not fit in a `u32`, and a `cipher` or `tls-cipher` name that is not
//! one of the known names. The specification calls this outcome
//! [`Outcome::Panicked`]; the functions that return a plain
//! `Result` exclude it by their precondition, and [`read_openvpn_config`]
//! reports it as a value.
use vstd::prelude::*;
use vstd::string::StringSliceAdditionalSpecFns;
use crate::config::{Cipher, ConfigType, DevType, OpenVPNConfig, RemoteCertTLS, ResolvRetry, TLSCipher};
use crate::number::{parse_u32, spec_parse_u32};
use crate::text::{
    digit1, digit1_spec, line_ending, line_ending_spec, not_line_ending, not_line_ending_spec, space1,
    space1_spec, tag, tag_spec, lexed_as, ErrorKind, Lexed, ParseError,
};

verus! {

/// A value whose text has no conversion, by the directive it belongs to.
#[derive(Debug, Clone, Copy, PartialEq, Eq, Structural)]
pub enum PanicCause {
    /// A `dev` value other than `tun` and `tap`.
    DevType,
    /// A `resolv-retry` value that is neither `infinite` nor a `u32`.
    ResolvRetry,
    /// A `remote-cert-tls` value other than `client` and `server`.
    RemoteCertTls,
    /// A `cipher` value that names no known cipher.
    Cipher,
    /// A `tls-cipher` value that names no known cipher suite.
    TlsCipher,
}

/// Why reading a whole configuration stopped.
#[derive(Debug, Clone, Copy)]
pub enum Failure<'a> {
    /// The text does not follow the grammar.
    Parse(ParseError<'a>),
    /// A value's text follows the grammar but has no conversion.
    Panic(PanicCause),
}

/// What reading gives for a text with bytes `s`.
pub enum Outcome<T> {
    /// A value, and the bytes that follow what was read.
    Done(Seq<u8>, T),
    /// The text does not follow the grammar: the bytes left where it
    /// failed, and what was expected there.
    Failed(Seq<u8>, ErrorKind),
    /// A value's text has no conversion.
    Panicked(PanicCause),
}

impl<T> Outcome<T> {
    /// The same failure, for a reader of another type.
    pub open spec fn failure<U>(self) -> Outcome<U> {
        match self {
            Outcome::Failed(at, kind) => Outcome::Failed(at, kind),
            Outcome::Panicked(cause) => Outcome::Panicked(cause),
            Outcome::Done(_, _) => arbitrary(),
        }
    }
}

/// A recognised line: the bytes after it and the text of its value, or the
/// bytes left where it failed and what was expected there.
pub type LineText = Result<(Seq<u8>, Seq<u8>), (Seq<u8>, ErrorKind)>;

/// The first of two alternatives that succeeds; when both fail, the second
/// one's failure.
pub open spec fn either(first: Lexed, second: Lexed) -> Lexed {
    if first is Ok {
        first
    } else {
        second
    }
}

/// The keyword `kw` and the blanks after it: the bytes where the value
/// starts.
pub open spec fn after_keyword(s: Seq<u8>, kw: Seq<u8>) -> Result<Seq<u8>, (Seq<u8>, ErrorKind)> {
    match tag_spec(s, kw) {
        Err(kind) => Err((s, kind)),
        Ok((s1, _)) => match space1_spec(s1) {
            Err(kind) => Err((s1, kind)),
            Ok((s2, _)) => Ok(s2),
        },
    }
}

/// A value recognised as `value` at the start of `v`, followed by a line
/// ending.
pub open spec fn value_then_line_end(v: Seq<u8>, value: Lexed) -> LineText {
    match value {
        Err(kind) => Err((v, kind)),
        Ok((r, m)) => match line_ending_spec(r) {
            Err(kind) => Err((r, kind)),
            Ok((t, _)) => Ok((t, m)),
        },
    }
}

/// A line made of the keyword `kw`, blanks, a value recognised by `value`
/// (given the bytes where the value starts), and a line ending.
pub open spec fn keyed_line(s: Seq<u8>, kw: Seq<u8>, value: Lexed) -> LineText {
    match after_keyword(s, kw) {
        Err(e) => Err(e),
        Ok(v) => value_then_line_end(v, value),
    }
}

/// The bytes where the value of a line with keyword `kw` starts (meaningful
/// when the keyword and blanks are there).
pub open spec fn value_start(s: Seq<u8>, kw: Seq<u8>) -> Seq<u8> {
    match after_keyword(s, kw) {
        Ok(v) => v,
        Err(_) => s,
    }
}

/// The line's value converted to `conv` when that is defined.
pub open spec fn converted<T>(line: LineText, conv: Option<T>, cause: PanicCause) -> Outcome<T> {
    match line {
        Err((at, kind)) => Outcome::Failed(at, kind),
        Ok((rest, _)) => match conv {
            Some(v) => Outcome::Done(rest, v),
            None => Outcome::Panicked(cause),
        },
    }
}

/// The text of the value of a recognised line.
pub open spec fn value_text(line: LineText) -> Seq<u8> {
    match line {
        Ok((_, m)) => m,
        Err(_) => Seq::empty(),
    }
}

/// An optional line holding only the keyword `kw`: whether it is there, and
/// the bytes after it (all of `s` when it is not there).
pub open spec fn spec_flag_line(s: Seq<u8>, kw: Seq<u8>) -> Outcome<bool> {
    match tag_spec(s, kw) {
        Ok((s1, _)) => match line_ending_spec(s1) {
            Ok((s2, _)) => Outcome::Done(s2, true),
            Err(_) => Outcome::Done(s, false),
        },
        Err(_) => Outcome::Done(s, false),
    }
}

/// A decimal `u32` at the start of `v`: digits whose value fits, else the
/// failure of the digits or `MapRes`.
pub open spec fn number_spec(v: Seq<u8>) -> Result<(Seq<u8>, u32), ErrorKind> {
    match digit1_spec(v) {
        Err(kind) => Err(kind),
        Ok((r, m)) => match spec_parse_u32(m) {
            Some(n) => Ok((r, n)),
            None => Err(ErrorKind::MapRes),
        },
    }
}

/// A line made of the keyword `kw`, blanks, a decimal `u32` and a line
/// ending.
pub open spec fn spec_number_line(s: Seq<u8>, kw: Seq<u8>) -> Outcome<u32> {
    match after_keyword(s, kw) {
        Err((at, kind)) => Outcome::Failed(at, kind),
        Ok(v) => match number_spec(v) {
            Err(kind) => Outcome::Failed(v, kind),
            Ok((r, n)) => match line_ending_spec(r) {
                Err(kind) => Outcome::Failed(r, kind),
                Ok((t, _)) => Outcome::Done(t, n),
            },
        },
    }
}

/// The optional `client` line.
pub open spec fn spec_config_type(s: Seq<u8>) -> Outcome<ConfigType> {
    match spec_flag_line(s, "client".spec_bytes()) {
        Outcome::Done(r, true) => Outcome::Done(r, ConfigType::Client),
        _ => Outcome::Done(s, ConfigType::Server),
    }
}

/// The `dev` line's text.
pub open spec fn dev_line_spec(s: Seq<u8>) -> LineText {
    let v = value_start(s, "dev".spec_bytes());
    keyed_line(s, "dev".spec_bytes(), either(tag_spec(v, "tun".spec_bytes()), tag_spec(v, "tap".spec_bytes())))
}

/// The `dev` line.
pub open spec fn spec_dev(s: Seq<u8>) -> Outcome<DevType> {
    let line = dev_line_spec(s);
    converted(line, DevType::named(value_text(line)), PanicCause::DevType)
}

/// The `resolv-retry` line's text.
pub open spec fn resolv_retry_line_spec(s: Seq<u8>) -> LineText {
    let v = value_start(s, "resolv-retry".spec_bytes());
    keyed_line(s, "resolv-retry".spec_bytes(), either(tag_spec(v, "infinite".spec_bytes()), digit1_spec(v)))
}

/// The `resolv-retry` line.
pub open spec fn spec_resolv_retry(s: Seq<u8>) -> Outcome<ResolvRetry> {
    let line = resolv_retry_line_spec(s);
    converted(line, ResolvRetry::named(value_text(line)), PanicCause::ResolvRetry)
}

/// The optional `nobind` line.
pub open spec fn spec_nobind(s: Seq<u8>) -> Outcome<bool> {
    spec_flag_line(s, "nobind".spec_bytes())
}

/// The optional `persist-key` line.
pub open spec fn spec_persist_key(s: Seq<u8>) -> Outcome<bool> {
    spec_flag_line(s, "persist-key".spec_bytes())
}

/// The optional `persist-tun` line.
pub open spec fn spec_persist_tun(s: Seq<u8>) -> Outcome<bool> {
    spec_flag_line(s, "persist-tun".spec_bytes())
}

/// The `verb` line.
pub open spec fn spec_verb(s: Seq<u8>) -> Outcome<u32> {
    spec_number_line(s, "verb".spec_bytes())
}

/// The `remote-cert-tls` line's text.
pub open spec fn remote_cert_tls_line_spec(s: Seq<u8>) -> LineText {
    let v = value_start(s, "remote-cert-tls".spec_bytes());
    keyed_line(
        s,
        "remote-cert-tls".spec_bytes(),
        either(tag_spec(v, "client".spec_bytes()), tag_spec(v, "server".spec_bytes())),
    )
}

/// The `remote-cert-tls` line.
pub open spec fn spec_remote_cert_tls(s: Seq<u8>) -> Outcome<RemoteCertTLS> {
    let line = remote_cert_tls_line_spec(s);
    converted(line, RemoteCertTLS::named(value_text(line)), PanicCause::RemoteCertTls)
}

/// The `ping` line.
pub open spec fn spec_ping(s: Seq<u8>) -> Outcome<u32> {
    spec_number_line(s, "ping".spec_bytes())
}

/// The `ping-restart` line.
pub open spec fn spec_ping_restart(s: Seq<u8>) -> Outcome<u32> {
    spec_number_line(s, "ping-restart".spec_bytes())
}

/// The `sndbuf` line.
pub open spec fn spec_sndbuf(s: Seq<u8>) -> Outcome<u32> {
    spec_number_line(s, "sndbuf".spec_bytes())
}

/// The `rcvbuf` line.
pub open spec fn spec_rcvbuf(s: Seq<u8>) -> Outcome<u32> {
    spec_number_line(s, "rcvbuf".spec_bytes())
}

/// The `cipher` line's text.
pub open spec fn cipher_line_spec(s: Seq<u8>) -> LineText {
    let v = value_start(s, "cipher".spec_bytes());
    keyed_line(s, "cipher".spec_bytes(), not_line_ending_spec(v))
}

/// The `cipher` line.
pub open spec fn spec_cipher(s: Seq<u8>) -> Outcome<Cipher> {
    let line = cipher_line_spec(s);
    converted(line, Cipher::named(value_text(line)), PanicCause::Cipher)
}

/// The `tls-cipher` line's text.
pub open spec fn tls_cipher_line_spec(s: Seq<u8>) -> LineText {
    let v = value_start(s, "tls-cipher".spec_bytes());
    keyed_line(s, "tls-cipher".spec_bytes(), not_line_ending_spec(v))
}

/// The `tls-cipher` line.
pub open spec fn spec_tls_cipher(s: Seq<u8>) -> Outcome<TLSCipher> {
    let line = tls_cipher_line_spec(s);
    converted(line, TLSCipher::named(value_text(line)), PanicCause::TlsCipher)
}

/// A whole configuration: its lines in order.
pub open spec fn spec_openvpn_config(s: Seq<u8>) -> Outcome<OpenVPNConfig> {
    match spec_config_type(s) {
        Outcome::Done(s, config_type) => match spec_dev(s) {
            Outcome::Done(s, dev) => match spec_resolv_retry(s) {
                Outcome::Done(s, resolv_retry) => match spec_nobind(s) {
                    Outcome::Done(s, nobind) => match spec_persist_key(s) {
                        Outcome::Done(s, persist_key) => match spec_persist_tun(s) {
                            Outcome::Done(s, persist_tun) => match spec_verb(s) {
                                Outcome::Done(s, verb) => match spec_remote_cert_tls(s) {
                                    Outcome::Done(s, remote_cert_tls) => match spec_ping(s) {
                                        Outcome::Done(s, ping) => match spec_ping_restart(s) {
                                            Outcome::Done(s, ping_restart) => match spec_sndbuf(s) {
                                                Outcome::Done(s, sndbuf) => match spec_rcvbuf(s) {
                                                    Outcome::Done(s, rcvbuf) => match spec_cipher(s) {
                                                        Outcome::Done(s, cipher) => match spec_tls_cipher(s) {
                                                            Outcome::Done(s, tls_cipher) => Outcome::Done(
                                                                s,
                                                                OpenVPNConfig {
                                                                    config_type,
                                                                    dev,
                                                                    resolv_retry,
                                                                    nobind,
                                                                    persist_key,
                                                                    persist_tun,
                                                                    verb,
                                                                    remote_cert_tls,
                                                                    ping,
                                                                    ping_restart,
                                                                    sndbuf,
                                                                    rcvbuf,
                                                                    cipher,
                                                                    tls_cipher,
                                                                },
                                                            ),
                                                            o => o.failure(),
                                                        },
                                                        o => o.failure(),
                                                    },
                                                    o => o.failure(),
                                                },
                                                o => o.failure(),
                                            },
                                            o => o.failure(),
                                        },
                                        o => o.failure(),
                                    },
                                    o => o.failure(),
                                },
                                o => o.failure(),
                            },
                            o => o.failure(),
                        },
                        o => o.failure(),
                    },
                    o => o.failure(),
                },
                o => o.failure(),
            },
            o => o.failure(),
        },
        o => o.failure(),
    }
}

/// The result of an executable reader on some text agrees with `o`, the
/// outcome of its specification on the bytes of that text.
pub open spec fn outcome_as<'a, T>(r: Result<(&'a str, T), ParseError<'a>>, o: Outcome<T>) -> bool {
    match r {
        Ok((rest, v)) => o == Outcome::Done(rest.spec_bytes(), v),
        Err(e) => o == Outcome::<T>::Failed(e.input.spec_bytes(), e.code),
    }
}

/// The result of an executable line recogniser agrees with `line`.
pub open spec fn line_as<'a>(r: Result<(&'a str, &'a str), ParseError<'a>>, line: LineText) -> bool {
    match r {
        Ok((rest, m)) => line == LineText::Ok((rest.spec_bytes(), m.spec_bytes())),
        Err(e) => line == LineText::Err((e.input.spec_bytes(), e.code)),
    }
}

/// The result of [`read_openvpn_config`] agrees with `o`.
pub open spec fn read_as<'a>(r: Result<(&'a str, OpenVPNConfig), Failure<'a>>, o: Outcome<OpenVPNConfig>) -> bool {
    match r {
        Ok((rest, v)) => o == Outcome::Done(rest.spec_bytes(), v),
        Err(Failure::Parse(e)) => o == Outcome::<OpenVPNConfig>::Failed(e.input.spec_bytes(), e.code),
        Err(Failure::Panic(c)) => o == Outcome::<OpenVPNConfig>::Panicked(c),
    }
}

// ---------------------------------------------------------------------------
// Executable readers

/// The keyword `kw` and the blanks after it; gives the text where the value
/// starts.
fn after_keyword_exec<'a>(input: &'a str, kw: &str) -> (r: Result<&'a str, ParseError<'a>>)
    ensures
        match r {
            Ok(v) => after_keyword(input.spec_bytes(), kw.spec_bytes()) == Ok::<Seq<u8>, (Seq<u8>, ErrorKind)>(v.spec_bytes()),
            Err(e) => after_keyword(input.spec_bytes(), kw.spec_bytes()) == Err::<Seq<u8>, (Seq<u8>, ErrorKind)>((e.input.spec_bytes(), e.code)),
        },
{
    let rest = match tag(input, kw) {
        Ok((rest, _)) => rest,
        Err(e) => return Err(e),
    };
    match space1(rest) {
        Ok((rest, _)) => Ok(rest),
        Err(e) => Err(e),
    }
}

/// The value recognised as `value` (read from `v`) followed by a line
/// ending.
fn value_then_line_end_exec<'a>(
    v: &'a str,
    value: Result<(&'a str, &'a str), ParseError<'a>>,
    Ghost(spec): Ghost<Lexed>,
) -> (r: Result<(&'a str, &'a str), ParseError<'a>>)
    requires
        lexed_as(v, value, spec),
    ensures
        line_as(r, value_then_line_end(v.spec_bytes(), spec)),
{
    match value {
        Err(e) => Err(e),
        Ok((rest, m)) => match line_ending(rest) {
            Ok((rest, _)) => Ok((rest, m)),
            Err(e) => Err(e),
        },
    }
}

/// Recognise an optional line holding only the keyword `kw`.
pub fn parse_flag_line<'a>(input: &'a str, kw: &str) -> (r: Result<(&'a str, bool), ParseError<'a>>)
    ensures
        outcome_as(r, spec_flag_line(input.spec_bytes(), kw.spec_bytes())),
        r is Ok,
{
    match tag(input, kw) {
        Ok((rest, _)) => match line_ending(rest) {
            Ok((rest, _)) => Ok((rest, true)),
            Err(_) => Ok((input, false)),
        },
        Err(_) => Ok((input, false)),
    }
}

/// Recognise a line made of the keyword `kw`, blanks, a decimal `u32` and a
/// line ending; gives the number.
pub fn parse_number_line<'a>(input: &'a str, kw: &str) -> (r: Result<(&'a str, u32), ParseError<'a>>)
    ensures
        outcome_as(r, spec_number_line(input.spec_bytes(), kw.spec_bytes())),
{
    let v = match after_keyword_exec(input, kw) {
        Ok(v) => v,
        Err(e) => return Err(e),
    };
    let (rest, digits) = match digit1(v) {
        Ok(p) => p,
        Err(e) => return Err(e),
    };
    let n = match parse_u32(digits) {
        Some(n) => n,
        None => return Err(ParseError { input: v, code: ErrorKind::MapRes }),
    };
    match line_ending(rest) {
        Ok((rest, _)) => Ok((rest, n)),
        Err(e) => Err(e),
    }
}

/// Read the optional `client` line: `Client` when it is there.
pub fn parse_config_type<'a>(input: &'a str) -> (r: Result<(&'a str, ConfigType), ParseError<'a>>)
    ensures
        outcome_as(r, spec_config_type(input.spec_bytes())),
        r is Ok,
{
    match parse_flag_line(input, "client") {
        Ok((rest, true)) => Ok((rest, ConfigType::from(Some("client")))),
        _ => Ok((input, ConfigType::from(None))),
    }
}

/// Recognise the `dev` line; gives its value's text.
pub fn dev_line<'a>(input: &'a str) -> (r: Result<(&'a str, &'a str), ParseError<'a>>)
    ensures
        line_as(r, dev_line_spec(input.spec_bytes())),
{
    let v = match after_keyword_exec(input, "dev") {
        Ok(v) => v,
        Err(e) => return Err(e),
    };
    let value = match tag(v, "tun") {
        Ok(p) => Ok(p),
        Err(_) => tag(v, "tap"),
    };
    value_then_line_end_exec(
        v,
        value,
        Ghost(either(tag_spec(v.spec_bytes(), "tun".spec_bytes()), tag_spec(v.spec_bytes(), "tap".spec_bytes()))),
    )
}

/// Read the `dev` line.
pub fn parse_dev<'a>(input: &'a str) -> (r: Result<(&'a str, DevType), ParseError<'a>>)
    ensures
        outcome_as(r, spec_dev(input.spec_bytes())),
{
    match dev_line(input) {
        Ok((rest, dev)) => Ok((rest, DevType::from(dev))),
        Err(e) => Err(e),
    }
}

/// Recognise the `resolv-retry` line; gives its value's text.
pub fn resolv_retry_line<'a>(input: &'a str) -> (r: Result<(&'a str, &'a str), ParseError<'a>>)
    ensures
        line_as(r, resolv_retry_line_spec(input.spec_bytes())),
{
    let v = match after_keyword_exec(input, "resolv-retry") {
        Ok(v) => v,
        Err(e) => return Err(e),
    };
    let value = match tag(v, "infinite") {
        Ok(p) => Ok(p),
        Err(_) => digit1(v),
    };
    value_then_line_end_exec(
        v,
        value,
        Ghost(either(tag_spec(v.spec_bytes(), "infinite".spec_bytes()), digit1_spec(v.spec_bytes()))),
    )
}

/// Read the `resolv-retry` line; its number must fit in a `u32`.
pub fn parse_resolv_retry<'a>(input: &'a str) -> (r: Result<(&'a str, ResolvRetry), ParseError<'a>>)
    requires
        !(spec_resolv_retry(input.spec_bytes()) is Panicked),
    ensures
        outcome_as(r, spec_resolv_retry(input.spec_bytes())),
{
    match resolv_retry_line(input) {
        Ok((rest, value)) => Ok((rest, ResolvRetry::from(value))),
        Err(e) => Err(e),
    }
}

/// Read the optional `nobind` line.
pub fn parse_nobind<'a>(input: &'a str) -> (r: Result<(&'a str, bool), ParseError<'a>>)
    ensures
        outcome_as(r, spec_nobind(input.spec_bytes())),
        r is Ok,
{
    parse_flag_line(input, "nobind")
}

/// Read the optional `persist-key` line.
pub fn parse_persist_key<'a>(input: &'a str) -> (r: Result<(&'a str, bool), ParseError<'a>>)
    ensures
        outcome_as(r, spec_persist_key(input.spec_bytes())),
        r is Ok,
{
    parse_flag_line(input, "persist-key")
}

/// Read the optional `persist-tun` line.
pub fn parse_persist_tun<'a>(input: &'a str) -> (r: Result<(&'a str, bool), ParseError<'a>>)
    ensures
        outcome_as(r, spec_persist_tun(input.spec_bytes())),
        r is Ok,
{
    parse_flag_line(input, "persist-tun")
}

/// Read the `verb` line.
pub fn parse_verb<'a>(input: &'a str) -> (r: Result<(&'a str, u32), ParseError<'a>>)
    ensures
        outcome_as(r, spec_verb(input.spec_bytes())),
{
    parse_number_line(input, "verb")
}

/// Recognise the `remote-cert-tls` line; gives its value's text.
pub fn remote_cert_tls_line<'a>(input: &'a str) -> (r: Result<(&'a str, &'a str), ParseError<'a>>)
    ensures
        line_as(r, remote_cert_tls_line_spec(input.spec_bytes())),
{
    let v = match after_keyword_exec(input, "remote-cert-tls") {
        Ok(v) => v,
        Err(e) => return Err(e),
    };
    let value = match tag(v, "client") {
        Ok(p) => Ok(p),
        Err(_) => tag(v, "server"),
    };
    value_then_line_end_exec(
        v,
        value,
        Ghost(either(tag_spec(v.spec_bytes(), "client".spec_bytes()), tag_spec(v.spec_bytes(), "server".spec_bytes()))),
    )
}

/// Read the `remote-cert-tls` line.
pub fn parse_remote_cert_tls<'a>(input: &'a str) -> (r: Result<(&'a str, RemoteCertTLS), ParseError<'a>>)
    ensures
        outcome_as(r, spec_remote_cert_tls(input.spec_bytes())),
{
    match remote_cert_tls_line(input) {
        Ok((rest, value)) => Ok((rest, RemoteCertTLS::from(value))),
        Err(e) => Err(e),
    }
}

/// Read the `ping` line.
pub fn parse_ping<'a>(input: &'a str) -> (r: Result<(&'a str, u32), ParseError<'a>>)
    ensures
        outcome_as(r, spec_ping(input.spec_bytes())),
{
    parse_number_line(input, "ping")
}

/// Read the `ping-restart` line.
pub fn parse_ping_restart<'a>(input: &'a str) -> (r: Result<(&'a str, u32), ParseError<'a>>)
    ensures
        outcome_as(r, spec_ping_restart(input.spec_bytes())),
{
    parse_number_line(input, "ping-restart")
}

/// Read the `sndbuf` line.
pub fn parse_sndbuf<'a>(input: &'a str) -> (r: Result<(&'a str, u32), ParseError<'a>>)
    ensures
        outcome_as(r, spec_sndbuf(input.spec_bytes())),
{
    parse_number_line(input, "sndbuf")
}

/// Read the `rcvbuf` line.
pub fn parse_rcvbuf<'a>(input: &'a str) -> (r: Result<(&'a str, u32), ParseError<'a>>)
    ensures
        outcome_as(r, spec_rcvbuf(input.spec_bytes())),
{
    parse_number_line(input, "rcvbuf")
}

/// Recognise a line made of the keyword `kw`, blanks, the rest of the line
/// as free text, and a line ending; gives the free text.
fn free_text_line<'a>(input: &'a str, kw: &str) -> (r: Result<(&'a str, &'a str), ParseError<'a>>)
    ensures
        line_as(
            r,
            keyed_line(
                input.spec_bytes(),
                kw.spec_bytes(),
                not_line_ending_spec(value_start(input.spec_bytes(), kw.spec_bytes())),
            ),
        ),
{
    let v = match after_keyword_exec(input, kw) {
        Ok(v) => v,
        Err(e) => return Err(e),
    };
    let value = not_line_ending(v);
    value_then_line_end_exec(v, value, Ghost(not_line_ending_spec(v.spec_bytes())))
}

/// Recognise the `cipher` line; gives its value's text.
pub fn cipher_line<'a>(input: &'a str) -> (r: Result<(&'a str, &'a str), ParseError<'a>>)
    ensures
        line_as(r, cipher_line_spec(input.spec_bytes())),
{
    free_text_line(input, "cipher")
}

/// Read the `cipher` line; its value must name a known cipher.
pub fn parse_cipher<'a>(input: &'a str) -> (r: Result<(&'a str, Cipher), ParseError<'a>>)
    requires
        !(spec_cipher(input.spec_bytes()) is Panicked),
    ensures
        outcome_as(r, spec_cipher(input.spec_bytes())),
{
    match cipher_line(input) {
        Ok((rest, value)) => Ok((rest, Cipher::from(value))),
        Err(e) => Err(e),
    }
}

/// Recognise the `tls-cipher` line; gives its value's text.
pub fn tls_cipher_line<'a>(input: &'a str) -> (r: Result<(&'a str, &'a str), ParseError<'a>>)
    ensures
        line_as(r, tls_cipher_line_spec(input.spec_bytes())),
{
    free_text_line(input, "tls-cipher")
}

/// Read the `tls-cipher` line; its value must name a known cipher suite.
pub fn parse_tls_cipher<'a>(input: &'a str) -> (r: Result<(&'a str, TLSCipher), ParseError<'a>>)
    requires
        !(spec_tls_cipher(input.spec_bytes()) is Panicked),
    ensures
        outcome_as(r, spec_tls_cipher(input.spec_bytes())),
{
    match tls_cipher_line(input) {
        Ok((rest, value)) => Ok((rest, TLSCipher::from(value))),
        Err(e) => Err(e),
    }
}

/// Read a whole configuration from the start of `input`. Gives the
/// configuration and the text after it, the place where the text stops
/// following the grammar, or the directive whose value has no conversion.
pub fn read_openvpn_config<'a>(input: &'a str) -> (r: Result<(&'a str, OpenVPNConfig), Failure<'a>>)
    ensures
        read_as(r, spec_openvpn_config(input.spec_bytes())),
{
    let (rest, config_type) = match parse_config_type(input) {
        Ok(p) => p,
        Err(e) => return Err(Failure::Parse(e)),
    };
    let (rest, dev) = match parse_dev(rest) {
        Ok(p) => p,
        Err(e) => return Err(Failure::Parse(e)),
    };
    let (rest, value) = match resolv_retry_line(rest) {
        Ok(p) => p,
        Err(e) => return Err(Failure::Parse(e)),
    };
    let resolv_retry = match ResolvRetry::checked_from(value) {
        Some(v) => v,
        None => return Err(Failure::Panic(PanicCause::ResolvRetry)),
    };
    let (rest, nobind) = match parse_nobind(rest) {
        Ok(p) => p,
        Err(e) => return Err(Failure::Parse(e)),
    };
    let (rest, persist_key) = match parse_persist_key(rest) {
        Ok(p) => p,
        Err(e) => return Err(Failure::Parse(e)),
    };
    let (rest, persist_tun) = match parse_persist_tun(rest) {
        Ok(p) => p,
        Err(e) => return Err(Failure::Parse(e)),
    };
    let (rest, verb) = match parse_verb(rest) {
        Ok(p) => p,
        Err(e) => return Err(Failure::Parse(e)),
    };
    let (rest, remote_cert_tls) = match parse_remote_cert_tls(rest) {
        Ok(p) => p,
        Err(e) => return Err(Failure::Parse(e)),
    };
    let (rest, ping) = match parse_ping(rest) {
        Ok(p) => p,
        Err(e) => return Err(Failure::Parse(e)),
    };
    let (rest, ping_restart) = match parse_ping_restart(rest) {
        Ok(p) => p,
        Err(e) => return Err(Failure::Parse(e)),
    };
    let (rest, sndbuf) = match parse_sndbuf(rest) {
        Ok(p) => p,
        Err(e) => return Err(Failure::Parse(e)),
    };
    let (rest, rcvbuf) = match parse_rcvbuf(rest) {
        Ok(p) => p,
        Err(e) => return Err(Failure::Parse(e)),
    };
    let (rest, value) = match cipher_line(rest) {
        Ok(p) => p,
        Err(e) => return Err(Failure::Parse(e)),
    };
    let cipher = match Cipher::checked_from(value) {
        Some(v) => v,
        None => return Err(Failure::Panic(PanicCause::Cipher)),
    };
    let (rest, value) = match tls_cipher_line(rest) {
        Ok(p) => p,
        Err(e) => return Err(Failure::Parse(e)),
    };
    let tls_cipher = match TLSCipher::checked_from(value) {
        Some(v) => v,
        None => return Err(Failure::Panic(PanicCause::TlsCipher)),
    };
    Ok((
        rest,
        OpenVPNConfig {
            config_type,
            dev,
            resolv_retry,
            nobind,
            persist_key,
            persist_tun,
            verb,
            remote_cert_tls,
            ping,
            ping_restart,
            sndbuf,
            rcvbuf,
            cipher,
            tls_cipher,
        },
    ))
}

/// Read a whole configuration from the start of `input`, whose values all
/// have a conversion. Gives the configuration and the text after it, or the
/// place where the text stops following the grammar.
pub fn parse_openvpn_config<'a>(input: &'a str) -> (r: Result<(&'a str, OpenVPNConfig), ParseError<'a>>)
    requires
        !(spec_openvpn_config(input.spec_bytes()) is Panicked),
    ensures
        outcome_as(r, spec_openvpn_config(input.spec_bytes())),
{
    match read_openvpn_config(input) {
        Ok(p) => Ok(p),
        Err(Failure::Parse(e)) => Err(e),
        Err(Failure::Panic(_)) => {
            proof {
                assert(false);
            }
            Err(ParseError { input, code: ErrorKind::Tag })
        },
    }
}

} // verus!
