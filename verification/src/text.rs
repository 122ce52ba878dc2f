//! Byte-level building blocks of the configuration grammar.
//!
//! Every recogniser here reads a `&str` from its start and, on success,
//! splits it into the text it recognised and the text that follows. A
//! failure reports the text it was given together with an [`ErrorKind`].
//! The specifications work on the UTF-8 bytes of the text (`spec_bytes`);
//! all the bytes the grammar looks at are ASCII, so every split point is a
//! character boundary, which the lemmas below establish.
use vstd::prelude::*;
use vstd::string::StringSliceAdditionalSpecFns;
use vstd::utf8::*;

verus! {

broadcast use vstd::utf8::encode_utf8_valid_utf8;

/// Line feed.
pub const LF: u8 = 0x0a;

/// Carriage return.
pub const CR: u8 = 0x0d;

/// Space.
pub const SP: u8 = 0x20;

/// Horizontal tab.
pub const TAB: u8 = 0x09;

/// What a recogniser expected where it failed.
#[derive(Debug, Clone, Copy, PartialEq, Eq, Structural)]
pub enum ErrorKind {
    /// A fixed word was expected (also reported for a carriage return that
    /// is not followed by a line feed inside a line's free-text value).
    Tag,
    /// A line ending (`"\n"` or `"\r\n"`) was expected.
    CrLf,
    /// At least one space or tab was expected.
    Space,
    /// At least one decimal digit was expected.
    Digit,
    /// A run of digits was found but its value does not fit in a `u32`.
    MapRes,
}

/// A failure to recognise the text: `input` is the text that was left when
/// the failing recogniser started, `code` says what it expected.
#[derive(Debug, Clone, Copy)]
pub struct ParseError<'a> {
    pub input: &'a str,
    pub code: ErrorKind,
}

/// The classes of bytes that the grammar scans runs of.
pub enum ByteClass {
    /// Space or tab.
    Blank,
    /// ASCII decimal digit.
    Digit,
    /// Anything but carriage return and line feed.
    InLine,
}

pub open spec fn in_class(c: ByteClass, b: u8) -> bool {
    match c {
        ByteClass::Blank => b == SP || b == TAB,
        ByteClass::Digit => 0x30 <= b <= 0x39,
        ByteClass::InLine => b != CR && b != LF,
    }
}

/// The first index at or after `i` whose byte is not in class `c`
/// (the length of `s` when there is none).
pub open spec fn run_end(s: Seq<u8>, i: int, c: ByteClass) -> int
    decreases s.len() - i,
{
    if 0 <= i < s.len() && in_class(c, s[i]) {
        run_end(s, i + 1, c)
    } else {
        i
    }
}

/// A run stays within the bytes it is scanned in.
pub proof fn lemma_run_end_bounds(s: Seq<u8>, i: int, c: ByteClass)
    requires
        0 <= i <= s.len(),
    ensures
        i <= run_end(s, i, c) <= s.len(),
    decreases s.len() - i,
{
    if i < s.len() && in_class(c, s[i]) {
        lemma_run_end_bounds(s, i + 1, c);
    }
}

/// Outcome of a recogniser on bytes `s`: the remaining bytes and the
/// recognised bytes, or what was expected at the start of `s`.
pub type Lexed = Result<(Seq<u8>, Seq<u8>), ErrorKind>;

/// Recognise the first `n` bytes of `s`.
pub open spec fn take_prefix(s: Seq<u8>, n: int) -> Lexed {
    Ok((s.skip(n), s.take(n)))
}

/// The fixed word `t`.
pub open spec fn tag_spec(s: Seq<u8>, t: Seq<u8>) -> Lexed {
    if t.len() <= s.len() && s.take(t.len() as int) == t {
        take_prefix(s, t.len() as int)
    } else {
        Err(ErrorKind::Tag)
    }
}

/// One line ending: `"\n"` or `"\r\n"`.
pub open spec fn line_ending_spec(s: Seq<u8>) -> Lexed {
    if s.len() >= 1 && s[0] == LF {
        take_prefix(s, 1)
    } else if s.len() >= 2 && s[0] == CR && s[1] == LF {
        take_prefix(s, 2)
    } else {
        Err(ErrorKind::CrLf)
    }
}

/// One or more spaces and tabs, as many as there are.
pub open spec fn space1_spec(s: Seq<u8>) -> Lexed {
    let n = run_end(s, 0, ByteClass::Blank);
    if n > 0 {
        take_prefix(s, n)
    } else {
        Err(ErrorKind::Space)
    }
}

/// One or more decimal digits, as many as there are.
pub open spec fn digit1_spec(s: Seq<u8>) -> Lexed {
    let n = run_end(s, 0, ByteClass::Digit);
    if n > 0 {
        take_prefix(s, n)
    } else {
        Err(ErrorKind::Digit)
    }
}

/// Everything up to the next line ending or the end of the text (possibly
/// nothing); a carriage return that is not followed by a line feed is an
/// error.
pub open spec fn not_line_ending_spec(s: Seq<u8>) -> Lexed {
    let n = run_end(s, 0, ByteClass::InLine);
    if n < s.len() && s[n] == CR && !(n + 1 < s.len() && s[n + 1] == LF) {
        Err(ErrorKind::Tag)
    } else {
        take_prefix(s, n)
    }
}

/// The result of an executable recogniser on `input` agrees with `spec`,
/// the outcome of its specification on the bytes of `input`.
pub open spec fn lexed_as<'a>(
    input: &'a str,
    r: Result<(&'a str, &'a str), ParseError<'a>>,
    spec: Lexed,
) -> bool {
    match r {
        Ok((rest, matched)) => spec == Lexed::Ok((rest.spec_bytes(), matched.spec_bytes())),
        Err(e) => e.input.spec_bytes() == input.spec_bytes() && spec == Lexed::Err(e.code),
    }
}

/// The end of a run is the first byte outside the class.
pub proof fn lemma_run_end_props(s: Seq<u8>, i: int, c: ByteClass)
    requires
        0 <= i <= s.len(),
    ensures
        i <= run_end(s, i, c) <= s.len(),
        forall|j: int| i <= j < run_end(s, i, c) ==> in_class(c, #[trigger] s[j]),
        run_end(s, i, c) < s.len() ==> !in_class(c, s[run_end(s, i, c)]),
    decreases s.len() - i,
{
    if i < s.len() && in_class(c, s[i]) {
        lemma_run_end_props(s, i + 1, c);
    }
}

/// A run that ends at `k` is scanned to `k`.
pub proof fn lemma_run_end_exact(s: Seq<u8>, i: int, k: int, c: ByteClass)
    requires
        0 <= i <= k <= s.len(),
        forall|j: int| i <= j < k ==> in_class(c, #[trigger] s[j]),
        k == s.len() || !in_class(c, s[k]),
    ensures
        run_end(s, i, c) == k,
    decreases k - i,
{
    if i < k {
        lemma_run_end_exact(s, i + 1, k, c);
    }
}

/// A word is recognised in front of anything.
pub proof fn lemma_tag_here(t: Seq<u8>, rest: Seq<u8>)
    ensures
        tag_spec(t + rest, t) == Ok::<(Seq<u8>, Seq<u8>), ErrorKind>((rest, t)),
{
    assert((t + rest).take(t.len() as int) =~= t);
    assert((t + rest).skip(t.len() as int) =~= rest);
}

/// A word is not recognised where a byte of the text differs from it.
pub proof fn lemma_tag_mismatch(s: Seq<u8>, t: Seq<u8>, i: int)
    requires
        0 <= i < t.len(),
        i < s.len(),
        s[i] != t[i],
    ensures
        tag_spec(s, t) is Err,
{
    if t.len() <= s.len() {
        assert(s.take(t.len() as int)[i] != t[i]);
    }
}

// ---------------------------------------------------------------------------
// Character boundaries

/// Joining a valid UTF-8 sequence `x` in front of anything keeps a character
/// boundary right after `x`.
pub proof fn lemma_boundary_after_valid_prefix(x: Seq<u8>, y: Seq<u8>)
    requires
        valid_utf8(x),
        valid_utf8(x + y),
    ensures
        is_char_boundary(x + y, x.len() as int),
    decreases x.len(),
{
    let xy = x + y;
    if x.len() > 0 {
        let n = length_of_first_scalar(x);
        assert(valid_first_scalar(x));
        assert(valid_first_scalar(xy));
        assert(length_of_first_scalar(xy) == n);
        assert(pop_first_scalar(xy) =~= pop_first_scalar(x) + y);
        lemma_boundary_after_valid_prefix(pop_first_scalar(x), y);
    }
}

/// In valid UTF-8, the position right after an ASCII byte is a character
/// boundary.
pub proof fn lemma_boundary_after_ascii(s: Seq<u8>, i: int)
    requires
        valid_utf8(s),
        0 <= i < s.len(),
        s[i] < 0x80,
    ensures
        is_char_boundary(s, i + 1),
    decreases s.len(),
{
    let n = length_of_first_scalar(s);
    assert(valid_first_scalar(s));
    let rest = pop_first_scalar(s);
    if i < n {
        assert(i == 0 && n == 1);
        assert(is_char_boundary(rest, 0));
    } else {
        assert(rest[i - n] == s[i]);
        lemma_boundary_after_ascii(rest, i - n);
    }
}

/// In valid UTF-8, a position holding a carriage return or a line feed, or
/// the end, is a character boundary.
pub proof fn lemma_boundary_at_line_break(s: Seq<u8>, i: int)
    requires
        valid_utf8(s),
        0 <= i <= s.len(),
        i < s.len() ==> (s[i] == CR || s[i] == LF),
    ensures
        is_char_boundary(s, i),
{
    if i == s.len() {
        is_char_boundary_start_end_of_seq(s);
    } else {
        is_char_boundary_iff_not_is_continuation_byte(s, i);
    }
}

// ---------------------------------------------------------------------------
// Executable recognisers

/// Split `input` after its first `n` bytes, `n` being a character boundary.
fn split_prefix<'a>(input: &'a str, n: usize) -> (r: (&'a str, &'a str))
    requires
        n <= input.spec_bytes().len(),
        is_char_boundary(input.spec_bytes(), n as int),
    ensures
        r.0.spec_bytes() == input.spec_bytes().skip(n as int),
        r.1.spec_bytes() == input.spec_bytes().take(n as int),
{
    let (head, tail) = input.split_at(n);
    (tail, head)
}

/// Whether `b` begins with the bytes `t`.
pub fn starts_with_bytes(b: &[u8], t: &[u8]) -> (r: bool)
    ensures
        r == (t@.len() <= b@.len() && b@.take(t@.len() as int) == t@),
{
    if t.len() > b.len() {
        return false;
    }
    let mut i: usize = 0;
    while i < t.len()
        invariant
            t@.len() <= b@.len(),
            0 <= i <= t@.len(),
            forall|j: int| 0 <= j < i ==> b@[j] == t@[j],
        decreases t@.len() - i,
    {
        if b[i] != t[i] {
            assert(b@.take(t@.len() as int)[i as int] != t@[i as int]);
            return false;
        }
        i = i + 1;
    }
    assert(b@.take(t@.len() as int) =~= t@);
    true
}

/// Whether the two texts are the same.
pub fn str_eq(a: &str, b: &str) -> (r: bool)
    ensures
        r == (a.spec_bytes() == b.spec_bytes()),
{
    let ab = a.as_bytes();
    let bb = b.as_bytes();
    if ab.len() != bb.len() {
        return false;
    }
    let r = starts_with_bytes(ab, bb);
    assert(ab@.take(bb@.len() as int) =~= ab@);
    r
}

/// Whether byte `x` is of class `c`.
fn is_in_class(c: &ByteClass, x: u8) -> (r: bool)
    ensures
        r == in_class(*c, x),
{
    match c {
        ByteClass::Blank => x == SP || x == TAB,
        ByteClass::Digit => 0x30 <= x && x <= 0x39,
        ByteClass::InLine => x != CR && x != LF,
    }
}

/// The end of the run of bytes of class `c` that starts at `i`.
fn scan_run(b: &[u8], i: usize, c: ByteClass) -> (r: usize)
    requires
        i <= b@.len(),
    ensures
        r == run_end(b@, i as int, c),
        i <= r <= b@.len(),
        forall|j: int| i <= j < r ==> in_class(c, #[trigger] b@[j]),
        r < b@.len() ==> !in_class(c, b@[r as int]),
{
    let mut k = i;
    while k < b.len() && is_in_class(&c, b[k])
        invariant
            i <= k <= b@.len(),
            run_end(b@, i as int, c) == run_end(b@, k as int, c),
            forall|j: int| i <= j < k ==> in_class(c, #[trigger] b@[j]),
        decreases b@.len() - k,
    {
        k = k + 1;
    }
    k
}

/// Recognise the fixed word `t` at the start of `input`.
pub fn tag<'a>(input: &'a str, t: &str) -> (r: Result<(&'a str, &'a str), ParseError<'a>>)
    ensures
        lexed_as(input, r, tag_spec(input.spec_bytes(), t.spec_bytes())),
{
    let b = input.as_bytes();
    let tb = t.as_bytes();
    if starts_with_bytes(b, tb) {
        proof {
            let s = input.spec_bytes();
            let k = tb@.len() as int;
            assert(s =~= tb@ + s.skip(k));
            lemma_boundary_after_valid_prefix(tb@, s.skip(k));
        }
        Ok(split_prefix(input, tb.len()))
    } else {
        Err(ParseError { input, code: ErrorKind::Tag })
    }
}

/// Recognise one line ending at the start of `input`.
pub fn line_ending<'a>(input: &'a str) -> (r: Result<(&'a str, &'a str), ParseError<'a>>)
    ensures
        lexed_as(input, r, line_ending_spec(input.spec_bytes())),
{
    let b = input.as_bytes();
    if b.len() >= 1 && b[0] == LF {
        proof {
            lemma_boundary_after_ascii(input.spec_bytes(), 0);
        }
        Ok(split_prefix(input, 1))
    } else if b.len() >= 2 && b[0] == CR && b[1] == LF {
        proof {
            lemma_boundary_after_ascii(input.spec_bytes(), 1);
        }
        Ok(split_prefix(input, 2))
    } else {
        Err(ParseError { input, code: ErrorKind::CrLf })
    }
}

/// Recognise a non-empty run of bytes of class `c` at the start of `input`,
/// failing with `kind` when there is none.
fn run1<'a>(input: &'a str, c: ByteClass, kind: ErrorKind) -> (r: Result<(&'a str, &'a str), ParseError<'a>>)
    requires
        !(c is InLine),
    ensures
        ({
            let s = input.spec_bytes();
            let n = run_end(s, 0, c);
            lexed_as(input, r, if n > 0 { take_prefix(s, n) } else { Lexed::Err(kind) })
        }),
{
    let b = input.as_bytes();
    let n = scan_run(b, 0, c);
    if n > 0 {
        proof {
            assert(in_class(c, b@[n - 1]));
            lemma_boundary_after_ascii(input.spec_bytes(), n - 1);
        }
        Ok(split_prefix(input, n))
    } else {
        Err(ParseError { input, code: kind })
    }
}

/// Recognise one or more spaces and tabs at the start of `input`.
pub fn space1<'a>(input: &'a str) -> (r: Result<(&'a str, &'a str), ParseError<'a>>)
    ensures
        lexed_as(input, r, space1_spec(input.spec_bytes())),
{
    run1(input, ByteClass::Blank, ErrorKind::Space)
}

/// Recognise one or more decimal digits at the start of `input`.
pub fn digit1<'a>(input: &'a str) -> (r: Result<(&'a str, &'a str), ParseError<'a>>)
    ensures
        lexed_as(input, r, digit1_spec(input.spec_bytes())),
{
    run1(input, ByteClass::Digit, ErrorKind::Digit)
}

/// Recognise the rest of the current line (without its line ending).
pub fn not_line_ending<'a>(input: &'a str) -> (r: Result<(&'a str, &'a str), ParseError<'a>>)
    ensures
        lexed_as(input, r, not_line_ending_spec(input.spec_bytes())),
{
    let b = input.as_bytes();
    let n = scan_run(b, 0, ByteClass::InLine);
    if n < b.len() && b[n] == CR && !(n + 1 < b.len() && b[n + 1] == LF) {
        Err(ParseError { input, code: ErrorKind::Tag })
    } else {
        proof {
            lemma_boundary_at_line_break(input.spec_bytes(), n as int);
        }
        Ok(split_prefix(input, n))
    }
}

} // verus!
