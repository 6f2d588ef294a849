//! Message framing: a `Content-Length` header block, a blank line, and the
//! body, over a stream of bytes.

use vstd::prelude::*;
use vstd::utf8::{
    encode_utf8, encode_utf8_valid_utf8, is_ascii_chars, is_ascii_chars_encode_utf8, valid_utf8,
};
use crate::decimal::{
    all_digits, decimal, is_digit, lemma_decimal_digits, lemma_decimal_value, read_decimal,
    spec_read_decimal, write_decimal,
};

verus! {

/// Why a byte stream does not hold a frame.
#[derive(Debug, Clone, Copy, PartialEq, Eq, Structural)]
pub enum FrameError {
    /// A header line is not UTF-8 text.
    HeaderNotText,
    /// A header line other than the blank one holds no colon.
    HeaderWithoutColon,
    /// The value of `Content-Length` is no number that fits the machine word.
    BadLength,
    /// The header block ended without `Content-Length`.
    MissingLength,
    /// The stream ended inside the header block.
    TruncatedHeader,
    /// The stream ended before the announced number of body bytes.
    TruncatedBody,
}

/// What one header line says.
#[derive(Debug, Clone, Copy, PartialEq, Eq, Structural)]
pub enum HeaderLine {
    /// The blank line that ends the header block.
    End,
    /// `Content-Length` with its value.
    ContentLength(usize),
    /// A header this codec does not interpret.
    Other,
    /// A line that is no header.
    Invalid(FrameError),
}

/// The header name, `Content-Length`.
pub open spec fn length_name() -> Seq<u8> {
    seq![0x43u8, 0x6f, 0x6e, 0x74, 0x65, 0x6e, 0x74, 0x2d, 0x4c, 0x65, 0x6e, 0x67, 0x74, 0x68]
}

/// The line terminator, carriage return and line feed.
pub open spec fn crlf() -> Seq<u8> {
    seq![0x0du8, 0x0a]
}

/// `b` with an ASCII upper-case letter folded to lower case.
pub open spec fn fold(b: u8) -> u8 {
    if 0x41 <= b <= 0x5a {
        (b + 0x20) as u8
    } else {
        b
    }
}

/// Whether `a` and `b` are equal up to the case of ASCII letters.
pub open spec fn same_name(a: Seq<u8>, b: Seq<u8>) -> bool {
    &&& a.len() == b.len()
    &&& forall|i: int| 0 <= i < a.len() ==> fold(#[trigger] a[i]) == fold(b[i])
}

/// Whether `a b c` encode a three-byte white-space character.
pub open spec fn is_wide_space(a: u8, b: u8, c: u8) -> bool {
    ||| a == 0xe1 && b == 0x9a && c == 0x80
    ||| a == 0xe2 && b == 0x80 && (0x80 <= c <= 0x8a || c == 0xa8 || c == 0xa9 || c == 0xaf)
    ||| a == 0xe2 && b == 0x81 && c == 0x9f
    ||| a == 0xe3 && b == 0x80 && c == 0x80
}

/// Whether `b` is a one-byte white-space character.
pub open spec fn is_narrow_space(b: u8) -> bool {
    b == 0x20 || 0x09 <= b <= 0x0d
}

/// The length of the white-space character whose encoding starts `s`, or 0
/// where `s` starts with none.
pub open spec fn space_at_start(s: Seq<u8>) -> int {
    if s.len() >= 1 && is_narrow_space(s[0]) {
        1
    } else if s.len() >= 2 && s[0] == 0xc2 && (s[1] == 0x85 || s[1] == 0xa0) {
        2
    } else if s.len() >= 3 && is_wide_space(s[0], s[1], s[2]) {
        3
    } else {
        0
    }
}

/// The length of the white-space character whose encoding ends `s`, or 0
/// where `s` ends with none.
pub open spec fn space_at_end(s: Seq<u8>) -> int {
    let n = s.len() as int;
    if n >= 1 && is_narrow_space(s[n - 1]) {
        1
    } else if n >= 2 && s[n - 2] == 0xc2 && (s[n - 1] == 0x85 || s[n - 1] == 0xa0) {
        2
    } else if n >= 3 && is_wide_space(s[n - 3], s[n - 2], s[n - 1]) {
        3
    } else {
        0
    }
}

/// `s` without the white space it starts with.
pub open spec fn trim_start(s: Seq<u8>) -> Seq<u8>
    decreases s.len(),
{
    if space_at_start(s) > 0 {
        trim_start(s.skip(space_at_start(s)))
    } else {
        s
    }
}

/// `s` without the white space it ends with.
pub open spec fn trim_end(s: Seq<u8>) -> Seq<u8>
    decreases s.len(),
{
    if space_at_end(s) > 0 {
        trim_end(s.take(s.len() - space_at_end(s)))
    } else {
        s
    }
}

/// The number that a header value holds: white space around it is dropped,
/// one `+` may precede the digits.
pub open spec fn spec_length_value(v: Seq<u8>) -> Option<usize> {
    let t = trim_end(trim_start(v));
    if t.len() > 0 && t[0] == 0x2b {
        spec_read_decimal(t.skip(1))
    } else {
        spec_read_decimal(t)
    }
}

/// The index of the first colon in `s`, or the length of `s` where it holds
/// none.
pub open spec fn colon_index(s: Seq<u8>) -> int
    decreases s.len(),
{
    if s.len() == 0 {
        0
    } else if s[0] == 0x3a {
        0
    } else {
        1 + colon_index(s.skip(1))
    }
}

/// What the header line `line` says. The line holds its terminator, if the
/// stream had one.
pub open spec fn spec_header_line(line: Seq<u8>) -> HeaderLine {
    let c = colon_index(line);
    if !valid_utf8(line) {
        HeaderLine::Invalid(FrameError::HeaderNotText)
    } else if line == crlf() {
        HeaderLine::End
    } else if c >= line.len() {
        HeaderLine::Invalid(FrameError::HeaderWithoutColon)
    } else if same_name(line.take(c), length_name()) {
        match spec_length_value(line.skip(c + 1)) {
            Some(n) => HeaderLine::ContentLength(n),
            None => HeaderLine::Invalid(FrameError::BadLength),
        }
    } else {
        HeaderLine::Other
    }
}

/// Asks `std::str::from_utf8` whether `bytes` are UTF-8 text. That function
/// succeeds exactly on well-formed UTF-8, which is all this claims.
#[verifier::external_body]
pub(crate) fn is_text(bytes: &[u8]) -> (ok: bool)
    ensures
        ok == valid_utf8(bytes@),
{
    std::str::from_utf8(bytes).is_ok()
}

fn narrow_space(b: u8) -> (r: bool)
    ensures
        r == is_narrow_space(b),
{
    b == 0x20 || (0x09 <= b && b <= 0x0d)
}

fn wide_space(a: u8, b: u8, c: u8) -> (r: bool)
    ensures
        r == is_wide_space(a, b, c),
{
    (a == 0xe1 && b == 0x9a && c == 0x80) || (a == 0xe2 && b == 0x80 && ((0x80 <= c && c <= 0x8a)
        || c == 0xa8 || c == 0xa9 || c == 0xaf)) || (a == 0xe2 && b == 0x81 && c == 0x9f) || (a
        == 0xe3 && b == 0x80 && c == 0x80)
}

fn space_start(s: &[u8], lo: usize, hi: usize) -> (k: usize)
    requires
        lo <= hi <= s.len(),
    ensures
        k == space_at_start(s@.subrange(lo as int, hi as int)),
        lo + k <= hi,
{
    let n: usize = hi - lo;
    let ghost t = s@.subrange(lo as int, hi as int);
    if n >= 1 {
        assert(t[0] == s@[lo as int]);
    }
    if n >= 2 {
        assert(t[1] == s@[lo + 1]);
    }
    if n >= 3 {
        assert(t[2] == s@[lo + 2]);
    }
    if n >= 1 && narrow_space(s[lo]) {
        1
    } else if n >= 2 && s[lo] == 0xc2 && (s[lo + 1] == 0x85 || s[lo + 1] == 0xa0) {
        2
    } else if n >= 3 && wide_space(s[lo], s[lo + 1], s[lo + 2]) {
        3
    } else {
        0
    }
}

pub(crate) fn space_end(s: &[u8], lo: usize, hi: usize) -> (k: usize)
    requires
        lo <= hi <= s.len(),
    ensures
        k == space_at_end(s@.subrange(lo as int, hi as int)),
        lo + k <= hi,
{
    let n: usize = hi - lo;
    let ghost t = s@.subrange(lo as int, hi as int);
    if n >= 1 {
        assert(t[n - 1] == s@[hi - 1]);
    }
    if n >= 2 {
        assert(t[n - 2] == s@[hi - 2]);
    }
    if n >= 3 {
        assert(t[n - 3] == s@[hi - 3]);
    }
    if n >= 1 && narrow_space(s[hi - 1]) {
        1
    } else if n >= 2 && s[hi - 2] == 0xc2 && (s[hi - 1] == 0x85 || s[hi - 1] == 0xa0) {
        2
    } else if n >= 3 && wide_space(s[hi - 3], s[hi - 2], s[hi - 1]) {
        3
    } else {
        0
    }
}

/// Finds the part of `s[from..to]` that is left when the white space around
/// it is dropped.
fn trim_range(s: &[u8], from: usize, to: usize) -> (r: (usize, usize))
    requires
        from <= to <= s.len(),
    ensures
        from <= r.0 <= r.1 <= to,
        s@.subrange(r.0 as int, r.1 as int) == trim_end(
            trim_start(s@.subrange(from as int, to as int)),
        ),
{
    let mut lo: usize = from;
    loop
        invariant
            from <= lo <= to <= s.len(),
            trim_start(s@.subrange(from as int, to as int)) == trim_start(
                s@.subrange(lo as int, to as int),
            ),
        ensures
            trim_start(s@.subrange(from as int, to as int)) == s@.subrange(lo as int, to as int),
        decreases to - lo,
    {
        let k: usize = space_start(s, lo, to);
        if k == 0 {
            break ;
        }
        assert(s@.subrange(lo as int, to as int).skip(k as int) =~= s@.subrange(
            lo + k,
            to as int,
        ));
        lo = lo + k;
    }
    let mut hi: usize = to;
    loop
        invariant
            lo <= hi <= to <= s.len(),
            trim_end(s@.subrange(lo as int, to as int)) == trim_end(
                s@.subrange(lo as int, hi as int),
            ),
        ensures
            trim_end(s@.subrange(lo as int, to as int)) == s@.subrange(lo as int, hi as int),
        decreases hi - lo,
    {
        let k: usize = space_end(s, lo, hi);
        if k == 0 {
            break ;
        }
        assert(s@.subrange(lo as int, hi as int).take(hi - lo - k) =~= s@.subrange(
            lo as int,
            hi - k,
        ));
        hi = hi - k;
    }
    (lo, hi)
}

/// Reads the header value `s[from..]`.
fn length_value(s: &[u8], from: usize) -> (r: Option<usize>)
    requires
        from <= s.len(),
    ensures
        r == spec_length_value(s@.skip(from as int)),
{
    assert(s@.skip(from as int) =~= s@.subrange(from as int, s.len() as int));
    let (lo, hi) = trim_range(s, from, s.len());
    let ghost t = s@.subrange(lo as int, hi as int);
    if lo < hi && s[lo] == 0x2b {
        assert(t[0] == s@[lo as int]);
        assert(t.skip(1) =~= s@.subrange(lo + 1, hi as int));
        read_decimal(s, lo + 1, hi)
    } else {
        if lo < hi {
            assert(t[0] == s@[lo as int]);
        }
        read_decimal(s, lo, hi)
    }
}

/// Finds the first colon of `s`.
fn find_colon(s: &[u8]) -> (c: usize)
    ensures
        c == colon_index(s@),
        c <= s.len(),
{
    let mut i: usize = 0;
    assert(s@.skip(0) =~= s@);
    while i < s.len() && s[i] != 0x3a
        invariant
            i <= s.len(),
            colon_index(s@) == i + colon_index(s@.skip(i as int)),
        decreases s.len() - i,
    {
        assert(s@.skip(i as int)[0] == s@[i as int]);
        assert(s@.skip(i as int).skip(1) =~= s@.skip(i + 1));
        i = i + 1;
    }
    proof {
        if i < s.len() {
            assert(s@.skip(i as int)[0] == s@[i as int]);
        } else {
            assert(s@.skip(i as int).len() == 0);
        }
    }
    i
}

fn fold_byte(b: u8) -> (r: u8)
    ensures
        r == fold(b),
{
    if 0x41 <= b && b <= 0x5a {
        b + 0x20
    } else {
        b
    }
}

/// The header name as bytes.
fn length_name_bytes() -> (name: Vec<u8>)
    ensures
        name@ == length_name(),
{
    let name: Vec<u8> = vec![
        0x43u8,
        0x6f,
        0x6e,
        0x74,
        0x65,
        0x6e,
        0x74,
        0x2d,
        0x4c,
        0x65,
        0x6e,
        0x67,
        0x74,
        0x68,
    ];
    assert(name@ =~= length_name());
    name
}

/// Whether the first `c` bytes of `s` spell the header name, in any case.
fn is_length_name(s: &[u8], c: usize) -> (r: bool)
    requires
        c <= s.len(),
    ensures
        r == same_name(s@.take(c as int), length_name()),
{
    let name = length_name_bytes();
    if c != name.len() {
        return false;
    }
    let mut i: usize = 0;
    while i < c
        invariant
            i <= c <= s.len(),
            c == name.len(),
            name@ == length_name(),
            forall|j: int| 0 <= j < i ==> fold(#[trigger] s@.take(c as int)[j]) == fold(name@[j]),
        decreases c - i,
    {
        assert(s@.take(c as int)[i as int] == s@[i as int]);
        if fold_byte(s[i]) != fold_byte(name[i]) {
            return false;
        }
        i = i + 1;
    }
    true
}

/// Interprets one header line, terminator included.
pub fn header_line(line: &[u8]) -> (r: HeaderLine)
    ensures
        r == spec_header_line(line@),
{
    if !is_text(line) {
        return HeaderLine::Invalid(FrameError::HeaderNotText);
    }
    if line.len() == 2 && line[0] == 0x0d && line[1] == 0x0a {
        assert(line@ =~= crlf());
        return HeaderLine::End;
    }
    assert(line@ != crlf()) by {
        if line@ == crlf() {
            assert(crlf().len() == 2 && crlf()[0] == 0x0d && crlf()[1] == 0x0a);
        }
    }
    let c: usize = find_colon(line);
    if c >= line.len() {
        return HeaderLine::Invalid(FrameError::HeaderWithoutColon);
    }
    if is_length_name(line, c) {
        match length_value(line, c + 1) {
            Some(n) => HeaderLine::ContentLength(n),
            None => HeaderLine::Invalid(FrameError::BadLength),
        }
    } else {
        HeaderLine::Other
    }
}

/// What has been learned from the header lines read so far.
#[derive(Debug, Clone, Copy, PartialEq, Eq, Structural)]
pub struct HeaderState {
    /// The body length announced by the last `Content-Length` line.
    pub length: Option<usize>,
    /// Whether no line has been read yet.
    pub fresh: bool,
}

/// What to do after a header line.
#[derive(Debug, Clone, Copy, PartialEq, Eq, Structural)]
pub enum HeaderStep {
    /// Read another header line.
    More(HeaderState),
    /// The header block is over: read this many body bytes.
    Body(usize),
    /// The stream ended before a frame began.
    EndOfStream,
    /// The stream holds no frame here.
    Failed(FrameError),
}

/// The state before the first header line.
pub open spec fn spec_start() -> HeaderState {
    HeaderState { length: None, fresh: true }
}

/// The step that follows header line `line` in state `state`. An empty line
/// stands for the end of the stream.
pub open spec fn spec_feed(state: HeaderState, line: Seq<u8>) -> HeaderStep {
    if line.len() == 0 {
        if state.fresh {
            HeaderStep::EndOfStream
        } else {
            HeaderStep::Failed(FrameError::TruncatedHeader)
        }
    } else {
        match spec_header_line(line) {
            HeaderLine::End => match state.length {
                Some(n) => HeaderStep::Body(n),
                None => HeaderStep::Failed(FrameError::MissingLength),
            },
            HeaderLine::ContentLength(n) => HeaderStep::More(
                HeaderState { length: Some(n), fresh: false },
            ),
            HeaderLine::Other => HeaderStep::More(
                HeaderState { length: state.length, fresh: false },
            ),
            HeaderLine::Invalid(e) => HeaderStep::Failed(e),
        }
    }
}

/// The state before the first header line of a frame.
pub fn start() -> (state: HeaderState)
    ensures
        state == spec_start(),
{
    HeaderState { length: None, fresh: true }
}

/// Takes one header line, terminator included, as a line-wise reader hands
/// it over; an empty `line` reports the end of the stream.
pub fn feed(state: HeaderState, line: &[u8]) -> (step: HeaderStep)
    ensures
        step == spec_feed(state, line@),
{
    if line.len() == 0 {
        if state.fresh {
            HeaderStep::EndOfStream
        } else {
            HeaderStep::Failed(FrameError::TruncatedHeader)
        }
    } else {
        match header_line(line) {
            HeaderLine::End => match state.length {
                Some(n) => HeaderStep::Body(n),
                None => HeaderStep::Failed(FrameError::MissingLength),
            },
            HeaderLine::ContentLength(n) => HeaderStep::More(
                HeaderState { length: Some(n), fresh: false },
            ),
            HeaderLine::Other => HeaderStep::More(
                HeaderState { length: state.length, fresh: false },
            ),
            HeaderLine::Invalid(e) => HeaderStep::Failed(e),
        }
    }
}

/// The index just behind the line that starts at `from`: behind its line
/// feed, or the end of `s` where no line feed follows.
pub open spec fn line_end(s: Seq<u8>, from: int) -> int
    decreases s.len() - from,
{
    if from < 0 || from >= s.len() {
        s.len() as int
    } else if s[from] == 0x0a {
        from + 1
    } else {
        line_end(s, from + 1)
    }
}

/// A line that starts inside the stream is not empty and ends inside it.
pub proof fn lemma_line_end(s: Seq<u8>, from: int)
    requires
        0 <= from < s.len(),
    ensures
        from < line_end(s, from) <= s.len(),
    decreases s.len() - from,
{
    if s[from] != 0x0a {
        if from + 1 < s.len() {
            lemma_line_end(s, from + 1);
        } else {
            assert(line_end(s, from + 1) == s.len());
        }
    }
}

/// What reading one frame from a stream gives.
pub enum Reading {
    /// The stream ended before a frame began.
    EndOfStream,
    /// A frame with this body; the next frame starts at `next`.
    Frame { body: Seq<u8>, next: int },
    /// The stream holds no frame here.
    Failed(FrameError),
}

/// Reads header lines of `s` from `pos` on, in state `state`, then the body.
pub open spec fn spec_scan(s: Seq<u8>, pos: int, state: HeaderState) -> Reading
    decreases s.len() - pos,
{
    if pos < 0 || pos > s.len() {
        Reading::EndOfStream
    } else {
        let end = line_end(s, pos);
        match spec_feed(state, s.subrange(pos, end)) {
            HeaderStep::More(next) => {
                proof {
                    if pos < s.len() {
                        lemma_line_end(s, pos);
                    }
                }
                if pos < s.len() {
                    spec_scan(s, end, next)
                } else {
                    Reading::EndOfStream
                }
            },
            HeaderStep::Body(n) => if end + n <= s.len() {
                Reading::Frame { body: s.subrange(end, end + n), next: end + n }
            } else {
                Reading::Failed(FrameError::TruncatedBody)
            },
            HeaderStep::EndOfStream => Reading::EndOfStream,
            HeaderStep::Failed(e) => Reading::Failed(e),
        }
    }
}

/// Reads the frame that starts at `pos` in the stream `s`.
pub open spec fn spec_recv(s: Seq<u8>, pos: int) -> Reading {
    spec_scan(s, pos, spec_start())
}

/// What [`recv_frame`] found.
#[derive(Debug, PartialEq, Eq)]
pub enum Received {
    /// The stream ended before a frame began.
    EndOfStream,
    /// A frame with this body; the next frame starts at `next`.
    Frame { body: Vec<u8>, next: usize },
    /// The stream holds no frame here.
    Failed(FrameError),
}

impl View for Received {
    type V = Reading;

    open spec fn view(&self) -> Reading {
        match *self {
            Received::EndOfStream => Reading::EndOfStream,
            Received::Frame { body, next } => Reading::Frame { body: body@, next: next as int },
            Received::Failed(e) => Reading::Failed(e),
        }
    }
}

/// Finds the end of the line that starts at `from`.
fn find_line_end(s: &[u8], from: usize) -> (end: usize)
    requires
        from <= s.len(),
    ensures
        end == line_end(s@, from as int),
        from <= end <= s.len(),
{
    let mut i: usize = from;
    while i < s.len() && s[i] != 0x0a
        invariant
            from <= i <= s.len(),
            line_end(s@, from as int) == line_end(s@, i as int),
        decreases s.len() - i,
    {
        i = i + 1;
    }
    if i < s.len() {
        i + 1
    } else {
        i
    }
}

/// Copies `s[from..to]`.
fn copy_range(s: &[u8], from: usize, to: usize) -> (out: Vec<u8>)
    requires
        from <= to <= s.len(),
    ensures
        out@ == s@.subrange(from as int, to as int),
{
    let mut out: Vec<u8> = Vec::new();
    let mut i: usize = from;
    while i < to
        invariant
            from <= i <= to <= s.len(),
            out@ == s@.subrange(from as int, i as int),
        decreases to - i,
    {
        out.push(s[i]);
        assert(out@ =~= s@.subrange(from as int, i + 1));
        i = i + 1;
    }
    assert(out@ =~= s@.subrange(from as int, to as int));
    out
}

/// Reads one frame from the bytes of a stream, starting at `pos`.
///
/// The end of the stream before the first header line is no error; the end
/// anywhere later is one.
pub fn recv_frame(s: &[u8], pos: usize) -> (r: Received)
    ensures
        r@ == spec_recv(s@, pos as int),
{
    if pos > s.len() {
        return Received::EndOfStream;
    }
    let mut state = start();
    let mut at: usize = pos;
    loop
        invariant
            at <= s.len(),
            spec_recv(s@, pos as int) == spec_scan(s@, at as int, state),
        decreases s.len() - at,
    {
        let end: usize = find_line_end(s, at);
        let line: Vec<u8> = copy_range(s, at, end);
        match feed(state, line.as_slice()) {
            HeaderStep::More(next) => {
                proof {
                    if at < s.len() {
                        lemma_line_end(s@, at as int);
                    }
                }
                if at >= s.len() {
                    return Received::EndOfStream;
                }
                state = next;
                at = end;
            },
            HeaderStep::Body(n) => {
                if n <= s.len() - end {
                    let body: Vec<u8> = copy_range(s, end, end + n);
                    return Received::Frame { body, next: end + n };
                } else {
                    return Received::Failed(FrameError::TruncatedBody);
                }
            },
            HeaderStep::EndOfStream => {
                return Received::EndOfStream;
            },
            HeaderStep::Failed(e) => {
                return Received::Failed(e);
            },
        }
    }
}

/// The header block that announces a body of `n` bytes.
pub open spec fn header_of(n: nat) -> Seq<u8> {
    length_name() + seq![0x3au8, 0x20] + decimal(n) + crlf() + crlf()
}

/// The frame that carries `body`.
pub open spec fn frame_of(body: Seq<u8>) -> Seq<u8> {
    header_of(body.len()) + body
}

/// Appends the bytes of `part` to `out`.
fn append(out: &mut Vec<u8>, part: &[u8])
    ensures
        final(out)@ == old(out)@ + part@,
{
    let mut i: usize = 0;
    while i < part.len()
        invariant
            i <= part.len(),
            out@ == old(out)@ + part@.subrange(0, i as int),
        decreases part.len() - i,
    {
        out.push(part[i]);
        assert(out@ =~= old(out)@ + part@.subrange(0, i + 1));
        i = i + 1;
    }
    assert(part@.subrange(0, part.len() as int) =~= part@);
}

/// Frames `body`: the header block, then the body untouched.
pub fn frame(body: &[u8]) -> (out: Vec<u8>)
    ensures
        out@ == frame_of(body@),
{
    let mut out: Vec<u8> = length_name_bytes();
    out.push(0x3a);
    out.push(0x20);
    let digits: Vec<u8> = write_decimal(body.len());
    append(&mut out, digits.as_slice());
    out.push(0x0d);
    out.push(0x0a);
    out.push(0x0d);
    out.push(0x0a);
    assert(out@ =~= header_of(body@.len()));
    append(&mut out, body);
    out
}

/// Bytes below 0x80 are UTF-8 text.
proof fn lemma_ascii_is_text(b: Seq<u8>)
    requires
        forall|i: int| 0 <= i < b.len() ==> #[trigger] b[i] < 0x80,
    ensures
        valid_utf8(b),
{
    let chars = Seq::new(b.len(), |i: int| b[i] as char);
    assert(is_ascii_chars(chars)) by {
        assert forall|i: int| 0 <= i < chars.len() implies '\0' <= #[trigger] chars[i]
            <= '\u{7f}' by {
            assert(b[i] < 0x80);
        }
    }
    is_ascii_chars_encode_utf8(chars);
    assert(encode_utf8(chars) =~= b) by {
        assert forall|i: int| 0 <= i < b.len() implies encode_utf8(chars)[i] == b[i] by {
            assert(chars[i] as u8 == encode_utf8(chars)[i]);
            assert(b[i] < 0x80);
        }
    }
    encode_utf8_valid_utf8(chars);
}

/// The line that starts at `from` ends behind the first line feed.
proof fn lemma_line_end_at(s: Seq<u8>, from: int, feed_at: int)
    requires
        0 <= from <= feed_at < s.len(),
        s[feed_at] == 0x0a,
        forall|i: int| from <= i < feed_at ==> #[trigger] s[i] != 0x0a,
    ensures
        line_end(s, from) == feed_at + 1,
    decreases feed_at - from,
{
    if from < feed_at {
        lemma_line_end_at(s, from + 1, feed_at);
    }
}

/// The first colon is where no colon stands before.
proof fn lemma_colon_index_at(s: Seq<u8>, at: int)
    requires
        0 <= at < s.len(),
        s[at] == 0x3a,
        forall|i: int| 0 <= i < at ==> #[trigger] s[i] != 0x3a,
    ensures
        colon_index(s) == at,
    decreases at,
{
    if at > 0 {
        let t = s.skip(1);
        assert forall|i: int| 0 <= i < at - 1 implies #[trigger] t[i] != 0x3a by {
            assert(t[i] == s[i + 1]);
        }
        lemma_colon_index_at(t, at - 1);
    }
}

/// A blank, a run of digits and a line terminator hold the digits as value.
proof fn lemma_trim_digits(d: Seq<u8>)
    requires
        d.len() > 0,
        all_digits(d),
    ensures
        trim_end(trim_start(seq![0x20u8] + d + crlf())) == d,
{
    let v = seq![0x20u8] + d + crlf();
    let a = d + crlf();
    assert(v[0] == 0x20);
    assert(v.skip(1) =~= a);
    assert(is_digit(d[0]));
    assert(a[0] == d[0]);
    assert(space_at_start(a) == 0);
    assert(trim_start(a) == a);
    assert(trim_start(v) == a);
    let b = d + seq![0x0du8];
    assert(a[a.len() - 1] == 0x0a);
    assert(a.take(a.len() - 1) =~= b);
    assert(b[b.len() - 1] == 0x0d);
    assert(b.take(b.len() - 1) =~= d);
    assert(is_digit(d[d.len() - 1]));
    assert(space_at_end(d) == 0);
    assert(trim_end(d) == d);
    assert(trim_end(b) == d);
    assert(trim_end(a) == d);
}

/// The header line that [`header_of`] writes announces the length it was
/// written for.
proof fn lemma_length_line(n: nat)
    requires
        n <= usize::MAX,
    ensures
        spec_header_line(length_name() + seq![0x3au8, 0x20] + decimal(n) + crlf())
            == HeaderLine::ContentLength(n as usize),
{
    let d = decimal(n);
    let line = length_name() + seq![0x3au8, 0x20] + d + crlf();
    lemma_decimal_digits(n);
    lemma_decimal_value(n);
    assert forall|i: int| 0 <= i < line.len() implies #[trigger] line[i] < 0x80 by {
        if 16 <= i < 16 + d.len() {
            assert(is_digit(d[i - 16]));
        }
    }
    lemma_ascii_is_text(line);
    assert(line.len() > 2);
    assert(line[14] == 0x3a);
    lemma_colon_index_at(line, 14);
    assert(line.take(14) =~= length_name());
    assert(line.skip(15) =~= seq![0x20u8] + d + crlf());
    lemma_trim_digits(d);
    assert(is_digit(d[0]));
}

/// Reading finds in a written frame the body that was framed, wherever the
/// frame starts in the stream and whatever follows it.
pub proof fn lemma_frame_round_trip(before: Seq<u8>, body: Seq<u8>, rest: Seq<u8>)
    requires
        body.len() <= usize::MAX,
    ensures
        spec_recv(before + frame_of(body) + rest, before.len() as int) == (Reading::Frame {
            body,
            next: (before.len() + frame_of(body).len()) as int,
        }),
{
    let n = body.len();
    let d = decimal(n);
    let first = length_name() + seq![0x3au8, 0x20] + d + crlf();
    let s = before + frame_of(body) + rest;
    let p = before.len() as int;
    let k = p + first.len();
    lemma_decimal_digits(n);
    lemma_length_line(n);
    assert(s =~= before + first + crlf() + body + rest);
    assert forall|i: int| p <= i < k - 1 implies #[trigger] s[i] != 0x0a by {
        assert(s[i] == first[i - p]);
        if 16 <= i - p < 16 + d.len() {
            assert(is_digit(d[i - p - 16]));
        }
    }
    assert(s[k - 1] == first[first.len() - 1]);
    lemma_line_end_at(s, p, k - 1);
    assert(s.subrange(p, k) =~= first);
    let mid = HeaderState { length: Some(n as usize), fresh: false };
    assert(spec_feed(spec_start(), first) == HeaderStep::More(mid));
    assert(spec_scan(s, p, spec_start()) == spec_scan(s, k, mid));
    assert(s[k] == 0x0d && s[k + 1] == 0x0a);
    lemma_line_end_at(s, k, k + 1);
    assert(s.subrange(k, k + 2) =~= crlf());
    lemma_ascii_is_text(crlf());
    assert(spec_feed(mid, crlf()) == HeaderStep::Body(n as usize));
    assert(s.subrange(k + 2, k + 2 + n) =~= body);
    assert(frame_of(body).len() == first.len() + 2 + n);
}

} // verus!
