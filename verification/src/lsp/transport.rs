//! Content-Length framing of LSP messages and the routing of what a server sends.
use vstd::prelude::*;
use vstd::string::{StringExecFns, StringSliceAdditionalSpecFns};
use crate::json::{JsonNumber, Json, JsonValue, NumberValue, int_number, json_int, json_object, json_text, lemma_view_empty, push_member, view_entries};
use vstd::utf8::{decode_utf8, encode_utf8, valid_utf8};
use crate::text::{chars_of, decimal, push_u64, signed_decimal, starts_with, string_of_range, trim, trim_text, u64_text};

verus! {

/// Largest message body accepted from a language server: 64 MiB.
pub const MAX_BODY_BYTES: usize = 67108864;

/// Error type of the LSP transport.
pub enum LspError {
    Transport(String),
    JsonRpc { code: i32, message: String },
    ProcessExited,
}

impl LspError {
    /// The human-readable description of the error.
    pub open spec fn message_spec(&self) -> Seq<char> {
        match self {
            LspError::Transport(m) => "transport error: "@ + m@,
            LspError::JsonRpc { code, message } => "JSON-RPC error ("@ + signed_decimal(*code as int) + "): "@ + message@,
            LspError::ProcessExited => "language server process exited"@,
        }
    }

    /// The human-readable description of the error.
    pub fn message(&self) -> (r: String)
        ensures
            r@ == self.message_spec(),
    {
        match self {
            LspError::Transport(m) => String::from_str("transport error: ").concat(m.as_str()),
            LspError::JsonRpc { code, message } => {
                let mut s = String::from_str("JSON-RPC error (");
                crate::text::push_i64(&mut s, *code as i64);
                s.append("): ");
                s.append(message.as_str());
                s
            },
            LspError::ProcessExited => String::from_str("language server process exited"),
        }
    }
}

/// The header that precedes a body of `len` bytes.
pub open spec fn header_text(len: nat) -> Seq<char> {
    "Content-Length: "@ + decimal(len) + "\r\n\r\n"@
}

/// The header that precedes `body` on the wire (its length counted in UTF-8 bytes).
pub fn content_length_header(body: &str) -> (r: String)
    ensures
        r@ == header_text(body.len() as nat),
{
    let mut s = String::from_str("Content-Length: ");
    push_u64(&mut s, body.len() as u64);
    s.append("\r\n\r\n");
    assert(s@ =~= header_text(body.len() as nat));
    s
}

/// Why `str::parse::<usize>` rejects a text.
pub enum UintParseError {
    Empty,
    InvalidDigit,
    Overflow,
}

pub open spec fn is_ascii_digit(c: char) -> bool {
    '0' <= c <= '9'
}

/// Value of a sequence of decimal digit characters.
pub open spec fn digit_chars_value(s: Seq<char>) -> nat
    decreases s.len(),
{
    if s.len() == 0 {
        0
    } else {
        digit_chars_value(s.drop_last()) * 10 + ((s.last() as int) - 48) as nat
    }
}

/// The digits of an unsigned number: the text after an optional leading `+`.
pub open spec fn unsigned_digits(s: Seq<char>) -> Seq<char> {
    if s.len() > 0 && s[0] == '+' { s.skip(1) } else { s }
}

/// What `str::parse::<usize>` gives: an optional `+` then one or more digits, fitting in
/// `usize`.
pub open spec fn parse_usize_spec(s: Seq<char>) -> Result<nat, UintParseError> {
    if s.len() == 0 {
        Err(UintParseError::Empty)
    } else {
        if unsigned_digits(s).len() == 0 || exists|i: int| 0 <= i < unsigned_digits(s).len() && !is_ascii_digit(#[trigger] unsigned_digits(s)[i]) {
            Err(UintParseError::InvalidDigit)
        } else if digit_chars_value(unsigned_digits(s)) > usize::MAX {
            Err(UintParseError::Overflow)
        } else {
            Ok(digit_chars_value(unsigned_digits(s)))
        }
    }
}

/// The message `ParseIntError` displays.
pub open spec fn parse_error_text(e: UintParseError) -> Seq<char> {
    match e {
        UintParseError::Empty => "cannot parse integer from empty string"@,
        UintParseError::InvalidDigit => "invalid digit found in string"@,
        UintParseError::Overflow => "number too large to fit in target type"@,
    }
}

proof fn lemma_digit_value_monotone(s: Seq<char>, i: int)
    requires
        0 <= i <= s.len(),
        forall|k: int| 0 <= k < s.len() ==> is_ascii_digit(#[trigger] s[k]),
    ensures
        digit_chars_value(s.take(i)) <= digit_chars_value(s),
    decreases s.len() - i,
{
    if i < s.len() {
        assert(s.take(i + 1).drop_last() =~= s.take(i));
        lemma_digit_value_monotone(s, i + 1);
    } else {
        assert(s.take(i) =~= s);
    }
}

/// Parses a decimal `usize` as `str::parse::<usize>` does.
#[verifier::loop_isolation(false)]
pub fn parse_usize(s: &str) -> (r: Result<usize, UintParseError>)
    ensures
        r matches Ok(n) ==> parse_usize_spec(s@) == Ok::<nat, UintParseError>(n as nat),
        r matches Err(e) ==> parse_usize_spec(s@) == Err::<nat, UintParseError>(e),
{
    let cs = chars_of(s);
    if cs.len() == 0 {
        return Err(UintParseError::Empty);
    }
    let start: usize = if cs[0] == '+' { 1 } else { 0 };
    let ghost digits = unsigned_digits(s@);
    assert(digits =~= cs@.skip(start as int));
    if start == cs.len() {
        assert(digits.len() == 0);
        assert(parse_usize_spec(s@) == Err::<nat, UintParseError>(UintParseError::InvalidDigit));
        return Err(UintParseError::InvalidDigit);
    }
    // First make sure every character is a digit.
    let mut i = start;
    while i < cs.len()
        invariant
            start <= i <= cs@.len(),
            forall|k: int| start <= k < i ==> is_ascii_digit(#[trigger] cs@[k]),
        decreases cs@.len() - i,
    {
        if cs[i] < '0' || cs[i] > '9' {
            assert(!is_ascii_digit(digits[i - start]));
            return Err(UintParseError::InvalidDigit);
        }
        i = i + 1;
    }
    assert(forall|k: int| 0 <= k < digits.len() ==> is_ascii_digit(#[trigger] digits[k])) by {
        assert forall|k: int| 0 <= k < digits.len() implies is_ascii_digit(#[trigger] digits[k]) by {
            assert(digits[k] == cs@[start + k]);
        }
    }
    let mut v: usize = 0;
    let mut j = start;
    while j < cs.len()
        invariant
            start <= j <= cs@.len(),
            forall|k: int| 0 <= k < digits.len() ==> is_ascii_digit(#[trigger] digits[k]),
            v == digit_chars_value(digits.take(j - start)),
        decreases cs@.len() - j,
    {
        let d = (cs[j] as u32 - 48) as usize;
        assert(digits.take(j - start + 1).drop_last() =~= digits.take(j - start));
        assert(digits[j - start] == cs@[j as int]);
        if v > (usize::MAX - d) / 10 {
            proof {
                lemma_digit_value_monotone(digits, j - start + 1);
                assert(digit_chars_value(digits.take(j - start + 1)) == v * 10 + d);
            }
            return Err(UintParseError::Overflow);
        }
        v = v * 10 + d;
        j = j + 1;
    }
    assert(digits.take(digits.len() as int) =~= digits);
    Ok(v)
}

/// What the header reader does next.
pub enum HeaderStep {
    /// Keep reading header lines; the Content-Length seen so far.
    Continue(Option<usize>),
    /// The header is complete: read a body of this many bytes.
    Body(usize),
    /// Reading failed.
    Fail(LspError),
}

/// The effect of one header line (`None`: the stream ended) given the Content-Length
/// seen so far: a blank line ends the header, a `Content-Length:` line sets the length,
/// other lines are ignored.
pub open spec fn header_step_spec(content_length: Option<usize>, line: Option<Seq<char>>) -> HeaderStepView {
    match line {
        None => HeaderStepView::Fail(LspErrorView::ProcessExited),
        Some(l) => {
            let t = trim_text(l);
            if t.len() == 0 {
                match content_length {
                    None => HeaderStepView::Fail(LspErrorView::Transport("missing Content-Length header"@)),
                    Some(n) => if n > MAX_BODY_BYTES {
                        HeaderStepView::Fail(
                            LspErrorView::Transport(
                                "Content-Length "@ + decimal(n as nat) + " exceeds maximum "@ + decimal(MAX_BODY_BYTES as nat),
                            ),
                        )
                    } else {
                        HeaderStepView::Body(n)
                    },
                }
            } else if t.len() >= 15 && t.take(15) == "Content-Length:"@ {
                match parse_usize_spec(trim_text(t.skip(15))) {
                    Ok(n) => HeaderStepView::Continue(Some(n as usize)),
                    Err(e) => HeaderStepView::Fail(LspErrorView::Transport("invalid Content-Length: "@ + parse_error_text(e))),
                }
            } else {
                HeaderStepView::Continue(content_length)
            }
        },
    }
}

/// The mathematical form of an `LspError`.
pub enum LspErrorView {
    Transport(Seq<char>),
    JsonRpc(int, Seq<char>),
    ProcessExited,
}

pub open spec fn lsp_error_view(e: LspError) -> LspErrorView {
    match e {
        LspError::Transport(m) => LspErrorView::Transport(m@),
        LspError::JsonRpc { code, message } => LspErrorView::JsonRpc(code as int, message@),
        LspError::ProcessExited => LspErrorView::ProcessExited,
    }
}

/// The mathematical form of a `HeaderStep`.
pub enum HeaderStepView {
    Continue(Option<usize>),
    Body(usize),
    Fail(LspErrorView),
}

pub open spec fn header_step_view(s: HeaderStep) -> HeaderStepView {
    match s {
        HeaderStep::Continue(c) => HeaderStepView::Continue(c),
        HeaderStep::Body(n) => HeaderStepView::Body(n),
        HeaderStep::Fail(e) => HeaderStepView::Fail(lsp_error_view(e)),
    }
}

fn parse_error_message(e: &UintParseError) -> (r: &'static str)
    ensures
        r@ == parse_error_text(*e),
{
    match e {
        UintParseError::Empty => "cannot parse integer from empty string",
        UintParseError::InvalidDigit => "invalid digit found in string",
        UintParseError::Overflow => "number too large to fit in target type",
    }
}

/// One step of reading a message header.
pub fn header_step(content_length: Option<usize>, line: Option<&str>) -> (r: HeaderStep)
    ensures
        header_step_view(r) == header_step_spec(content_length, match line { Some(l) => Some(l@), None => None }),
{
    let l = match line {
        None => return HeaderStep::Fail(LspError::ProcessExited),
        Some(l) => l,
    };
    let t = trim(l);
    let cs = chars_of(t.as_str());
    if cs.len() == 0 {
        return match content_length {
            None => HeaderStep::Fail(LspError::Transport(String::from_str("missing Content-Length header"))),
            Some(n) => {
                if n > MAX_BODY_BYTES {
                    let mut m = String::from_str("Content-Length ");
                    push_u64(&mut m, n as u64);
                    m.append(" exceeds maximum ");
                    push_u64(&mut m, MAX_BODY_BYTES as u64);
                    HeaderStep::Fail(LspError::Transport(m))
                } else {
                    HeaderStep::Body(n)
                }
            },
        };
    }
    let prefix = chars_of("Content-Length:");
    proof {
        reveal_strlit("Content-Length:");
    }
    if starts_with(cs.as_slice(), prefix.as_slice()) {
        let rest = string_of_range(cs.as_slice(), 15, cs.len());
        assert(rest@ =~= t@.skip(15));
        let rt = trim(rest.as_str());
        match parse_usize(rt.as_str()) {
            Ok(n) => HeaderStep::Continue(Some(n)),
            Err(e) => HeaderStep::Fail(
                LspError::Transport(String::from_str("invalid Content-Length: ").concat(parse_error_message(&e))),
            ),
        }
    } else {
        HeaderStep::Continue(content_length)
    }
}


proof fn lemma_decimal_digits(n: nat)
    ensures
        decimal(n).len() > 0,
        forall|i: int| 0 <= i < decimal(n).len() ==> is_ascii_digit(#[trigger] decimal(n)[i]),
        digit_chars_value(decimal(n)) == n,
    decreases n,
{
    let k = (n % 10) as int;
    assert((crate::text::digit_char(k) as int) == 48 + k);
    if n >= 10 {
        lemma_decimal_digits(n / 10);
        assert(decimal(n).drop_last() =~= decimal(n / 10));
        assert(decimal(n).last() == crate::text::digit_char(k));
        assert(digit_chars_value(decimal(n)) == digit_chars_value(decimal(n / 10)) * 10 + k);
        assert forall|i: int| 0 <= i < decimal(n).len() implies is_ascii_digit(#[trigger] decimal(n)[i]) by {
            if i < decimal(n).len() - 1 {
                assert(decimal(n)[i] == decimal(n / 10)[i]);
            }
        }
    } else {
        assert(decimal(n).drop_last() =~= Seq::<char>::empty());
        assert(decimal(n).last() == crate::text::digit_char(k));
        assert(digit_chars_value(decimal(n)) == digit_chars_value(Seq::<char>::empty()) * 10 + k);
    }
}

proof fn lemma_trim_no_whitespace(s: Seq<char>)
    requires
        forall|i: int| 0 <= i < s.len() ==> !crate::text::is_whitespace(#[trigger] s[i]),
    ensures
        trim_text(s) == s,
{
    if s.len() > 0 {
        assert(!crate::text::is_whitespace(s.last()));
        assert(!crate::text::is_whitespace(s[0]));
    }
}

/// Reading back a header written by `content_length_header` gives the body length:
/// its first line sets the length, and the blank line that ends it asks for a body of
/// exactly that many bytes (for bodies within the accepted maximum).
pub proof fn law_header_round_trip(n: usize)
    requires
        n <= MAX_BODY_BYTES,
    ensures
        header_text(n as nat) == ("Content-Length: "@ + decimal(n as nat) + "\r\n"@) + "\r\n"@,
        header_step_spec(None, Some("Content-Length: "@ + decimal(n as nat) + "\r\n"@)) == HeaderStepView::Continue(Some(n)),
        header_step_spec(Some(n), Some("\r\n"@)) == HeaderStepView::Body(n),
{
    reveal_strlit("Content-Length: ");
    reveal_strlit("Content-Length:");
    reveal_strlit("\r\n");
    reveal_strlit("\r\n\r\n");
    let d = decimal(n as nat);
    lemma_decimal_digits(n as nat);
    let line = "Content-Length: "@ + d + "\r\n"@;
    let core = "Content-Length: "@ + d;
    assert(header_text(n as nat) =~= line + "\r\n"@);
    // Trailing `\r\n` is whitespace; the rest ends with a digit.
    assert(line.drop_last() =~= core + seq!['\r']);
    assert((core + seq!['\r']).drop_last() =~= core);
    assert(line.last() == '\n');
    assert(crate::text::is_whitespace('\n'));
    assert(crate::text::is_whitespace('\r'));
    assert(crate::text::trim_end_text(line) == crate::text::trim_end_text(line.drop_last()));
    assert((core + seq!['\r']).last() == '\r');
    assert(crate::text::trim_end_text(core + seq!['\r']) == crate::text::trim_end_text(core));
    assert(crate::text::trim_end_text(line) == crate::text::trim_end_text(core));
    assert(core.last() == d.last());
    assert(!crate::text::is_whitespace(core.last()));
    assert(crate::text::trim_end_text(core) == core);
    assert(crate::text::trim_start_text(core) == core);
    assert(trim_text(line) == core);
    assert(core.take(15) =~= "Content-Length:"@);
    assert(core.skip(15) =~= seq![' '] + d);
    assert((seq![' '] + d).drop_first() =~= d);
    assert forall|i: int| 0 <= i < d.len() implies !crate::text::is_whitespace(#[trigger] d[i]) by {
        assert(is_ascii_digit(d[i]));
    }
    lemma_trim_no_whitespace(d);
    assert(crate::text::trim_start_text(seq![' '] + d) == crate::text::trim_start_text(d));
    assert(crate::text::trim_end_text(seq![' '] + d) == seq![' '] + d) by {
        assert((seq![' '] + d).last() == d.last());
    }
    assert(trim_text(core.skip(15)) == d);
    assert(d[0] != '+');
    assert(unsigned_digits(d) == d);
    assert(parse_usize_spec(d) == Ok::<nat, UintParseError>(n as nat));
    // The blank line.
    assert(("\r\n"@).drop_last() =~= seq!['\r']);
    assert(seq!['\r'].drop_last() =~= Seq::<char>::empty());
    assert(crate::text::trim_end_text("\r\n"@) == crate::text::trim_end_text(seq!['\r']));
    assert(crate::text::trim_end_text(seq!['\r']) == crate::text::trim_end_text(Seq::<char>::empty()));
    assert(trim_text("\r\n"@).len() == 0);
}


/// What `String::from_utf8` reports (its error's text) for bytes that are not UTF-8.
pub uninterp spec fn utf8_error_text(bytes: Seq<u8>) -> Seq<char>;

/// `String::from_utf8`: the text of bytes that are valid UTF-8, else the error's text.
#[verifier::external_body]
fn utf8_string(bytes: Vec<u8>) -> (r: Result<String, String>)
    ensures
        match r {
            Ok(s) => valid_utf8(bytes@) && s@ == decode_utf8(bytes@),
            Err(e) => !valid_utf8(bytes@) && e@ == utf8_error_text(bytes@),
        },
{
    String::from_utf8(bytes).map_err(|e| e.to_string())
}

/// The index of the first `\n` byte at or after `pos`.
pub open spec fn next_newline(buf: Seq<u8>, pos: int) -> Option<int>
    decreases buf.len() - pos,
{
    if pos < 0 || pos >= buf.len() {
        None
    } else if buf[pos] == 10u8 {
        Some(pos)
    } else {
        next_newline(buf, pos + 1)
    }
}

/// Where the header line starting at `pos` ends (after its `\n`, or at the end of the
/// bytes read so far).
pub open spec fn line_end(buf: Seq<u8>, pos: int) -> int {
    match next_newline(buf, pos) {
        Some(j) => if pos <= j < buf.len() { j + 1 } else { buf.len() as int },
        None => buf.len() as int,
    }
}

/// The outcome of reading one message from the bytes a server has sent so far.
pub enum FrameRead {
    /// A whole message: its body, and how many bytes it took.
    Complete(String, usize),
    /// The bytes end inside the message (inside its body when `true`): read more.
    NeedMore(bool),
    /// Reading fails.
    Fail(LspError),
}

/// The mathematical form of a `FrameRead`.
pub enum FrameReadView {
    Complete(Seq<char>, int),
    NeedMore(bool),
    Fail(LspErrorView),
}

pub open spec fn frame_read_view(r: FrameRead) -> FrameReadView {
    match r {
        FrameRead::Complete(b, n) => FrameReadView::Complete(b@, n as int),
        FrameRead::NeedMore(b) => FrameReadView::NeedMore(b),
        FrameRead::Fail(e) => FrameReadView::Fail(lsp_error_view(e)),
    }
}

/// Reading a message from `buf` (all bytes the server sent so far; `eof` when it sent no
/// more), its header from `pos` on with the Content-Length `cl` seen so far. Header lines
/// are read one by one up to and including their `\n` (at the end, what is left), must be
/// UTF-8 and go through `header_step_spec`; the body is the number of bytes the header
/// gave, read whole, and must be UTF-8.
pub open spec fn frame_from(buf: Seq<u8>, eof: bool, pos: int, cl: Option<usize>) -> FrameReadView
    decreases buf.len() - pos,
{
    if pos < 0 || pos >= buf.len() {
        if eof { FrameReadView::Fail(LspErrorView::ProcessExited) } else { FrameReadView::NeedMore(false) }
    } else if next_newline(buf, pos) is None && !eof {
        FrameReadView::NeedMore(false)
    } else {
        let end = line_end(buf, pos);
        let line = buf.subrange(pos, end);
        if !valid_utf8(line) {
            FrameReadView::Fail(LspErrorView::Transport("header read failed: "@ + utf8_error_text(line)))
        } else {
            match header_step_spec(cl, Some(decode_utf8(line))) {
                HeaderStepView::Continue(c) => frame_from(buf, eof, end, c),
                HeaderStepView::Body(n) => if end + n <= buf.len() {
                    let body = buf.subrange(end, end + n);
                    if valid_utf8(body) {
                        FrameReadView::Complete(decode_utf8(body), end + n)
                    } else {
                        FrameReadView::Fail(LspErrorView::Transport("invalid UTF-8: "@ + utf8_error_text(body)))
                    }
                } else if eof {
                    FrameReadView::Fail(LspErrorView::Transport("body read failed: early eof"@))
                } else {
                    FrameReadView::NeedMore(true)
                },
                HeaderStepView::Fail(e) => FrameReadView::Fail(e),
            }
        }
    }
}

proof fn lemma_next_newline_bounds(buf: Seq<u8>, pos: int)
    requires
        0 <= pos,
    ensures
        next_newline(buf, pos) matches Some(j) ==> pos <= j < buf.len() && buf[j] == 10u8
            && forall|k: int| pos <= k < j ==> buf[k] != 10u8,
        next_newline(buf, pos) is None ==> forall|k: int| pos <= k < buf.len() ==> buf[k] != 10u8,
    decreases buf.len() - pos,
{
    if 0 <= pos < buf.len() && buf[pos] != 10u8 {
        lemma_next_newline_bounds(buf, pos + 1);
    }
}

fn copy_bytes(buf: &[u8], from: usize, to: usize) -> (r: Vec<u8>)
    requires
        from <= to <= buf@.len(),
    ensures
        r@ == buf@.subrange(from as int, to as int),
{
    let mut r: Vec<u8> = Vec::new();
    let mut i = from;
    while i < to
        invariant
            from <= i <= to,
            to <= buf@.len(),
            r@ == buf@.subrange(from as int, i as int),
        decreases to - i,
    {
        r.push(buf[i]);
        assert(buf@.subrange(from as int, i + 1) =~= buf@.subrange(from as int, i as int).push(buf@[i as int]));
        i = i + 1;
    }
    r
}

/// Reads one message from the bytes a server has sent so far (`eof` when it will send no
/// more): its body and length, that more bytes are needed, or why reading fails.
pub fn read_frame(buf: &[u8], eof: bool) -> (r: FrameRead)
    ensures
        frame_read_view(r) == frame_from(buf@, eof, 0, None),
{
    let mut pos: usize = 0;
    let mut cl: Option<usize> = None;
    while pos < buf.len()
        invariant
            pos <= buf@.len(),
            frame_from(buf@, eof, 0, None) == frame_from(buf@, eof, pos as int, cl),
        decreases buf@.len() - pos,
    {
        proof {
            lemma_next_newline_bounds(buf@, pos as int);
        }
        let mut j = pos;
        while j < buf.len() && buf[j] != 10u8
            invariant
                pos <= j <= buf@.len(),
                forall|k: int| pos <= k < j ==> buf@[k] != 10u8,
            decreases buf@.len() - j,
        {
            j = j + 1;
        }
        let end: usize = if j < buf.len() {
            assert(next_newline(buf@, pos as int) == Some(j as int)) by {
                if next_newline(buf@, pos as int) is None {
                    assert(buf@[j as int] != 10u8);
                } else {
                    let k = next_newline(buf@, pos as int)->0;
                    if k < j {
                        assert(buf@[k] != 10u8);
                    } else if k > j {
                        assert(buf@[j as int] != 10u8);
                    }
                }
            }
            j + 1
        } else {
            assert(next_newline(buf@, pos as int) is None) by {
                if next_newline(buf@, pos as int) is Some {
                    let k = next_newline(buf@, pos as int)->0;
                    assert(buf@[k] != 10u8);
                }
            }
            if !eof {
                return FrameRead::NeedMore(false);
            }
            buf.len()
        };
        assert(end == line_end(buf@, pos as int));
        let line = copy_bytes(buf, pos, end);
        let text = match utf8_string(line) {
            Ok(t) => t,
            Err(e) => {
                return FrameRead::Fail(LspError::Transport(String::from_str("header read failed: ").concat(e.as_str())));
            },
        };
        match header_step(cl, Some(text.as_str())) {
            HeaderStep::Continue(c) => {
                cl = c;
                pos = end;
            },
            HeaderStep::Body(n) => {
                if n <= buf.len() - end {
                    let body = copy_bytes(buf, end, end + n);
                    return match utf8_string(body) {
                        Ok(b) => FrameRead::Complete(b, end + n),
                        Err(e) => FrameRead::Fail(LspError::Transport(String::from_str("invalid UTF-8: ").concat(e.as_str()))),
                    };
                } else if eof {
                    return FrameRead::Fail(LspError::Transport(String::from_str("body read failed: early eof")));
                } else {
                    return FrameRead::NeedMore(true);
                }
            },
            HeaderStep::Fail(e) => {
                return FrameRead::Fail(e);
            },
        }
    }
    if eof {
        FrameRead::Fail(LspError::ProcessExited)
    } else {
        FrameRead::NeedMore(false)
    }
}

proof fn lemma_encode_concat(a: Seq<char>, b: Seq<char>)
    ensures
        encode_utf8(a + b) == encode_utf8(a) + encode_utf8(b),
    decreases a.len(),
{
    if a.len() == 0 {
        assert(a + b =~= b);
        assert(encode_utf8(a) + encode_utf8(b) =~= encode_utf8(b));
    } else {
        lemma_encode_concat(a.drop_first(), b);
        assert((a + b).drop_first() =~= a.drop_first() + b);
        assert((a + b)[0] == a[0]);
        assert(encode_utf8(a + b) =~= encode_utf8(a) + encode_utf8(b));
    }
}

proof fn lemma_newline_at(buf: Seq<u8>, pos: int, j: int)
    requires
        0 <= pos <= j < buf.len(),
        buf[j] == 10u8,
        forall|k: int| pos <= k < j ==> buf[k] != 10u8,
    ensures
        next_newline(buf, pos) == Some(j),
    decreases j - pos,
{
    if pos < j {
        lemma_newline_at(buf, pos + 1, j);
    }
}

/// A header line of ASCII text ending in its only `\n`, written after `p` and followed by
/// `t`, is read back whole as that line.
proof fn lemma_ascii_line(p: Seq<u8>, line: Seq<char>, t: Seq<u8>)
    requires
        vstd::utf8::is_ascii_chars(line),
        line.len() >= 1,
        line.last() == '\n',
        forall|i: int| 0 <= i < line.len() - 1 ==> line[i] != '\n',
    ensures
        next_newline(p + encode_utf8(line) + t, p.len() as int) == Some(p.len() + line.len() - 1),
        line_end(p + encode_utf8(line) + t, p.len() as int) == p.len() + line.len(),
        (p + encode_utf8(line) + t).subrange(p.len() as int, (p.len() + line.len()) as int) == encode_utf8(line),
{
    vstd::utf8::is_ascii_chars_encode_utf8(line);
    let e = encode_utf8(line);
    let buf = p + e + t;
    let start = p.len() as int;
    let j = start + line.len() - 1;
    assert(buf[j] == e[line.len() - 1]);
    assert(e[line.len() - 1] == line[line.len() - 1] as u8);
    assert forall|k: int| start <= k < j implies buf[k] != 10u8 by {
        assert(buf[k] == e[k - start]);
        assert(e[k - start] == line[k - start] as u8);
        assert(line[k - start] != '\n');
        assert(line[k - start] <= '\u{7f}');
    }
    lemma_newline_at(buf, start, j);
    assert(buf.subrange(start, start + line.len()) =~= e);
}

/// A message written as its header (`header_text` of the body's length in bytes) and its
/// body, in UTF-8, is read back as that body, taking exactly those bytes, whatever follows
/// and whether or not the server has stopped sending (for bodies within the maximum).
pub proof fn law_frame_round_trip(body: Seq<char>, rest: Seq<u8>, eof: bool)
    requires
        encode_utf8(body).len() <= MAX_BODY_BYTES,
    ensures
        frame_from(
            encode_utf8(header_text(encode_utf8(body).len())) + encode_utf8(body) + rest,
            eof,
            0,
            None,
        ) == FrameReadView::Complete(
            body,
            (encode_utf8(header_text(encode_utf8(body).len())).len() + encode_utf8(body).len()) as int,
        ),
{
    reveal_strlit("Content-Length: ");
    reveal_strlit("\r\n");
    let n = encode_utf8(body).len() as usize;
    law_header_round_trip(n);
    lemma_decimal_digits(n as nat);
    let lit = "Content-Length: "@;
    let d = decimal(n as nat);
    let l1 = lit + d + "\r\n"@;
    let l2 = "\r\n"@;
    let h = header_text(n as nat);
    assert(h == l1 + l2);
    let e = encode_utf8(body);
    assert(vstd::utf8::is_ascii_chars(lit)) by {
        assert forall|i: int| 0 <= i < lit.len() implies '\0' <= #[trigger] lit[i] <= '\u{7f}' by {
            assert(lit =~= seq!['C', 'o', 'n', 't', 'e', 'n', 't', '-', 'L', 'e', 'n', 'g', 't', 'h', ':', ' ']);
        }
    }
    assert(vstd::utf8::is_ascii_chars(l1)) by {
        assert forall|i: int| 0 <= i < l1.len() implies '\0' <= #[trigger] l1[i] <= '\u{7f}' by {
            if i < lit.len() {
                assert(l1[i] == lit[i]);
            } else if i < lit.len() + d.len() {
                assert(l1[i] == d[i - lit.len()]);
                assert(is_ascii_digit(d[i - lit.len()]));
            } else {
                assert(l1[i] == "\r\n"@[i - lit.len() - d.len()]);
            }
        }
    }
    assert(vstd::utf8::is_ascii_chars(l2));
    assert forall|i: int| 0 <= i < l1.len() - 1 implies l1[i] != '\n' by {
        if i < lit.len() {
            assert(l1[i] == lit[i]);
            assert(lit =~= seq!['C', 'o', 'n', 't', 'e', 'n', 't', '-', 'L', 'e', 'n', 'g', 't', 'h', ':', ' ']);
        } else if i < lit.len() + d.len() {
            assert(l1[i] == d[i - lit.len()]);
            assert(is_ascii_digit(d[i - lit.len()]));
        } else {
            assert(l1[i] == '\r');
        }
    }
    assert(l1.last() == '\n');
    lemma_encode_concat(l1, l2);
    let e1 = encode_utf8(l1);
    let e2 = encode_utf8(l2);
    let buf = encode_utf8(h) + e + rest;
    // The first line.
    lemma_ascii_line(Seq::empty(), l1, e2 + e + rest);
    assert(Seq::<u8>::empty() + e1 + (e2 + e + rest) =~= buf);
    vstd::utf8::encode_utf8_valid_utf8(l1);
    vstd::utf8::encode_utf8_decode_utf8(l1);
    vstd::utf8::is_ascii_chars_encode_utf8(l1);
    let p1 = e1.len() as int;
    assert(p1 == l1.len());
    assert(line_end(buf, 0) == p1);
    assert(buf.subrange(0, p1) == e1);
    assert(frame_from(buf, eof, 0, None) == frame_from(buf, eof, p1, Some(n)));
    // The blank line.
    lemma_ascii_line(e1, l2, e + rest);
    assert(e1 + e2 + (e + rest) =~= buf);
    vstd::utf8::encode_utf8_valid_utf8(l2);
    vstd::utf8::encode_utf8_decode_utf8(l2);
    vstd::utf8::is_ascii_chars_encode_utf8(l2);
    let p2 = p1 + 2;
    assert(line_end(buf, p1) == p2);
    assert(buf.subrange(p1, p2) == e2);
    // The body.
    assert(encode_utf8(h).len() == p2);
    assert(buf.subrange(p2, p2 + n) =~= e);
    vstd::utf8::encode_utf8_valid_utf8(body);
    vstd::utf8::encode_utf8_decode_utf8(body);
}

/// A JSON-RPC request to a language server.
pub open spec fn request_value(id: int, method: Seq<char>, params: JsonValue) -> JsonValue {
    JsonValue::Object(
        seq![
            ("jsonrpc"@, JsonValue::Str("2.0"@)),
            ("id"@, JsonValue::Number(int_number(id))),
            ("method"@, JsonValue::Str(method)),
            ("params"@, params),
        ],
    )
}

/// A JSON-RPC notification to a language server.
pub open spec fn notification_value(method: Seq<char>, params: JsonValue) -> JsonValue {
    JsonValue::Object(
        seq![("jsonrpc"@, JsonValue::Str("2.0"@)), ("method"@, JsonValue::Str(method)), ("params"@, params)],
    )
}

/// Builds a JSON-RPC request.
pub fn request_message(id: i64, method: &str, params: Json) -> (r: Json)
    ensures
        r@ == request_value(id as int, method@, params@),
{
    proof {
        lemma_view_empty();
    }
    let ghost pv = params@;
    let mut es: Vec<(String, Json)> = Vec::new();
    push_member(&mut es, "jsonrpc", json_text("2.0"));
    push_member(&mut es, "id", json_int(id));
    push_member(&mut es, "method", json_text(method));
    push_member(&mut es, "params", params);
    assert(view_entries(es@) =~= seq![
        ("jsonrpc"@, JsonValue::Str("2.0"@)),
        ("id"@, JsonValue::Number(int_number(id as int))),
        ("method"@, JsonValue::Str(method@)),
        ("params"@, pv),
    ]);
    json_object(es)
}

/// Builds a JSON-RPC notification.
pub fn notification_message(method: &str, params: Json) -> (r: Json)
    ensures
        r@ == notification_value(method@, params@),
{
    proof {
        lemma_view_empty();
    }
    let ghost pv = params@;
    let mut es: Vec<(String, Json)> = Vec::new();
    push_member(&mut es, "jsonrpc", json_text("2.0"));
    push_member(&mut es, "method", json_text(method));
    push_member(&mut es, "params", params);
    assert(view_entries(es@) =~= seq![("jsonrpc"@, JsonValue::Str("2.0"@)), ("method"@, JsonValue::Str(method@)), ("params"@, pv)]);
    json_object(es)
}

/// The integer id of a message, when it has one.
pub open spec fn incoming_id_spec(msg: JsonValue) -> Option<int> {
    match msg.field("id"@) {
        Some(v) => v.i64_value(),
        None => None,
    }
}

/// The integer id of a message from the server, when it has one.
pub fn incoming_id(msg: &Json) -> (r: Option<i64>)
    ensures
        match r {
            Some(id) => incoming_id_spec(msg@) == Some(id as int),
            None => incoming_id_spec(msg@) is None,
        },
{
    match msg.get("id") {
        Some(v) => v.as_i64(),
        None => None,
    }
}

/// The outcome a response carries: its `error` (code, default -1, truncated to 32 bits;
/// message, default `unknown error`), else its `result` (default `null`).
pub open spec fn response_outcome_spec(msg: JsonValue) -> Result<JsonValue, LspErrorView> {
    match msg.field("error"@) {
        Some(e) => Err(
            LspErrorView::JsonRpc(
                (#[verifier::truncate] (match e.field("code"@) {
                    Some(c) => match c.i64_value() { Some(n) => n, None => -1 },
                    None => -1,
                } as i32)) as int,
                match e.str_field("message"@) {
                    Some(m) => m,
                    None => "unknown error"@,
                },
            ),
        ),
        None => Ok(match msg.field("result"@) {
            Some(v) => v,
            None => JsonValue::Null,
        }),
    }
}

/// What a method-bearing message with an id is answered: the request is not supported.
pub open spec fn unsupported_reply_value(id: JsonValue, method: Seq<char>) -> JsonValue {
    crate::mcp::protocol::error_response_value(id, -32601, "unsupported server request: "@ + method)
}

/// What to do with a message read from a language server.
pub enum IncomingAction {
    /// Hand this outcome to the request that is waiting for it.
    Deliver(Result<Json, LspError>),
    /// Write this reply back to the server.
    Reply(Json),
    /// Pass this notification (method, params) on.
    Notify(String, Json),
    /// Nothing to do.
    Ignore,
}

/// The mathematical form of an `IncomingAction`.
pub enum IncomingActionView {
    Deliver(Result<JsonValue, LspErrorView>),
    Reply(JsonValue),
    Notify(Seq<char>, JsonValue),
    Ignore,
}

pub open spec fn incoming_action_view(a: IncomingAction) -> IncomingActionView {
    match a {
        IncomingAction::Deliver(Ok(v)) => IncomingActionView::Deliver(Ok(v@)),
        IncomingAction::Deliver(Err(e)) => IncomingActionView::Deliver(Err(lsp_error_view(e))),
        IncomingAction::Reply(j) => IncomingActionView::Reply(j@),
        IncomingAction::Notify(m, p) => IncomingActionView::Notify(m@, p@),
        IncomingAction::Ignore => IncomingActionView::Ignore,
    }
}

/// How a message from the server is handled. `pending` tells whether its integer id
/// belonged to a request still waiting for an answer (and was taken). A matched response
/// is delivered; a message with an id and a method is a server request, refused with
/// "method not found"; a message without id but with a method is a notification (params
/// default to `{}`); anything else is ignored.
pub open spec fn incoming_action_spec(msg: JsonValue, pending: bool) -> IncomingActionView {
    match msg.field("id"@) {
        Some(idv) => if idv.i64_value() is Some && pending {
            IncomingActionView::Deliver(response_outcome_spec(msg))
        } else {
            match msg.str_field("method"@) {
                Some(m) => IncomingActionView::Reply(unsupported_reply_value(idv, m)),
                None => IncomingActionView::Ignore,
            }
        },
        None => match msg.str_field("method"@) {
            Some(m) => IncomingActionView::Notify(
                m,
                match msg.field("params"@) {
                    Some(p) => p,
                    None => JsonValue::Object(Seq::empty()),
                },
            ),
            None => IncomingActionView::Ignore,
        },
    }
}

fn response_outcome(msg: &Json) -> (r: Result<Json, LspError>)
    ensures
        match r {
            Ok(v) => response_outcome_spec(msg@) == Ok::<JsonValue, LspErrorView>(v@),
            Err(e) => response_outcome_spec(msg@) == Err::<JsonValue, LspErrorView>(lsp_error_view(e)),
        },
{
    match msg.get("error") {
        Some(e) => {
            let code64: i64 = match e.get("code") {
                Some(c) => match c.as_i64() {
                    Some(n) => n,
                    None => -1,
                },
                None => -1,
            };
            let code = #[verifier::truncate] (code64 as i32);
            let message = match e.str_field("message") {
                Some(m) => m.clone(),
                None => String::from_str("unknown error"),
            };
            Err(LspError::JsonRpc { code, message })
        },
        None => Ok(match msg.get("result") {
            Some(v) => v.copy(),
            None => Json::Null,
        }),
    }
}

/// Decides what to do with a message read from a language server.
pub fn incoming_action(msg: &Json, pending: bool) -> (r: IncomingAction)
    ensures
        incoming_action_view(r) == incoming_action_spec(msg@, pending),
{
    match msg.get("id") {
        Some(idv) => {
            let is_int = match idv.as_i64() {
                Some(_) => true,
                None => false,
            };
            if is_int && pending {
                IncomingAction::Deliver(response_outcome(msg))
            } else {
                match msg.str_field("method") {
                    Some(m) => {
                        let text = String::from_str("unsupported server request: ").concat(m.as_str());
                        IncomingAction::Reply(crate::mcp::protocol::error_response(idv.copy(), -32601, text.as_str()))
                    },
                    None => IncomingAction::Ignore,
                }
            }
        },
        None => match msg.str_field("method") {
            Some(m) => {
                let params = match msg.get("params") {
                    Some(p) => p.copy(),
                    None => Json::Object(Vec::new()),
                };
                proof {
                    lemma_view_empty();
                }
                IncomingAction::Notify(m.clone(), params)
            },
            None => IncomingAction::Ignore,
        },
    }
}

} // verus!
