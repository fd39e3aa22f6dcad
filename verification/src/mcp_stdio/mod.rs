//! MCP over stdio: messages framed by a `Content-Length` header.
pub mod server;

use vstd::prelude::*;
use crate::text::{
    ascii_lower, ascii_lower_text, char_index, is_digit, is_ws, lemma_char_index_is,
    lemma_decimal_digits, lemma_decimal_parses, lemma_skip_ws_is, lemma_trim_end_is, skip_ws,
    strip_cr, trim_end, chars_of, decimal, find_char_from, first_where, line_split,
    lines_of, lower_ascii, parse_unsigned, parse_unsigned_chars, push_radix, push_str, starts_with,
    starts_with_chars, tail_chars, texts, trim, trim_chars,
};
use crate::utf8::{lenient_text, utf8_lossy};

verus! {

/// The bytes that end a header: a blank line.
pub open spec fn header_end() -> Seq<u8> {
    seq![13u8, 10u8, 13u8, 10u8]
}

/// Whether the bytes read so far hold a whole header: they end with `\r\n\r\n`.
pub fn header_complete(buf: &Vec<u8>) -> (r: bool)
    ensures
        r == (buf@.len() >= 4 && buf@.skip(buf@.len() - 4) == header_end()),
{
    let n = buf.len();
    if n < 4 {
        return false;
    }
    let r = buf[n - 4] == 13u8 && buf[n - 3] == 10u8 && buf[n - 2] == 13u8 && buf[n - 1] == 10u8;
    assert(r ==> buf@.skip(n - 4) =~= header_end());
    if !r {
        assert(buf@.skip(n - 4)[0] == buf@[n - 4]);
        assert(buf@.skip(n - 4)[1] == buf@[n - 3]);
        assert(buf@.skip(n - 4)[2] == buf@[n - 2]);
        assert(buf@.skip(n - 4)[3] == buf@[n - 1]);
    }
    r
}

/// A header line that gives the length: it starts with `content-length:` in any ASCII
/// case.
pub open spec fn is_length_line(l: Seq<char>) -> bool {
    starts_with(ascii_lower_text(l), "content-length:"@)
}

/// The test of `is_length_line`.
pub open spec fn length_line() -> spec_fn(Seq<char>) -> bool {
    |l: Seq<char>| is_length_line(l)
}

/// The length a header gives: the first `content-length:` line decides, its value after
/// the first `:`, trimmed, read as a `usize`; `None` when there is no such line or its
/// value is not a number that fits.
pub open spec fn header_length(h: Seq<char>) -> Option<nat> {
    let ls = line_split(h);
    let k = first_where(ls, length_line());
    if k < 0 {
        None
    } else {
        let c = char_index(ls[k], ':');
        if c < 0 {
            None
        } else {
            parse_unsigned(trim(ls[k].skip(c + 1)), usize::MAX as nat)
        }
    }
}

/// The length the header text `headers` gives (see `header_length`).
pub fn content_length(headers: &str) -> (r: Option<usize>)
    ensures
        match r {
            Some(n) => header_length(headers@) == Some(n as nat),
            None => header_length(headers@) is None,
        },
{
    let v = chars_of(headers);
    let lines = lines_of(&v);
    let prefix = chars_of("content-length:");
    let mut i: usize = 0;
    while i < lines.len()
        invariant
            i <= lines.len(),
            texts(lines@) == line_split(headers@),
            prefix@ == "content-length:"@,
            forall|j: int| 0 <= j < i ==> !is_length_line(#[trigger] texts(lines@)[j]),
        decreases lines.len() - i,
    {
        let lower = lower_ascii(&lines[i]);
        assert(texts(lines@)[i as int] == lines@[i as int]@);
        if starts_with_chars(&lower, &prefix) {
            proof {
                crate::text::lemma_first_where_is(texts(lines@), length_line(), i as int);
            }
            let line = &lines[i];
            assert(line@.skip(0) == line@);
            let c = match find_char_from(line, ':', 0) {
                Some(c) => c,
                None => {
                    return None;
                },
            };
            let after = tail_chars(line, c + 1);
            let value = trim_chars(&after);
            return match parse_unsigned_chars(&value, usize::MAX as u64) {
                Some(n) => Some(n as usize),
                None => None,
            };
        }
        i = i + 1;
    }
    proof {
        crate::text::lemma_first_where_is(texts(lines@), length_line(), -1);
    }
    None
}

/// The length a raw header gives, its bytes read leniently as UTF-8 (see
/// `header_length`).
pub fn header_content_length(header: &[u8]) -> (r: Option<usize>)
    ensures
        match r {
            Some(n) => header_length(lenient_text(header@)) == Some(n as nat),
            None => header_length(lenient_text(header@)) is None,
        },
{
    let text = utf8_lossy(header);
    content_length(text.as_str())
}

/// The header of a message of `len` bytes.
pub open spec fn frame_header_text(len: nat) -> Seq<char> {
    "Content-Length: "@ + decimal(len) + "\r\n\r\n"@
}

/// The header of a message of `len` bytes (see `frame_header_text`).
pub fn frame_header(len: usize) -> (r: String)
    ensures
        r@ == frame_header_text(len as nat),
{
    let mut h = String::new();
    push_str(&mut h, "Content-Length: ");
    push_radix(&mut h, len as u64, 10);
    push_str(&mut h, "\r\n\r\n");
    assert(h@ =~= frame_header_text(len as nat));
    h
}

/// What a header announces, a reader reads back: the header written for `len` bytes
/// gives the length `len`.
pub proof fn frame_header_roundtrip(len: nat)
    requires
        len <= usize::MAX,
    ensures
        header_length(frame_header_text(len)) == Some(len),
{
    reveal_strlit("Content-Length: ");
    reveal_strlit("\r\n\r\n");
    reveal_strlit("content-length:");
    let p = "Content-Length: "@;
    let d = decimal(len);
    lemma_decimal_digits(len);
    let h = frame_header_text(len);
    assert(h == p + d + "\r\n\r\n"@);
    let m: int = (p.len() + d.len()) as int;
    assert(h[m] == '\r');
    assert(h[m + 1] == '\n');
    assert forall|j: int| 0 <= j < m + 1 implies h[j] != '\n' by {
        if j < p.len() {
            assert(h[j] == p[j]);
        } else if j < m {
            assert(h[j] == d[j - p.len()]);
            assert(is_digit(d[j - p.len()]));
        }
    }
    lemma_char_index_is(h, '\n', m + 1);
    let l = p + d;
    assert(strip_cr(h.take(m + 1)) =~= l);
    let ls = line_split(h);
    assert(ls[0] == l);
    // The first line gives the length.
    assert(ascii_lower_text(l).take(15) =~= "content-length:"@) by {
        assert forall|i: int| 0 <= i < 15 implies ascii_lower_text(l)[i] == "content-length:"@[i] by {
            assert(l[i] == p[i]);
        }
    }
    assert(is_length_line(l));
    assert(length_line()(ls[0]));
    assert(first_where(ls, length_line()) == 0);
    assert forall|j: int| 0 <= j < 14 implies l[j] != ':' by {
        assert(l[j] == p[j]);
    }
    assert(l[14] == ':');
    lemma_char_index_is(l, ':', 14);
    let rest = l.skip(15);
    assert(rest =~= seq![' '] + d);
    lemma_skip_ws_is(rest, 1);
    assert(rest.skip(1) =~= d);
    assert(!is_ws(d.last())) by {
        assert(is_digit(d[d.len() - 1]));
    }
    lemma_trim_end_is(d, d.len() as int);
    assert(d.take(d.len() as int) =~= d);
    lemma_decimal_parses(len, usize::MAX as nat);
}

} // verus!
