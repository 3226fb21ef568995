//! The framing of language-server messages carried over a WebSocket: each
//! message goes to the server behind a `Content-Length` header, and the
//! server's header lines are read back to find where each message ends.

use vstd::prelude::*;
use crate::server::api::{parse_usize, parsed_usize};
use crate::text::{chars_of, decimal, decimal_u64, seq_starts_with, slice_range, starts_with, string_of};

verus! {

/// A whitespace character as `char::is_whitespace` defines it: the
/// characters with the Unicode `White_Space` property.
pub open spec fn is_space(c: char) -> bool {
    ||| '\u{9}' <= c <= '\u{d}'
    ||| c == ' '
    ||| c == '\u{85}'
    ||| c == '\u{a0}'
    ||| c == '\u{1680}'
    ||| '\u{2000}' <= c <= '\u{200a}'
    ||| c == '\u{2028}'
    ||| c == '\u{2029}'
    ||| c == '\u{202f}'
    ||| c == '\u{205f}'
    ||| c == '\u{3000}'
}

/// The number of whitespace characters that begin `s` from position `i` on.
pub open spec fn leading_spaces(s: Seq<char>, i: int) -> int
    decreases s.len() - i,
{
    if i < 0 || i >= s.len() || !is_space(s[i]) {
        0
    } else {
        1 + leading_spaces(s, i + 1)
    }
}

/// The number of whitespace characters that end the first `n` of `s`.
pub open spec fn trailing_spaces(s: Seq<char>, n: int) -> int
    decreases n,
{
    if n <= 0 || n > s.len() || !is_space(s[n - 1]) {
        0
    } else {
        1 + trailing_spaces(s, n - 1)
    }
}

/// The text without leading and trailing whitespace, as `str::trim` gives it.
pub open spec fn trimmed(s: Seq<char>) -> Seq<char> {
    let a = leading_spaces(s, 0);
    if a == s.len() {
        Seq::empty()
    } else {
        s.subrange(a, s.len() - trailing_spaces(s, s.len() as int))
    }
}

/// What a header line of a message says.
#[derive(Debug, Clone, Copy, PartialEq, Eq, Structural)]
pub enum HeaderLine {
    /// The blank line that ends the headers.
    End,
    /// A `Content-Length` header with a length that reads as a number.
    Length(usize),
    /// Any other header.
    Other,
}

/// What a header line says: the end of the headers when it is blank once
/// trimmed, the length when it is `Content-Length: ` and a number, or
/// nothing of use otherwise.
pub open spec fn header_meaning(line: Seq<char>) -> HeaderLine {
    let t = trimmed(line);
    let prefix = "Content-Length: "@;
    if t.len() == 0 {
        HeaderLine::End
    } else if seq_starts_with(t, prefix) {
        match parsed_usize(t.subrange(prefix.len() as int, t.len() as int)) {
            Some(n) => HeaderLine::Length(n),
            None => HeaderLine::Other,
        }
    } else {
        HeaderLine::Other
    }
}

/// The frame that carries a message to the server: a `Content-Length`
/// header with the message's length in bytes, a blank line, the message.
pub open spec fn framed(text: &str) -> Seq<char> {
    "Content-Length: "@ + decimal(text.len() as nat) + "\r\n\r\n"@ + text@
}

/// Whether a character is whitespace.
fn space(c: char) -> (r: bool)
    ensures
        r == is_space(c),
{
    ('\u{9}' <= c && c <= '\u{d}') || c == ' ' || c == '\u{85}' || c == '\u{a0}' || c == '\u{1680}' || ('\u{2000}'
        <= c && c <= '\u{200a}') || c == '\u{2028}' || c == '\u{2029}' || c == '\u{202f}' || c == '\u{205f}' || c
        == '\u{3000}'
}

/// The text without leading and trailing whitespace.
pub fn trim_spaces(s: &[char]) -> (r: Vec<char>)
    ensures
        r@ == trimmed(s@),
{
    let mut a: usize = 0;
    while a < s.len() && space(s[a])
        invariant
            a <= s@.len(),
            leading_spaces(s@, 0) == a + leading_spaces(s@, a as int),
        decreases s.len() - a,
    {
        a = a + 1;
    }
    if a == s.len() {
        return Vec::new();
    }
    let mut b: usize = s.len();
    while b > a && space(s[b - 1])
        invariant
            a < s@.len(),
            !is_space(s@[a as int]),
            a < b <= s@.len(),
            trailing_spaces(s@, s@.len() as int) == (s@.len() - b) + trailing_spaces(s@, b as int),
        decreases b,
    {
        b = b - 1;
    }
    assert(leading_spaces(s@, a as int) == 0);
    assert(trailing_spaces(s@, b as int) == 0);
    slice_range(s, a, b)
}

/// What a header line says.
pub fn header_line(line: &str) -> (r: HeaderLine)
    ensures
        r == header_meaning(line@),
{
    let c = chars_of(line);
    let t = trim_spaces(c.as_slice());
    let prefix = chars_of("Content-Length: ");
    proof {
        reveal_strlit("Content-Length: ");
    }
    if t.len() == 0 {
        return HeaderLine::End;
    }
    if starts_with(t.as_slice(), prefix.as_slice()) {
        let rest = string_of(slice_range(t.as_slice(), prefix.len(), t.len()).as_slice());
        match parse_usize(rest.as_str()) {
            Some(n) => HeaderLine::Length(n),
            None => HeaderLine::Other,
        }
    } else {
        HeaderLine::Other
    }
}

/// The frame that carries a message to the server.
pub fn frame_message(text: &str) -> (s: String)
    ensures
        s@ == framed(text),
{
    let mut s = String::from_str("Content-Length: ");
    s.append(decimal_u64(text.len() as u64).as_str());
    s.append("\r\n\r\n");
    s.append(text);
    s
}

} // verus!
