//! Deep links to a quoted passage: the address of the page with a text
//! fragment that names the quote.

use vstd::prelude::*;
use vstd::string::*;
use vstd::utf8::encode_utf8;
use crate::text::{chars_of, find_char, scan_until, string_of};

verus! {

/// What stands between the address and the encoded quote.
pub const TEXT_FRAGMENT: &'static str = "#:~:text=";

/// Whether a byte stands for itself in a URI component: the ASCII letters
/// and digits and `- _ . ! ~ * ' ( )`.
pub open spec fn is_unreserved(b: u8) -> bool {
    ||| 0x41 <= b <= 0x5a
    ||| 0x61 <= b <= 0x7a
    ||| 0x30 <= b <= 0x39
    ||| b == 0x2d
    ||| b == 0x5f
    ||| b == 0x2e
    ||| b == 0x21
    ||| b == 0x7e
    ||| b == 0x2a
    ||| b == 0x27
    ||| b == 0x28
    ||| b == 0x29
}

/// The upper-case hexadecimal digit of `d`.
pub open spec fn upper_hex(d: nat) -> char {
    if d == 0 {
        '0'
    } else if d == 1 {
        '1'
    } else if d == 2 {
        '2'
    } else if d == 3 {
        '3'
    } else if d == 4 {
        '4'
    } else if d == 5 {
        '5'
    } else if d == 6 {
        '6'
    } else if d == 7 {
        '7'
    } else if d == 8 {
        '8'
    } else if d == 9 {
        '9'
    } else if d == 10 {
        'A'
    } else if d == 11 {
        'B'
    } else if d == 12 {
        'C'
    } else if d == 13 {
        'D'
    } else if d == 14 {
        'E'
    } else {
        'F'
    }
}

/// One byte of a URI component: itself where it is unreserved, else a
/// percent sign and its two hexadecimal digits.
pub open spec fn encode_byte(b: u8) -> Seq<char> {
    if is_unreserved(b) {
        seq![b as char]
    } else {
        seq!['%', upper_hex((b / 16) as nat), upper_hex((b % 16) as nat)]
    }
}

/// The bytes of a URI component, each encoded.
pub open spec fn encode_bytes(bytes: Seq<u8>) -> Seq<char>
    decreases bytes.len(),
{
    if bytes.len() == 0 {
        Seq::<char>::empty()
    } else {
        encode_bytes(bytes.drop_last()) + encode_byte(bytes.last())
    }
}

/// A text as a URI component: its UTF-8 bytes, each encoded.
pub open spec fn encode_component(text: Seq<char>) -> Seq<char> {
    encode_bytes(encode_utf8(text))
}

/// The address of a page without its fragment: what stands before the
/// first `#`.
pub open spec fn without_fragment(href: Seq<char>) -> Seq<char> {
    href.take(scan_until(href, 0, '#'))
}

/// The deep link to `quote` on the page at `href`.
pub open spec fn deep_link_of(href: Seq<char>, quote: Seq<char>) -> Seq<char> {
    without_fragment(href) + TEXT_FRAGMENT@ + encode_component(quote)
}

/// The character of an upper-case hexadecimal digit.
fn upper_hex_of(d: u8) -> (c: char)
    requires
        d < 16,
    ensures
        c == upper_hex(d as nat),
{
    if d == 0 {
        '0'
    } else if d == 1 {
        '1'
    } else if d == 2 {
        '2'
    } else if d == 3 {
        '3'
    } else if d == 4 {
        '4'
    } else if d == 5 {
        '5'
    } else if d == 6 {
        '6'
    } else if d == 7 {
        '7'
    } else if d == 8 {
        '8'
    } else if d == 9 {
        '9'
    } else if d == 10 {
        'A'
    } else if d == 11 {
        'B'
    } else if d == 12 {
        'C'
    } else if d == 13 {
        'D'
    } else if d == 14 {
        'E'
    } else {
        'F'
    }
}

/// Whether a byte stands for itself in a URI component.
fn unreserved(b: u8) -> (r: bool)
    ensures
        r == is_unreserved(b),
{
    (0x41 <= b && b <= 0x5a) || (0x61 <= b && b <= 0x7a) || (0x30 <= b && b <= 0x39) || b == 0x2d
        || b == 0x5f || b == 0x2e || b == 0x21 || b == 0x7e || b == 0x2a || b == 0x27 || b == 0x28
        || b == 0x29
}

/// Appends `text`, encoded as a URI component, to `out`.
pub fn push_component(out: &mut String, text: &str)
    ensures
        final(out)@ == old(out)@ + encode_component(text@),
{
    let bytes = text.as_bytes();
    let mut i: usize = 0;
    while i < bytes.len()
        invariant
            i <= bytes.len(),
            bytes@ == encode_utf8(text@),
            out@ == old(out)@ + encode_bytes(bytes@.take(i as int)),
        decreases bytes.len() - i,
    {
        let b = bytes[i];
        proof {
            assert(bytes@.take(i + 1).drop_last() =~= bytes@.take(i as int));
        }
        if unreserved(b) {
            out.push(b as char);
        } else {
            out.push('%');
            out.push(upper_hex_of(b / 16));
            out.push(upper_hex_of(b % 16));
        }
        i += 1;
    }
    proof {
        assert(bytes@.take(i as int) =~= bytes@);
    }
}

/// Builds the deep link to `quote` on the page at `href`: the address up to
/// its fragment, then `#:~:text=` and the quote, percent-encoded.
pub fn deep_link(href: &str, quote: &str) -> (link: String)
    ensures
        link@ == deep_link_of(href@, quote@),
{
    let v = chars_of(href);
    let cut = find_char(&v, 0, '#');
    let mut link = string_of(&v, 0, cut);
    link.append(TEXT_FRAGMENT);
    push_component(&mut link, quote);
    link
}

} // verus!
