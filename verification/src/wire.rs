//! The JSON text in which envelopes travel.
//!
//! Objects are written compactly, without spaces, their members in a fixed
//! order. String literals are written by `serde_json`; everything around
//! them is framed here. What is written here can be read back here: the
//! reader accepts this one form and no other.

use vstd::prelude::*;
use vstd::string::*;
use crate::envelope::{
    opt_chars, Envelope, EnvelopeView, Target, TextPositionSelector, TextQuoteSelector,
};
use crate::text::{
    chars_of, decimal, digit_value, expect, expect_text, holds_at, lemma_holds_split,
    lemma_read_number, parse_number, push_decimal, read_number,
};

verus! {

/// An envelope up to its source.
pub const ENVELOPE_OPEN: &'static str = "{\"type\":\"Annotation\",\"target\":{\"source\":";

/// Between the source and the selectors.
pub const SELECTORS_OPEN: &'static str = ",\"selector\":[";

/// Between the two selectors.
pub const SELECTORS_NEXT: &'static str = ",";

/// After the selectors.
pub const ENVELOPE_CLOSE: &'static str = "]}}";

/// A quote selector up to its exact text.
pub const QUOTE_OPEN: &'static str = "{\"type\":\"TextQuoteSelector\",\"exact\":";

/// Before the prefix of a quote selector.
pub const PREFIX_KEY: &'static str = ",\"prefix\":";

/// Before the suffix of a quote selector.
pub const SUFFIX_KEY: &'static str = ",\"suffix\":";

/// After a quote selector.
pub const QUOTE_CLOSE: &'static str = "}";

/// A position selector up to its start.
pub const POSITION_OPEN: &'static str = "{\"type\":\"TextPositionSelector\",\"start\":";

/// Before the end of a position selector.
pub const END_KEY: &'static str = ",\"end\":";

/// The unit of a position selector, and its end.
pub const POSITION_CLOSE: &'static str = ",\"unit\":\"codepoint\"}";

/// An absent value.
pub const NULL: &'static str = "null";

/// The lower-case hexadecimal digit of `d`.
pub open spec fn hex_char(d: nat) -> char {
    if d == 0 {
        '0'
    } else if d == 1 {
        '1'
    } else if d == 2 {
        '2'
    } else if d == 3 {
        '3'
    } else if d == 4 {
        '4'
    } else if d == 5 {
        '5'
    } else if d == 6 {
        '6'
    } else if d == 7 {
        '7'
    } else if d == 8 {
        '8'
    } else if d == 9 {
        '9'
    } else if d == 10 {
        'a'
    } else if d == 11 {
        'b'
    } else if d == 12 {
        'c'
    } else if d == 13 {
        'd'
    } else if d == 14 {
        'e'
    } else {
        'f'
    }
}

/// The value of a lower-case hexadecimal digit.
pub open spec fn hex_value(c: char) -> Option<nat> {
    if c == 'a' {
        Some(10nat)
    } else if c == 'b' {
        Some(11nat)
    } else if c == 'c' {
        Some(12nat)
    } else if c == 'd' {
        Some(13nat)
    } else if c == 'e' {
        Some(14nat)
    } else if c == 'f' {
        Some(15nat)
    } else {
        digit_value(c)
    }
}

/// How one character stands inside a JSON string literal: the quotation
/// mark, the backslash and the control characters below U+0020 are
/// escaped, the five common controls by their short forms and the rest as
/// `\u00xx`; every other character stands for itself.
pub open spec fn escape_char(c: char) -> Seq<char> {
    if c == '"' {
        seq!['\\', '"']
    } else if c == '\\' {
        seq!['\\', '\\']
    } else if c == '\u{8}' {
        seq!['\\', 'b']
    } else if c == '\t' {
        seq!['\\', 't']
    } else if c == '\n' {
        seq!['\\', 'n']
    } else if c == '\u{c}' {
        seq!['\\', 'f']
    } else if c == '\r' {
        seq!['\\', 'r']
    } else if (c as u32) < 0x20 {
        seq!['\\', 'u', '0', '0', hex_char((c as u32 / 16) as nat), hex_char((c as u32 % 16) as nat)]
    } else {
        seq![c]
    }
}

/// The characters of `s`, each escaped.
pub open spec fn escaped(s: Seq<char>) -> Seq<char>
    decreases s.len(),
{
    if s.len() == 0 {
        Seq::<char>::empty()
    } else {
        escape_char(s.first()) + escaped(s.drop_first())
    }
}

/// The JSON string literal of `s`.
pub open spec fn json_string(s: Seq<char>) -> Seq<char> {
    seq!['"'] + escaped(s) + seq!['"']
}

/// The JSON of an optional string: the literal, or `null`.
pub open spec fn json_opt_string(o: Option<Seq<char>>) -> Seq<char> {
    match o {
        Some(s) => json_string(s),
        None => NULL@,
    }
}

/// The quote selector of an envelope, as JSON.
pub open spec fn quote_selector_json(e: EnvelopeView) -> Seq<char> {
    QUOTE_OPEN@ + json_string(e.exact) + PREFIX_KEY@ + json_opt_string(e.prefix) + SUFFIX_KEY@
        + json_opt_string(e.suffix) + QUOTE_CLOSE@
}

/// The position selector of an envelope, as JSON.
pub open spec fn position_selector_json(e: EnvelopeView) -> Seq<char> {
    POSITION_OPEN@ + decimal(e.start) + END_KEY@ + decimal(e.end) + POSITION_CLOSE@
}

/// An envelope as JSON.
pub open spec fn envelope_json(e: EnvelopeView) -> Seq<char> {
    ENVELOPE_OPEN@ + json_string(e.source) + SELECTORS_OPEN@ + quote_selector_json(e)
        + SELECTORS_NEXT@ + position_selector_json(e) + ENVELOPE_CLOSE@
}

/// `serde_json::to_string`, applied to a string slice: the JSON string
/// literal of the slice. It opens and closes with a quotation mark and
/// escapes in between exactly what [`escape_char`] says, which is the
/// crate's escape table. Writing a string slice into memory has no way to
/// fail, so the call returns `Ok`.
#[verifier::external_body]
fn quote_json(s: &str) -> (r: Result<String, String>)
    ensures
        r is Ok,
        r matches Ok(t) ==> t@ == json_string(s@),
{
    match serde_json::to_string(s) {
        Ok(text) => Ok(text),
        Err(e) => Err(e.to_string()),
    }
}

/// Appends the JSON string literal of `s` to `out`.
pub fn push_json_string(out: &mut String, s: &str)
    ensures
        final(out)@ == old(out)@ + json_string(s@),
{
    match quote_json(s) {
        Ok(t) => {
            out.append(t.as_str());
        },
        Err(_) => {},
    }
}

/// Appends the JSON of an optional string to `out`.
pub fn push_json_opt_string(out: &mut String, o: &Option<String>)
    ensures
        final(out)@ == old(out)@ + json_opt_string(opt_chars(*o)),
{
    match o {
        Some(s) => {
            push_json_string(out, s.as_str());
        },
        None => {
            out.append(NULL);
        },
    }
}

/// Appends the JSON of `e` to `out`.
pub fn push_envelope_json(out: &mut String, e: &Envelope)
    ensures
        final(out)@ == old(out)@ + envelope_json(e@),
{
    let ghost before = out@;
    let mut piece = String::from_str(ENVELOPE_OPEN);
    push_json_string(&mut piece, e.target.source.as_str());
    piece.append(SELECTORS_OPEN);
    let mut quote = String::from_str(QUOTE_OPEN);
    push_json_string(&mut quote, e.target.quote.exact.as_str());
    quote.append(PREFIX_KEY);
    push_json_opt_string(&mut quote, &e.target.quote.prefix);
    quote.append(SUFFIX_KEY);
    push_json_opt_string(&mut quote, &e.target.quote.suffix);
    quote.append(QUOTE_CLOSE);
    piece.append(quote.as_str());
    piece.append(SELECTORS_NEXT);
    let mut position = String::from_str(POSITION_OPEN);
    push_decimal(&mut position, e.target.position.start as u64);
    position.append(END_KEY);
    push_decimal(&mut position, e.target.position.end as u64);
    position.append(POSITION_CLOSE);
    piece.append(position.as_str());
    piece.append(ENVELOPE_CLOSE);
    out.append(piece.as_str());
}

/// The JSON text of an envelope.
pub fn encode_envelope(e: &Envelope) -> (text: String)
    ensures
        text@ == envelope_json(e@),
{
    let mut out = String::new();
    push_envelope_json(&mut out, e);
    out
}

/// The character that the escape sequence at `at` stands for, and where
/// reading goes on after it. `at` is the offset of the backslash.
pub open spec fn read_escape(s: Seq<char>, at: int) -> Option<(char, int)> {
    if at + 1 >= s.len() {
        None
    } else if s[at + 1] == '"' {
        Some(('"', at + 2))
    } else if s[at + 1] == '\\' {
        Some(('\\', at + 2))
    } else if s[at + 1] == 'b' {
        Some(('\u{8}', at + 2))
    } else if s[at + 1] == 't' {
        Some(('\t', at + 2))
    } else if s[at + 1] == 'n' {
        Some(('\n', at + 2))
    } else if s[at + 1] == 'f' {
        Some(('\u{c}', at + 2))
    } else if s[at + 1] == 'r' {
        Some(('\r', at + 2))
    } else if s[at + 1] == 'u' && at + 5 < s.len() && s[at + 2] == '0' && s[at + 3] == '0' {
        match (hex_value(s[at + 4]), hex_value(s[at + 5])) {
            (Some(high), Some(low)) => if high < 2 {
                Some((((high * 16 + low) as u8) as char, at + 6))
            } else {
                None
            },
            _ => None,
        }
    } else {
        None
    }
}

/// The characters of a string literal from `at` on, appended to `read`, and
/// where reading goes on after the closing quotation mark. A literal that
/// is not closed, holds a control character or an escape that is not
/// written here, is not read.
pub open spec fn read_chars(s: Seq<char>, at: int, read: Seq<char>) -> Option<(Seq<char>, int)>
    decreases s.len() - at,
{
    if at < 0 || at >= s.len() {
        None
    } else if s[at] == '"' {
        Some((read, at + 1))
    } else if s[at] == '\\' {
        match read_escape(s, at) {
            Some((c, next)) => if next > at {
                read_chars(s, next, read.push(c))
            } else {
                None
            },
            None => None,
        }
    } else if (s[at] as u32) < 0x20 {
        None
    } else {
        read_chars(s, at + 1, read.push(s[at]))
    }
}

/// The string whose literal stands at `at`, and where reading goes on.
pub open spec fn read_string(s: Seq<char>, at: int) -> Option<(Seq<char>, int)> {
    if 0 <= at < s.len() && s[at] == '"' {
        read_chars(s, at + 1, Seq::<char>::empty())
    } else {
        None
    }
}

/// The optional string that stands at `at`: `null`, or a literal.
pub open spec fn read_opt_string(s: Seq<char>, at: int) -> Option<(Option<Seq<char>>, int)> {
    match expect(s, at, NULL@) {
        Some(next) => Some((None, next)),
        None => match read_string(s, at) {
            Some((text, next)) => Some((Some(text), next)),
            None => None,
        },
    }
}

/// The quote selector that stands at `at`: its exact text, prefix and
/// suffix, and where reading goes on.
pub open spec fn read_quote_selector(s: Seq<char>, at: int) -> Option<
    (Seq<char>, Option<Seq<char>>, Option<Seq<char>>, int),
> {
    match expect(s, at, QUOTE_OPEN@) {
        None => None,
        Some(i1) => match read_string(s, i1) {
            None => None,
            Some((exact, i2)) => match expect(s, i2, PREFIX_KEY@) {
                None => None,
                Some(i3) => match read_opt_string(s, i3) {
                    None => None,
                    Some((prefix, i4)) => match expect(s, i4, SUFFIX_KEY@) {
                        None => None,
                        Some(i5) => match read_opt_string(s, i5) {
                            None => None,
                            Some((suffix, i6)) => match expect(s, i6, QUOTE_CLOSE@) {
                                None => None,
                                Some(i7) => Some((exact, prefix, suffix, i7)),
                            },
                        },
                    },
                },
            },
        },
    }
}

/// The position selector that stands at `at`: its start and end, and where
/// reading goes on.
pub open spec fn read_position_selector(s: Seq<char>, at: int) -> Option<(nat, nat, int)> {
    match expect(s, at, POSITION_OPEN@) {
        None => None,
        Some(i1) => match read_number(s, i1) {
            None => None,
            Some((start, i2)) => match expect(s, i2, END_KEY@) {
                None => None,
                Some(i3) => match read_number(s, i3) {
                    None => None,
                    Some((end, i4)) => match expect(s, i4, POSITION_CLOSE@) {
                        None => None,
                        Some(i5) => Some((start, end, i5)),
                    },
                },
            },
        },
    }
}

/// The envelope that the text `s` writes, if it writes one in the form of
/// [`envelope_json`] and its offsets fit the machine.
pub open spec fn read_envelope(s: Seq<char>) -> Option<EnvelopeView> {
    match expect(s, 0, ENVELOPE_OPEN@) {
        None => None,
        Some(i1) => match read_string(s, i1) {
            None => None,
            Some((source, i2)) => match expect(s, i2, SELECTORS_OPEN@) {
                None => None,
                Some(i3) => match read_quote_selector(s, i3) {
                    None => None,
                    Some((exact, prefix, suffix, i4)) => match expect(s, i4, SELECTORS_NEXT@) {
                        None => None,
                        Some(i5) => match read_position_selector(s, i5) {
                            None => None,
                            Some((start, end, i6)) => match expect(s, i6, ENVELOPE_CLOSE@) {
                                None => None,
                                Some(i7) => if i7 == s.len() && start <= usize::MAX && end
                                    <= usize::MAX {
                                    Some(EnvelopeView { source, exact, prefix, suffix, start, end })
                                } else {
                                    None
                                },
                            },
                        },
                    },
                },
            },
        },
    }
}

proof fn lemma_hex_reads_back(d: nat)
    requires
        d < 16,
    ensures
        hex_value(hex_char(d)) == Some(d),
{
}

/// One escaped character reads back as the character: it stands for
/// itself and is neither quotation mark nor backslash nor control, or it is
/// an escape sequence of that character.
proof fn lemma_escape_reads_back(s: Seq<char>, at: int, c: char)
    requires
        holds_at(s, at, escape_char(c)),
    ensures
        s[at] == '\\' ==> read_escape(s, at) == Some((c, at + escape_char(c).len())),
        s[at] != '\\' ==> s[at] == c && c != '"' && (c as u32) >= 0x20 && escape_char(c).len()
            == 1,
{
    let e = escape_char(c);
    assert(s[at + 0] == e[0]);
    if e.len() >= 2 {
        assert(s[at + 1] == e[1]);
    }
    if e.len() == 6 {
        assert(s[at + 2] == e[2]);
        assert(s[at + 3] == e[3]);
        assert(s[at + 4] == e[4]);
        assert(s[at + 5] == e[5]);
        let high = (c as u32 / 16) as nat;
        let low = (c as u32 % 16) as nat;
        lemma_hex_reads_back(high);
        lemma_hex_reads_back(low);
        assert(high * 16 + low == c as u32);
        assert(((high * 16 + low) as u8) as char == c);
    }
}

/// The escaped characters of a string, followed by a quotation mark, read
/// back as the string.
proof fn lemma_chars_read_back(s: Seq<char>, at: int, x: Seq<char>, read: Seq<char>)
    requires
        holds_at(s, at, escaped(x) + seq!['"']),
    ensures
        read_chars(s, at, read) == Some((read + x, at + escaped(x).len() + 1)),
    decreases x.len(),
{
    let quote = seq!['"'];
    if x.len() == 0 {
        assert(escaped(x) + quote =~= quote);
        assert(s[at + 0] == quote[0]);
        assert(read + x =~= read);
    } else {
        let c = x.first();
        let rest = x.drop_first();
        assert(escaped(x) + quote =~= escape_char(c) + (escaped(rest) + quote));
        lemma_holds_split(s, at, escape_char(c), escaped(rest) + quote);
        lemma_escape_reads_back(s, at, c);
        lemma_chars_read_back(s, at + escape_char(c).len(), rest, read.push(c));
        assert(read.push(c) + rest =~= read + x);
    }
}

/// A string literal reads back as its string.
pub proof fn lemma_string_reads_back(s: Seq<char>, at: int, x: Seq<char>)
    requires
        holds_at(s, at, json_string(x)),
    ensures
        read_string(s, at) == Some((x, at + json_string(x).len())),
{
    let quote = seq!['"'];
    assert(json_string(x) =~= quote + (escaped(x) + quote));
    lemma_holds_split(s, at, quote, escaped(x) + quote);
    assert(s[at + 0] == quote[0]);
    lemma_chars_read_back(s, at + 1, x, Seq::<char>::empty());
    assert(Seq::<char>::empty() + x =~= x);
}

/// The JSON of an optional string reads back as the optional string.
pub proof fn lemma_opt_string_reads_back(s: Seq<char>, at: int, o: Option<Seq<char>>)
    requires
        holds_at(s, at, json_opt_string(o)),
    ensures
        read_opt_string(s, at) == Some((o, at + json_opt_string(o).len())),
{
    reveal_strlit("null");
    match o {
        Some(x) => {
            lemma_string_reads_back(s, at, x);
            assert(json_string(x)[0] == '"');
            assert(s[at + 0] == json_string(x)[0]);
            if holds_at(s, at, NULL@) {
                assert(s[at + 0] == NULL@[0]);
            }
        },
        None => {},
    }
}

/// A quote selector reads back field for field.
pub proof fn lemma_quote_selector_reads_back(s: Seq<char>, at: int, e: EnvelopeView)
    requires
        holds_at(s, at, quote_selector_json(e)),
    ensures
        read_quote_selector(s, at) == Some(
            (e.exact, e.prefix, e.suffix, at + quote_selector_json(e).len()),
        ),
{
    let head1 = QUOTE_OPEN@;
    let head2 = head1 + json_string(e.exact);
    let head3 = head2 + PREFIX_KEY@;
    let head4 = head3 + json_opt_string(e.prefix);
    let head5 = head4 + SUFFIX_KEY@;
    let head6 = head5 + json_opt_string(e.suffix);
    lemma_holds_split(s, at, head6, QUOTE_CLOSE@);
    lemma_holds_split(s, at, head5, json_opt_string(e.suffix));
    lemma_holds_split(s, at, head4, SUFFIX_KEY@);
    lemma_holds_split(s, at, head3, json_opt_string(e.prefix));
    lemma_holds_split(s, at, head2, PREFIX_KEY@);
    lemma_holds_split(s, at, head1, json_string(e.exact));
    lemma_string_reads_back(s, at + head1.len(), e.exact);
    lemma_opt_string_reads_back(s, at + head3.len(), e.prefix);
    lemma_opt_string_reads_back(s, at + head5.len(), e.suffix);
}

/// A position selector reads back field for field.
pub proof fn lemma_position_selector_reads_back(s: Seq<char>, at: int, e: EnvelopeView)
    requires
        holds_at(s, at, position_selector_json(e)),
    ensures
        read_position_selector(s, at) == Some(
            (e.start, e.end, at + position_selector_json(e).len()),
        ),
{
    reveal_strlit(",\"end\":");
    reveal_strlit(",\"unit\":\"codepoint\"}");
    let head1 = POSITION_OPEN@;
    let head2 = head1 + decimal(e.start);
    let head3 = head2 + END_KEY@;
    let head4 = head3 + decimal(e.end);
    lemma_holds_split(s, at, head4, POSITION_CLOSE@);
    lemma_holds_split(s, at, head3, decimal(e.end));
    lemma_holds_split(s, at, head2, END_KEY@);
    lemma_holds_split(s, at, head1, decimal(e.start));
    assert(s[at + head2.len() + 0] == END_KEY@[0]);
    assert(s[at + head4.len() + 0] == POSITION_CLOSE@[0]);
    lemma_read_number(s, at + head1.len(), e.start);
    lemma_read_number(s, at + head3.len(), e.end);
}

/// What is written is read back: the JSON of an envelope reads as that
/// envelope, field for field.
pub proof fn lemma_envelope_round_trip(envelope: Envelope)
    ensures
        read_envelope(envelope_json(envelope@)) == Some(envelope@),
{
    let e = envelope@;
    let s = envelope_json(e);
    let head1 = ENVELOPE_OPEN@;
    let head2 = head1 + json_string(e.source);
    let head3 = head2 + SELECTORS_OPEN@;
    let head4 = head3 + quote_selector_json(e);
    let head5 = head4 + SELECTORS_NEXT@;
    let head6 = head5 + position_selector_json(e);
    assert(holds_at(s, 0, head6 + ENVELOPE_CLOSE@));
    lemma_holds_split(s, 0, head6, ENVELOPE_CLOSE@);
    lemma_holds_split(s, 0, head5, position_selector_json(e));
    lemma_holds_split(s, 0, head4, SELECTORS_NEXT@);
    lemma_holds_split(s, 0, head3, quote_selector_json(e));
    lemma_holds_split(s, 0, head2, SELECTORS_OPEN@);
    lemma_holds_split(s, 0, head1, json_string(e.source));
    lemma_string_reads_back(s, head1.len() as int, e.source);
    lemma_quote_selector_reads_back(s, head3.len() as int, e);
    lemma_position_selector_reads_back(s, head5.len() as int, e);
}

/// The value of a lower-case hexadecimal digit.
fn hex_value_of(c: char) -> (d: Option<u8>)
    ensures
        (match d {
            Some(v) => Some(v as nat),
            None => None,
        }) == hex_value(c),
        d matches Some(v) ==> v < 16,
{
    if c == 'a' {
        Some(10)
    } else if c == 'b' {
        Some(11)
    } else if c == 'c' {
        Some(12)
    } else if c == 'd' {
        Some(13)
    } else if c == 'e' {
        Some(14)
    } else if c == 'f' {
        Some(15)
    } else {
        match crate::text::digit_value_of(c) {
            Some(v) => Some(v as u8),
            None => None,
        }
    }
}

/// Reads the escape sequence whose backslash stands at `at`.
fn parse_escape(v: &Vec<char>, at: usize) -> (r: Option<(char, usize)>)
    requires
        at < v.len(),
    ensures
        (match r {
            Some((c, next)) => Some((c, next as int)),
            None => None,
        }) == read_escape(v@, at as int),
        r matches Some((_, next)) ==> at < next <= v.len(),
{
    if v.len() - at < 2 {
        return None;
    }
    let e = v[at + 1];
    if e == '"' {
        Some(('"', at + 2))
    } else if e == '\\' {
        Some(('\\', at + 2))
    } else if e == 'b' {
        Some(('\u{8}', at + 2))
    } else if e == 't' {
        Some(('\t', at + 2))
    } else if e == 'n' {
        Some(('\n', at + 2))
    } else if e == 'f' {
        Some(('\u{c}', at + 2))
    } else if e == 'r' {
        Some(('\r', at + 2))
    } else if e == 'u' && v.len() - at > 5 && v[at + 2] == '0' && v[at + 3] == '0' {
        match (hex_value_of(v[at + 4]), hex_value_of(v[at + 5])) {
            (Some(high), Some(low)) => {
                if high < 2 {
                    Some(((high * 16 + low) as char, at + 6))
                } else {
                    None
                }
            },
            _ => None,
        }
    } else {
        None
    }
}

/// Reads the string literal that stands at `at`.
fn parse_string(v: &Vec<char>, at: usize) -> (r: Option<(String, usize)>)
    requires
        at <= v.len(),
    ensures
        (match r {
            Some((text, next)) => Some((text@, next as int)),
            None => None,
        }) == read_string(v@, at as int),
        r matches Some((_, next)) ==> at < next <= v.len(),
{
    if at >= v.len() || v[at] != '"' {
        return None;
    }
    let mut text = String::new();
    let mut i: usize = at + 1;
    while i < v.len()
        invariant
            at < i <= v.len(),
            read_string(v@, at as int) == read_chars(v@, i as int, text@),
        decreases v.len() - i,
    {
        let c = v[i];
        if c == '"' {
            return Some((text, i + 1));
        } else if c == '\\' {
            match parse_escape(v, i) {
                Some((ch, next)) => {
                    text.push(ch);
                    i = next;
                },
                None => {
                    return None;
                },
            }
        } else if (c as u32) < 0x20 {
            return None;
        } else {
            text.push(c);
            i += 1;
        }
    }
    None
}

/// Reads the optional string that stands at `at`.
fn parse_opt_string(v: &Vec<char>, at: usize) -> (r: Option<(Option<String>, usize)>)
    requires
        at <= v.len(),
    ensures
        (match r {
            Some((text, next)) => Some((opt_chars(text), next as int)),
            None => None,
        }) == read_opt_string(v@, at as int),
        r matches Some((_, next)) ==> next <= v.len(),
{
    match expect_text(v, at, NULL) {
        Some(next) => Some((None, next)),
        None => match parse_string(v, at) {
            Some((text, next)) => Some((Some(text), next)),
            None => None,
        },
    }
}

/// Reads the quote selector that stands at `at`.
fn parse_quote_selector(v: &Vec<char>, at: usize) -> (r: Option<(TextQuoteSelector, usize)>)
    requires
        at <= v.len(),
    ensures
        (match r {
            Some((q, next)) => Some(
                (q.exact@, opt_chars(q.prefix), opt_chars(q.suffix), next as int),
            ),
            None => None,
        }) == read_quote_selector(v@, at as int),
        r matches Some((_, next)) ==> next <= v.len(),
{
    let i1 = match expect_text(v, at, QUOTE_OPEN) {
        Some(i) => i,
        None => {
            return None;
        },
    };
    let (exact, i2) = match parse_string(v, i1) {
        Some(found) => found,
        None => {
            return None;
        },
    };
    let i3 = match expect_text(v, i2, PREFIX_KEY) {
        Some(i) => i,
        None => {
            return None;
        },
    };
    let (prefix, i4) = match parse_opt_string(v, i3) {
        Some(found) => found,
        None => {
            return None;
        },
    };
    let i5 = match expect_text(v, i4, SUFFIX_KEY) {
        Some(i) => i,
        None => {
            return None;
        },
    };
    let (suffix, i6) = match parse_opt_string(v, i5) {
        Some(found) => found,
        None => {
            return None;
        },
    };
    match expect_text(v, i6, QUOTE_CLOSE) {
        Some(i7) => Some((TextQuoteSelector { exact, prefix, suffix }, i7)),
        None => None,
    }
}

/// Reads the position selector that stands at `at`.
fn parse_position_selector(v: &Vec<char>, at: usize) -> (r: Option<(u64, u64, usize)>)
    requires
        at <= v.len(),
    ensures
        r matches Some((start, end, next)) ==> read_position_selector(v@, at as int) == Some(
            (start as nat, end as nat, next as int),
        ),
        r matches Some((_, _, next)) ==> next <= v.len(),
        r is None ==> (match read_position_selector(v@, at as int) {
            Some((start, end, _)) => start > u64::MAX || end > u64::MAX,
            None => true,
        }),
{
    let i1 = match expect_text(v, at, POSITION_OPEN) {
        Some(i) => i,
        None => {
            return None;
        },
    };
    let (start, i2) = match parse_number(v, i1) {
        Some(found) => found,
        None => {
            return None;
        },
    };
    let i3 = match expect_text(v, i2, END_KEY) {
        Some(i) => i,
        None => {
            return None;
        },
    };
    let (end, i4) = match parse_number(v, i3) {
        Some(found) => found,
        None => {
            return None;
        },
    };
    match expect_text(v, i4, POSITION_CLOSE) {
        Some(i5) => Some((start, end, i5)),
        None => None,
    }
}

/// The content of an optional envelope.
pub open spec fn opt_envelope(o: Option<Envelope>) -> Option<EnvelopeView> {
    match o {
        Some(e) => Some(e@),
        None => None,
    }
}

/// Reads an envelope from its JSON text. The text must have the form that
/// [`encode_envelope`] writes, to the letter, and its offsets must fit the
/// machine; anything else is not read.
pub fn decode_envelope(text: &str) -> (r: Option<Envelope>)
    ensures
        opt_envelope(r) == read_envelope(text@),
{
    let v = chars_of(text);
    let i1 = match expect_text(&v, 0, ENVELOPE_OPEN) {
        Some(i) => i,
        None => {
            return None;
        },
    };
    let (source, i2) = match parse_string(&v, i1) {
        Some(found) => found,
        None => {
            return None;
        },
    };
    let i3 = match expect_text(&v, i2, SELECTORS_OPEN) {
        Some(i) => i,
        None => {
            return None;
        },
    };
    let (quote, i4) = match parse_quote_selector(&v, i3) {
        Some(found) => found,
        None => {
            return None;
        },
    };
    let i5 = match expect_text(&v, i4, SELECTORS_NEXT) {
        Some(i) => i,
        None => {
            return None;
        },
    };
    let (start, end, i6) = match parse_position_selector(&v, i5) {
        Some(found) => found,
        None => {
            return None;
        },
    };
    let i7 = match expect_text(&v, i6, ENVELOPE_CLOSE) {
        Some(i) => i,
        None => {
            return None;
        },
    };
    if i7 != v.len() || start > usize::MAX as u64 || end > usize::MAX as u64 {
        return None;
    }
    Some(
        Envelope {
            target: Target {
                source,
                quote,
                position: TextPositionSelector { start: start as usize, end: end as usize },
            },
        },
    )
}

} // verus!
