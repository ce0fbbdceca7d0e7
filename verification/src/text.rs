//! Codepoint-level helpers shared by the rest of the crate.

use vstd::prelude::*;
use vstd::string::*;

verus! {

/// `String::push` of std appends one character to the end of the string.
pub assume_specification[ String::push ](s: &mut String, ch: char)
    ensures
        final(s)@ == old(s)@.push(ch),
;

/// The characters of `s`, in order.
pub fn chars_of(s: &str) -> (v: Vec<char>)
    ensures
        v@ == s@,
{
    let mut v: Vec<char> = Vec::new();
    for c in it: s.chars()
        invariant
            v@ == it.seq().take(it.index() as int),
            it.seq() == s@,
    {
        v.push(c);
    }
    v
}

/// The string made of the characters `v[from..to]`.
pub(crate) fn string_of(v: &Vec<char>, from: usize, to: usize) -> (s: String)
    requires
        from <= to <= v.len(),
    ensures
        s@ == v@.subrange(from as int, to as int),
{
    let mut s = String::new();
    let mut i: usize = from;
    while i < to
        invariant
            from <= i <= to <= v.len(),
            s@ == v@.subrange(from as int, i as int),
        decreases to - i,
    {
        s.push(v[i]);
        i += 1;
    }
    s
}

/// The first offset at or after `from` at which `s` holds `c`, or the
/// length of `s` where it holds none.
pub open spec fn scan_until(s: Seq<char>, from: int, c: char) -> int
    decreases s.len() - from,
{
    if from >= s.len() {
        from
    } else if s[from] == c {
        from
    } else {
        scan_until(s, from + 1, c)
    }
}

/// The first offset at or after `from` at which `s` holds something other
/// than `c`, or the length of `s` where only `c` follows.
pub open spec fn scan_while(s: Seq<char>, from: int, c: char) -> int
    decreases s.len() - from,
{
    if from >= s.len() {
        from
    } else if s[from] != c {
        from
    } else {
        scan_while(s, from + 1, c)
    }
}

/// Finds the next `c` in `v`, starting at `from`.
pub(crate) fn find_char(v: &Vec<char>, from: usize, c: char) -> (at: usize)
    requires
        from <= v.len(),
    ensures
        at == scan_until(v@, from as int, c),
        from <= at <= v.len(),
        at < v.len() ==> v@[at as int] == c,
        forall|j: int| from <= j < at ==> v@[j] != c,
{
    let mut at: usize = from;
    while at < v.len() && v[at] != c
        invariant
            from <= at <= v.len(),
            scan_until(v@, from as int, c) == scan_until(v@, at as int, c),
            forall|j: int| from <= j < at ==> v@[j] != c,
        decreases v.len() - at,
    {
        at += 1;
    }
    at
}

/// Skips the run of `c` that starts at `from` in `v`.
pub(crate) fn skip_char(v: &Vec<char>, from: usize, c: char) -> (at: usize)
    requires
        from <= v.len(),
    ensures
        at == scan_while(v@, from as int, c),
        from <= at <= v.len(),
        at < v.len() ==> v@[at as int] != c,
        forall|j: int| from <= j < at ==> v@[j] == c,
{
    let mut at: usize = from;
    while at < v.len() && v[at] == c
        invariant
            from <= at <= v.len(),
            scan_while(v@, from as int, c) == scan_while(v@, at as int, c),
            forall|j: int| from <= j < at ==> v@[j] == c,
        decreases v.len() - at,
    {
        at += 1;
    }
    at
}

/// `s` holds `piece` at offset `at`.
pub open spec fn holds_at(s: Seq<char>, at: int, piece: Seq<char>) -> bool {
    &&& 0 <= at
    &&& at + piece.len() <= s.len()
    &&& forall|j: int| 0 <= j < piece.len() ==> s[at + j] == piece[j]
}

/// Where reading goes on after `piece`, if `s` holds it at `at`.
pub open spec fn expect(s: Seq<char>, at: int, piece: Seq<char>) -> Option<int> {
    if holds_at(s, at, piece) {
        Some(at + piece.len())
    } else {
        None
    }
}

/// What a text holds as a whole, it holds in its two parts.
pub proof fn lemma_holds_split(s: Seq<char>, at: int, first: Seq<char>, second: Seq<char>)
    requires
        holds_at(s, at, first + second),
    ensures
        holds_at(s, at, first),
        holds_at(s, at + first.len(), second),
{
    assert forall|j: int| 0 <= j < first.len() implies s[at + j] == first[j] by {
        assert((first + second)[j] == first[j]);
    }
    assert forall|j: int| 0 <= j < second.len() implies s[at + first.len() + j] == second[j] by {
        assert((first + second)[first.len() + j] == second[j]);
        assert(s[at + (first.len() + j)] == (first + second)[first.len() + j]);
    }
}

/// Reads `piece` at offset `at` of `v`.
pub(crate) fn expect_text(v: &Vec<char>, at: usize, piece: &str) -> (next: Option<usize>)
    requires
        at <= v.len(),
    ensures
        (match next {
            Some(n) => Some(n as int),
            None => None,
        }) == expect(v@, at as int, piece@),
{
    let w = chars_of(piece);
    if w.len() > v.len() - at {
        return None;
    }
    let mut k: usize = 0;
    while k < w.len()
        invariant
            at + w.len() <= v.len(),
            w@ == piece@,
            k <= w.len(),
            forall|i: int| 0 <= i < k ==> v@[at + i] == w@[i],
        decreases w.len() - k,
    {
        if v[at + k] != w[k] {
            return None;
        }
        k += 1;
    }
    Some(at + w.len())
}

/// The character that writes the decimal digit `d`.
pub open spec fn digit_char(d: nat) -> char {
    if d == 0 {
        '0'
    } else if d == 1 {
        '1'
    } else if d == 2 {
        '2'
    } else if d == 3 {
        '3'
    } else if d == 4 {
        '4'
    } else if d == 5 {
        '5'
    } else if d == 6 {
        '6'
    } else if d == 7 {
        '7'
    } else if d == 8 {
        '8'
    } else {
        '9'
    }
}

/// The decimal digit that `c` writes, if it writes one.
pub open spec fn digit_value(c: char) -> Option<nat> {
    if c == '0' {
        Some(0nat)
    } else if c == '1' {
        Some(1nat)
    } else if c == '2' {
        Some(2nat)
    } else if c == '3' {
        Some(3nat)
    } else if c == '4' {
        Some(4nat)
    } else if c == '5' {
        Some(5nat)
    } else if c == '6' {
        Some(6nat)
    } else if c == '7' {
        Some(7nat)
    } else if c == '8' {
        Some(8nat)
    } else if c == '9' {
        Some(9nat)
    } else {
        None
    }
}

/// The decimal numeral of `n`: no sign, no leading zero but for zero itself.
pub open spec fn decimal(n: nat) -> Seq<char>
    decreases n,
{
    if n < 10 {
        seq![digit_char(n)]
    } else {
        decimal(n / 10).push(digit_char(n % 10))
    }
}

/// The number that a sequence of decimal digits writes.
pub open spec fn decimal_value(s: Seq<char>) -> nat
    decreases s.len(),
{
    if s.len() == 0 {
        0
    } else {
        match digit_value(s.last()) {
            Some(d) => 10 * decimal_value(s.drop_last()) + d,
            None => 0,
        }
    }
}

/// Every character of `s` is a decimal digit.
pub open spec fn all_digits(s: Seq<char>) -> bool {
    forall|i: int| 0 <= i < s.len() ==> (#[trigger] digit_value(s[i])) is Some
}

/// A numeral is one or more digits, it starts with `0` only when it is `0`,
/// and it reads back as the number it was written from.
pub proof fn lemma_decimal_reads_back(n: nat)
    ensures
        decimal(n).len() >= 1,
        all_digits(decimal(n)),
        decimal_value(decimal(n)) == n,
        decimal(n)[0] == '0' ==> n == 0,
        n >= 10 ==> decimal(n).len() >= 2,
    decreases n,
{
    if n < 10 {
        assert(decimal(n).drop_last() =~= Seq::<char>::empty());
        assert(decimal_value(decimal(n).drop_last()) == 0);
    } else {
        lemma_decimal_reads_back(n / 10);
        let head = decimal(n / 10);
        assert(decimal(n).drop_last() =~= head);
        assert(decimal(n).last() == digit_char(n % 10));
        assert(decimal(n)[0] == head[0]);
        assert forall|i: int| 0 <= i < decimal(n).len() implies (#[trigger] digit_value(
            decimal(n)[i],
        )) is Some by {
            if i < head.len() {
                assert(decimal(n)[i] == head[i]);
            }
        }
    }
}

/// Different numbers have different numerals.
pub proof fn lemma_decimal_injective(a: nat, b: nat)
    requires
        decimal(a) == decimal(b),
    ensures
        a == b,
{
    lemma_decimal_reads_back(a);
    lemma_decimal_reads_back(b);
}

/// Where the run of decimal digits that starts at `from` ends.
pub open spec fn digits_end(s: Seq<char>, from: int) -> int
    decreases s.len() - from,
{
    if 0 <= from < s.len() && digit_value(s[from]) is Some {
        digits_end(s, from + 1)
    } else {
        from
    }
}

/// The number written at `at`, and where reading goes on after it: a run of
/// digits that is not empty and starts with `0` only where it is `0`.
pub open spec fn read_number(s: Seq<char>, at: int) -> Option<(nat, int)> {
    let end = digits_end(s, at);
    if end <= at {
        None
    } else if s[at] == '0' && end > at + 1 {
        None
    } else {
        Some((decimal_value(s.subrange(at, end)), end))
    }
}

/// A run of digits ends where the digits end.
proof fn lemma_digits_end(s: Seq<char>, from: int, end: int)
    requires
        0 <= from <= end <= s.len(),
        forall|j: int| from <= j < end ==> (#[trigger] digit_value(s[j])) is Some,
        end < s.len() ==> digit_value(s[end]) is None,
    ensures
        digits_end(s, from) == end,
    decreases end - from,
{
    if from < end {
        lemma_digits_end(s, from + 1, end);
    }
}

/// A numeral that is followed by something other than a digit reads as the
/// number it was written from.
pub proof fn lemma_read_number(s: Seq<char>, at: int, n: nat)
    requires
        holds_at(s, at, decimal(n)),
        at + decimal(n).len() < s.len() ==> digit_value(s[at + decimal(n).len()]) is None,
    ensures
        read_number(s, at) == Some((n, at + decimal(n).len())),
{
    let numeral = decimal(n);
    let end = at + numeral.len();
    lemma_decimal_reads_back(n);
    assert forall|j: int| at <= j < end implies (#[trigger] digit_value(s[j])) is Some by {
        assert(s[at + (j - at)] == numeral[j - at]);
        assert(digit_value(numeral[j - at]) is Some);
    }
    lemma_digits_end(s, at, end);
    assert(s.subrange(at, end) =~= numeral);
    assert(s[at + 0] == numeral[0]);
}

/// The value of a decimal digit.
pub fn digit_value_of(c: char) -> (d: Option<u64>)
    ensures
        (match d {
            Some(v) => Some(v as nat),
            None => None,
        }) == digit_value(c),
{
    if c == '0' {
        Some(0)
    } else if c == '1' {
        Some(1)
    } else if c == '2' {
        Some(2)
    } else if c == '3' {
        Some(3)
    } else if c == '4' {
        Some(4)
    } else if c == '5' {
        Some(5)
    } else if c == '6' {
        Some(6)
    } else if c == '7' {
        Some(7)
    } else if c == '8' {
        Some(8)
    } else if c == '9' {
        Some(9)
    } else {
        None
    }
}

/// Reads the number written at `at` of `v`. A number that does not fit in
/// sixty-four bits is not read.
pub(crate) fn parse_number(v: &Vec<char>, at: usize) -> (r: Option<(u64, usize)>)
    requires
        at <= v.len(),
    ensures
        r matches Some((n, end)) ==> read_number(v@, at as int) == Some((n as nat, end as int)),
        r matches Some((_, end)) ==> at < end <= v.len(),
        r is None ==> (match read_number(v@, at as int) {
            Some((n, _)) => n > u64::MAX,
            None => true,
        }),
{
    let mut end: usize = at;
    let mut value: u64 = 0;
    let mut fits = true;
    while end < v.len() && digit_value_of(v[end]).is_some()
        invariant
            at <= end <= v.len(),
            digits_end(v@, at as int) == digits_end(v@, end as int),
            forall|j: int| at <= j < end ==> (#[trigger] digit_value(v@[j])) is Some,
            fits ==> value == decimal_value(v@.subrange(at as int, end as int)),
            !fits ==> decimal_value(v@.subrange(at as int, end as int)) > u64::MAX,
        decreases v.len() - end,
    {
        let d = digit_value_of(v[end]).unwrap();
        proof {
            let longer = v@.subrange(at as int, end + 1);
            assert(longer.drop_last() =~= v@.subrange(at as int, end as int));
            assert(longer.last() == v@[end as int]);
        }
        if fits {
            if value > (u64::MAX - d) / 10 {
                fits = false;
            } else {
                value = value * 10 + d;
            }
        }
        end += 1;
    }
    proof {
        assert(decimal_value(v@.subrange(at as int, at as int)) == 0);
    }
    if end == at || (v[at] == '0' && end > at + 1) || !fits {
        None
    } else {
        Some((value, end))
    }
}

/// The character of one decimal digit.
pub(crate) fn digit_of(d: u64) -> (c: char)
    requires
        d < 10,
    ensures
        c == digit_char(d as nat),
{
    if d == 0 {
        '0'
    } else if d == 1 {
        '1'
    } else if d == 2 {
        '2'
    } else if d == 3 {
        '3'
    } else if d == 4 {
        '4'
    } else if d == 5 {
        '5'
    } else if d == 6 {
        '6'
    } else if d == 7 {
        '7'
    } else if d == 8 {
        '8'
    } else {
        '9'
    }
}

/// Appends the decimal numeral of `n` to `out`.
pub fn push_decimal(out: &mut String, n: u64)
    ensures
        final(out)@ == old(out)@ + decimal(n as nat),
    decreases n,
{
    if n >= 10 {
        push_decimal(out, n / 10);
    }
    out.push(digit_of(n % 10));
}

} // verus!
