//! Which article a page shows, read from the path of its address.

use vstd::prelude::*;
use crate::text::{chars_of, find_char, scan_until, scan_while, skip_char, string_of};

verus! {

/// The first path segment of every article page.
pub const ARTICLE_SECTION: &'static str = "posts";

/// The identifier of the article that the page at `path` shows. Empty
/// segments do not count; the first segment must be `posts`, and the second
/// is the identifier.
pub open spec fn slug_of(path: Seq<char>) -> Option<Seq<char>> {
    let first = scan_while(path, 0, '/');
    let first_end = scan_until(path, first, '/');
    let second = scan_while(path, first_end, '/');
    let second_end = scan_until(path, second, '/');
    if second < path.len() && path.subrange(first, first_end) == ARTICLE_SECTION@ {
        Some(path.subrange(second, second_end))
    } else {
        None
    }
}

/// Whether `v[from..to]` spells `word`.
fn spells(v: &Vec<char>, from: usize, to: usize, word: &str) -> (b: bool)
    requires
        from <= to <= v.len(),
    ensures
        b == (v@.subrange(from as int, to as int) == word@),
{
    let w = chars_of(word);
    if w.len() != to - from {
        return false;
    }
    let mut k: usize = 0;
    while k < w.len()
        invariant
            from <= to <= v.len(),
            w.len() == to - from,
            w@ == word@,
            k <= w.len(),
            forall|i: int| 0 <= i < k ==> v@[from + i] == w@[i],
        decreases w.len() - k,
    {
        if v[from + k] != w[k] {
            proof {
                assert(v@.subrange(from as int, to as int)[k as int] == v@[from + k]);
            }
            return false;
        }
        k += 1;
    }
    proof {
        assert(v@.subrange(from as int, to as int) =~= w@);
    }
    true
}

/// Reads the article's identifier from the path of the page.
pub fn path_slug(path: &str) -> (slug: Option<String>)
    ensures
        crate::envelope::opt_chars(slug) == slug_of(path@),
{
    let v = chars_of(path);
    let first = skip_char(&v, 0, '/');
    let first_end = find_char(&v, first, '/');
    let second = skip_char(&v, first_end, '/');
    let second_end = find_char(&v, second, '/');
    if second < v.len() && spells(&v, first, first_end, ARTICLE_SECTION) {
        Some(string_of(&v, second, second_end))
    } else {
        None
    }
}

} // verus!
