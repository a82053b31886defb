//! Small verified helpers on characters and character vectors.

use vstd::prelude::*;
use vstd::string::*;

verus! {

/// Collect the characters of a string slice into a vector.
pub fn str_to_chars(s: &str) -> (r: Vec<char>)
    ensures
        r@ == s@,
{
    let n = s.unicode_len();
    let mut r: Vec<char> = Vec::new();
    let mut i: usize = 0;
    while i < n
        invariant
            n == s@.len(),
            i <= n,
            r@ == s@.subrange(0, i as int),
        decreases n - i,
    {
        let c = s.get_char(i);
        r.push(c);
        assert(r@ =~= s@.subrange(0, i + 1 as int));
        i += 1;
    }
    proof {
        assert(r@ =~= s@);
    }
    r
}

/// Character-wise equality of two string slices.
pub fn str_eq(a: &str, b: &str) -> (r: bool)
    ensures
        r == (a@ == b@),
{
    let na = a.unicode_len();
    let nb = b.unicode_len();
    if na != nb {
        return false;
    }
    let mut i: usize = 0;
    while i < na
        invariant
            na == a@.len(),
            nb == b@.len(),
            na == nb,
            i <= na,
            forall|k: int| 0 <= k < i ==> a@[k] == b@[k],
        decreases na - i,
    {
        if a.get_char(i) != b.get_char(i) {
            return false;
        }
        i += 1;
    }
    proof {
        assert(a@ =~= b@);
    }
    true
}

/// Character-wise equality of two character vectors.
pub fn vec_chars_eq(a: &Vec<char>, b: &Vec<char>) -> (r: bool)
    ensures
        r == (a@ == b@),
{
    if a.len() != b.len() {
        return false;
    }
    let mut i: usize = 0;
    while i < a.len()
        invariant
            a@.len() == b@.len(),
            i <= a@.len(),
            forall|k: int| 0 <= k < i ==> a@[k] == b@[k],
        decreases a@.len() - i,
    {
        if a[i] != b[i] {
            return false;
        }
        i += 1;
    }
    proof {
        assert(a@ =~= b@);
    }
    true
}

/// Linear membership test: is `c` one of the symbols in `set`?
pub fn char_in(set: &Vec<char>, c: char) -> (r: bool)
    ensures
        r == set@.contains(c),
{
    let mut i: usize = 0;
    while i < set.len()
        invariant
            0 <= i <= set@.len(),
            forall|k: int| 0 <= k < i ==> set@[k] != c,
        decreases set@.len() - i,
    {
        if set[i] == c {
            assert(set@[i as int] == c);
            return true;
        }
        i += 1;
    }
    false
}

/// Relies on std's `String::push`: appends the given character to the end
/// of this `String`.
pub assume_specification[ String::push ](s: &mut String, ch: char)
    ensures
        final(s)@ == old(s)@.push(ch),
;

/// Collect a vector of characters into a string.
pub fn chars_to_string(v: &Vec<char>) -> (r: String)
    ensures
        r@ == v@,
{
    let mut s = String::new();
    let mut i: usize = 0;
    while i < v.len()
        invariant
            i <= v@.len(),
            s@ == v@.subrange(0, i as int),
        decreases v@.len() - i,
    {
        s.push(v[i]);
        proof {
            assert(s@ =~= v@.subrange(0, i + 1 as int));
        }
        i += 1;
    }
    proof {
        assert(s@ =~= v@);
    }
    s
}

/// Character-wise equality of a character vector and a string slice.
pub fn chars_eq_str(v: &Vec<char>, s: &str) -> (r: bool)
    ensures
        r == (v@ == s@),
{
    let n = s.unicode_len();
    if v.len() != n {
        return false;
    }
    let mut i: usize = 0;
    while i < n
        invariant
            n == s@.len(),
            v@.len() == n,
            i <= n,
            forall|k: int| 0 <= k < i ==> v@[k] == s@[k],
        decreases n - i,
    {
        if v[i] != s.get_char(i) {
            return false;
        }
        i += 1;
    }
    proof {
        assert(v@ =~= s@);
    }
    true
}

/// Two characters match ignoring ASCII case.
pub open spec fn chars_eq_nocase(a: char, b: char) -> bool {
    a == b || ('A' as u32 <= a as u32 && a as u32 <= 'Z' as u32 && b as u32 == a as u32 + 32) || (
    'A' as u32 <= b as u32 && b as u32 <= 'Z' as u32 && a as u32 == b as u32 + 32)
}

/// Two character rows match ignoring ASCII case.
pub open spec fn str_eq_nocase(a: Seq<char>, b: Seq<char>) -> bool {
    a.len() == b.len() && forall|i: int| 0 <= i < a.len() ==> chars_eq_nocase(#[trigger] a[i], b[i])
}

/// ASCII-case-insensitive equality of two characters.
pub fn char_eq_nocase(a: char, b: char) -> (r: bool)
    ensures
        r == chars_eq_nocase(a, b),
{
    if a == b {
        return true;
    }
    let ua = a as u32;
    let ub = b as u32;
    (65 <= ua && ua <= 90 && ub == ua + 32) || (65 <= ub && ub <= 90 && ua == ub + 32)
}

/// ASCII-case-insensitive equality of two string slices.
pub fn str_eq_ignore_case(a: &str, b: &str) -> (r: bool)
    ensures
        r == str_eq_nocase(a@, b@),
{
    let na = a.unicode_len();
    let nb = b.unicode_len();
    if na != nb {
        return false;
    }
    let mut i: usize = 0;
    while i < na
        invariant
            na == a@.len(),
            nb == b@.len(),
            na == nb,
            i <= na,
            forall|k: int| 0 <= k < i ==> chars_eq_nocase(#[trigger] a@[k], b@[k]),
        decreases na - i,
    {
        if !char_eq_nocase(a.get_char(i), b.get_char(i)) {
            return false;
        }
        i += 1;
    }
    true
}

/// Is `c` one of the ASCII whitespace characters the command line splits
/// on?
pub open spec fn is_space(c: char) -> bool {
    c == ' ' || c == '\t' || c == '\n' || c == '\r'
}

/// Executable form of [`is_space`].
pub fn char_is_space(c: char) -> (r: bool)
    ensures
        r == is_space(c),
{
    c == ' ' || c == '\t' || c == '\n' || c == '\r'
}

/// The first position at or after `i` that holds a space (or the end of
/// the row).
pub open spec fn word_end(s: Seq<char>, i: int) -> int
    decreases s.len() - i,
{
    if i < 0 || i >= s.len() || is_space(s[i]) {
        i
    } else {
        word_end(s, i + 1)
    }
}

/// What `word_end` finds: the end of the word that starts at `i`.
pub proof fn lemma_word_end(s: Seq<char>, i: int)
    requires
        0 <= i <= s.len(),
    ensures
        i <= word_end(s, i) <= s.len(),
        forall|k: int| i <= k < word_end(s, i) ==> !is_space(#[trigger] s[k]),
        word_end(s, i) < s.len() ==> is_space(s[word_end(s, i)]),
    decreases s.len() - i,
{
    if i < s.len() && !is_space(s[i]) {
        lemma_word_end(s, i + 1);
    }
}

/// The whitespace-separated words of a row, scanning from position `i`.
pub open spec fn spec_tokens_from(s: Seq<char>, i: int) -> Seq<Seq<char>>
    decreases s.len() - i,
    via spec_tokens_from_decreases
{
    if i < 0 || i >= s.len() {
        Seq::empty()
    } else if is_space(s[i]) {
        spec_tokens_from(s, i + 1)
    } else {
        seq![s.subrange(i, word_end(s, i))] + spec_tokens_from(s, word_end(s, i))
    }
}

#[via_fn]
proof fn spec_tokens_from_decreases(s: Seq<char>, i: int) {
    if 0 <= i < s.len() && !is_space(s[i]) {
        lemma_word_end(s, i + 1);
    }
}

/// The whitespace-separated words of a row.
pub open spec fn spec_tokens(s: Seq<char>) -> Seq<Seq<char>> {
    spec_tokens_from(s, 0)
}

/// Split a row of characters into its whitespace-separated words.
pub fn tokenize(buf: &Vec<char>) -> (r: Vec<Vec<char>>)
    ensures
        r@.map_values(|t: Vec<char>| t@) == spec_tokens(buf@),
{
    let ghost s = buf@;
    let n = buf.len();
    let mut toks: Vec<Vec<char>> = Vec::new();
    let mut i: usize = 0;
    while i < n
        invariant
            s == buf@,
            n == s.len(),
            i <= n,
            spec_tokens(s) == toks@.map_values(|t: Vec<char>| t@) + spec_tokens_from(s, i as int),
        decreases n - i,
    {
        if char_is_space(buf[i]) {
            i += 1;
        } else {
            let start = i;
            let mut w: Vec<char> = Vec::new();
            while i < n && !char_is_space(buf[i])
                invariant
                    s == buf@,
                    n == s.len(),
                    start <= i <= n,
                    w@ == s.subrange(start as int, i as int),
                    word_end(s, start as int) == word_end(s, i as int),
                decreases n - i,
            {
                w.push(buf[i]);
                proof {
                    assert(w@ =~= s.subrange(start as int, i + 1 as int));
                }
                i += 1;
            }
            proof {
                assert(word_end(s, i as int) == i as int);
                assert(w@ == s.subrange(start as int, word_end(s, start as int)));
            }
            toks.push(w);
            proof {
                assert(spec_tokens_from(s, start as int) == seq![
                    s.subrange(start as int, word_end(s, start as int)),
                ] + spec_tokens_from(s, word_end(s, start as int)));
                assert(toks@.map_values(|t: Vec<char>| t@) + spec_tokens_from(s, i as int)
                    =~= spec_tokens(s));
            }
        }
    }
    proof {
        assert(toks@.map_values(|t: Vec<char>| t@) =~= spec_tokens(s));
    }
    toks
}

/// The first position at or after `i` that holds a non-space (or the end
/// of the row).
pub open spec fn skip_spaces(s: Seq<char>, i: int) -> int
    decreases s.len() - i,
{
    if i < 0 || i >= s.len() || !is_space(s[i]) {
        i
    } else {
        skip_spaces(s, i + 1)
    }
}

/// The position after the last non-space strictly before `j`.
pub open spec fn trim_end(s: Seq<char>, j: int) -> int
    decreases j,
{
    if j <= 0 || !is_space(s[j - 1]) {
        j
    } else {
        trim_end(s, j - 1)
    }
}

/// The row with leading and trailing whitespace removed.
pub open spec fn trimmed(s: Seq<char>) -> Seq<char> {
    let a = skip_spaces(s, 0);
    let b = trim_end(s, s.len() as int);
    if a <= b {
        s.subrange(a, b)
    } else {
        Seq::empty()
    }
}

/// Remove leading and trailing whitespace from a row of characters.
pub fn trim_chars(buf: &Vec<char>) -> (r: Vec<char>)
    ensures
        r@ == trimmed(buf@),
{
    let ghost s = buf@;
    let n = buf.len();
    let mut a: usize = 0;
    while a < n && char_is_space(buf[a])
        invariant
            s == buf@,
            n == s.len(),
            a <= n,
            skip_spaces(s, 0) == skip_spaces(s, a as int),
        decreases n - a,
    {
        a += 1;
    }
    proof {
        assert(skip_spaces(s, a as int) == a as int);
    }
    let mut b: usize = n;
    while b > 0 && char_is_space(buf[b - 1])
        invariant
            s == buf@,
            n == s.len(),
            b <= n,
            trim_end(s, n as int) == trim_end(s, b as int),
        decreases b,
    {
        b -= 1;
    }
    proof {
        assert(trim_end(s, b as int) == b as int);
    }
    let mut r: Vec<char> = Vec::new();
    if a >= b {
        proof {
            assert(r@ =~= trimmed(s));
        }
        return r;
    }
    let mut i: usize = a;
    while i < b
        invariant
            s == buf@,
            n == s.len(),
            a <= i <= b <= n,
            r@ == s.subrange(a as int, i as int),
        decreases b - i,
    {
        r.push(buf[i]);
        proof {
            assert(r@ =~= s.subrange(a as int, i + 1 as int));
        }
        i += 1;
    }
    proof {
        assert(r@ =~= trimmed(s));
    }
    r
}

/// Index of the first occurrence of `c` in the row, or -1 if none.
pub open spec fn find_char(s: Seq<char>, c: char) -> int
    decreases s.len(),
{
    if s.len() == 0 {
        -1
    } else if s[0] == c {
        0
    } else {
        let r = find_char(s.drop_first(), c);
        if r == -1 {
            -1
        } else {
            r + 1
        }
    }
}

/// What `find_char` finds: the first occurrence of `c`, if any.
pub proof fn lemma_find_char(s: Seq<char>, c: char)
    ensures
        -1 <= find_char(s, c) < s.len(),
        find_char(s, c) == -1 ==> forall|k: int| 0 <= k < s.len() ==> s[k] != c,
        find_char(s, c) >= 0 ==> s[find_char(s, c)] == c && forall|k: int|
            0 <= k < find_char(s, c) ==> s[k] != c,
    decreases s.len(),
{
    if s.len() > 0 && s[0] != c {
        let d = s.drop_first();
        lemma_find_char(d, c);
        let r = find_char(d, c);
        if r == -1 {
            assert forall|k: int| 0 <= k < s.len() implies s[k] != c by {
                if k >= 1 {
                    assert(d[k - 1] == s[k]);
                    assert(d[k - 1] != c);
                }
            }
        } else {
            assert(s[r + 1] == d[r]);
            assert forall|k: int| 0 <= k < r + 1 implies s[k] != c by {
                if k >= 1 {
                    assert(d[k - 1] == s[k]);
                    assert(d[k - 1] != c);
                }
            }
        }
    }
}

/// Find the first occurrence of `c` in a row of characters.
pub fn find_char_in(v: &Vec<char>, c: char) -> (r: Option<usize>)
    ensures
        (match r {
            Some(i) => i == find_char(v@, c),
            None => find_char(v@, c) == -1,
        }),
{
    let mut i: usize = 0;
    while i < v.len()
        invariant
            i <= v@.len(),
            forall|k: int| 0 <= k < i ==> v@[k] != c,
        decreases v@.len() - i,
    {
        if v[i] == c {
            proof {
                lemma_find_char(v@, c);
                let fi = find_char(v@, c);
                if fi >= 0 && fi < i as int {
                    assert(v@[fi] != c);
                }
                if fi > i as int {
                    assert(v@[i as int] != c);
                }
            }
            return Some(i);
        }
        i += 1;
    }
    proof {
        lemma_find_char(v@, c);
        let fi = find_char(v@, c);
        if fi >= 0 {
            assert(v@[fi] != c);
        }
    }
    None
}

/// The first `n` characters of a row, as a fresh vector.
pub fn vec_take(v: &Vec<char>, n: usize) -> (r: Vec<char>)
    requires
        n <= v@.len(),
    ensures
        r@ == v@.take(n as int),
{
    let mut r: Vec<char> = Vec::new();
    let mut i: usize = 0;
    while i < n
        invariant
            n <= v@.len(),
            i <= n,
            r@ == v@.subrange(0, i as int),
        decreases n - i,
    {
        r.push(v[i]);
        proof {
            assert(r@ =~= v@.subrange(0, i + 1 as int));
        }
        i += 1;
    }
    proof {
        assert(r@ =~= v@.take(n as int));
    }
    r
}

/// The characters of a row from position `n` on, as a fresh vector.
pub fn vec_skip(v: &Vec<char>, n: usize) -> (r: Vec<char>)
    requires
        n <= v@.len(),
    ensures
        r@ == v@.skip(n as int),
{
    let mut r: Vec<char> = Vec::new();
    let mut i: usize = n;
    while i < v.len()
        invariant
            n <= i <= v@.len(),
            r@ == v@.subrange(n as int, i as int),
        decreases v@.len() - i,
    {
        r.push(v[i]);
        proof {
            assert(r@ =~= v@.subrange(n as int, i + 1 as int));
        }
        i += 1;
    }
    proof {
        assert(r@ =~= v@.skip(n as int));
    }
    r
}

} // verus!
