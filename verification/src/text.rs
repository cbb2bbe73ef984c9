//! Character-level string helpers: equality with a literal and the `*`
//! glob that window rules use.

use vstd::prelude::*;
use vstd::string::StrSliceExecFns;

verus! {

/// The characters of a string, one by one.
pub fn chars_of(s: &str) -> (r: Vec<char>)
    ensures
        r@ == s@,
{
    let n = s.unicode_len();
    let mut r: Vec<char> = Vec::new();
    let mut i: usize = 0;
    while i < n
        invariant
            n == s@.len(),
            i <= n,
            r@ == s@.subrange(0, i as int),
        decreases n - i,
    {
        r.push(s.get_char(i));
        i = i + 1;
    }
    r
}

/// Whether two character sequences are equal.
pub fn seq_equal(a: &Vec<char>, b: &Vec<char>) -> (r: bool)
    ensures
        r == (a@ == b@),
{
    if a.len() != b.len() {
        return false;
    }
    let mut i: usize = 0;
    while i < a.len()
        invariant
            a.len() == b.len(),
            i <= a.len(),
            a@.subrange(0, i as int) == b@.subrange(0, i as int),
        decreases a.len() - i,
    {
        if a[i] != b[i] {
            assert(a@[i as int] != b@[i as int]);
            return false;
        }
        assert(a@.subrange(0, i + 1) == a@.subrange(0, i as int).push(a@[i as int]));
        assert(b@.subrange(0, i + 1) == b@.subrange(0, i as int).push(b@[i as int]));
        i = i + 1;
    }
    assert(a@ == a@.subrange(0, a.len() as int));
    assert(b@ == b@.subrange(0, b.len() as int));
    true
}

/// Whether two strings hold the same characters.
pub fn str_equals(a: &str, b: &str) -> (r: bool)
    ensures
        r == (a@ == b@),
{
    let ca = chars_of(a);
    let cb = chars_of(b);
    seq_equal(&ca, &cb)
}

/// `text` matches `pattern`, where each `*` in the pattern stands for any
/// run of characters (empty included) and every other character for
/// itself.
pub open spec fn glob_matches(pattern: Seq<char>, text: Seq<char>) -> bool
    decreases pattern.len() + text.len(),
{
    if pattern.len() == 0 {
        text.len() == 0
    } else if pattern[0] == '*' {
        glob_matches(pattern.drop_first(), text)
            || (text.len() > 0 && glob_matches(pattern, text.drop_first()))
    } else {
        text.len() > 0 && text[0] == pattern[0] && glob_matches(pattern.drop_first(), text.drop_first())
    }
}

/// The table `t[i][j] == glob_matches(p.skip(i), s.skip(j))` is filled from
/// the back; this is its value at one cell given the cells after it.
proof fn lemma_glob_step(p: Seq<char>, s: Seq<char>, i: int, j: int)
    requires
        0 <= i < p.len(),
        0 <= j <= s.len(),
    ensures
        glob_matches(p.skip(i), s.skip(j)) == (
            if p[i] == '*' {
                glob_matches(p.skip(i + 1), s.skip(j)) || (j < s.len() && glob_matches(p.skip(i), s.skip(j + 1)))
            } else {
                j < s.len() && s[j] == p[i] && glob_matches(p.skip(i + 1), s.skip(j + 1))
            }),
{
    assert(p.skip(i).drop_first() == p.skip(i + 1));
    if j < s.len() {
        assert(s.skip(j).drop_first() == s.skip(j + 1));
    }
}

/// A row of `len` copies of `v`.
fn filled(len: usize, v: bool) -> (r: Vec<bool>)
    ensures
        r@.len() == len,
        forall|k: int| 0 <= k < len ==> #[trigger] r@[k] == v,
{
    let mut r: Vec<bool> = Vec::new();
    let mut k: usize = 0;
    while k < len
        invariant
            k <= len,
            r@.len() == k,
            forall|m: int| 0 <= m < k ==> #[trigger] r@[m] == v,
        decreases len - k,
    {
        r.push(v);
        k = k + 1;
    }
    r
}

/// Whether `text` matches the glob `pattern` (`*` matches any run).
/// Dynamic programming over suffixes: after step `i`, `row[k]` tells
/// whether `text[k..]` matches `pattern[i..]`.
pub fn glob_match(pattern: &Vec<char>, text: &Vec<char>) -> (r: bool)
    requires
        text@.len() < usize::MAX,
    ensures
        r == glob_matches(pattern@, text@),
{
    let p = pattern.len();
    let n = text.len();
    let mut row = filled(n, false);
    row.push(true);
    assert forall|k: int| 0 <= k <= n implies #[trigger] row@[k] == glob_matches(pattern@.skip(p as int), text@.skip(k)) by {
        assert(pattern@.skip(p as int).len() == 0);
    }
    let mut i: usize = p;
    while i > 0
        invariant
            i <= p,
            n == text@.len(),
            n < usize::MAX,
            p == pattern@.len(),
            row@.len() == n + 1,
            forall|k: int| 0 <= k <= n ==> #[trigger] row@[k] == glob_matches(pattern@.skip(i as int), text@.skip(k)),
        decreases i,
    {
        i = i - 1;
        let c = pattern[i];
        let mut next = filled(n + 1, false);
        let mut q: usize = n + 1;
        while q > 0
            invariant
                i < p,
                c == pattern@[i as int],
                q <= n + 1,
                n == text@.len(),
                n < usize::MAX,
                p == pattern@.len(),
                row@.len() == n + 1,
                next@.len() == n + 1,
                forall|m: int| 0 <= m <= n ==> #[trigger] row@[m] == glob_matches(pattern@.skip(i + 1), text@.skip(m)),
                forall|m: int| q <= m <= n ==> #[trigger] next@[m] == glob_matches(pattern@.skip(i as int), text@.skip(m)),
            decreases q,
        {
            q = q - 1;
            proof {
                lemma_glob_step(pattern@, text@, i as int, q as int);
            }
            let v = if c == '*' {
                row[q] || (q < n && next[q + 1])
            } else {
                q < n && text[q] == c && row[q + 1]
            };
            next.set(q, v);
        }
        row = next;
    }
    assert(pattern@.skip(0) == pattern@);
    assert(text@.skip(0) == text@);
    row[0]
}

} // verus!
