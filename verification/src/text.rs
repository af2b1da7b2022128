use vstd::prelude::*;
use vstd::string::StrSliceExecFns;

verus! {

/// A line-break character, as trimmed from the ends of HTML text nodes.
pub open spec fn is_nl(c: char) -> bool {
    c == '\n' || c == '\r'
}

/// Whitespace, as stripped from tag entries and description text: the
/// Unicode code points with the White_Space property.
pub open spec fn is_ws(c: char) -> bool {
    ||| c == ' ' || c == '\t' || c == '\n' || c == '\r' || c == '\u{0b}' || c == '\u{0c}'
    ||| c == '\u{85}' || c == '\u{a0}' || c == '\u{1680}'
    ||| ('\u{2000}' <= c && c <= '\u{200a}')
    ||| c == '\u{2028}' || c == '\u{2029}' || c == '\u{202f}' || c == '\u{205f}' || c == '\u{3000}'
}

pub open spec fn trim_start_nl_spec(s: Seq<char>) -> Seq<char>
    decreases s.len(),
{
    if s.len() > 0 && is_nl(s[0]) {
        trim_start_nl_spec(s.drop_first())
    } else {
        s
    }
}

pub open spec fn trim_end_nl_spec(s: Seq<char>) -> Seq<char>
    decreases s.len(),
{
    if s.len() > 0 && is_nl(s[s.len() - 1]) {
        trim_end_nl_spec(s.drop_last())
    } else {
        s
    }
}

/// Both ends stripped of line-break characters.
pub open spec fn trim_nl_spec(s: Seq<char>) -> Seq<char> {
    trim_end_nl_spec(trim_start_nl_spec(s))
}

pub open spec fn trim_start_ws_spec(s: Seq<char>) -> Seq<char>
    decreases s.len(),
{
    if s.len() > 0 && is_ws(s[0]) {
        trim_start_ws_spec(s.drop_first())
    } else {
        s
    }
}

pub open spec fn trim_end_ws_spec(s: Seq<char>) -> Seq<char>
    decreases s.len(),
{
    if s.len() > 0 && is_ws(s[s.len() - 1]) {
        trim_end_ws_spec(s.drop_last())
    } else {
        s
    }
}

/// Both ends stripped of whitespace.
pub open spec fn trim_ws_spec(s: Seq<char>) -> Seq<char> {
    trim_end_ws_spec(trim_start_ws_spec(s))
}

proof fn lemma_trim_start_nl(s: Seq<char>, i: int)
    requires
        0 <= i <= s.len(),
        forall|j: int| 0 <= j < i ==> is_nl(s[j]),
        i == s.len() || !is_nl(s[i]),
    ensures
        trim_start_nl_spec(s) == s.subrange(i, s.len() as int),
    decreases i,
{
    if i == 0 {
        assert(s.subrange(0, s.len() as int) =~= s);
    } else {
        let t = s.drop_first();
        assert(forall|j: int| 0 <= j < i - 1 ==> is_nl(t[j]));
        lemma_trim_start_nl(t, i - 1);
        assert(t.subrange(i - 1, t.len() as int) =~= s.subrange(i, s.len() as int));
    }
}

proof fn lemma_trim_end_nl(s: Seq<char>, i: int)
    requires
        0 <= i <= s.len(),
        forall|j: int| i <= j < s.len() ==> is_nl(s[j]),
        i == 0 || !is_nl(s[i - 1]),
    ensures
        trim_end_nl_spec(s) == s.subrange(0, i),
    decreases s.len(),
{
    if s.len() > 0 && is_nl(s[s.len() - 1]) {
        let t = s.drop_last();
        lemma_trim_end_nl(t, i);
        assert(t.subrange(0, i) =~= s.subrange(0, i));
    } else {
        assert(i == s.len());
        assert(s.subrange(0, i) =~= s);
    }
}

proof fn lemma_trim_start_ws(s: Seq<char>, i: int)
    requires
        0 <= i <= s.len(),
        forall|j: int| 0 <= j < i ==> is_ws(s[j]),
        i == s.len() || !is_ws(s[i]),
    ensures
        trim_start_ws_spec(s) == s.subrange(i, s.len() as int),
    decreases i,
{
    if i == 0 {
        assert(s.subrange(0, s.len() as int) =~= s);
    } else {
        let t = s.drop_first();
        assert(forall|j: int| 0 <= j < i - 1 ==> is_ws(t[j]));
        lemma_trim_start_ws(t, i - 1);
        assert(t.subrange(i - 1, t.len() as int) =~= s.subrange(i, s.len() as int));
    }
}

proof fn lemma_trim_end_ws(s: Seq<char>, i: int)
    requires
        0 <= i <= s.len(),
        forall|j: int| i <= j < s.len() ==> is_ws(s[j]),
        i == 0 || !is_ws(s[i - 1]),
    ensures
        trim_end_ws_spec(s) == s.subrange(0, i),
    decreases s.len(),
{
    if s.len() > 0 && is_ws(s[s.len() - 1]) {
        let t = s.drop_last();
        lemma_trim_end_ws(t, i);
        assert(t.subrange(0, i) =~= s.subrange(0, i));
    } else {
        assert(i == s.len());
        assert(s.subrange(0, i) =~= s);
    }
}

fn is_nl_exec(c: char) -> (r: bool)
    ensures
        r == is_nl(c),
{
    c == '\n' || c == '\r'
}

fn is_ws_exec(c: char) -> (r: bool)
    ensures
        r == is_ws(c),
{
    c == ' ' || c == '\t' || c == '\n' || c == '\r' || c == '\u{0b}' || c == '\u{0c}'
        || c == '\u{85}' || c == '\u{a0}' || c == '\u{1680}' || ('\u{2000}' <= c && c
        <= '\u{200a}') || c == '\u{2028}' || c == '\u{2029}' || c == '\u{202f}' || c == '\u{205f}'
        || c == '\u{3000}'
}

/// Strips line-break characters from both ends of a text node's content,
/// leaving interior whitespace untouched.
pub fn trim_nl(t: &str) -> (r: &str)
    ensures
        r@ == trim_nl_spec(t@),
{
    let len = t.unicode_len();
    let mut a: usize = 0;
    while a < len && is_nl_exec(t.get_char(a))
        invariant
            a <= len,
            len == t@.len(),
            forall|j: int| 0 <= j < a ==> is_nl(t@[j]),
        decreases len - a,
    {
        a += 1;
    }
    let mut b: usize = len;
    while b > a && is_nl_exec(t.get_char(b - 1))
        invariant
            a <= b <= len,
            len == t@.len(),
            forall|j: int| b <= j < len ==> is_nl(t@[j]),
        decreases b,
    {
        b -= 1;
    }
    proof {
        lemma_trim_start_nl(t@, a as int);
        let s1 = t@.subrange(a as int, len as int);
        lemma_trim_end_nl(s1, b - a);
        assert(s1.subrange(0, b - a) =~= t@.subrange(a as int, b as int));
    }
    t.substring_char(a, b)
}

/// Strips leading whitespace.
pub fn trim_start_ws(t: &str) -> (r: &str)
    ensures
        r@ == trim_start_ws_spec(t@),
{
    let len = t.unicode_len();
    let mut a: usize = 0;
    while a < len && is_ws_exec(t.get_char(a))
        invariant
            a <= len,
            len == t@.len(),
            forall|j: int| 0 <= j < a ==> is_ws(t@[j]),
        decreases len - a,
    {
        a += 1;
    }
    proof {
        lemma_trim_start_ws(t@, a as int);
    }
    t.substring_char(a, len)
}

/// Strips trailing whitespace.
pub fn trim_end_ws(t: &str) -> (r: &str)
    ensures
        r@ == trim_end_ws_spec(t@),
{
    let len = t.unicode_len();
    let mut b: usize = len;
    while b > 0 && is_ws_exec(t.get_char(b - 1))
        invariant
            b <= len,
            len == t@.len(),
            forall|j: int| b <= j < len ==> is_ws(t@[j]),
        decreases b,
    {
        b -= 1;
    }
    proof {
        lemma_trim_end_ws(t@, b as int);
    }
    t.substring_char(0, b)
}

/// Strips whitespace from both ends.
pub fn trim_ws(t: &str) -> (r: &str)
    ensures
        r@ == trim_ws_spec(t@),
{
    trim_end_ws(trim_start_ws(t))
}

/// Character-for-character string equality.
pub fn str_eq(a: &str, b: &str) -> (r: bool)
    ensures
        r == (a@ == b@),
{
    let n = a.unicode_len();
    let m = b.unicode_len();
    if n != m {
        proof {
            assert(a@ != b@);
        }
        return false;
    }
    let mut i: usize = 0;
    while i < n
        invariant
            i <= n,
            n == a@.len() == b@.len(),
            forall|j: int| 0 <= j < i ==> a@[j] == b@[j],
        decreases n - i,
    {
        if a.get_char(i) != b.get_char(i) {
            return false;
        }
        i += 1;
    }
    proof {
        assert(a@ =~= b@);
    }
    true
}

pub open spec fn starts_with_spec(s: Seq<char>, prefix: Seq<char>) -> bool {
    prefix.len() <= s.len() && s.subrange(0, prefix.len() as int) == prefix
}

pub open spec fn ends_with_spec(s: Seq<char>, suffix: Seq<char>) -> bool {
    suffix.len() <= s.len() && s.subrange(s.len() - suffix.len(), s.len() as int) == suffix
}

/// Whether `prefix` is a prefix of `s`.
pub fn starts_with(s: &str, prefix: &str) -> (r: bool)
    ensures
        r == starts_with_spec(s@, prefix@),
{
    let n = s.unicode_len();
    let m = prefix.unicode_len();
    if m > n {
        return false;
    }
    let mut i: usize = 0;
    while i < m
        invariant
            i <= m <= n,
            n == s@.len(),
            m == prefix@.len(),
            forall|j: int| 0 <= j < i ==> s@[j] == prefix@[j],
        decreases m - i,
    {
        if s.get_char(i) != prefix.get_char(i) {
            proof {
                assert(s@.subrange(0, m as int)[i as int] != prefix@[i as int]);
            }
            return false;
        }
        i += 1;
    }
    proof {
        assert(s@.subrange(0, m as int) =~= prefix@);
    }
    true
}

/// Whether `suffix` is a suffix of `s`.
pub fn ends_with(s: &str, suffix: &str) -> (r: bool)
    ensures
        r == ends_with_spec(s@, suffix@),
{
    let n = s.unicode_len();
    let m = suffix.unicode_len();
    if m > n {
        return false;
    }
    let off = n - m;
    let mut i: usize = 0;
    while i < m
        invariant
            i <= m <= n,
            off == n - m,
            n == s@.len(),
            m == suffix@.len(),
            forall|j: int| 0 <= j < i ==> s@[off + j] == suffix@[j],
        decreases m - i,
    {
        if s.get_char(off + i) != suffix.get_char(i) {
            proof {
                assert(s@.subrange(n - m, n as int)[i as int] != suffix@[i as int]);
            }
            return false;
        }
        i += 1;
    }
    proof {
        assert(s@.subrange(n - m, n as int) =~= suffix@);
    }
    true
}

pub open spec fn match_at(s: Seq<char>, sub: Seq<char>, i: int) -> bool {
    0 <= i && i + sub.len() <= s.len() && s.subrange(i, i + sub.len()) == sub
}

pub open spec fn contains_spec(s: Seq<char>, sub: Seq<char>) -> bool {
    exists|i: int| match_at(s, sub, i)
}

fn match_at_exec(s: &str, sub: &str, i: usize) -> (r: bool)
    requires
        i + sub@.len() <= s@.len(),
        s@.len() <= usize::MAX,
    ensures
        r == match_at(s@, sub@, i as int),
{
    let m = sub.unicode_len();
    let mut j: usize = 0;
    while j < m
        invariant
            j <= m,
            m == sub@.len(),
            i + m <= s@.len(),
            s@.len() <= usize::MAX,
            forall|k: int| 0 <= k < j ==> s@[i + k] == sub@[k],
        decreases m - j,
    {
        if s.get_char(i + j) != sub.get_char(j) {
            proof {
                assert(s@.subrange(i as int, i + m)[j as int] != sub@[j as int]);
            }
            return false;
        }
        j += 1;
    }
    proof {
        assert(s@.subrange(i as int, i + m) =~= sub@);
    }
    true
}

/// Whether `sub` occurs anywhere in `s`.
pub fn contains_sub(s: &str, sub: &str) -> (r: bool)
    ensures
        r == contains_spec(s@, sub@),
{
    let n = s.unicode_len();
    let m = sub.unicode_len();
    if m > n {
        proof {
            assert(forall|i: int| !match_at(s@, sub@, i));
        }
        return false;
    }
    if m == 0 {
        proof {
            assert(s@.subrange(0, 0) =~= sub@);
            assert(match_at(s@, sub@, 0));
        }
        return true;
    }
    let mut i: usize = 0;
    while i <= n - m
        invariant
            1 <= m <= n,
            i <= n - m + 1,
            n == s@.len(),
            m == sub@.len(),
            forall|k: int| 0 <= k < i ==> !match_at(s@, sub@, k),
        decreases n - i,
    {
        if match_at_exec(s, sub, i) {
            return true;
        }
        i += 1;
    }
    proof {
        assert(forall|k: int| !match_at(s@, sub@, k));
    }
    false
}

} // verus!
