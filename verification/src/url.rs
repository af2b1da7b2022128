use vstd::prelude::*;
use vstd::string::StrSliceExecFns;
use vstd::string::StringExecFns;
use crate::text;

verus! {

/// A character that ends the canonical part of a URL: the start of a
/// query string or of a fragment.
pub open spec fn is_stop(c: char) -> bool {
    c == '?' || c == '#'
}

/// Index of the first query/fragment delimiter, or the length if none occurs.
pub open spec fn stop_idx(s: Seq<char>) -> int
    decreases s.len(),
{
    if s.len() == 0 {
        0
    } else if is_stop(s[0]) {
        0
    } else {
        1 + stop_idx(s.drop_first())
    }
}

/// The canonical form of a URL string: everything before the first
/// query/fragment delimiter.
pub open spec fn canonical_form(s: Seq<char>) -> Seq<char> {
    s.subrange(0, stop_idx(s))
}

pub proof fn lemma_stop_idx_bounds(s: Seq<char>)
    ensures
        0 <= stop_idx(s) <= s.len(),
        forall|j: int| 0 <= j < stop_idx(s) ==> !is_stop(s[j]),
        stop_idx(s) == s.len() || is_stop(s[stop_idx(s)]),
    decreases s.len(),
{
    if s.len() > 0 && !is_stop(s[0]) {
        let t = s.drop_first();
        lemma_stop_idx_bounds(t);
        assert forall|j: int| 0 <= j < stop_idx(s) implies !is_stop(s[j]) by {
            if j > 0 {
                assert(s[j] == t[j - 1]);
            }
        }
    }
}

proof fn lemma_stop_idx_at(s: Seq<char>, i: int)
    requires
        0 <= i <= s.len(),
        forall|j: int| 0 <= j < i ==> !is_stop(s[j]),
        i == s.len() || is_stop(s[i]),
    ensures
        stop_idx(s) == i,
    decreases i,
{
    if i > 0 {
        let t = s.drop_first();
        assert(forall|j: int| 0 <= j < i - 1 ==> !is_stop(t[j]));
        lemma_stop_idx_at(t, i - 1);
    }
}

/// Canonicalization strips nothing from a string that holds no
/// query/fragment delimiter.
pub proof fn lemma_canonical_form_clean(s: Seq<char>)
    requires
        forall|j: int| 0 <= j < s.len() ==> !is_stop(s[j]),
    ensures
        canonical_form(s) == s,
{
    lemma_stop_idx_at(s, s.len() as int);
    assert(s.subrange(0, s.len() as int) =~= s);
}

/// Canonicalization is idempotent: a second pass changes nothing, since
/// the first pass leaves no query/fragment delimiter behind.
pub proof fn lemma_canonical_form_idempotent(s: Seq<char>)
    ensures
        canonical_form(canonical_form(s)) == canonical_form(s),
{
    lemma_stop_idx_bounds(s);
    let c = canonical_form(s);
    assert(forall|j: int| 0 <= j < c.len() ==> !is_stop(c[j]));
    lemma_canonical_form_clean(c);
}

/// A well-formed URL's canonical form is already canonical: stripping the
/// query and fragment changes nothing, since none is there.
pub proof fn lemma_canonical_spec_clean(u: UrlParts)
    requires
        u.wf(),
    ensures
        canonical_form(u.canonical_spec()) == u.canonical_spec(),
{
    reveal_strlit("://");
    let s = u.canonical_spec();
    assert(forall|j: int| 0 <= j < s.len() ==> !is_stop(s[j]));
    lemma_canonical_form_clean(s);
}

fn is_stop_exec(c: char) -> (r: bool)
    ensures
        r == is_stop(c),
{
    c == '?' || c == '#'
}

/// Truncates a URL at the first query/fragment delimiter.
pub fn canonicalize(url: &str) -> (r: String)
    ensures
        r@ == canonical_form(url@),
{
    let len = url.unicode_len();
    let mut i: usize = 0;
    while i < len && !is_stop_exec(url.get_char(i))
        invariant
            i <= len,
            len == url@.len(),
            forall|j: int| 0 <= j < i ==> !is_stop(url@[j]),
        decreases len - i,
    {
        i += 1;
    }
    proof {
        lemma_stop_idx_at(url@, i as int);
    }
    let r = url.substring_char(0, i);
    r.to_owned()
}

/// The parsed parts of a URL that the extraction pipeline reads: the
/// scheme, the ascii host and the path, each free of query/fragment
/// delimiters; query and fragment are not carried at all.
#[derive(Clone, Debug)]
pub struct UrlParts {
    pub scheme: String,
    pub host: String,
    pub path: String,
}

impl UrlParts {
    /// A parsed URL as the pipeline expects it.
    pub open spec fn wf(&self) -> bool {
        &&& self.scheme@.len() > 0
        &&& forall|j: int| 0 <= j < self.scheme@.len() ==> !is_stop(self.scheme@[j])
        &&& forall|j: int| 0 <= j < self.host@.len() ==> !is_stop(self.host@[j])
        &&& forall|j: int| 0 <= j < self.path@.len() ==> !is_stop(self.path@[j])
    }

    /// The canonical form: `scheme://host` + path, with no query or fragment.
    pub open spec fn canonical_spec(&self) -> Seq<char> {
        self.scheme@ + "://"@ + self.host@ + self.path@
    }

    /// Checks well-formedness, so that a caller can establish it for
    /// parts built from runtime strings.
    pub fn is_wf(&self) -> (r: bool)
        ensures
            r == self.wf(),
    {
        self.scheme.as_str().unicode_len() > 0 && no_stops(self.scheme.as_str()) && no_stops(
            self.host.as_str(),
        ) && no_stops(self.path.as_str())
    }

    pub fn canonical_url(&self) -> (r: String)
        ensures
            r@ == self.canonical_spec(),
            self.wf() ==> canonical_form(r@) == r@,
    {
        let r = self.scheme.clone().concat("://").concat(self.host.as_str()).concat(
            self.path.as_str(),
        );
        proof {
            if self.wf() {
                reveal_strlit("://");
                assert(forall|j: int| 0 <= j < r@.len() ==> !is_stop(r@[j]));
                lemma_canonical_form_clean(r@);
            }
        }
        r
    }
}

fn no_stops(s: &str) -> (r: bool)
    ensures
        r == forall|j: int| 0 <= j < s@.len() ==> !is_stop(#[trigger] s@[j]),
{
    let n = s.unicode_len();
    let mut i: usize = 0;
    while i < n
        invariant
            i <= n,
            n == s@.len(),
            forall|j: int| 0 <= j < i ==> !is_stop(#[trigger] s@[j]),
        decreases n - i,
    {
        if is_stop_exec(s.get_char(i)) {
            return false;
        }
        i += 1;
    }
    true
}

/// Spec form of the protocol-relative fix-up: a URL that begins with `//`
/// gains an explicit `https:` scheme; any other form passes through
/// unchanged.
pub open spec fn fix_relative_spec(s: Seq<char>) -> Seq<char> {
    if text::starts_with_spec(s, "//"@) {
        "https:"@ + s
    } else {
        s
    }
}

/// Rewrites a protocol-relative URL (`//host/...`) to an explicit
/// `https://` URL; leaves every other URL unchanged.
pub fn fix_relative_scheme(url: &str) -> (r: String)
    ensures
        r@ == fix_relative_spec(url@),
{
    if text::starts_with(url, "//") {
        String::from_str("https:").concat(url)
    } else {
        url.to_owned()
    }
}

} // verus!
