use vstd::prelude::*;
use vstd::string::StrSliceExecFns;
use crate::model::EmbedFlags;
use crate::model::flags_leq;

verus! {

/// The code point of a character with ascii upper-case letters folded to
/// lower case; every other character keeps its own code point.
pub open spec fn lower_code(c: char) -> int {
    if 'A' <= c && c <= 'Z' {
        c as int + 32
    } else {
        c as int
    }
}

/// Ascii-case-insensitive character equality.
pub open spec fn ci_eq_char(a: char, b: char) -> bool {
    lower_code(a) == lower_code(b)
}

/// Ascii-case-insensitive string equality: an exact token match up to case.
pub open spec fn ci_eq(a: Seq<char>, b: Seq<char>) -> bool {
    a.len() == b.len() && (forall|i: int| 0 <= i < a.len() ==> ci_eq_char(a[i], b[i]))
}

fn ci_eq_char_exec(a: char, b: char) -> (r: bool)
    ensures
        r == ci_eq_char(a, b),
{
    let ca: u32 = a as u32;
    let cb: u32 = b as u32;
    let la: u32 = if a >= 'A' && a <= 'Z' {
        ca + 32
    } else {
        ca
    };
    let lb: u32 = if b >= 'A' && b <= 'Z' {
        cb + 32
    } else {
        cb
    };
    la == lb
}

/// Ascii-case-insensitive equality of two strings.
pub fn ci_eq_str(a: &str, b: &str) -> (r: bool)
    ensures
        r == ci_eq(a@, b@),
{
    let n = a.unicode_len();
    let m = b.unicode_len();
    if n != m {
        return false;
    }
    let mut i: usize = 0;
    while i < n
        invariant
            i <= n,
            n == a@.len() == b@.len(),
            forall|j: int| 0 <= j < i ==> ci_eq_char(a@[j], b@[j]),
        decreases n - i,
    {
        if !ci_eq_char_exec(a.get_char(i), b.get_char(i)) {
            return false;
        }
        i += 1;
    }
    true
}

/// Whether any word of the set equals `t`, ascii-case-insensitively.
pub open spec fn word_set_contains(words: Seq<String>, t: Seq<char>) -> bool {
    exists|i: int| 0 <= i < words.len() && ci_eq(#[trigger] words[i]@, t)
}

/// An immutable, case-insensitive set of keyword strings; built once and
/// read-only afterward.
#[derive(Clone, Debug)]
pub struct TagSet {
    pub words: Vec<String>,
}

impl TagSet {
    pub open spec fn contains_spec(&self, t: Seq<char>) -> bool {
        word_set_contains(self.words@, t)
    }

    pub fn new(words: Vec<String>) -> (r: TagSet)
        ensures
            r.words == words,
    {
        TagSet { words }
    }

    /// Exact token match against the set, ignoring ascii case.
    pub fn contains(&self, t: &str) -> (r: bool)
        ensures
            r == self.contains_spec(t@),
    {
        let n = self.words.len();
        let mut i: usize = 0;
        while i < n
            invariant
                i <= n,
                n == self.words@.len(),
                forall|j: int| 0 <= j < i ==> !ci_eq(#[trigger] self.words@[j]@, t@),
            decreases n - i,
        {
            if ci_eq_str(self.words[i].as_str(), t) {
                return true;
            }
            i += 1;
        }
        false
    }
}

/// The views of a list of strings.
pub open spec fn string_views(ss: Seq<String>) -> Seq<Seq<char>> {
    ss.map_values(|s: String| s@)
}

/// One classification step: a single content tag may set the ADULT and
/// GRAPHIC flags, and can never clear one.
pub open spec fn scan_step(
    flags: EmbedFlags,
    tag: Seq<char>,
    adult: Seq<String>,
    graphic: Seq<String>,
) -> EmbedFlags {
    EmbedFlags {
        adult: flags.adult || word_set_contains(adult, tag),
        graphic: flags.graphic || word_set_contains(graphic, tag),
    }
}

/// The whole tag scan, in document order.
pub open spec fn scan_spec(
    flags: EmbedFlags,
    tags: Seq<Seq<char>>,
    adult: Seq<String>,
    graphic: Seq<String>,
) -> EmbedFlags
    decreases tags.len(),
{
    if tags.len() == 0 {
        flags
    } else {
        scan_spec(scan_step(flags, tags[0], adult, graphic), tags.drop_first(), adult, graphic)
    }
}

/// Once both flags are set, further tags change nothing; this is what lets
/// the scan stop early.
proof fn lemma_scan_saturated(flags: EmbedFlags, tags: Seq<Seq<char>>, adult: Seq<String>, graphic: Seq<String>)
    requires
        flags.adult,
        flags.graphic,
    ensures
        scan_spec(flags, tags, adult, graphic) == flags,
    decreases tags.len(),
{
    if tags.len() > 0 {
        lemma_scan_saturated(flags, tags.drop_first(), adult, graphic);
    }
}

/// The scan only ever adds flags, whatever the tags say.
pub proof fn lemma_scan_monotonic(flags: EmbedFlags, tags: Seq<Seq<char>>, adult: Seq<String>, graphic: Seq<String>)
    ensures
        flags_leq(flags, scan_spec(flags, tags, adult, graphic)),
    decreases tags.len(),
{
    if tags.len() > 0 {
        lemma_scan_monotonic(scan_step(flags, tags[0], adult, graphic), tags.drop_first(), adult, graphic);
    }
}

/// Tests every content tag against the adult and graphic keyword sets and
/// folds the verdicts into the flag set; stops early once both flags are
/// set. Flags are monotonic: nothing is ever cleared.
pub fn scan_tags(flags: &mut EmbedFlags, tags: &Vec<String>, adult: &TagSet, graphic: &TagSet)
    ensures
        *final(flags) == scan_spec(*old(flags), string_views(tags@), adult.words@, graphic.words@),
        flags_leq(*old(flags), *final(flags)),
{
    let ghost ts = string_views(tags@);
    let n = tags.len();
    let mut i: usize = 0;
    proof {
        assert(ts.subrange(0, n as int) =~= ts);
    }
    loop
        invariant_except_break
            i <= n,
            n == tags@.len(),
            ts == string_views(tags@),
            scan_spec(*flags, ts.subrange(i as int, n as int), adult.words@, graphic.words@)
                == scan_spec(*old(flags), ts, adult.words@, graphic.words@),
            flags_leq(*old(flags), *flags),
        ensures
            *flags == scan_spec(*old(flags), string_views(tags@), adult.words@, graphic.words@),
            flags_leq(*old(flags), *flags),
        decreases n - i,
    {
        if i >= n {
            proof {
                assert(ts.subrange(i as int, n as int) =~= Seq::<Seq<char>>::empty());
            }
            break;
        }
        proof {
            assert(ts.subrange(i as int, n as int).drop_first() =~= ts.subrange(
                i + 1,
                n as int,
            ));
            assert(ts.subrange(i as int, n as int)[0] == ts[i as int]);
            assert(ts[i as int] == tags@[i as int]@);
        }
        let tag = &tags[i];
        if !flags.adult && adult.contains(tag.as_str()) {
            flags.set_adult();
        }
        if !flags.graphic && graphic.contains(tag.as_str()) {
            flags.set_graphic();
        }
        i += 1;
        if flags.adult && flags.graphic {
            proof {
                lemma_scan_saturated(
                    *flags,
                    ts.subrange(i as int, n as int),
                    adult.words@,
                    graphic.words@,
                );
            }
            break;
        }
    }
}

} // verus!
