//! The forms in which a site's address is taken: what the user typed is
//! given a scheme where it has none.

use crate::text::{
    chars_of, has_prefix, is_white_space, starts_with, string_of, strip_trailing, trim, trim_end,
    trim_start, white_space,
};
use vstd::prelude::*;

verus! {

/// `s` names its scheme, `http` or `https`.
pub open spec fn has_scheme(s: Seq<char>) -> bool {
    has_prefix(s, "http://"@) || has_prefix(s, "https://"@)
}

/// `s` as it stands where it names its scheme, else with `https://` before it.
pub open spec fn with_scheme(s: Seq<char>) -> Seq<char> {
    if has_scheme(s) {
        s
    } else {
        "https://"@ + s
    }
}

/// The address to open for what the user typed: white space at either end
/// is dropped, and a missing scheme supplied.
pub open spec fn normalized_url(input: Seq<char>) -> Seq<char> {
    with_scheme(trim(input))
}

/// The address that icon lookups start from: the slashes at the end are
/// dropped, and a missing scheme supplied.
pub open spec fn base_url(input: Seq<char>) -> Seq<char> {
    with_scheme(strip_trailing(input, '/'))
}

/// Trimming at the start steps over leading white space one character at a time.
proof fn lemma_trim_start_skip(s: Seq<char>, k: int)
    requires
        0 <= k <= s.len(),
        forall|j: int| 0 <= j < k ==> white_space(s[j]),
    ensures
        trim_start(s) == trim_start(s.skip(k)),
    decreases k,
{
    if k == 0 {
        assert(s.skip(0) =~= s);
    } else {
        lemma_trim_start_skip(s, k - 1);
        let t = s.skip(k - 1);
        assert(t[0] == s[k - 1]);
        assert(t.drop_first() =~= s.skip(k));
    }
}

/// Trimming at the end steps over trailing white space one character at a time.
proof fn lemma_trim_end_take(s: Seq<char>, k: int)
    requires
        0 <= k <= s.len(),
        forall|j: int| k <= j < s.len() ==> white_space(s[j]),
    ensures
        trim_end(s) == trim_end(s.take(k)),
    decreases s.len() - k,
{
    if k == s.len() {
        assert(s.take(k) =~= s);
    } else {
        lemma_trim_end_take(s, k + 1);
        let t = s.take(k + 1);
        assert(t.last() == s[k]);
        assert(t.drop_last() =~= s.take(k));
    }
}

/// Stripping steps over a trailing run of `c` one character at a time.
proof fn lemma_strip_trailing_take(s: Seq<char>, c: char, k: int)
    requires
        0 <= k <= s.len(),
        forall|j: int| k <= j < s.len() ==> s[j] == c,
    ensures
        strip_trailing(s, c) == strip_trailing(s.take(k), c),
    decreases s.len() - k,
{
    if k == s.len() {
        assert(s.take(k) =~= s);
    } else {
        lemma_strip_trailing_take(s, c, k + 1);
        let t = s.take(k + 1);
        assert(t.last() == s[k]);
        assert(t.drop_last() =~= s.take(k));
    }
}

/// The characters `v[from..to]`.
fn slice_of(v: &Vec<char>, from: usize, to: usize) -> (r: Vec<char>)
    requires
        from <= to <= v.len(),
    ensures
        r@ == v@.subrange(from as int, to as int),
{
    let mut out: Vec<char> = Vec::new();
    let mut i: usize = from;
    while i < to
        invariant
            from <= i <= to <= v.len(),
            out@ == v@.subrange(from as int, i as int),
        decreases to - i,
    {
        out.push(v[i]);
        i += 1;
    }
    out
}

/// `v` without the white space at either end.
pub fn trimmed(v: &Vec<char>) -> (r: Vec<char>)
    ensures
        r@ == trim(v@),
{
    let mut start: usize = 0;
    while start < v.len() && is_white_space(v[start])
        invariant
            start <= v.len(),
            forall|j: int| 0 <= j < start ==> white_space(v@[j]),
        decreases v.len() - start,
    {
        start += 1;
    }
    let ghost rest = v@.skip(start as int);
    proof {
        lemma_trim_start_skip(v@, start as int);
        assert(trim_start(v@) == rest);
    }
    let mut end: usize = v.len();
    while end > start && is_white_space(v[end - 1])
        invariant
            start <= end <= v.len(),
            forall|j: int| end <= j < v.len() ==> white_space(v@[j]),
        decreases end,
    {
        end -= 1;
    }
    proof {
        lemma_trim_end_take(rest, end - start);
        let kept = rest.take(end - start);
        assert(kept =~= v@.subrange(start as int, end as int));
        if kept.len() > 0 {
            assert(kept.last() == v@[end - 1]);
        }
        assert(trim_end(kept) == kept);
    }
    slice_of(v, start, end)
}

/// `v` without the slashes at its end.
pub fn without_trailing_slashes(v: &Vec<char>) -> (r: Vec<char>)
    ensures
        r@ == strip_trailing(v@, '/'),
{
    let mut end: usize = v.len();
    while end > 0 && v[end - 1] == '/'
        invariant
            end <= v.len(),
            forall|j: int| end <= j < v.len() ==> v@[j] == '/',
        decreases end,
    {
        end -= 1;
    }
    proof {
        lemma_strip_trailing_take(v@, '/', end as int);
        let kept = v@.take(end as int);
        assert(kept =~= v@.subrange(0, end as int));
        if kept.len() > 0 {
            assert(kept.last() == v@[end - 1]);
        }
        assert(strip_trailing(kept, '/') == kept);
    }
    slice_of(v, 0, end)
}

/// `v` as it stands where it names its scheme, else with `https://` before it.
pub fn ensure_scheme(v: Vec<char>) -> (r: Vec<char>)
    ensures
        r@ == with_scheme(v@),
{
    let http = chars_of("http://");
    let https = chars_of("https://");
    if starts_with(&v, &http) || starts_with(&v, &https) {
        v
    } else {
        let mut out = https;
        let mut v = v;
        out.append(&mut v);
        out
    }
}

/// The address to open for what the user typed. It never fails.
pub fn normalize_url(input: String) -> (r: Result<String, String>)
    ensures
        r matches Ok(s) && s@ == normalized_url(input@),
{
    let v = chars_of(input.as_str());
    let t = trimmed(&v);
    let out = ensure_scheme(t);
    Ok(string_of(&out))
}

/// The address that icon lookups start from.
pub fn normalize_base_url(input: &str) -> (r: String)
    ensures
        r@ == base_url(input@),
{
    let v = chars_of(input);
    let t = without_trailing_slashes(&v);
    let out = ensure_scheme(t);
    string_of(&out)
}

} // verus!
