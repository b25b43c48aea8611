//! Favicon discovery: scoring the `<link>` elements of a page and choosing
//! the icon to fetch.

use crate::adapters::{
    html_select_attrs, join_url, lowercase, parse_url, select_attrs, tags_view, text_of, url_join,
    url_parse, LinkTag, LinkTagView,
};
use crate::error::{Error, ErrorView};
use crate::text::{
    chars_of, contains, ends_with, has_suffix, parse_decimal, parse_u32, str_contains,
};
use vstd::prelude::*;
use vstd::utf8::{decode_utf8, valid_utf8};

verus! {

/// The position of the first `x` in `s`: `i` holds an `x` and nothing before it does.
pub open spec fn splits_at(s: Seq<char>, i: int) -> bool {
    0 <= i < s.len() && s[i] == 'x' && forall|j: int| 0 <= j < i ==> s[j] != 'x'
}

/// A number read from text, 0 where the text writes none.
pub open spec fn or_zero(n: Option<u32>) -> nat {
    match n {
        Some(v) => v as nat,
        None => 0,
    }
}

/// The area that a `sizes` attribute of the form `WxH` declares: the text is
/// split at its first `x`, each side read as a `u32` and counted as 0 where it
/// is none, and the two multiplied. 0 for a missing attribute or one without
/// an `x`.
pub open spec fn size_score(sizes: Option<Seq<char>>) -> nat {
    match sizes {
        None => 0,
        Some(s) => if exists|i: int| splits_at(s, i) {
            let i = choose|i: int| splits_at(s, i);
            or_zero(parse_u32(s.take(i))) * or_zero(parse_u32(s.skip(i + 1)))
        } else {
            0
        },
    }
}

/// The text of an optional string slice.
pub open spec fn str_text(s: Option<&str>) -> Option<Seq<char>> {
    match s {
        Some(t) => Some(t@),
        None => None,
    }
}

/// The score of a `sizes` attribute: width times height, 0 where it declares none.
pub fn parse_sizes(sizes: Option<&str>) -> (r: u64)
    ensures
        r == size_score(str_text(sizes)),
{
    let text = match sizes {
        Some(s) => s,
        None => {
            return 0;
        },
    };
    let v = chars_of(text);
    let mut i: usize = 0;
    while i < v.len()
        invariant
            i <= v.len(),
            sizes == Some(text),
            v@ == text@,
            forall|j: int| 0 <= j < i ==> v@[j] != 'x',
        decreases v.len() - i,
    {
        if v[i] == 'x' {
            let w = parse_decimal(&v, 0, i);
            let h = parse_decimal(&v, i + 1, v.len());
            let w: u64 = match w {
                Some(n) => n as u64,
                None => 0,
            };
            let h: u64 = match h {
                Some(n) => n as u64,
                None => 0,
            };
            proof {
                assert(splits_at(v@, i as int));
                let k = choose|k: int| splits_at(v@, k);
                assert(k == i);
                assert(v@.take(i as int) =~= v@.subrange(0, i as int));
                assert(v@.skip(i + 1) =~= v@.subrange(i + 1, v.len() as int));
                assert(w * h <= 0xffff_ffff * 0xffff_ffff) by (nonlinear_arith)
                    requires
                        w <= 0xffff_ffff,
                        h <= 0xffff_ffff,
                ;
            }
            return w * h;
        }
        i += 1;
    }
    assert(forall|k: int| !splits_at(v@, k));
    0
}

/// An icon a page offers.
#[derive(Debug, PartialEq, Eq)]
pub struct IconCandidate {
    /// The area its `sizes` attribute declares, 0 where it declares none.
    pub score: u64,
    /// Whether its reference ends in `.svg`.
    pub is_svg: bool,
    /// Where it is, resolved against the page.
    pub url: String,
}

/// An `IconCandidate` as plain values.
pub struct IconCandidateView {
    pub score: u64,
    pub is_svg: bool,
    pub url: Seq<char>,
}

impl View for IconCandidate {
    type V = IconCandidateView;

    open spec fn view(&self) -> IconCandidateView {
        IconCandidateView { score: self.score, is_svg: self.is_svg, url: self.url@ }
    }
}

/// The views of a list of candidates, in order.
pub open spec fn candidates_view(c: Seq<IconCandidate>) -> Seq<IconCandidateView> {
    c.map_values(|x: IconCandidate| x@)
}

/// Some candidate is a vector icon.
pub open spec fn has_svg(c: Seq<IconCandidateView>) -> bool {
    exists|i: int| 0 <= i < c.len() && (#[trigger] c[i]).is_svg
}

/// `i` is the first vector icon of `c`.
pub open spec fn first_svg(c: Seq<IconCandidateView>, i: int) -> bool {
    &&& 0 <= i < c.len()
    &&& c[i].is_svg
    &&& forall|j: int| 0 <= j < i ==> !(#[trigger] c[j]).is_svg
}

/// `i` is the first of the candidates of `c` with the highest score.
pub open spec fn first_largest(c: Seq<IconCandidateView>, i: int) -> bool {
    &&& 0 <= i < c.len()
    &&& forall|j: int| 0 <= j < c.len() ==> (#[trigger] c[j]).score <= c[i].score
    &&& forall|j: int| 0 <= j < i ==> (#[trigger] c[j]).score < c[i].score
}

/// `i` is the candidate to fetch: the first vector icon where there is one,
/// else the first bitmap with the highest score.
pub open spec fn is_selected(c: Seq<IconCandidateView>, i: int) -> bool {
    if has_svg(c) {
        first_svg(c, i)
    } else {
        first_largest(c, i)
    }
}

/// The candidate to fetch, `None` where there is none to choose from.
pub open spec fn selected(c: Seq<IconCandidateView>) -> Option<IconCandidateView> {
    if c.len() == 0 {
        None
    } else {
        Some(c[choose|i: int| is_selected(c, i)])
    }
}

/// At most one candidate is selected.
pub proof fn lemma_selection_unique(c: Seq<IconCandidateView>, i: int, j: int)
    requires
        is_selected(c, i),
        is_selected(c, j),
    ensures
        i == j,
{
    if i < j {
        if has_svg(c) {
            assert(!c[i].is_svg);
        } else {
            assert(c[i].score < c[j].score);
        }
    } else if j < i {
        if has_svg(c) {
            assert(!c[j].is_svg);
        } else {
            assert(c[j].score < c[i].score);
        }
    }
}

/// A vector icon beats every bitmap, whatever the scores: where a page offers
/// one, the selected candidate is a vector icon.
pub proof fn lemma_svg_always_selected(c: Seq<IconCandidateView>, i: int)
    requires
        has_svg(c),
        is_selected(c, i),
    ensures
        c[i].is_svg,
{
}

/// The order of the candidates does not decide between vector and bitmap:
/// where `a` offers a vector icon, the candidate selected from any
/// rearrangement `b` of `a` is a vector icon too.
pub proof fn lemma_svg_selected_in_any_order(
    a: Seq<IconCandidateView>,
    b: Seq<IconCandidateView>,
    i: int,
)
    requires
        a.to_multiset() == b.to_multiset(),
        has_svg(a),
        is_selected(b, i),
    ensures
        b[i].is_svg,
{
    let k = choose|k: int| 0 <= k < a.len() && (#[trigger] a[k]).is_svg;
    a.to_multiset_ensures();
    b.to_multiset_ensures();
    assert(a.contains(a[k]));
    assert(a.to_multiset().count(a[k]) > 0);
    assert(b.to_multiset().count(a[k]) > 0);
    assert(b.contains(a[k]));
    let m = choose|m: int| 0 <= m < b.len() && b[m] == a[k];
    assert(b[m].is_svg);
    assert(has_svg(b));
}

/// Chooses the candidate to fetch, by its position.
pub fn select_best(cands: &Vec<IconCandidate>) -> (r: Option<usize>)
    ensures
        r is None <==> cands.len() == 0,
        r matches Some(i) ==> is_selected(candidates_view(cands@), i as int),
{
    if cands.len() == 0 {
        return None;
    }
    let ghost c = candidates_view(cands@);
    let mut best: usize = 0;
    let mut i: usize = 1;
    assert(is_selected(c.take(1), 0)) by {
        if has_svg(c.take(1)) {
            let k = choose|k: int| 0 <= k < c.take(1).len() && (#[trigger] c.take(1)[k]).is_svg;
            assert(k == 0);
        }
    }
    while i < cands.len()
        invariant
            1 <= i <= cands.len(),
            c == candidates_view(cands@),
            best < i,
            is_selected(c.take(i as int), best as int),
        decreases cands.len() - i,
    {
        let ghost before = c.take(i as int);
        let ghost after = c.take(i + 1);
        let new_svg = cands[i].is_svg;
        let new_score = cands[i].score;
        let old_svg = cands[best].is_svg;
        let old_score = cands[best].score;
        assert(c[i as int] == cands@[i as int]@);
        assert(c[best as int] == cands@[best as int]@);
        assert(forall|j: int| 0 <= j < i ==> before[j] == after[j]);
        assert(after[i as int] == c[i as int]);
        let ghost old_best = best;
        if (new_svg && !old_svg) || (!new_svg && !old_svg && new_score > old_score) {
            best = i;
        }
        proof {
            if has_svg(before) {
                let k = choose|k: int| 0 <= k < before.len() && (#[trigger] before[k]).is_svg;
                assert(after[k].is_svg);
                assert(has_svg(after));
                assert(old_svg);
                assert(first_svg(after, best as int));
            } else if new_svg {
                assert(after[i as int].is_svg);
                assert(has_svg(after));
                assert forall|j: int| 0 <= j < i implies !(#[trigger] after[j]).is_svg by {
                    assert(!before[j].is_svg);
                }
                assert(first_svg(after, best as int));
            } else {
                if has_svg(after) {
                    let k = choose|k: int| 0 <= k < after.len() && (#[trigger] after[k]).is_svg;
                    if k < i {
                        assert(before[k].is_svg);
                    }
                    assert(false);
                }
                assert(!old_svg) by {
                    if old_svg {
                        assert(before[old_best as int].is_svg);
                    }
                }
                assert forall|j: int| 0 <= j < after.len() implies (#[trigger] after[j]).score
                    <= after[best as int].score by {
                    if j < i {
                        assert(before[j].score <= before[old_best as int].score);
                    }
                }
                assert forall|j: int| 0 <= j < best implies (#[trigger] after[j]).score
                    < after[best as int].score by {
                    if j < old_best {
                        assert(before[j].score < before[old_best as int].score);
                    } else {
                        assert(before[j].score <= before[old_best as int].score);
                    }
                }
                assert(first_largest(after, best as int));
            }
        }
        i += 1;
    }
    assert(c.take(i as int) =~= c);
    Some(best)
}

/// The view of an optional candidate.
pub open spec fn candidate_view(c: Option<IconCandidate>) -> Option<IconCandidateView> {
    match c {
        Some(x) => Some(x@),
        None => None,
    }
}

/// The candidate that a `<link>` element stands for, given its `rel` in lower
/// case and its reference as resolved against the page: none unless the
/// `rel` holds `icon`, a reference is there and it resolved. The candidate is
/// a vector icon where the reference, as written, ends in `.svg`.
pub open spec fn candidate_given(
    rel_lower: Seq<char>,
    href: Option<Seq<char>>,
    sizes: Option<Seq<char>>,
    resolved: Option<Seq<char>>,
) -> Option<IconCandidateView> {
    if !contains(rel_lower, "icon"@) {
        None
    } else {
        match (href, resolved) {
            (Some(h), Some(u)) => Some(
                IconCandidateView {
                    score: size_score(sizes) as u64,
                    is_svg: has_suffix(h, ".svg"@),
                    url: u,
                },
            ),
            _ => None,
        }
    }
}

/// The candidate that the element `tag` of the page at `base` stands for.
pub open spec fn candidate_of(base: Seq<char>, tag: LinkTagView) -> Option<IconCandidateView> {
    candidate_given(
        lowercase(
            match tag.rel {
                Some(r) => r,
                None => Seq::empty(),
            },
        ),
        tag.href,
        tag.sizes,
        match tag.href {
            Some(h) => url_join(base, h),
            None => None,
        },
    )
}

/// The candidates among `tags`, in the order of the elements.
pub open spec fn candidates_of(base: Seq<char>, tags: Seq<LinkTagView>) -> Seq<IconCandidateView>
    decreases tags.len(),
{
    if tags.len() == 0 {
        Seq::empty()
    } else {
        let before = candidates_of(base, tags.drop_last());
        match candidate_of(base, tags.last()) {
            Some(c) => before.push(c),
            None => before,
        }
    }
}

/// The CSS selector for the elements that may name an icon.
pub open spec fn link_selector() -> Seq<char> {
    "link[rel]"@
}

/// The `<link>` elements of the document `html` that carry a `rel`.
pub open spec fn page_links(html: Seq<char>) -> Seq<LinkTagView> {
    match html_select_attrs(html, link_selector(), "rel"@, "href"@, "sizes"@) {
        Some(tags) => tags,
        None => Seq::empty(),
    }
}

/// The icon to fetch for a page, given whether its address parses and the
/// candidates it offers.
pub open spec fn choice_given(base_parses: bool, cands: Seq<IconCandidateView>) -> Result<
    IconCandidateView,
    ErrorView,
> {
    if !base_parses {
        Err(ErrorView::InvalidBaseUrl)
    } else {
        match selected(cands) {
            Some(c) => Ok(c),
            None => Err(ErrorView::NoIconLinks),
        }
    }
}

/// The icon to fetch for the page at `base` whose document is `html`.
pub open spec fn page_icon(base: Seq<char>, html: Seq<char>) -> Result<IconCandidateView, ErrorView> {
    choice_given(url_parse(base) is Some, candidates_of(base, page_links(html)))
}

/// The document that a response holds: its text where it was served as HTML
/// and is valid UTF-8.
pub open spec fn html_of(content_type: Seq<char>, body: Seq<u8>) -> Result<Seq<char>, ErrorView> {
    if !contains(content_type, "text/html"@) {
        Err(ErrorView::NotHtml)
    } else if !valid_utf8(body) {
        Err(ErrorView::InvalidHtmlEncoding)
    } else {
        Ok(decode_utf8(body))
    }
}

/// The view of a candidate or an error.
pub open spec fn choice_view(r: Result<IconCandidate, Error>) -> Result<IconCandidateView, ErrorView> {
    match r {
        Ok(c) => Ok(c@),
        Err(e) => Err(e@),
    }
}

/// The view of a text or an error.
pub open spec fn text_result_view(r: Result<String, Error>) -> Result<Seq<char>, ErrorView> {
    match r {
        Ok(s) => Ok(s@),
        Err(e) => Err(e@),
    }
}

/// Builds the candidate for one element from what was read of it: its `rel`
/// in lower case, its reference, its `sizes`, and the reference as resolved.
pub fn candidate_from(
    rel_lower: &str,
    href: Option<&str>,
    sizes: Option<&str>,
    resolved: Option<String>,
) -> (r: Option<IconCandidate>)
    ensures
        candidate_view(r) == candidate_given(
            rel_lower@,
            str_text(href),
            str_text(sizes),
            text_of(resolved),
        ),
{
    if !str_contains(rel_lower, "icon") {
        return None;
    }
    match (href, resolved) {
        (Some(h), Some(u)) => {
            let score = parse_sizes(sizes);
            let hv = chars_of(h);
            let suffix = chars_of(".svg");
            let is_svg = ends_with(&hv, &suffix);
            Some(IconCandidate { score, is_svg, url: u })
        },
        _ => None,
    }
}

/// The text of an optional string, borrowed.
pub fn as_text(s: &Option<String>) -> (r: Option<&str>)
    ensures
        str_text(r) == text_of(*s),
{
    match s {
        Some(t) => Some(t.as_str()),
        None => None,
    }
}

/// The candidate that `tag` stands for on the page at `base`.
pub fn candidate_for(base: &str, tag: &LinkTag) -> (r: Option<IconCandidate>)
    ensures
        candidate_view(r) == candidate_of(base@, tag@),
{
    let rel_lower = match &tag.rel {
        Some(r) => r.as_str().to_lowercase(),
        None => "".to_lowercase(),
    };
    proof {
        reveal_strlit("");
        assert(""@ =~= Seq::<char>::empty());
    }
    let resolved = match &tag.href {
        Some(h) => {
            if str_contains(rel_lower.as_str(), "icon") {
                join_url(base, h.as_str())
            } else {
                None
            }
        },
        None => None,
    };
    candidate_from(rel_lower.as_str(), as_text(&tag.href), as_text(&tag.sizes), resolved)
}

/// The candidates among `tags`, in the order of the elements.
pub fn candidates(base: &str, tags: &Vec<LinkTag>) -> (r: Vec<IconCandidate>)
    ensures
        candidates_view(r@) == candidates_of(base@, tags_view(tags@)),
{
    let mut out: Vec<IconCandidate> = Vec::new();
    let mut i: usize = 0;
    let ghost all = tags_view(tags@);
    assert(candidates_view(out@) =~= candidates_of(base@, all.take(0)));
    while i < tags.len()
        invariant
            i <= tags.len(),
            all == tags_view(tags@),
            candidates_view(out@) == candidates_of(base@, all.take(i as int)),
        decreases tags.len() - i,
    {
        let found = candidate_for(base, &tags[i]);
        proof {
            assert(all.take(i + 1).drop_last() =~= all.take(i as int));
            assert(all.take(i + 1).last() == tags@[i as int]@);
        }
        let ghost before = out@;
        match found {
            Some(c) => {
                out.push(c);
                assert(candidates_view(out@) =~= candidates_view(before).push(c@));
            },
            None => {},
        }
        i += 1;
    }
    assert(all.take(i as int) =~= all);
    out
}

/// Chooses the icon to fetch, given whether the page's address parses and
/// the candidates the page offers.
pub fn choose_from(base_parses: bool, cands: Vec<IconCandidate>) -> (r: Result<IconCandidate, Error>)
    ensures
        choice_view(r) == choice_given(base_parses, candidates_view(cands@)),
{
    if !base_parses {
        return Err(Error::InvalidBaseUrl);
    }
    let mut cands = cands;
    let ghost c = candidates_view(cands@);
    match select_best(&cands) {
        Some(i) => {
            proof {
                let k = choose|k: int| is_selected(c, k);
                lemma_selection_unique(c, i as int, k);
            }
            let best = cands.remove(i);
            Ok(best)
        },
        None => Err(Error::NoIconLinks),
    }
}

/// Chooses the icon to fetch for the page at `base` whose document is `html`.
pub fn choose_icon(base: &str, html: &str) -> (r: Result<IconCandidate, Error>)
    ensures
        choice_view(r) == page_icon(base@, html@),
{
    let tags = match select_attrs(html, "link[rel]", "rel", "href", "sizes") {
        Some(tags) => tags,
        None => Vec::new(),
    };
    assert(tags_view(tags@) =~= page_links(html@));
    let base_parses = parse_url(base).is_some();
    let cands = if base_parses {
        candidates(base, &tags)
    } else {
        Vec::new()
    };
    choose_from(base_parses, cands)
}

/// Reads the document out of a response: it must have been served as HTML
/// and be valid UTF-8.
pub fn read_html(content_type: &str, body: Vec<u8>) -> (r: Result<String, Error>)
    ensures
        text_result_view(r) == html_of(content_type@, body@),
{
    if !str_contains(content_type, "text/html") {
        return Err(Error::NotHtml);
    }
    match String::from_utf8(body) {
        Ok(s) => Ok(s),
        Err(_) => Err(Error::InvalidHtmlEncoding),
    }
}

} // verus!
