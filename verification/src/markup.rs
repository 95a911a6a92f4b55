use vstd::prelude::*;
use crate::text::{is_space, is_space_char, scan_left, scan_right, string_from_range};

verus! {

// ---------------------------------------------------------------------------
// Searching
// ---------------------------------------------------------------------------

/// `needle` occurs in `hay` at position `i`.
pub open spec fn matches_at(hay: Seq<char>, needle: Seq<char>, i: int) -> bool {
    0 <= i && i + needle.len() <= hay.len() && hay.subrange(i, i + needle.len()) == needle
}

/// The first position, from `i` on, at which a non-empty `needle` occurs.
pub open spec fn find_from(hay: Seq<char>, needle: Seq<char>, i: int) -> Option<int>
    decreases hay.len() - i,
{
    if i < 0 || i >= hay.len() || i + needle.len() > hay.len() {
        None
    } else if matches_at(hay, needle, i) {
        Some(i)
    } else {
        find_from(hay, needle, i + 1)
    }
}

pub proof fn lemma_find_from_bounds(hay: Seq<char>, needle: Seq<char>, i: int)
    ensures
        find_from(hay, needle, i) matches Some(k) ==> i <= k && k + needle.len() <= hay.len()
            && matches_at(hay, needle, k),
    decreases hay.len() - i,
{
    if !(i < 0 || i >= hay.len() || i + needle.len() > hay.len()) && !matches_at(hay, needle, i) {
        lemma_find_from_bounds(hay, needle, i + 1);
    }
}

/// A non-empty `needle` that occurs at `p`, and nowhere from `i` up to
/// `p`, is found first at `p`.
pub proof fn lemma_find_from_first(hay: Seq<char>, needle: Seq<char>, i: int, p: int)
    requires
        0 <= i <= p,
        needle.len() > 0,
        matches_at(hay, needle, p),
        forall|j: int| i <= j < p ==> !matches_at(hay, needle, j),
    ensures
        find_from(hay, needle, i) == Some(p),
    decreases p - i,
{
    if i < p {
        lemma_find_from_first(hay, needle, i + 1, p);
    }
}

pub fn matches_at_exec(hay: &Vec<char>, needle: &Vec<char>, i: usize) -> (r: bool)
    ensures
        r == matches_at(hay@, needle@, i as int),
{
    if i > hay.len() || needle.len() > hay.len() - i {
        return false;
    }
    let mut j: usize = 0;
    while j < needle.len()
        invariant
            i + needle.len() <= hay.len(),
            j <= needle@.len(),
            hay@.subrange(i as int, i + j) == needle@.take(j as int),
        decreases needle@.len() - j,
    {
        if hay[i + j] != needle[j] {
            assert(hay@.subrange(i as int, i + needle@.len())[j as int] != needle@[j as int]);
            return false;
        }
        j = j + 1;
        assert(hay@.subrange(i as int, i + j) =~= needle@.take(j as int));
    }
    assert(needle@.take(j as int) =~= needle@);
    true
}

/// The first position, from `from` on, at which `needle` occurs in `hay`.
pub fn find(hay: &Vec<char>, needle: &Vec<char>, from: usize) -> (r: Option<usize>)
    ensures
        match r {
            Some(k) => find_from(hay@, needle@, from as int) == Some(k as int),
            None => find_from(hay@, needle@, from as int) is None,
        },
{
    let mut i = from;
    while i < hay.len()
        invariant
            from <= i,
            find_from(hay@, needle@, from as int) == find_from(hay@, needle@, i as int),
        decreases hay@.len() - i,
    {
        if needle.len() > hay.len() - i {
            return None;
        }
        if matches_at_exec(hay, needle, i) {
            return Some(i);
        }
        i = i + 1;
    }
    None
}

// ---------------------------------------------------------------------------
// Elements and attributes
// ---------------------------------------------------------------------------

/// Where the text enclosed by the first `open` (from `from` on) and the next
/// `close` after it begins and ends.
pub open spec fn enclosed_span(hay: Seq<char>, open: Seq<char>, close: Seq<char>, from: int) -> Option<
    (int, int),
> {
    match find_from(hay, open, from) {
        Some(a) => match find_from(hay, close, a + open.len()) {
            Some(b) => Some((a + open.len(), b)),
            None => None,
        },
        None => None,
    }
}

pub proof fn lemma_enclosed_span_bounds(hay: Seq<char>, open: Seq<char>, close: Seq<char>, from: int)
    ensures
        enclosed_span(hay, open, close, from) matches Some((a, b)) ==> from <= a <= b <= hay.len()
            && b + close.len() <= hay.len(),
{
    lemma_find_from_bounds(hay, open, from);
    if let Some(a) = find_from(hay, open, from) {
        lemma_find_from_bounds(hay, close, a + open.len());
    }
}

pub fn enclosed(hay: &Vec<char>, open: &Vec<char>, close: &Vec<char>, from: usize) -> (r: Option<
    (usize, usize),
>)
    ensures
        match r {
            Some((a, b)) => enclosed_span(hay@, open@, close@, from as int) == Some(
                (a as int, b as int),
            ),
            None => enclosed_span(hay@, open@, close@, from as int) is None,
        },
        r matches Some((a, b)) ==> from <= a <= b <= hay@.len() && b + close@.len() <= hay@.len(),
{
    proof {
        lemma_enclosed_span_bounds(hay@, open@, close@, from as int);
        lemma_find_from_bounds(hay@, open@, from as int);
    }
    let _n = hay.len();
    match find(hay, open, from) {
        Some(a) => {
            let start = a + open.len();
            match find(hay, close, start) {
                Some(b) => Some((start, b)),
                None => None,
            }
        },
        None => None,
    }
}

/// `s` without surrounding whitespace, or none when nothing is left.
pub open spec fn nonblank_text(s: Seq<char>) -> Option<Seq<char>> {
    let a = scan_right(s, 0, false, true);
    if a == s.len() {
        None
    } else {
        Some(s.subrange(a, scan_left(s, s.len() as int, false, true)))
    }
}

/// The trimmed, non-blank text of `hay[a..b]`.
pub open spec fn nonblank_slice(hay: Seq<char>, a: int, b: int) -> Option<Seq<char>> {
    nonblank_text(hay.subrange(a, b))
}

/// The text of the first element that starts with `open` (such as
/// `<dc:title`, followed by `>` or by attributes) and ends with `close` (such
/// as `</dc:title>`), trimmed, if it is present and not blank.
pub open spec fn element_text(xml: Seq<char>, open: Seq<char>, close: Seq<char>) -> Option<Seq<char>> {
    match find_from(xml, open, 0) {
        Some(a) => {
            let c = a + open.len();
            if c < xml.len() && (xml[c] == '>' || is_space(xml[c])) {
                match find_from(xml, seq!['>'], c) {
                    Some(g) => match find_from(xml, close, g + 1) {
                        Some(b) => nonblank_slice(xml, g + 1, b),
                        None => None,
                    },
                    None => None,
                }
            } else {
                None
            }
        },
        None => None,
    }
}

pub fn slice_chars(hay: &Vec<char>, a: usize, b: usize) -> (r: Vec<char>)
    requires
        a <= b <= hay@.len(),
    ensures
        r@ == hay@.subrange(a as int, b as int),
{
    let mut r: Vec<char> = Vec::new();
    let mut i = a;
    while i < b
        invariant
            a <= i <= b <= hay@.len(),
            r@ == hay@.subrange(a as int, i as int),
        decreases b - i,
    {
        r.push(hay[i]);
        i = i + 1;
        assert(r@ =~= hay@.subrange(a as int, i as int));
    }
    r
}

/// The trimmed, non-blank text of `hay[a..b]`.
pub fn nonblank_slice_exec(hay: &Vec<char>, a: usize, b: usize) -> (r: Option<String>)
    requires
        a <= b <= hay@.len(),
    ensures
        match r {
            Some(s) => nonblank_slice(hay@, a as int, b as int) == Some(s@),
            None => nonblank_slice(hay@, a as int, b as int) is None,
        },
{
    let s = slice_chars(hay, a, b);
    let mut x: usize = 0;
    while x < s.len() && is_space_char(s[x])
        invariant
            x <= s@.len(),
            scan_right(s@, x as int, false, true) == scan_right(s@, 0, false, true),
        decreases s@.len() - x,
    {
        x = x + 1;
    }
    if x == s.len() {
        return None;
    }
    let mut y: usize = s.len();
    while y > 0 && is_space_char(s[y - 1])
        invariant
            x < s@.len(),
            y <= s@.len(),
            !is_space(s@[x as int]),
            x < y,
            scan_left(s@, y as int, false, true) == scan_left(s@, s@.len() as int, false, true),
        decreases y,
    {
        y = y - 1;
    }
    Some(string_from_range(&s, x, y))
}

/// The text of the first element that starts with `open` and ends with
/// `close`, trimmed, if present and not blank.
pub fn element_text_exec(xml: &Vec<char>, open: &str, close: &str) -> (r: Option<String>)
    ensures
        match r {
            Some(s) => element_text(xml@, open@, close@) == Some(s@),
            None => element_text(xml@, open@, close@) is None,
        },
{
    let o = crate::text::chars_of(open);
    let c = crate::text::chars_of(close);
    let mut gt: Vec<char> = Vec::new();
    gt.push('>');
    assert(gt@ =~= seq!['>']);
    let _n = xml.len();
    let a = match find(xml, &o, 0) {
        Some(a) => a,
        None => {
            return None;
        },
    };
    proof {
        lemma_find_from_bounds(xml@, o@, 0);
    }
    let after = a + o.len();
    if !(after < xml.len() && (xml[after] == '>' || is_space_char(xml[after]))) {
        return None;
    }
    let g = match find(xml, &gt, after) {
        Some(g) => g,
        None => {
            return None;
        },
    };
    proof {
        lemma_find_from_bounds(xml@, gt@, after as int);
    }
    let b = match find(xml, &c, g + 1) {
        Some(b) => b,
        None => {
            return None;
        },
    };
    proof {
        lemma_find_from_bounds(xml@, c@, g + 1);
    }
    nonblank_slice_exec(xml, g + 1, b)
}

/// All the texts delimited by `open` and `close` in `hay`, from `from` on, in
/// order (blank ones left out).
pub open spec fn all_enclosed(hay: Seq<char>, open: Seq<char>, close: Seq<char>, from: int) -> Seq<
    Seq<char>,
>
    decreases hay.len() - from,
{
    match enclosed_span(hay, open, close, from) {
        Some((a, b)) => if from < b + close.len() <= hay.len() && from <= a <= b {
            let rest = all_enclosed(hay, open, close, b + close.len());
            match nonblank_slice(hay, a, b) {
                Some(t) => seq![t] + rest,
                None => rest,
            }
        } else {
            Seq::empty()
        },
        None => Seq::empty(),
    }
}

pub open spec fn string_seq_view(v: Seq<String>) -> Seq<Seq<char>> {
    v.map_values(|s: String| s@)
}

/// All the texts delimited by `open` and `close` in `hay`, in order.
pub fn all_enclosed_exec(hay: &Vec<char>, open: &Vec<char>, close: &Vec<char>) -> (r: Vec<String>)
    requires
        close@.len() > 0,
    ensures
        string_seq_view(r@) == all_enclosed(hay@, open@, close@, 0),
{
    let mut found: Vec<String> = Vec::new();
    let mut from: usize = 0;
    while from <= hay.len()
        invariant
            close@.len() > 0,
            all_enclosed(hay@, open@, close@, 0) == string_seq_view(found@) + all_enclosed(
                hay@,
                open@,
                close@,
                from as int,
            ),
        decreases hay@.len() + 1 - from,
    {
        match enclosed(hay, open, close, from) {
            Some((a, b)) => {
                let next = b + close.len();
                let t = nonblank_slice_exec(hay, a, b);
                let ghost before = found@;
                match t {
                    Some(s) => {
                        found.push(s);
                        assert(string_seq_view(found@) =~= string_seq_view(before) + seq![
                            found@[before.len() as int]@,
                        ]);
                    },
                    None => {},
                }
                assert(all_enclosed(hay@, open@, close@, from as int) == match nonblank_slice(
                    hay@,
                    a as int,
                    b as int,
                ) {
                    Some(t) => seq![t] + all_enclosed(hay@, open@, close@, next as int),
                    None => all_enclosed(hay@, open@, close@, next as int),
                });
                from = next;
            },
            None => {
                assert(string_seq_view(found@) + all_enclosed(hay@, open@, close@, from as int)
                    =~= string_seq_view(found@));
                return found;
            },
        }
    }
    assert(all_enclosed(hay@, open@, close@, from as int) == Seq::<Seq<char>>::empty()) by {
        assert(enclosed_span(hay@, open@, close@, from as int) is None) by {
            assert(find_from(hay@, open@, from as int) is None);
        }
    }
    assert(string_seq_view(found@) + Seq::<Seq<char>>::empty() =~= string_seq_view(found@));
    found
}

/// The value of the first attribute written `prefix"value"`, where `prefix`
/// holds the attribute's name, `=` and the opening quote (such as
/// `meta:page-count="`).
pub open spec fn attribute_value(xml: Seq<char>, prefix: Seq<char>) -> Option<Seq<char>> {
    match enclosed_span(xml, prefix, seq!['"'], 0) {
        Some((a, b)) => nonblank_slice(xml, a, b),
        None => None,
    }
}

pub fn attribute_value_exec(xml: &Vec<char>, prefix: &str) -> (r: Option<String>)
    ensures
        match r {
            Some(s) => attribute_value(xml@, prefix@) == Some(s@),
            None => attribute_value(xml@, prefix@) is None,
        },
{
    let o = crate::text::chars_of(prefix);
    let mut c: Vec<char> = Vec::new();
    c.push('"');
    assert(c@ =~= seq!['"']);
    match enclosed(xml, &o, &c, 0) {
        Some((a, b)) => nonblank_slice_exec(xml, a, b),
        None => None,
    }
}

// ---------------------------------------------------------------------------
// Laws of element and attribute reading
// ---------------------------------------------------------------------------

/// The text read for an element is that of its first occurrence: if the
/// text is `pre`, then `open` (occurring there first), attributes (nothing,
/// or whitespace first, and no `>`), `>`, `v` and `close`, where `v` holds
/// no `close`, the element's text is `v` trimmed (none if it is blank),
/// whatever follows.
pub proof fn law_element_text_is_first_element(
    pre: Seq<char>,
    open: Seq<char>,
    attrs: Seq<char>,
    v: Seq<char>,
    close: Seq<char>,
    post: Seq<char>,
)
    requires
        open.len() > 0,
        close.len() > 0,
        forall|i: int| 0 <= i < pre.len() ==> !matches_at(pre + open, open, i),
        attrs.len() > 0 ==> is_space(attrs[0]),
        forall|i: int| 0 <= i < attrs.len() ==> attrs[i] != '>',
        forall|i: int| 0 <= i < v.len() ==> !matches_at(v + close, close, i),
    ensures
        element_text(pre + open + attrs + seq!['>'] + v + close + post, open, close)
            == nonblank_text(v),
{
    let xml = pre + open + attrs + seq!['>'] + v + close + post;
    let k = pre.len() as int;
    let c = k + open.len();
    let g = c + attrs.len();
    let a = g + 1;
    let b = a + v.len();
    assert(xml.subrange(k, c) =~= open);
    assert forall|j: int| 0 <= j < k implies !matches_at(xml, open, j) by {
        assert(!matches_at(pre + open, open, j));
        assert(xml.subrange(j, j + open.len()) =~= (pre + open).subrange(j, j + open.len()));
    }
    lemma_find_from_first(xml, open, 0, k);
    if attrs.len() > 0 {
        assert(xml[c] == attrs[0]);
    }
    assert(xml.subrange(g, g + 1) =~= seq!['>']);
    assert forall|j: int| c <= j < g implies !matches_at(xml, seq!['>'], j) by {
        assert(xml[j] == attrs[j - c]);
        assert(xml.subrange(j, j + 1)[0] == xml[j]);
    }
    lemma_find_from_first(xml, seq!['>'], c, g);
    assert(xml.subrange(b, b + close.len()) =~= close);
    assert forall|j: int| a <= j < b implies !matches_at(xml, close, j) by {
        assert(!matches_at(v + close, close, j - a));
        assert(xml.subrange(j, j + close.len()) =~= (v + close).subrange(j - a, j - a + close.len()));
    }
    lemma_find_from_first(xml, close, a, b);
    assert(xml.subrange(a, b) =~= v);
}

/// The value read for an attribute is that of its first occurrence: if the
/// text is `pre`, then `prefix` (the name, `=` and the opening quote,
/// occurring there first), `v` and a closing quote, where `v` holds no
/// quote, the value is `v` trimmed (none if it is blank).
pub proof fn law_attribute_value_is_first_attribute(
    pre: Seq<char>,
    prefix: Seq<char>,
    v: Seq<char>,
    post: Seq<char>,
)
    requires
        prefix.len() > 0,
        forall|i: int| 0 <= i < pre.len() ==> !matches_at(pre + prefix, prefix, i),
        forall|i: int| 0 <= i < v.len() ==> v[i] != '"',
    ensures
        attribute_value(pre + prefix + v + seq!['"'] + post, prefix) == nonblank_text(v),
{
    let xml = pre + prefix + v + seq!['"'] + post;
    let k = pre.len() as int;
    let a = k + prefix.len();
    let b = a + v.len();
    assert(xml.subrange(k, a) =~= prefix);
    assert forall|j: int| 0 <= j < k implies !matches_at(xml, prefix, j) by {
        assert(!matches_at(pre + prefix, prefix, j));
        assert(xml.subrange(j, j + prefix.len()) =~= (pre + prefix).subrange(j, j + prefix.len()));
    }
    lemma_find_from_first(xml, prefix, 0, k);
    assert(xml.subrange(b, b + 1) =~= seq!['"']);
    assert forall|j: int| a <= j < b implies !matches_at(xml, seq!['"'], j) by {
        assert(xml[j] == v[j - a]);
        assert(xml.subrange(j, j + 1)[0] == xml[j]);
    }
    lemma_find_from_first(xml, seq!['"'], a, b);
    assert(xml.subrange(a, b) =~= v);
}

} // verus!
