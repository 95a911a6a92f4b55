use vstd::prelude::*;
use vstd::string::StrSliceExecFns;

verus! {

// ---------------------------------------------------------------------------
// Character classes
// ---------------------------------------------------------------------------

/// The characters with the Unicode `White_Space` property, which is what
/// `char::is_whitespace` and `str::trim` go by.
pub open spec fn is_space(c: char) -> bool {
    let u = c as u32;
    ||| 0x09 <= u <= 0x0d
    ||| u == 0x20
    ||| u == 0x85
    ||| u == 0xa0
    ||| u == 0x1680
    ||| 0x2000 <= u <= 0x200a
    ||| u == 0x2028
    ||| u == 0x2029
    ||| u == 0x202f
    ||| u == 0x205f
    ||| u == 0x3000
}

pub fn is_space_char(c: char) -> (r: bool)
    ensures
        r == is_space(c),
{
    let u = c as u32;
    (0x09 <= u && u <= 0x0d) || u == 0x20 || u == 0x85 || u == 0xa0 || u == 0x1680 || (0x2000
        <= u && u <= 0x200a) || u == 0x2028 || u == 0x2029 || u == 0x202f || u == 0x205f || u
        == 0x3000
}

/// A character that separates words. Cursor movement separates words by
/// whitespace only; deletion also stops at a path separator `/`, so that a
/// path typed into the input is removed one component at a time.
pub open spec fn is_break(c: char, slash: bool) -> bool {
    is_space(c) || (slash && c == '/')
}

fn is_break_char(c: char, slash: bool) -> (r: bool)
    ensures
        r == is_break(c, slash),
{
    is_space_char(c) || (slash && c == '/')
}

/// The code of `c` with ASCII upper-case letters folded to lower case, as
/// `char::to_ascii_lowercase` does.
pub open spec fn ascii_fold(c: char) -> u32 {
    if 'A' <= c && c <= 'Z' {
        (c as u32 + 32) as u32
    } else {
        c as u32
    }
}

pub fn ascii_fold_code(c: char) -> (r: u32)
    ensures
        r == ascii_fold(c),
{
    let u = c as u32;
    if 0x41 <= u && u <= 0x5a {
        u + 32
    } else {
        u
    }
}

// ---------------------------------------------------------------------------
// Scanning a character sequence
// ---------------------------------------------------------------------------

/// From position `i`, move left over the characters whose "is a break" class
/// equals `breaks`, and return where that run starts.
pub open spec fn scan_left(s: Seq<char>, i: int, slash: bool, breaks: bool) -> int
    decreases i,
{
    if 0 < i <= s.len() && is_break(s[i - 1], slash) == breaks {
        scan_left(s, i - 1, slash, breaks)
    } else {
        i
    }
}

/// From position `i`, move right over the characters whose "is a break" class
/// equals `breaks`, and return where that run ends.
pub open spec fn scan_right(s: Seq<char>, i: int, slash: bool, breaks: bool) -> int
    decreases s.len() - i,
{
    if 0 <= i < s.len() && is_break(s[i], slash) == breaks {
        scan_right(s, i + 1, slash, breaks)
    } else {
        i
    }
}

pub proof fn lemma_scan_left_bounds(s: Seq<char>, i: int, slash: bool, breaks: bool)
    requires
        0 <= i <= s.len(),
    ensures
        0 <= scan_left(s, i, slash, breaks) <= i,
    decreases i,
{
    if 0 < i && is_break(s[i - 1], slash) == breaks {
        lemma_scan_left_bounds(s, i - 1, slash, breaks);
    }
}

pub proof fn lemma_scan_right_bounds(s: Seq<char>, i: int, slash: bool, breaks: bool)
    requires
        0 <= i <= s.len(),
    ensures
        i <= scan_right(s, i, slash, breaks) <= s.len(),
    decreases s.len() - i,
{
    if i < s.len() && is_break(s[i], slash) == breaks {
        lemma_scan_right_bounds(s, i + 1, slash, breaks);
    }
}

/// Start of the word before the cursor: skip the spaces to the left, then the
/// word. (Ctrl+Left.)
pub open spec fn previous_word_start_spec(s: Seq<char>, cursor: int) -> int {
    scan_left(s, scan_left(s, cursor, false, true), false, false)
}

/// Start of the next word after the cursor: skip the rest of the current word,
/// then the spaces. (Ctrl+Right.)
pub open spec fn next_word_start_spec(s: Seq<char>, cursor: int) -> int {
    scan_right(s, scan_right(s, cursor, false, false), false, true)
}

/// Where a backward word deletion starts: skip the separators (spaces and
/// `/`) to the left, then the word.
pub open spec fn previous_delete_start_spec(s: Seq<char>, cursor: int) -> int {
    scan_left(s, scan_left(s, cursor, true, true), true, false)
}

/// Where a forward word deletion ends: skip the separators (spaces and `/`)
/// to the right, then the word.
pub open spec fn next_delete_end_spec(s: Seq<char>, cursor: int) -> int {
    scan_right(s, scan_right(s, cursor, true, true), true, false)
}

fn scan_left_exec(s: &Vec<char>, i: usize, slash: bool, breaks: bool) -> (r: usize)
    requires
        i <= s@.len(),
    ensures
        r == scan_left(s@, i as int, slash, breaks),
        r <= i,
{
    let mut j = i;
    while j > 0 && is_break_char(s[j - 1], slash) == breaks
        invariant
            j <= i <= s@.len(),
            scan_left(s@, j as int, slash, breaks) == scan_left(s@, i as int, slash, breaks),
        decreases j,
    {
        j = j - 1;
    }
    j
}

fn scan_right_exec(s: &Vec<char>, i: usize, slash: bool, breaks: bool) -> (r: usize)
    requires
        i <= s@.len(),
    ensures
        r == scan_right(s@, i as int, slash, breaks),
        i <= r <= s@.len(),
{
    let mut j = i;
    while j < s.len() && is_break_char(s[j], slash) == breaks
        invariant
            i <= j <= s@.len(),
            scan_right(s@, j as int, slash, breaks) == scan_right(s@, i as int, slash, breaks),
        decreases s@.len() - j,
    {
        j = j + 1;
    }
    j
}

/// Character index of the start of the word before `cursor` in `input`.
pub fn previous_word_start(input: &str, cursor: usize) -> (r: usize)
    requires
        cursor <= input@.len(),
    ensures
        r == previous_word_start_spec(input@, cursor as int),
        r <= cursor,
{
    let cs = chars_of(input);
    let j = scan_left_exec(&cs, cursor, false, true);
    scan_left_exec(&cs, j, false, false)
}

/// Character index of the start of the word after `cursor` in `input`.
pub fn next_word_start(input: &str, cursor: usize) -> (r: usize)
    requires
        cursor <= input@.len(),
    ensures
        r == next_word_start_spec(input@, cursor as int),
        cursor <= r <= input@.len(),
{
    let cs = chars_of(input);
    let j = scan_right_exec(&cs, cursor, false, false);
    scan_right_exec(&cs, j, false, true)
}

/// Character index where deleting the word before `cursor` starts.
pub fn previous_delete_start(input: &str, cursor: usize) -> (r: usize)
    requires
        cursor <= input@.len(),
    ensures
        r == previous_delete_start_spec(input@, cursor as int),
        r <= cursor,
{
    let cs = chars_of(input);
    let j = scan_left_exec(&cs, cursor, true, true);
    scan_left_exec(&cs, j, true, false)
}

/// Character index where deleting the word after `cursor` ends.
pub fn next_delete_end(input: &str, cursor: usize) -> (r: usize)
    requires
        cursor <= input@.len(),
    ensures
        r == next_delete_end_spec(input@, cursor as int),
        cursor <= r <= input@.len(),
{
    let cs = chars_of(input);
    let j = scan_right_exec(&cs, cursor, true, true);
    scan_right_exec(&cs, j, true, false)
}

// ---------------------------------------------------------------------------
// Trimming
// ---------------------------------------------------------------------------

/// `s` without its leading and trailing whitespace, as `str::trim` gives it.
pub open spec fn trim_spec(s: Seq<char>) -> Seq<char> {
    let a = scan_right(s, 0, false, true);
    if a == s.len() {
        Seq::empty()
    } else {
        s.subrange(a, scan_left(s, s.len() as int, false, true))
    }
}

proof fn lemma_scan_left_stops(s: Seq<char>, i: int, k: int)
    requires
        0 <= k < i <= s.len(),
        !is_space(s[k]),
    ensures
        k < scan_left(s, i, false, true),
    decreases i,
{
    if is_break(s[i - 1], false) == true {
        lemma_scan_left_stops(s, i - 1, k);
    }
}

pub proof fn lemma_trim_bounds(s: Seq<char>)
    ensures
        scan_right(s, 0, false, true) < s.len() ==> scan_right(s, 0, false, true) < scan_left(
            s,
            s.len() as int,
            false,
            true,
        ) <= s.len(),
{
    lemma_scan_right_bounds(s, 0, false, true);
    lemma_scan_left_bounds(s, s.len() as int, false, true);
    let a = scan_right(s, 0, false, true);
    if a < s.len() {
        lemma_scan_right_stop(s, 0);
        lemma_scan_left_stops(s, s.len() as int, a);
    }
}

proof fn lemma_scan_right_stop(s: Seq<char>, i: int)
    requires
        0 <= i <= s.len(),
    ensures
        scan_right(s, i, false, true) < s.len() ==> !is_space(s[scan_right(s, i, false, true)]),
    decreases s.len() - i,
{
    if i < s.len() && is_break(s[i], false) == true {
        lemma_scan_right_stop(s, i + 1);
    }
}

/// `input` with leading and trailing whitespace removed.
pub fn trim(input: &str) -> (r: String)
    ensures
        r@ == trim_spec(input@),
{
    let cs = chars_of(input);
    let a = scan_right_exec(&cs, 0, false, true);
    if a == cs.len() {
        return String::new();
    }
    let b = scan_left_exec(&cs, cs.len(), false, true);
    proof {
        lemma_trim_bounds(input@);
    }
    string_from_range(&cs, a, b)
}

// ---------------------------------------------------------------------------
// Building strings
// ---------------------------------------------------------------------------

/// Appends one character to a string.
/// Trusted: `String::push`, which appends `c` at the end of `s`.
#[verifier::external_body]
fn push_char(s: &mut String, c: char)
    ensures
        final(s)@ == old(s)@.push(c),
{
    s.push(c);
}

fn push_range(s: &mut String, cs: &Vec<char>, from: usize, to: usize)
    requires
        from <= to <= cs@.len(),
    ensures
        final(s)@ == old(s)@ + cs@.subrange(from as int, to as int),
{
    let mut i = from;
    while i < to
        invariant
            from <= i <= to <= cs@.len(),
            s@ == old(s)@ + cs@.subrange(from as int, i as int),
        decreases to - i,
    {
        push_char(s, cs[i]);
        i = i + 1;
        assert(s@ =~= old(s)@ + cs@.subrange(from as int, i as int));
    }
}

/// The string made of the characters `cs[from..to]`.
pub fn string_from_range(cs: &Vec<char>, from: usize, to: usize) -> (r: String)
    requires
        from <= to <= cs@.len(),
    ensures
        r@ == cs@.subrange(from as int, to as int),
{
    let mut s = String::new();
    push_range(&mut s, cs, from, to);
    assert(s@ =~= cs@.subrange(from as int, to as int));
    s
}

/// The characters of `s`, in order.
pub fn chars_of(s: &str) -> (cs: Vec<char>)
    ensures
        cs@ == s@,
{
    let n = s.unicode_len();
    let mut cs: Vec<char> = Vec::new();
    let mut i: usize = 0;
    while i < n
        invariant
            n == s@.len(),
            i <= n,
            cs@ == s@.take(i as int),
        decreases n - i,
    {
        let c = s.get_char(i);
        cs.push(c);
        i = i + 1;
        assert(cs@ =~= s@.take(i as int));
    }
    assert(cs@ =~= s@);
    cs
}

/// Number of characters (not bytes) in `s`.
pub fn char_count(s: &str) -> (n: usize)
    ensures
        n == s@.len(),
{
    s.unicode_len()
}

/// `s` with `c` inserted at character position `at`.
pub fn insert_char(s: &str, at: usize, c: char) -> (r: String)
    requires
        at <= s@.len(),
    ensures
        r@ == s@.take(at as int) + seq![c] + s@.skip(at as int),
{
    let cs = chars_of(s);
    let mut r = String::new();
    push_range(&mut r, &cs, 0, at);
    push_char(&mut r, c);
    push_range(&mut r, &cs, at, cs.len());
    assert(r@ =~= s@.take(at as int) + seq![c] + s@.skip(at as int));
    r
}

/// `s` without the characters at positions `from..to`.
pub fn remove_char_range(s: &str, from: usize, to: usize) -> (r: String)
    requires
        from <= to <= s@.len(),
    ensures
        r@ == s@.take(from as int) + s@.skip(to as int),
{
    let cs = chars_of(s);
    let mut r = String::new();
    push_range(&mut r, &cs, 0, from);
    push_range(&mut r, &cs, to, cs.len());
    assert(r@ =~= s@.take(from as int) + s@.skip(to as int));
    r
}

/// `a` followed by `b`.
pub fn concatenate(a: &str, b: &str) -> (r: String)
    ensures
        r@ == a@ + b@,
{
    let ca = chars_of(a);
    let cb = chars_of(b);
    let mut r = String::new();
    push_range(&mut r, &ca, 0, ca.len());
    push_range(&mut r, &cb, 0, cb.len());
    assert(r@ =~= a@ + b@);
    r
}

// ---------------------------------------------------------------------------
// Numbers
// ---------------------------------------------------------------------------

/// The decimal digit for `n` (as `char::from_digit(n, 10)`), or `?`.
pub open spec fn digit_char(n: int) -> char {
    if n == 0 {
        '0'
    } else if n == 1 {
        '1'
    } else if n == 2 {
        '2'
    } else if n == 3 {
        '3'
    } else if n == 4 {
        '4'
    } else if n == 5 {
        '5'
    } else if n == 6 {
        '6'
    } else if n == 7 {
        '7'
    } else if n == 8 {
        '8'
    } else if n == 9 {
        '9'
    } else {
        '?'
    }
}

pub fn digit_for(n: usize) -> (c: char)
    ensures
        c == digit_char(n as int),
{
    match n {
        0 => '0',
        1 => '1',
        2 => '2',
        3 => '3',
        4 => '4',
        5 => '5',
        6 => '6',
        7 => '7',
        8 => '8',
        9 => '9',
        _ => '?',
    }
}

/// The decimal digits of `n`.
pub open spec fn decimal(n: nat) -> Seq<char>
    decreases n,
{
    if n < 10 {
        seq![digit_char(n as int)]
    } else {
        decimal(n / 10).push(digit_char((n % 10) as int))
    }
}

/// The decimal digits of `n`.
pub fn decimal_chars(n: usize) -> (r: Vec<char>)
    ensures
        r@ == decimal(n as nat),
    decreases n,
{
    if n < 10 {
        let mut r: Vec<char> = Vec::new();
        r.push(digit_for(n));
        assert(r@ =~= seq![digit_char(n as int)]);
        r
    } else {
        let mut r = decimal_chars(n / 10);
        r.push(digit_for(n % 10));
        r
    }
}

pub open spec fn is_digit(c: char) -> bool {
    '0' <= c && c <= '9'
}

/// `s` is a non-empty run of ASCII digits.
pub open spec fn all_digits(s: Seq<char>) -> bool {
    s.len() > 0 && forall|i: int| 0 <= i < s.len() ==> is_digit(#[trigger] s[i])
}

/// A run of digits with a comma between each group of three, counted from
/// the right (`4238` becomes `4,238`).
pub open spec fn group_thousands(s: Seq<char>) -> Seq<char>
    decreases s.len(),
{
    if s.len() <= 3 {
        s
    } else {
        group_thousands(s.take(s.len() - 3)) + seq![','] + s.skip(s.len() - 3)
    }
}

fn group_prefix(s: &Vec<char>, n: usize) -> (r: Vec<char>)
    requires
        n <= s@.len(),
    ensures
        r@ == group_thousands(s@.take(n as int)),
    decreases n,
{
    if n <= 3 {
        let mut r: Vec<char> = Vec::new();
        let mut i: usize = 0;
        while i < n
            invariant
                i <= n <= s@.len(),
                r@ == s@.take(i as int),
            decreases n - i,
        {
            r.push(s[i]);
            i = i + 1;
            assert(r@ =~= s@.take(i as int));
        }
        r
    } else {
        let mut r = group_prefix(s, n - 3);
        let ghost head = r@;
        r.push(',');
        r.push(s[n - 3]);
        r.push(s[n - 2]);
        r.push(s[n - 1]);
        let ghost t = s@.take(n as int);
        assert(t.take(t.len() - 3) =~= s@.take(n - 3));
        assert(r@ =~= head + seq![','] + t.skip(t.len() - 3));
        r
    }
}

/// `s` with its digits grouped by thousands, if it is a number; `s`
/// otherwise.
pub open spec fn count_text(s: Seq<char>) -> Seq<char> {
    if all_digits(s) {
        group_thousands(s)
    } else {
        s
    }
}

/// `s` with its digits grouped by thousands, if it is a number.
pub fn count_text_exec(s: &str) -> (r: String)
    ensures
        r@ == count_text(s@),
{
    let cs = chars_of(s);
    let mut i: usize = 0;
    while i < cs.len()
        invariant
            cs@ == s@,
            i <= cs@.len(),
            forall|k: int| 0 <= k < i ==> is_digit(#[trigger] cs@[k]),
        decreases cs@.len() - i,
    {
        if !('0' <= cs[i] && cs[i] <= '9') {
            assert(!is_digit(cs@[i as int]));
            assert(cs@.subrange(0, cs@.len() as int) =~= s@);
            return string_from_range(&cs, 0, cs.len());
        }
        i = i + 1;
    }
    if cs.len() == 0 {
        return String::new();
    }
    let g = group_prefix(&cs, cs.len());
    assert(cs@.take(cs@.len() as int) =~= cs@);
    string_from_range(&g, 0, g.len())
}

/// `s` without its commas.
pub open spec fn strip_commas(s: Seq<char>) -> Seq<char>
    decreases s.len(),
{
    if s.len() == 0 {
        s
    } else if s.last() == ',' {
        strip_commas(s.drop_last())
    } else {
        strip_commas(s.drop_last()).push(s.last())
    }
}

proof fn lemma_strip_commas_concat(a: Seq<char>, b: Seq<char>)
    ensures
        strip_commas(a + b) == strip_commas(a) + strip_commas(b),
    decreases b.len(),
{
    if b.len() == 0 {
        assert(a + b =~= a);
        assert(strip_commas(a) + strip_commas(b) =~= strip_commas(a));
    } else {
        assert((a + b).drop_last() =~= a + b.drop_last());
        assert((a + b).last() == b.last());
        lemma_strip_commas_concat(a, b.drop_last());
        if b.last() != ',' {
            assert(strip_commas(a) + strip_commas(b.drop_last()).push(b.last()) =~= (strip_commas(
                a,
            ) + strip_commas(b.drop_last())).push(b.last()));
        }
    }
}

proof fn lemma_strip_commas_digits(s: Seq<char>)
    requires
        forall|i: int| 0 <= i < s.len() ==> #[trigger] s[i] != ',',
    ensures
        strip_commas(s) == s,
    decreases s.len(),
{
    if s.len() > 0 {
        lemma_strip_commas_digits(s.drop_last());
        assert(s.drop_last().push(s.last()) =~= s);
    }
}

/// Grouping digits by thousands only inserts commas: taking them out again
/// gives back the digits.
pub proof fn law_grouping_keeps_digits(s: Seq<char>)
    requires
        forall|i: int| 0 <= i < s.len() ==> #[trigger] s[i] != ',',
    ensures
        strip_commas(group_thousands(s)) == s,
    decreases s.len(),
{
    if s.len() <= 3 {
        lemma_strip_commas_digits(s);
    } else {
        let head = s.take(s.len() - 3);
        let tail = s.skip(s.len() - 3);
        assert forall|i: int| 0 <= i < head.len() implies #[trigger] head[i] != ',' by {
            assert(head[i] == s[i]);
        }
        assert forall|i: int| 0 <= i < tail.len() implies #[trigger] tail[i] != ',' by {
            assert(tail[i] == s[s.len() - 3 + i]);
        }
        law_grouping_keeps_digits(head);
        lemma_strip_commas_concat(group_thousands(head) + seq![','], tail);
        lemma_strip_commas_concat(group_thousands(head), seq![',']);
        let comma: Seq<char> = seq![','];
        assert(comma.drop_last() =~= Seq::<char>::empty());
        assert(comma.last() == ',');
        assert(strip_commas(Seq::<char>::empty()) == Seq::<char>::empty());
        assert(strip_commas(comma) == strip_commas(comma.drop_last()));
        assert(strip_commas(comma) =~= Seq::<char>::empty());
        lemma_strip_commas_digits(tail);
        assert(head + tail =~= s);
    }
}

// ---------------------------------------------------------------------------
// Trimming ignores surrounding whitespace
// ---------------------------------------------------------------------------

/// Every character of `w` is whitespace.
pub open spec fn all_space(w: Seq<char>) -> bool {
    forall|i: int| 0 <= i < w.len() ==> is_space(#[trigger] w[i])
}

proof fn lemma_scan_right_shift(x: Seq<char>, y: Seq<char>, j: int, slash: bool, breaks: bool)
    requires
        0 <= j <= y.len(),
    ensures
        scan_right(x + y, x.len() + j, slash, breaks) == x.len() + scan_right(y, j, slash, breaks),
    decreases y.len() - j,
{
    if j < y.len() {
        assert((x + y)[x.len() + j] == y[j]);
        if is_break(y[j], slash) == breaks {
            lemma_scan_right_shift(x, y, j + 1, slash, breaks);
        }
    }
}

proof fn lemma_scan_right_prefix(x: Seq<char>, y: Seq<char>, i: int, slash: bool, breaks: bool)
    requires
        0 <= i <= x.len(),
    ensures
        scan_right(x + y, i, slash, breaks) == if scan_right(x, i, slash, breaks) < x.len() {
            scan_right(x, i, slash, breaks)
        } else {
            x.len() + scan_right(y, 0, slash, breaks)
        },
    decreases x.len() - i,
{
    if i == x.len() {
        lemma_scan_right_shift(x, y, 0, slash, breaks);
    } else {
        assert((x + y)[i] == x[i]);
        if is_break(x[i], slash) == breaks {
            lemma_scan_right_prefix(x, y, i + 1, slash, breaks);
        }
    }
}

proof fn lemma_scan_left_prefix(x: Seq<char>, y: Seq<char>, i: int, slash: bool, breaks: bool)
    requires
        0 <= i <= x.len(),
    ensures
        scan_left(x + y, i, slash, breaks) == scan_left(x, i, slash, breaks),
    decreases i,
{
    if i > 0 {
        assert((x + y)[i - 1] == x[i - 1]);
        if is_break(x[i - 1], slash) == breaks {
            lemma_scan_left_prefix(x, y, i - 1, slash, breaks);
        }
    }
}

proof fn lemma_scan_left_suffix(x: Seq<char>, y: Seq<char>, j: int, slash: bool, breaks: bool)
    requires
        0 <= j <= y.len(),
    ensures
        scan_left(x + y, x.len() + j, slash, breaks) == if scan_left(y, j, slash, breaks) > 0 {
            x.len() + scan_left(y, j, slash, breaks)
        } else {
            scan_left(x, x.len() as int, slash, breaks)
        },
    decreases j,
{
    if j == 0 {
        lemma_scan_left_prefix(x, y, x.len() as int, slash, breaks);
    } else {
        assert((x + y)[x.len() + j - 1] == y[j - 1]);
        if is_break(y[j - 1], slash) == breaks {
            lemma_scan_left_suffix(x, y, j - 1, slash, breaks);
        }
    }
}

proof fn lemma_all_space_scans(w: Seq<char>, i: int)
    requires
        all_space(w),
        0 <= i <= w.len(),
    ensures
        scan_right(w, i, false, true) == w.len(),
        scan_left(w, i, false, true) == 0,
    decreases w.len() - i,
{
    if i < w.len() {
        assert(is_space(w[i]));
        lemma_all_space_scans(w, i + 1);
    }
    lemma_all_space_scans_left(w, i);
}

proof fn lemma_all_space_scans_left(w: Seq<char>, i: int)
    requires
        all_space(w),
        0 <= i <= w.len(),
    ensures
        scan_left(w, i, false, true) == 0,
    decreases i,
{
    if i > 0 {
        assert(is_space(w[i - 1]));
        lemma_all_space_scans_left(w, i - 1);
    }
}

/// Whitespace added before or after a text does not change what trimming
/// gives.
pub proof fn law_trim_ignores_surrounding_space(w1: Seq<char>, s: Seq<char>, w2: Seq<char>)
    requires
        all_space(w1),
        all_space(w2),
    ensures
        trim_spec(w1 + s + w2) == trim_spec(s),
{
    let t = w1 + s + w2;
    assert(t =~= w1 + (s + w2));
    lemma_all_space_scans(w1, 0);
    lemma_all_space_scans(w2, 0);
    lemma_all_space_scans(w2, w2.len() as int);
    lemma_scan_right_prefix(w1, s + w2, 0, false, true);
    lemma_scan_right_prefix(s, w2, 0, false, true);
    lemma_scan_right_bounds(s, 0, false, true);
    let a = scan_right(s, 0, false, true);
    if a == s.len() {
        assert(scan_right(t, 0, false, true) == t.len());
    } else {
        lemma_trim_bounds(s);
        let b = scan_left(s, s.len() as int, false, true);
        assert(scan_right(t, 0, false, true) == w1.len() + a);
        lemma_scan_left_suffix(w1 + s, w2, w2.len() as int, false, true);
        lemma_scan_left_suffix(w1, s, s.len() as int, false, true);
        assert((w1 + s).len() + w2.len() == t.len());
        assert(scan_left(t, t.len() as int, false, true) == w1.len() + b);
        assert(t.subrange(w1.len() + a, w1.len() + b) =~= s.subrange(a, b));
    }
}

/// A text that neither starts nor ends with whitespace is left as it is by
/// trimming.
pub proof fn law_trim_keeps_trimmed_text(s: Seq<char>)
    requires
        s.len() > 0 ==> !is_space(s[0]) && !is_space(s.last()),
    ensures
        trim_spec(s) == s,
{
    if s.len() > 0 {
        assert(scan_right(s, 0, false, true) == 0);
        assert(scan_left(s, s.len() as int, false, true) == s.len());
        assert(s.subrange(0, s.len() as int) =~= s);
    }
}

/// Trimming removes exactly the whitespace around a text: whitespace `w1`
/// and `w2` around a text `s` that neither starts nor ends with whitespace
/// leave `s`.
pub proof fn law_trim_removes_surrounding_space(w1: Seq<char>, s: Seq<char>, w2: Seq<char>)
    requires
        all_space(w1),
        all_space(w2),
        s.len() > 0 ==> !is_space(s[0]) && !is_space(s.last()),
    ensures
        trim_spec(w1 + s + w2) == s,
{
    law_trim_ignores_surrounding_space(w1, s, w2);
    law_trim_keeps_trimmed_text(s);
}

/// Grouping a run of characters by thousands puts a comma after every
/// group of three counted from the right, and nowhere else: the result has
/// one comma for each full group of three before the last character, and a
/// character of it is a comma exactly when a multiple of four characters,
/// itself included, are left from it to the end.
pub proof fn law_grouping_puts_commas_every_three(s: Seq<char>)
    requires
        s.len() > 0,
        forall|i: int| 0 <= i < s.len() ==> #[trigger] s[i] != ',',
    ensures
        group_thousands(s).len() == s.len() + (s.len() - 1) / 3,
        forall|i: int|
            0 <= i < group_thousands(s).len() ==> (#[trigger] group_thousands(s)[i] == ',') == ((
            group_thousands(s).len() - i) % 4 == 0),
    decreases s.len(),
{
    if s.len() > 3 {
        let head = s.take(s.len() - 3);
        let tail = s.skip(s.len() - 3);
        assert forall|i: int| 0 <= i < head.len() implies #[trigger] head[i] != ',' by {
            assert(head[i] == s[i]);
        }
        law_grouping_puts_commas_every_three(head);
        let gh = group_thousands(head);
        let r = group_thousands(s);
        assert(r == gh + seq![','] + tail);
        assert forall|i: int| 0 <= i < r.len() implies (#[trigger] r[i] == ',') == ((r.len() - i) % 4
            == 0) by {
            if i < gh.len() {
                assert(r[i] == gh[i]);
                assert((r.len() - i) % 4 == (gh.len() - i) % 4);
            } else if i > gh.len() {
                assert(r[i] == s[s.len() - 3 + (i - gh.len() - 1)]);
            }
        }
    }
}

} // verus!
