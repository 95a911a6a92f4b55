use vstd::prelude::*;
use crate::text::string_from_range;

verus! {

// ---------------------------------------------------------------------------
// The summary information property set of an OLE compound file (the
// `\u{5}SummaryInformation` stream of a legacy `.doc` file)
// ---------------------------------------------------------------------------

/// The little-endian 16-bit number at `i` in `b`.
pub open spec fn le_u16(b: Seq<u8>, i: int) -> int {
    b[i] as int + 256 * b[i + 1] as int
}

/// The little-endian 32-bit number at `i` in `b`.
pub open spec fn le_u32(b: Seq<u8>, i: int) -> int {
    le_u16(b, i) + 65536 * le_u16(b, i + 2)
}

/// Where the property set's (first) section starts: the offset stored
/// at byte 44, if the section's header lies within the stream.
pub open spec fn section_start(b: Seq<u8>) -> Option<int> {
    if b.len() >= 48 && le_u32(b, 44) + 8 <= b.len() {
        Some(le_u32(b, 44))
    } else {
        None
    }
}

/// How many entries of the section's property table can be read: the
/// number its header states, as far as the stream holds them.
pub open spec fn entry_limit(b: Seq<u8>, sec: int) -> int {
    let stated = le_u32(b, sec + 4);
    let room = (b.len() - sec - 8) / 8;
    if stated < room {
        stated
    } else {
        room
    }
}

/// The offset in the stream of the value of the first entry, from entry
/// `i` on, whose property identifier is `pid`.
pub open spec fn entry_from(b: Seq<u8>, sec: int, pid: int, i: int, limit: int) -> Option<int>
    decreases limit - i,
{
    if i >= limit {
        None
    } else if le_u32(b, sec + 8 + 8 * i) == pid {
        Some(sec + le_u32(b, sec + 8 + 8 * i + 4))
    } else {
        entry_from(b, sec, pid, i + 1, limit)
    }
}

/// The offset in the stream of the value of property `pid`, if the stream
/// lists it.
pub open spec fn property_offset(b: Seq<u8>, pid: int) -> Option<int> {
    match section_start(b) {
        Some(sec) => entry_from(b, sec, pid, 0, entry_limit(b, sec)),
        None => None,
    }
}

/// The value type of the property at `o`, with room for its first four
/// bytes of data.
pub open spec fn value_type(b: Seq<u8>, o: int) -> Option<int> {
    if 0 <= o && o + 8 <= b.len() {
        Some(le_u16(b, o))
    } else {
        None
    }
}

/// The character with code point `v`.
pub open spec fn code_char(v: int) -> char {
    v as char
}

/// The text of the UTF-16 code units `k` to `n` of the units at `start`,
/// up to the first NUL; a surrogate that is not part of a pair reads as
/// U+FFFD.
pub open spec fn utf16_from(b: Seq<u8>, start: int, k: int, n: int) -> Seq<char>
    decreases n - k,
{
    if k >= n {
        Seq::empty()
    } else {
        let u = le_u16(b, start + 2 * k);
        if u == 0 {
            Seq::empty()
        } else if 0xD800 <= u < 0xDC00 && k + 1 < n && 0xDC00 <= le_u16(b, start + 2 * k + 2)
            < 0xE000 {
            seq![code_char(0x10000 + (u - 0xD800) * 1024 + (le_u16(b, start + 2 * k + 2) - 0xDC00))]
                + utf16_from(b, start, k + 2, n)
        } else if 0xD800 <= u < 0xE000 {
            seq!['\u{FFFD}'] + utf16_from(b, start, k + 1, n)
        } else {
            seq![code_char(u)] + utf16_from(b, start, k + 1, n)
        }
    }
}

/// The text of the bytes `k` to `n` from `start`, one character per byte
/// (ISO 8859-1), up to the first NUL.
pub open spec fn bytes_from(b: Seq<u8>, start: int, k: int, n: int) -> Seq<char>
    decreases n - k,
{
    if k >= n || b[start + k] == 0 {
        Seq::empty()
    } else {
        seq![code_char(b[start + k] as int)] + bytes_from(b, start, k + 1, n)
    }
}

/// The text of property `pid`: a `VT_LPWSTR` (UTF-16) or `VT_LPSTR`
/// (read as ISO 8859-1) string, up to its terminating NUL.
pub open spec fn property_text(b: Seq<u8>, pid: int) -> Option<Seq<char>> {
    match property_offset(b, pid) {
        Some(o) => match value_type(b, o) {
            Some(ty) => {
                let n = le_u32(b, o + 4);
                if ty == 0x1F && o + 8 + 2 * n <= b.len() {
                    Some(utf16_from(b, o + 8, 0, n))
                } else if ty == 0x1E && o + 8 + n <= b.len() {
                    Some(bytes_from(b, o + 8, 0, n))
                } else {
                    None
                }
            },
            None => None,
        },
        None => None,
    }
}

/// The number held by property `pid`: a `VT_UI4`, or a `VT_I4` that is not
/// negative.
pub open spec fn property_count(b: Seq<u8>, pid: int) -> Option<nat> {
    match property_offset(b, pid) {
        Some(o) => match value_type(b, o) {
            Some(ty) => if ty == 0x13 || (ty == 0x03 && le_u32(b, o + 4) < 0x8000_0000) {
                Some(le_u32(b, o + 4) as nat)
            } else {
                None
            },
            None => None,
        },
        None => None,
    }
}

/// The `VT_FILETIME` held by property `pid` (in 100-nanosecond intervals
/// since 1601-01-01T00:00 UTC), unless it is zero, which marks a time that
/// was never set.
pub open spec fn property_filetime(b: Seq<u8>, pid: int) -> Option<nat> {
    match property_offset(b, pid) {
        Some(o) => match value_type(b, o) {
            Some(ty) => {
                let ft = le_u32(b, o + 4) + 0x1_0000_0000 * le_u32(b, o + 8);
                if ty == 0x40 && o + 12 <= b.len() && ft != 0 {
                    Some(ft as nat)
                } else {
                    None
                }
            },
            None => None,
        },
        None => None,
    }
}

fn le_u16_exec(b: &Vec<u8>, i: usize) -> (r: u64)
    requires
        i + 2 <= b@.len(),
    ensures
        r == le_u16(b@, i as int),
        r < 65536,
{
    let _len = b.len();
    b[i] as u64 + 256 * (b[i + 1] as u64)
}

fn le_u32_exec(b: &Vec<u8>, i: usize) -> (r: u64)
    requires
        i + 4 <= b@.len(),
    ensures
        r == le_u32(b@, i as int),
        r < 0x1_0000_0000,
{
    let _len = b.len();
    le_u16_exec(b, i) + 65536 * le_u16_exec(b, i + 2)
}

fn property_offset_exec(b: &Vec<u8>, pid: u32) -> (r: Option<u64>)
    ensures
        r matches Some(o) ==> o < 0x2_0000_0000,
        match r {
            Some(o) => property_offset(b@, pid as int) == Some(o as int),
            None => property_offset(b@, pid as int) is None,
        },
{
    let len = b.len();
    if len < 48 {
        return None;
    }
    let s = le_u32_exec(b, 44);
    if s + 8 > len as u64 {
        return None;
    }
    let sec = s as usize;
    let stated = le_u32_exec(b, sec + 4);
    let room = ((len - sec - 8) / 8) as u64;
    let limit: u64 = if stated < room {
        stated
    } else {
        room
    };
    let mut i: u64 = 0;
    while i < limit
        invariant
            len == b@.len(),
            sec + 8 <= len,
            sec < 0x1_0000_0000,
            limit == entry_limit(b@, sec as int),
            limit <= (len - sec - 8) / 8,
            i <= limit,
            entry_from(b@, sec as int, pid as int, i as int, limit as int) == property_offset(
                b@,
                pid as int,
            ),
        decreases limit - i,
    {
        let e = sec + 8 + 8 * (i as usize);
        if le_u32_exec(b, e) == pid as u64 {
            let at = le_u32_exec(b, e + 4);
            return Some(sec as u64 + at);
        }
        i = i + 1;
    }
    None
}

/// `char::from_u32`: the character whose code point is `v`, where `v` is a
/// Unicode scalar value (below U+D800, or from U+E000 to U+10FFFF), and
/// `None` for any other number.
#[verifier::external_body]
fn char_from_code(v: u32) -> (r: Option<char>)
    ensures
        (v < 0xD800 || 0xE000 <= v <= 0x10FFFF) ==> r == Some(code_char(v as int)),
        !(v < 0xD800 || 0xE000 <= v <= 0x10FFFF) ==> r is None,
{
    char::from_u32(v)
}

fn utf16_exec(b: &Vec<u8>, start: usize, n: usize) -> (r: String)
    requires
        start + 2 * n <= b@.len(),
    ensures
        r@ == utf16_from(b@, start as int, 0, n as int),
{
    let _len = b.len();
    let ghost whole = utf16_from(b@, start as int, 0, n as int);
    let mut out: Vec<char> = Vec::new();
    let mut k: usize = 0;
    while k < n
        invariant
            _len == b@.len(),
            start + 2 * n <= b@.len(),
            k <= n,
            whole == utf16_from(b@, start as int, 0, n as int),
            out@ + utf16_from(b@, start as int, k as int, n as int) == whole,
        decreases n - k,
    {
        let ghost before = out@;
        let u = le_u16_exec(b, start + 2 * k);
        if u == 0 {
            assert(before =~= whole);
            assert(out@.subrange(0, out@.len() as int) =~= out@);
            return string_from_range(&out, 0, out.len());
        }
        let lo: u64 = if k + 1 < n {
            le_u16_exec(b, start + 2 * k + 2)
        } else {
            0
        };
        if 0xD800 <= u && u < 0xDC00 && k + 1 < n && 0xDC00 <= lo && lo < 0xE000 {
            let code = (0x10000 + (u - 0xD800) * 1024 + (lo - 0xDC00)) as u32;
            match char_from_code(code) {
                Some(c) => out.push(c),
                None => {},
            }
            assert(out@ + utf16_from(b@, start as int, k + 2, n as int) =~= before
                + utf16_from(b@, start as int, k as int, n as int));
            k = k + 2;
        } else if 0xD800 <= u && u < 0xE000 {
            out.push('\u{FFFD}');
            assert(out@ + utf16_from(b@, start as int, k + 1, n as int) =~= before
                + utf16_from(b@, start as int, k as int, n as int));
            k = k + 1;
        } else {
            match char_from_code(u as u32) {
                Some(c) => out.push(c),
                None => {},
            }
            assert(out@ + utf16_from(b@, start as int, k + 1, n as int) =~= before
                + utf16_from(b@, start as int, k as int, n as int));
            k = k + 1;
        }
    }
    assert(out@ =~= whole);
    assert(out@.subrange(0, out@.len() as int) =~= out@);
    string_from_range(&out, 0, out.len())
}

fn bytes_text_exec(b: &Vec<u8>, start: usize, n: usize) -> (r: String)
    requires
        start + n <= b@.len(),
    ensures
        r@ == bytes_from(b@, start as int, 0, n as int),
{
    let _len = b.len();
    let ghost whole = bytes_from(b@, start as int, 0, n as int);
    let mut out: Vec<char> = Vec::new();
    let mut k: usize = 0;
    while k < n
        invariant
            _len == b@.len(),
            start + n <= b@.len(),
            k <= n,
            whole == bytes_from(b@, start as int, 0, n as int),
            out@ + bytes_from(b@, start as int, k as int, n as int) == whole,
        decreases n - k,
    {
        let ghost before = out@;
        let v = b[start + k];
        if v == 0 {
            assert(before =~= whole);
            assert(out@.subrange(0, out@.len() as int) =~= out@);
            return string_from_range(&out, 0, out.len());
        }
        match char_from_code(v as u32) {
            Some(c) => out.push(c),
            None => {},
        }
        assert(out@ + bytes_from(b@, start as int, k + 1, n as int) =~= before + bytes_from(
            b@,
            start as int,
            k as int,
            n as int,
        ));
        k = k + 1;
    }
    assert(out@ =~= whole);
    assert(out@.subrange(0, out@.len() as int) =~= out@);
    string_from_range(&out, 0, out.len())
}

/// The text of property `pid` of the summary information stream `b`.
pub fn property_text_exec(b: &Vec<u8>, pid: u32) -> (r: Option<String>)
    ensures
        match r {
            Some(t) => property_text(b@, pid as int) == Some(t@),
            None => property_text(b@, pid as int) is None,
        },
{
    let len = b.len();
    let o = match property_offset_exec(b, pid) {
        Some(o) => o,
        None => {
            return None;
        },
    };
    if o + 8 > len as u64 {
        return None;
    }
    let o = o as usize;
    let ty = le_u16_exec(b, o);
    let n = le_u32_exec(b, o + 4);
    if ty == 0x1F && (o as u64) + 8 + 2 * n <= len as u64 {
        Some(utf16_exec(b, o + 8, n as usize))
    } else if ty == 0x1E && (o as u64) + 8 + n <= len as u64 {
        Some(bytes_text_exec(b, o + 8, n as usize))
    } else {
        None
    }
}

/// The number held by property `pid` of the summary information stream `b`.
pub fn property_count_exec(b: &Vec<u8>, pid: u32) -> (r: Option<u64>)
    ensures
        r matches Some(c) ==> c < 0x1_0000_0000,
        match r {
            Some(c) => property_count(b@, pid as int) == Some(c as nat),
            None => property_count(b@, pid as int) is None,
        },
{
    let len = b.len();
    let o = match property_offset_exec(b, pid) {
        Some(o) => o,
        None => {
            return None;
        },
    };
    if o + 8 > len as u64 {
        return None;
    }
    let o = o as usize;
    let ty = le_u16_exec(b, o);
    let v = le_u32_exec(b, o + 4);
    if ty == 0x13 || (ty == 0x03 && v < 0x8000_0000) {
        Some(v)
    } else {
        None
    }
}

/// The time held by property `pid` of the summary information stream `b`.
pub fn property_filetime_exec(b: &Vec<u8>, pid: u32) -> (r: Option<u64>)
    ensures
        match r {
            Some(t) => property_filetime(b@, pid as int) == Some(t as nat),
            None => property_filetime(b@, pid as int) is None,
        },
{
    let len = b.len();
    let o = match property_offset_exec(b, pid) {
        Some(o) => o,
        None => {
            return None;
        },
    };
    if o + 12 > len as u64 {
        return None;
    }
    let o = o as usize;
    let ty = le_u16_exec(b, o);
    let ft = le_u32_exec(b, o + 4) + 0x1_0000_0000 * le_u32_exec(b, o + 8);
    if ty == 0x40 && ft != 0 {
        Some(ft)
    } else {
        None
    }
}

// ---------------------------------------------------------------------------
// Laws of the property set
// ---------------------------------------------------------------------------

/// The identifier in entry `k` of the property table of the section at
/// `sec`.
pub open spec fn entry_id(b: Seq<u8>, sec: int, k: int) -> int {
    le_u32(b, sec + 8 + 8 * k)
}

proof fn lemma_entry_from_first(b: Seq<u8>, sec: int, pid: int, j: int, i: int, limit: int)
    requires
        0 <= j <= i < limit,
        entry_id(b, sec, i) == pid,
        forall|k: int| j <= k < i ==> #[trigger] entry_id(b, sec, k) != pid,
    ensures
        entry_from(b, sec, pid, j, limit) == Some(sec + le_u32(b, sec + 8 + 8 * i + 4)),
    decreases i - j,
{
    if j < i {
        assert(entry_id(b, sec, j) != pid);
        lemma_entry_from_first(b, sec, pid, j + 1, i, limit);
    }
}

/// A property's value is read at the offset, from the section's start,
/// that the first entry of the property table with its identifier gives:
/// the section starts where the 32-bit number at byte 44 says, holds the
/// number of entries at its fifth byte, and its table of 8-byte entries
/// (identifier, offset) from its ninth.
pub proof fn law_first_table_entry_gives_the_value(b: Seq<u8>, pid: int, i: int)
    requires
        b.len() >= 48,
        0 <= i < le_u32(b, le_u32(b, 44) + 4),
        le_u32(b, 44) + 8 + 8 * (i + 1) <= b.len(),
        entry_id(b, le_u32(b, 44), i) == pid,
        forall|j: int| 0 <= j < i ==> #[trigger] entry_id(b, le_u32(b, 44), j) != pid,
    ensures
        property_offset(b, pid) == Some(le_u32(b, 44) + le_u32(b, le_u32(b, 44) + 8 + 8 * i + 4)),
{
    let sec = le_u32(b, 44);
    let room = (b.len() - sec - 8) / 8;
    assert(room >= i + 1) by (nonlinear_arith)
        requires
            room == (b.len() - sec - 8) / 8,
            sec + 8 + 8 * (i + 1) <= b.len(),
    ;
    lemma_entry_from_first(b, sec, pid, 0, i, entry_limit(b, sec));
}

/// UTF-16 code units that are neither NUL nor surrogates read as one
/// character each, the one with that code point, in order.
pub proof fn law_utf16_units_read_as_their_characters(b: Seq<u8>, start: int, k: int, n: int)
    requires
        0 <= k <= n,
        forall|j: int|
            k <= j < n ==> {
                let u = #[trigger] le_u16(b, start + 2 * j);
                u != 0 && !(0xD800 <= u < 0xE000)
            },
    ensures
        utf16_from(b, start, k, n).len() == n - k,
        forall|j: int|
            0 <= j < n - k ==> #[trigger] utf16_from(b, start, k, n)[j] == code_char(
                le_u16(b, start + 2 * (k + j)),
            ),
    decreases n - k,
{
    if k < n {
        assert(le_u16(b, start + 2 * k) != 0);
        law_utf16_units_read_as_their_characters(b, start, k + 1, n);
        let rest = utf16_from(b, start, k + 1, n);
        assert forall|j: int| 0 <= j < n - k implies #[trigger] utf16_from(b, start, k, n)[j]
            == code_char(le_u16(b, start + 2 * (k + j))) by {
            if j > 0 {
                assert(utf16_from(b, start, k, n)[j] == rest[j - 1]);
                assert(start + 2 * (k + 1 + (j - 1)) == start + 2 * (k + j));
            }
        }
    }
}

} // verus!
