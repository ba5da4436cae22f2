//! Splitting a long reply into chunks that a chat platform will accept: a
//! new chunk starts at a heading line or before a line that would pass the
//! length limit.
use vstd::prelude::*;
use crate::text::{chars_of, views};

verus! {

/// A character with the Unicode `White_Space` property, as `str::trim`
/// strips them.
pub open spec fn is_ws(c: char) -> bool {
    c == '\t' || c == '\n' || c == '\x0B' || c == '\x0C' || c == '\r' || c == ' ' || c == '\u{85}'
        || c == '\u{A0}' || c == '\u{1680}' || ('\u{2000}' <= c && c <= '\u{200A}') || c == '\u{2028}'
        || c == '\u{2029}' || c == '\u{202F}' || c == '\u{205F}' || c == '\u{3000}'
}

fn ws(c: char) -> (r: bool)
    ensures
        r == is_ws(c),
{
    c == '\t' || c == '\n' || c == '\x0B' || c == '\x0C' || c == '\r' || c == ' ' || c == '\u{85}'
        || c == '\u{A0}' || c == '\u{1680}' || ('\u{2000}' <= c && c <= '\u{200A}') || c == '\u{2028}'
        || c == '\u{2029}' || c == '\u{202F}' || c == '\u{205F}' || c == '\u{3000}'
}

/// The number of bytes of `c` in UTF-8.
pub open spec fn char_bytes(c: char) -> nat {
    if (c as u32) < 0x80 {
        1
    } else if (c as u32) < 0x800 {
        2
    } else if (c as u32) < 0x10000 {
        3
    } else {
        4
    }
}

/// The number of bytes of `s` in UTF-8.
pub open spec fn byte_len(s: Seq<char>) -> nat
    decreases s.len(),
{
    if s.len() == 0 {
        0
    } else {
        byte_len(s.drop_last()) + char_bytes(s.last())
    }
}

proof fn lemma_byte_len_bound(s: Seq<char>)
    ensures
        byte_len(s) <= 4 * s.len(),
    decreases s.len(),
{
    if s.len() > 0 {
        lemma_byte_len_bound(s.drop_last());
    }
}

fn byte_len_range(t: &Vec<char>, lo: usize, hi: usize) -> (r: usize)
    requires
        lo <= hi <= t@.len(),
        4 * t@.len() <= usize::MAX,
    ensures
        r == byte_len(t@.subrange(lo as int, hi as int)),
{
    let mut n: usize = 0;
    let mut i: usize = lo;
    while i < hi
        invariant
            lo <= i <= hi <= t@.len(),
            4 * t@.len() <= usize::MAX,
            n == byte_len(t@.subrange(lo as int, i as int)),
        decreases hi - i,
    {
        proof {
            lemma_byte_len_bound(t@.subrange(lo as int, i as int));
            assert(t@.subrange(lo as int, i + 1).drop_last() =~= t@.subrange(lo as int, i as int));
        }
        let c = t[i] as u32;
        let b: usize = if c < 0x80 {
            1
        } else if c < 0x800 {
            2
        } else if c < 0x10000 {
            3
        } else {
            4
        };
        n = n + b;
        i = i + 1;
    }
    n
}

/// The first index in `lo..hi` that is not white space, or `hi`.
pub open spec fn trim_lo(t: Seq<char>, lo: int, hi: int) -> int
    decreases hi - lo,
{
    if lo < hi && is_ws(t[lo]) {
        trim_lo(t, lo + 1, hi)
    } else {
        lo
    }
}

/// One past the last index in `lo..hi` that is not white space, or `lo`.
pub open spec fn trim_hi(t: Seq<char>, lo: int, hi: int) -> int
    decreases hi - lo,
{
    if lo < hi && is_ws(t[hi - 1]) {
        trim_hi(t, lo, hi - 1)
    } else {
        hi
    }
}

/// `t[lo..hi]` without leading or trailing white space.
pub open spec fn trimmed(t: Seq<char>, lo: int, hi: int) -> Seq<char> {
    t.subrange(trim_lo(t, lo, hi), trim_hi(t, trim_lo(t, lo, hi), hi))
}

fn trim_range(t: &Vec<char>, lo: usize, hi: usize) -> (r: (usize, usize))
    requires
        lo <= hi <= t@.len(),
    ensures
        r.0 == trim_lo(t@, lo as int, hi as int),
        r.1 == trim_hi(t@, r.0 as int, hi as int),
        lo <= r.0 <= r.1 <= hi,
{
    let mut a = lo;
    while a < hi && ws(t[a])
        invariant
            lo <= a <= hi <= t@.len(),
            trim_lo(t@, lo as int, hi as int) == trim_lo(t@, a as int, hi as int),
        decreases hi - a,
    {
        a = a + 1;
    }
    let mut b = hi;
    while b > a && ws(t[b - 1])
        invariant
            lo <= a <= b <= hi <= t@.len(),
            trim_hi(t@, a as int, hi as int) == trim_hi(t@, a as int, b as int),
        decreases b - a,
    {
        b = b - 1;
    }
    (a, b)
}

/// The first index at or after `a` and before `hi` that holds a newline, or
/// `hi`.
pub open spec fn next_newline(t: Seq<char>, a: int, hi: int) -> int
    decreases hi - a,
{
    if a < hi && t[a] != '\n' {
        next_newline(t, a + 1, hi)
    } else if a < hi {
        a
    } else {
        hi
    }
}

/// The first position at or after `p` where `t[x..y]` occurs inside
/// `t[lo..hi]`, or `hi`.
pub open spec fn find_from(t: Seq<char>, hi: int, x: int, y: int, p: int) -> int
    decreases hi - p,
{
    if p + (y - x) > hi || p >= hi {
        hi
    } else if t.subrange(p, p + (y - x)) == t.subrange(x, y) {
        p
    } else {
        find_from(t, hi, x, y, p + 1)
    }
}

fn find_in(t: &Vec<char>, lo: usize, hi: usize, x: usize, y: usize) -> (r: usize)
    requires
        lo <= hi <= t@.len(),
        x <= y <= t@.len(),
    ensures
        r == find_from(t@, hi as int, x as int, y as int, lo as int),
        lo <= r <= hi,
{
    let n = y - x;
    let mut p = lo;
    while p < hi && n <= hi - p
        invariant
            lo <= p <= hi <= t@.len(),
            x <= y <= t@.len(),
            n == y - x,
            find_from(t@, hi as int, x as int, y as int, lo as int) == find_from(
                t@,
                hi as int,
                x as int,
                y as int,
                p as int,
            ),
        decreases hi - p,
    {
        let mut k: usize = 0;
        while k < n && t[p + k] == t[x + k]
            invariant
                k <= n,
                p + n <= hi <= t@.len(),
                x + n <= t@.len(),
                n == y - x,
                forall|j: int| 0 <= j < k ==> #[trigger] t@.subrange(p as int, p + n)[j] == t@.subrange(x as int, y as int)[j],
            decreases n - k,
        {
            k = k + 1;
        }
        if k == n {
            assert(t@.subrange(p as int, p + n) =~= t@.subrange(x as int, y as int));
            return p;
        }
        assert(t@.subrange(p as int, p + n)[k as int] != t@.subrange(x as int, y as int)[k as int]);
        p = p + 1;
    }
    hi
}

/// Where the scan of the lines of `t[lo..hi]`, from the line starting at `a`
/// (the `i`-th line), puts the end of the first chunk: at the first
/// occurrence of the first later non-blank line that is a heading or that
/// would end past `max` bytes.
pub open spec fn split_point(t: Seq<char>, lo: int, hi: int, max: nat, a: int, i: nat) -> Option<int>
    decreases hi + 1 - a,
{
    if a > hi || a < lo {
        None
    } else {
        let b = next_newline(t, a, hi);
        let x = trim_lo(t, a, b);
        let y = trim_hi(t, x, b);
        if b < a || b > hi {
            None
        } else if x < y && i > 0 && (t[x] == '#' || byte_len(t.subrange(lo, find_from(t, hi, x, y, lo)))
            + byte_len(t.subrange(x, y)) > max) {
            Some(find_from(t, hi, x, y, lo))
        } else {
            split_point(t, lo, hi, max, b + 1, i + 1)
        }
    }
}

/// The chunks of `t[lo..hi]`: the text itself when it is at most `min`
/// bytes; else its part before the split point, trimmed, followed by the
/// chunks of the trimmed rest; or the trimmed text where no line splits it.
pub open spec fn chunks(t: Seq<char>, lo: int, hi: int, max: nat, min: nat) -> Seq<Seq<char>>
    decreases hi - lo,
{
    if lo < 0 || hi > t.len() || lo > hi {
        Seq::empty()
    } else if byte_len(t.subrange(lo, hi)) <= min {
        seq![t.subrange(lo, hi)]
    } else {
        match split_point(t, lo, hi, max, lo, 0) {
            Some(p) => {
                let x = trim_lo(t, p, hi);
                let y = trim_hi(t, x, hi);
                if lo < p && p < hi && p <= x && x <= y && y <= hi {
                    seq![trimmed(t, lo, p)] + chunks(t, x, y, max, min)
                } else {
                    seq![trimmed(t, lo, hi)]
                }
            },
            None => seq![trimmed(t, lo, hi)],
        }
    }
}

fn next_newline_in(t: &Vec<char>, a: usize, hi: usize) -> (r: usize)
    requires
        a <= hi <= t@.len(),
    ensures
        r == next_newline(t@, a as int, hi as int),
        a <= r <= hi,
{
    let mut b = a;
    while b < hi && t[b] != '\n'
        invariant
            a <= b <= hi <= t@.len(),
            next_newline(t@, a as int, hi as int) == next_newline(t@, b as int, hi as int),
        decreases hi - b,
    {
        b = b + 1;
    }
    b
}

fn find_split(t: &Vec<char>, lo: usize, hi: usize, max: usize) -> (r: Option<usize>)
    requires
        lo <= hi <= t@.len(),
        4 * t@.len() <= usize::MAX,
    ensures
        r matches Some(p) ==> split_point(t@, lo as int, hi as int, max as nat, lo as int, 0) == Some(
            p as int,
        ),
        r is None ==> split_point(t@, lo as int, hi as int, max as nat, lo as int, 0) is None,
{
    let mut a = lo;
    let mut i: usize = 0;
    while a <= hi
        invariant
            lo <= a <= hi + 1,
            hi <= t@.len(),
            4 * t@.len() <= usize::MAX,
            i <= a,
            split_point(t@, lo as int, hi as int, max as nat, lo as int, 0) == split_point(
                t@,
                lo as int,
                hi as int,
                max as nat,
                a as int,
                i as nat,
            ),
        decreases hi + 1 - a,
    {
        let b = next_newline_in(t, a, hi);
        let (x, y) = trim_range(t, a, b);
        if x < y && i > 0 {
            let f = find_in(t, lo, hi, x, y);
            if t[x] == '#' {
                return Some(f);
            }
            let before = byte_len_range(t, lo, f);
            let line = byte_len_range(t, x, y);
            if before > max || line > max - before {
                return Some(f);
            }
        }
        a = b + 1;
        i = i + 1;
    }
    None
}

fn piece(text: &str, lo: usize, hi: usize) -> (r: String)
    requires
        lo <= hi <= text@.len(),
    ensures
        r@ == text@.subrange(lo as int, hi as int),
{
    String::from_str(text.substring_char(lo, hi))
}

fn chunk_range(text: &str, t: &Vec<char>, lo: usize, hi: usize, max: usize, min: usize) -> (r: Vec<
    String,
>)
    requires
        t@ == text@,
        lo <= hi <= t@.len(),
        4 * t@.len() <= usize::MAX,
    ensures
        views(r@) == chunks(t@, lo as int, hi as int, max as nat, min as nat),
    decreases hi - lo,
{
    if byte_len_range(t, lo, hi) <= min {
        let r = vec![piece(text, lo, hi)];
        assert(views(r@) =~= seq![t@.subrange(lo as int, hi as int)]);
        return r;
    }
    let (a, b) = trim_range(t, lo, hi);
    let whole = vec![piece(text, a, b)];
    assert(views(whole@) =~= seq![trimmed(t@, lo as int, hi as int)]);
    match find_split(t, lo, hi, max) {
        Some(p) => {
            if lo < p && p < hi {
                let (x, y) = trim_range(t, p, hi);
                let (c, d) = trim_range(t, lo, p);
                let mut r = vec![piece(text, c, d)];
                let mut rest = chunk_range(text, t, x, y, max, min);
                r.append(&mut rest);
                assert(views(r@) =~= seq![trimmed(t@, lo as int, p as int)] + chunks(
                    t@,
                    x as int,
                    y as int,
                    max as nat,
                    min as nat,
                ));
                r
            } else {
                whole
            }
        },
        None => whole,
    }
}

/// Splits `text` into chunks: the text itself when it is at most
/// `min_chunk_length` bytes long; otherwise a chunk ends before the first
/// later line that starts with `#` or that would end past `max_length`
/// bytes, and the rest is split again.
pub fn chunk_message(text: &str, max_length: usize, min_chunk_length: usize) -> (r: Vec<String>)
    requires
        4 * text@.len() <= usize::MAX,
    ensures
        views(r@) == chunks(text@, 0, text@.len() as int, max_length as nat, min_chunk_length as nat),
{
    let t = chars_of(text);
    chunk_range(text, &t, 0, t.len(), max_length, min_chunk_length)
}

} // verus!
