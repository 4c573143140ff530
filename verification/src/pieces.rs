//! Cutting character sequences into pieces: splitting at a separator,
//! joining, trimming white space and taking lines.

use crate::text::{index_of, lemma_index_from};
use vstd::prelude::*;

verus! {

/// The views of a sequence of character vectors.
pub open spec fn views(parts: Seq<Vec<char>>) -> Seq<Seq<char>> {
    Seq::new(parts.len(), |i: int| parts[i]@)
}

/// The views of a sequence of strings.
pub open spec fn str_views(parts: Seq<String>) -> Seq<Seq<char>> {
    Seq::new(parts.len(), |i: int| parts[i]@)
}

// ---------------------------------------------------------------------------
// Splitting and joining
// ---------------------------------------------------------------------------

/// The pieces of `s` between occurrences of `c`. There is always at least
/// one piece; `n` occurrences give `n + 1` pieces.
pub open spec fn split(s: Seq<char>, c: char) -> Seq<Seq<char>>
    decreases s.len(),
{
    match index_of(s, c) {
        Some(i) => if 0 <= i < s.len() {
            seq![s.take(i)] + split(s.skip(i + 1), c)
        } else {
            seq![s]
        },
        None => seq![s],
    }
}

/// The pieces put together again with `sep` between neighbours.
pub open spec fn join(parts: Seq<Seq<char>>, sep: Seq<char>) -> Seq<char>
    decreases parts.len(),
{
    if parts.len() == 0 {
        Seq::empty()
    } else if parts.len() == 1 {
        parts[0]
    } else {
        parts[0] + sep + join(parts.drop_first(), sep)
    }
}

/// A piece cut off in front of the first separator.
pub proof fn lemma_split_cons(a: Seq<char>, c: char, b: Seq<char>)
    requires
        forall|j: int| 0 <= j < a.len() ==> a[j] != c,
    ensures
        split(a + seq![c] + b, c) == seq![a] + split(b, c),
{
    let s = a + seq![c] + b;
    lemma_index_from(s, c, 0);
    let i = a.len() as int;
    assert(s[i] == c);
    assert forall|j: int| 0 <= j < i implies s[j] != c by {
        assert(s[j] == a[j]);
    }
    assert(index_of(s, c) == Some(i));
    assert(s.take(i) == a);
    assert(s.skip(i + 1) == b);
}

/// A sequence without the separator is its own single piece.
pub proof fn lemma_split_single(s: Seq<char>, c: char)
    requires
        forall|j: int| 0 <= j < s.len() ==> s[j] != c,
    ensures
        split(s, c) == seq![s],
{
    lemma_index_from(s, c, 0);
}

/// No piece of a split holds the separator, and there is at least one piece.
pub proof fn lemma_split_pieces(s: Seq<char>, c: char)
    ensures
        split(s, c).len() >= 1,
        forall|k: int, j: int|
            0 <= k < split(s, c).len() && 0 <= j < split(s, c)[k].len() ==> split(s, c)[k][j]
                != c,
    decreases s.len(),
{
    lemma_index_from(s, c, 0);
    match index_of(s, c) {
        Some(i) => {
            lemma_split_pieces(s.skip(i + 1), c);
            let rest = split(s.skip(i + 1), c);
            assert forall|k: int, j: int|
                0 <= k < split(s, c).len() && 0 <= j < split(s, c)[k].len() implies split(
                s,
                c,
            )[k][j] != c by {
                if k == 0 {
                    assert(split(s, c)[0] == s.take(i));
                } else {
                    assert(split(s, c)[k] == rest[k - 1]);
                }
            }
        },
        None => {},
    }
}

/// Joining the pieces of a split with the separator gives the sequence back.
pub proof fn lemma_join_split(s: Seq<char>, c: char)
    ensures
        join(split(s, c), seq![c]) == s,
    decreases s.len(),
{
    lemma_index_from(s, c, 0);
    match index_of(s, c) {
        Some(i) => {
            let rest = split(s.skip(i + 1), c);
            lemma_join_split(s.skip(i + 1), c);
            lemma_split_pieces(s.skip(i + 1), c);
            let all = seq![s.take(i)] + rest;
            assert(all.drop_first() == rest);
            assert(all[0] == s.take(i));
            assert(s.take(i) + seq![c] + s.skip(i + 1) == s);
        },
        None => {},
    }
}

/// Joining with one more piece at the end.
pub proof fn lemma_join_push(parts: Seq<Seq<char>>, sep: Seq<char>, last: Seq<char>)
    ensures
        join(parts.push(last), sep) == if parts.len() == 0 {
            last
        } else {
            join(parts, sep) + sep + last
        },
    decreases parts.len(),
{
    if parts.len() == 0 {
    } else if parts.len() == 1 {
        assert(parts.push(last).drop_first() == seq![last]);
        assert(join(seq![last], sep) == last);
    } else {
        lemma_join_push(parts.drop_first(), sep, last);
        assert(parts.push(last).drop_first() == parts.drop_first().push(last));
        assert(parts[0] + sep + (join(parts.drop_first(), sep) + sep + last) == (parts[0] + sep
            + join(parts.drop_first(), sep)) + sep + last);
    }
}

/// The pieces of `s` between occurrences of `c`.
pub fn split_at_char(s: &Vec<char>, c: char) -> (parts: Vec<Vec<char>>)
    ensures
        views(parts@) == split(s@, c),
        parts.len() >= 1,
{
    let mut parts: Vec<Vec<char>> = Vec::new();
    let mut cur: Vec<char> = Vec::new();
    let ghost mut start: int = 0;
    let mut i: usize = 0;
    assert(s@.skip(0) == s@);
    assert(views(parts@) + split(s@.skip(start), c) == split(s@, c));
    while i < s.len()
        invariant
            0 <= start <= i <= s.len(),
            cur@ == s@.subrange(start, i as int),
            forall|k: int| start <= k < i ==> s@[k] != c,
            views(parts@) + split(s@.skip(start), c) == split(s@, c),
        decreases s.len() - i,
    {
        if s[i] == c {
            proof {
                let t = s@.skip(start);
                let a = s@.subrange(start, i as int);
                let b = s@.skip(i + 1);
                assert(t == a + seq![c] + b);
                lemma_split_cons(a, c, b);
                assert(views(parts@.push(cur)) == views(parts@) + seq![a]);
                assert(views(parts@) + (seq![a] + split(b, c)) == (views(parts@) + seq![a])
                    + split(b, c));
                start = i + 1;
            }
            parts.push(cur);
            cur = Vec::new();
        } else {
            cur.push(s[i]);
        }
        i = i + 1;
    }
    proof {
        let t = s@.skip(start);
        assert(cur@ == t);
        lemma_split_single(t, c);
        assert(views(parts@.push(cur)) == views(parts@) + seq![t]);
    }
    parts.push(cur);
    parts
}

/// The pieces `parts[from..]` put together with `sep` between neighbours.
pub fn join_from(parts: &Vec<Vec<char>>, from: usize, sep: &Vec<char>) -> (r: Vec<char>)
    requires
        from <= parts.len(),
    ensures
        r@ == join(views(parts@).skip(from as int), sep@),
{
    let mut r: Vec<char> = Vec::new();
    let mut i: usize = from;
    let ghost all = views(parts@).skip(from as int);
    assert(all.take(0) == Seq::<Seq<char>>::empty());
    while i < parts.len()
        invariant
            from <= i <= parts.len(),
            all == views(parts@).skip(from as int),
            r@ == join(all.take(i - from), sep@),
        decreases parts.len() - i,
    {
        proof {
            lemma_join_push(all.take(i - from), sep@, parts@[i as int]@);
            assert(all.take(i - from).push(parts@[i as int]@) == all.take(i + 1 - from));
        }
        if i > from {
            crate::text::extend(&mut r, sep);
        }
        crate::text::extend(&mut r, &parts[i]);
        i = i + 1;
    }
    assert(all.take(parts.len() - from) == all);
    r
}

// ---------------------------------------------------------------------------
// White space
// ---------------------------------------------------------------------------

/// The characters with the Unicode property `White_Space`.
pub open spec fn is_whitespace(c: char) -> bool {
    let n = c as u32;
    ||| (0x09 <= n && n <= 0x0d)
    ||| n == 0x20
    ||| n == 0x85
    ||| n == 0xa0
    ||| n == 0x1680
    ||| (0x2000 <= n && n <= 0x200a)
    ||| n == 0x2028
    ||| n == 0x2029
    ||| n == 0x202f
    ||| n == 0x205f
    ||| n == 0x3000
}

/// Whether `c` has the Unicode property `White_Space`.
pub fn is_space(c: char) -> (r: bool)
    ensures
        r == is_whitespace(c),
{
    let n: u32 = c as u32;
    (0x09 <= n && n <= 0x0d) || n == 0x20 || n == 0x85 || n == 0xa0 || n == 0x1680 || (0x2000
        <= n && n <= 0x200a) || n == 0x2028 || n == 0x2029 || n == 0x202f || n == 0x205f || n
        == 0x3000
}

/// `s` without its leading white space.
pub open spec fn trim_start(s: Seq<char>) -> Seq<char>
    decreases s.len(),
{
    if s.len() > 0 && is_whitespace(s[0]) {
        trim_start(s.drop_first())
    } else {
        s
    }
}

/// `s` without its trailing white space.
pub open spec fn trim_end(s: Seq<char>) -> Seq<char>
    decreases s.len(),
{
    if s.len() > 0 && is_whitespace(s.last()) {
        trim_end(s.drop_last())
    } else {
        s
    }
}

/// `s` without leading and trailing white space.
pub open spec fn trim(s: Seq<char>) -> Seq<char> {
    trim_end(trim_start(s))
}

/// `s` holds white space only (or nothing).
pub open spec fn is_blank(s: Seq<char>) -> bool {
    forall|i: int| 0 <= i < s.len() ==> is_whitespace(#[trigger] s[i])
}

/// A sequence that neither begins nor ends with white space is its own trim.
pub proof fn lemma_trim_fixed(s: Seq<char>)
    requires
        s.len() > 0 ==> !is_whitespace(s[0]) && !is_whitespace(s.last()),
    ensures
        trim(s) == s,
{
}

/// `trim_start` cuts a prefix of white space and leaves no white space in front.
pub proof fn lemma_trim_start(s: Seq<char>)
    ensures
        trim_start(s).len() <= s.len(),
        trim_start(s) == s.skip(s.len() - trim_start(s).len()),
        is_blank(s.take(s.len() - trim_start(s).len())),
        trim_start(s).len() > 0 ==> !is_whitespace(trim_start(s)[0]),
    decreases s.len(),
{
    if s.len() > 0 && is_whitespace(s[0]) {
        let t = s.drop_first();
        lemma_trim_start(t);
        let k = t.len() - trim_start(t).len();
        assert(t.skip(k) == s.skip(k + 1));
        assert forall|i: int| 0 <= i < k + 1 implies is_whitespace(#[trigger] s.take(k + 1)[i]) by {
            if i > 0 {
                assert(s.take(k + 1)[i] == t.take(k)[i - 1]);
            }
        }
    } else {
        assert(s.skip(0) == s);
    }
}

/// `trim_end` cuts a suffix of white space and leaves no white space at the end.
pub proof fn lemma_trim_end(s: Seq<char>)
    ensures
        trim_end(s).len() <= s.len(),
        trim_end(s) == s.take(trim_end(s).len() as int),
        is_blank(s.skip(trim_end(s).len() as int)),
        trim_end(s).len() > 0 ==> !is_whitespace(trim_end(s).last()),
    decreases s.len(),
{
    if s.len() > 0 && is_whitespace(s.last()) {
        let t = s.drop_last();
        lemma_trim_end(t);
        let k = trim_end(t).len() as int;
        assert(t.take(k) == s.take(k));
        assert forall|i: int| 0 <= i < s.len() - k implies is_whitespace(
            #[trigger] s.skip(k)[i],
        ) by {
            if i < t.len() - k {
                assert(s.skip(k)[i] == t.skip(k)[i]);
            }
        }
    } else {
        assert(s.take(s.len() as int) == s);
    }
}

/// The trim is empty exactly when the sequence is blank.
pub proof fn lemma_trim_blank(s: Seq<char>)
    ensures
        trim(s).len() == 0 <==> is_blank(s),
{
    lemma_trim_start(s);
    let t = trim_start(s);
    lemma_trim_end(t);
    let k = s.len() - t.len();
    if trim(s).len() == 0 {
        assert forall|i: int| 0 <= i < s.len() implies is_whitespace(#[trigger] s[i]) by {
            if i < k {
                assert(s[i] == s.take(k)[i]);
            } else {
                assert(s[i] == t[i - k]);
                assert(t[i - k] == t.skip(0)[i - k]);
            }
        }
    }
    if is_blank(s) {
        if t.len() > 0 {
            assert(t[0] == s[k]);
        }
    }
}

/// `s` without leading and trailing white space.
pub fn trimmed(s: &Vec<char>) -> (r: Vec<char>)
    ensures
        r@ == trim(s@),
{
    let mut lo: usize = 0;
    assert(s@.skip(0) == s@);
    while lo < s.len() && is_space(s[lo])
        invariant
            lo <= s.len(),
            trim_start(s@) == trim_start(s@.skip(lo as int)),
        decreases s.len() - lo,
    {
        assert(s@.skip(lo as int).drop_first() == s@.skip(lo + 1));
        lo = lo + 1;
    }
    assert(trim_start(s@) == s@.skip(lo as int));
    let mut hi: usize = s.len();
    assert(s@.skip(lo as int) == s@.subrange(lo as int, hi as int));
    while hi > lo && is_space(s[hi - 1])
        invariant
            lo <= hi <= s.len(),
            trim(s@) == trim_end(s@.subrange(lo as int, hi as int)),
        decreases hi,
    {
        assert(s@.subrange(lo as int, hi as int).drop_last() == s@.subrange(lo as int, hi - 1));
        hi = hi - 1;
    }
    crate::text::slice(s, lo, hi)
}

/// Whether `s` holds white space only (or nothing), which is to say that
/// nothing is left of it when it is trimmed.
pub fn blank(s: &Vec<char>) -> (r: bool)
    ensures
        r == is_blank(s@),
        r == (trim(s@).len() == 0),
{
    let mut i: usize = 0;
    while i < s.len()
        invariant
            i <= s.len(),
            forall|k: int| 0 <= k < i ==> is_whitespace(#[trigger] s@[k]),
        decreases s.len() - i,
    {
        if !is_space(s[i]) {
            proof {
                assert(!is_whitespace(s@[i as int]));
                lemma_trim_blank(s@);
            }
            return false;
        }
        i = i + 1;
    }
    proof {
        lemma_trim_blank(s@);
    }
    true
}

// ---------------------------------------------------------------------------
// Lines
// ---------------------------------------------------------------------------

/// `line` without one carriage return at its end.
pub open spec fn strip_cr(line: Seq<char>) -> Seq<char> {
    if line.len() > 0 && line.last() == '\r' {
        line.drop_last()
    } else {
        line
    }
}

/// The lines of `s`: the text is cut after every line feed; a line that ended
/// in a line feed loses it and one carriage return before it. Text after the
/// last line feed is a line of its own unless it is empty.
pub open spec fn lines(s: Seq<char>) -> Seq<Seq<char>>
    decreases s.len(),
{
    if s.len() == 0 {
        Seq::empty()
    } else {
        match index_of(s, '\n') {
            Some(i) => if 0 <= i < s.len() {
                seq![strip_cr(s.take(i))] + lines(s.skip(i + 1))
            } else {
                seq![s]
            },
            None => seq![s],
        }
    }
}

/// The lines of `s`.
pub fn lines_of(s: &Vec<char>) -> (out: Vec<Vec<char>>)
    ensures
        views(out@) == lines(s@),
{
    let mut out: Vec<Vec<char>> = Vec::new();
    let mut cur: Vec<char> = Vec::new();
    let ghost mut start: int = 0;
    let mut i: usize = 0;
    assert(s@.skip(0) == s@);
    assert(views(out@) + lines(s@.skip(start)) == lines(s@));
    while i < s.len()
        invariant
            0 <= start <= i <= s.len(),
            cur@ == s@.subrange(start, i as int),
            forall|k: int| start <= k < i ==> s@[k] != '\n',
            views(out@) + lines(s@.skip(start)) == lines(s@),
        decreases s.len() - i,
    {
        if s[i] == '\n' {
            let n = cur.len();
            let line = if n > 0 && cur[n - 1] == '\r' {
                crate::text::slice(&cur, 0, n - 1)
            } else {
                cur
            };
            proof {
                let t = s@.skip(start);
                let a = s@.subrange(start, i as int);
                lemma_index_from(t, '\n', 0);
                assert(t[i - start] == '\n');
                assert forall|j: int| 0 <= j < i - start implies t[j] != '\n' by {
                    assert(t[j] == s@[start + j]);
                }
                assert(index_of(t, '\n') == Some(i - start));
                assert(t.take(i - start) == a);
                assert(t.skip(i - start + 1) == s@.skip(i + 1));
                assert(line@ == strip_cr(a));
                assert(views(out@.push(line)) == views(out@) + seq![strip_cr(a)]);
                assert(views(out@) + (seq![strip_cr(a)] + lines(s@.skip(i + 1))) == (views(out@)
                    + seq![strip_cr(a)]) + lines(s@.skip(i + 1)));
                start = i + 1;
            }
            out.push(line);
            cur = Vec::new();
        } else {
            cur.push(s[i]);
        }
        i = i + 1;
    }
    proof {
        let t = s@.skip(start);
        assert(cur@ == t);
        lemma_index_from(t, '\n', 0);
        if t.len() > 0 {
            assert(views(out@.push(cur)) == views(out@) + seq![t]);
        } else {
            assert(views(out@) + Seq::<Seq<char>>::empty() == views(out@));
        }
    }
    if cur.len() > 0 {
        out.push(cur);
    }
    out
}

} // verus!
