//! Character-level text handling shared by the parsers of this crate.
//!
//! Strings are modelled by their view, a `Seq<char>`. The predicates here
//! follow the documented behaviour of the corresponding `str` methods of
//! the standard library (`char::is_whitespace`, `str::trim`, `str::lines`,
//! `u32::from_str`, ...).

use vstd::prelude::*;

verus! {

/// Unicode `White_Space`, the property that `char::is_whitespace` tests.
pub open spec fn is_ws(c: char) -> bool {
    let v = c as u32;
    ||| (0x9 <= v && v <= 0xd)
    ||| v == 0x20
    ||| v == 0x85
    ||| v == 0xa0
    ||| v == 0x1680
    ||| (0x2000 <= v && v <= 0x200a)
    ||| v == 0x2028
    ||| v == 0x2029
    ||| v == 0x202f
    ||| v == 0x205f
    ||| v == 0x3000
}

pub fn char_is_ws(c: char) -> (res: bool)
    ensures
        res == is_ws(c),
{
    let v = c as u32;
    (0x9 <= v && v <= 0xd) || v == 0x20 || v == 0x85 || v == 0xa0 || v == 0x1680 || (0x2000 <= v
        && v <= 0x200a) || v == 0x2028 || v == 0x2029 || v == 0x202f || v == 0x205f || v == 0x3000
}

/// The characters of `s`, in order.
pub fn chars_of(s: &str) -> (res: Vec<char>)
    ensures
        res@ == s@,
{
    let n = s.unicode_len();
    let mut out: Vec<char> = Vec::new();
    let mut i: usize = 0;
    while i < n
        invariant
            n == s@.len(),
            i <= n,
            out@ == s@.subrange(0, i as int),
        decreases n - i,
    {
        out.push(s.get_char(i));
        i = i + 1;
    }
    out
}

/// Appends one character; `String::push`.
#[verifier::external_body]
pub(crate) fn push_char(s: &mut String, c: char)
    ensures
        final(s)@ == old(s)@.push(c),
{
    s.push(c);
}

/// The string made of the characters of `v[from..to]`.
pub fn string_from(v: &Vec<char>, from: usize, to: usize) -> (res: String)
    requires
        from <= to <= v@.len(),
    ensures
        res@ == v@.subrange(from as int, to as int),
{
    let mut out = String::new();
    let mut i = from;
    while i < to
        invariant
            from <= i <= to,
            to <= v@.len(),
            out@ == v@.subrange(from as int, i as int),
        decreases to - i,
    {
        push_char(&mut out, v[i]);
        i = i + 1;
    }
    out
}


/// The characters of each string.
pub open spec fn views(v: Seq<String>) -> Seq<Seq<char>> {
    v.map_values(|s: String| s@)
}

/// `str::trim_start`: drops leading whitespace.
pub open spec fn trim_start(s: Seq<char>) -> Seq<char>
    decreases s.len(),
{
    if s.len() > 0 && is_ws(s[0]) {
        trim_start(s.drop_first())
    } else {
        s
    }
}

/// `str::trim_end`: drops trailing whitespace.
pub open spec fn trim_end(s: Seq<char>) -> Seq<char>
    decreases s.len(),
{
    if s.len() > 0 && is_ws(s.last()) {
        trim_end(s.drop_last())
    } else {
        s
    }
}

/// `str::trim`.
pub open spec fn trim(s: Seq<char>) -> Seq<char> {
    trim_end(trim_start(s))
}

proof fn lemma_trim_start_skip(s: Seq<char>, k: int)
    requires
        0 <= k <= s.len(),
        forall|j: int| 0 <= j < k ==> is_ws(#[trigger] s[j]),
    ensures
        trim_start(s) == trim_start(s.skip(k)),
    decreases k,
{
    if k > 0 {
        assert(is_ws(s[0]));
        let t = s.drop_first();
        assert forall|j: int| 0 <= j < k - 1 implies is_ws(#[trigger] t[j]) by {
            assert(t[j] == s[j + 1]);
        }
        lemma_trim_start_skip(t, k - 1);
        assert(t.skip(k - 1) =~= s.skip(k));
    } else {
        assert(s.skip(0) =~= s);
    }
}

proof fn lemma_trim_end_take(s: Seq<char>, k: int)
    requires
        0 <= k <= s.len(),
        forall|j: int| k <= j < s.len() ==> is_ws(#[trigger] s[j]),
    ensures
        trim_end(s) == trim_end(s.take(k)),
    decreases s.len() - k,
{
    if k < s.len() {
        assert(is_ws(s.last()));
        let t = s.drop_last();
        assert forall|j: int| k <= j < t.len() implies is_ws(#[trigger] t[j]) by {
            assert(t[j] == s[j]);
        }
        lemma_trim_end_take(t, k);
        assert(t.take(k) =~= s.take(k));
    } else {
        assert(s.take(k) =~= s);
    }
}

/// Bounds of `trim(v[from..to])` inside `v`.
pub fn trim_range(v: &Vec<char>, from: usize, to: usize) -> (res: (usize, usize))
    requires
        from <= to <= v@.len(),
    ensures
        from <= res.0 <= res.1 <= to,
        v@.subrange(res.0 as int, res.1 as int) == trim(v@.subrange(from as int, to as int)),
{
    let ghost s = v@.subrange(from as int, to as int);
    let mut i = from;
    while i < to && char_is_ws(v[i])
        invariant
            from <= i <= to,
            to <= v@.len(),
            s == v@.subrange(from as int, to as int),
            forall|j: int| from <= j < i ==> is_ws(#[trigger] v@[j]),
        decreases to - i,
    {
        i = i + 1;
    }
    proof {
        assert forall|j: int| 0 <= j < i - from implies is_ws(#[trigger] s[j]) by {
            assert(s[j] == v@[from + j]);
        }
        lemma_trim_start_skip(s, i - from);
        assert(s.skip(i - from) =~= v@.subrange(i as int, to as int));
        let t = v@.subrange(i as int, to as int);
        if i < to {
            assert(!is_ws(t[0]));
        } else {
            assert(t.len() == 0);
        }
        assert(trim_start(t) == t);
    }
    let mut j = to;
    while j > i && char_is_ws(v[j - 1])
        invariant
            i <= j <= to,
            to <= v@.len(),
            forall|k: int| j <= k < to ==> is_ws(#[trigger] v@[k]),
        decreases j - i,
    {
        j = j - 1;
    }
    proof {
        let t = v@.subrange(i as int, to as int);
        assert forall|k: int| j - i <= k < t.len() implies is_ws(#[trigger] t[k]) by {
            assert(t[k] == v@[i + k]);
        }
        lemma_trim_end_take(t, j - i);
        let u = t.take(j - i);
        assert(u =~= v@.subrange(i as int, j as int));
        if j > i {
            assert(!is_ws(u.last()));
        }
        assert(trim_end(u) == u);
    }
    (i, j)
}

/// `str::trim`, on a string.
pub fn trim_str(s: &str) -> (res: String)
    ensures
        res@ == trim(s@),
{
    let v = chars_of(s);
    let (a, b) = trim_range(&v, 0, v.len());
    proof {
        assert(v@.subrange(0, v@.len() as int) =~= v@);
    }
    string_from(&v, a, b)
}

/// Position of the first `c` in `s`, or `-1`.
pub open spec fn index_of(s: Seq<char>, c: char) -> int
    decreases s.len(),
{
    if s.len() == 0 {
        -1
    } else if s[0] == c {
        0
    } else {
        let r = index_of(s.drop_first(), c);
        if r < 0 {
            -1
        } else {
            r + 1
        }
    }
}

pub proof fn lemma_index_of_bounds(s: Seq<char>, c: char)
    ensures
        -1 <= index_of(s, c) < s.len(),
        index_of(s, c) >= 0 ==> s[index_of(s, c)] == c,
        forall|j: int| 0 <= j < s.len() && (index_of(s, c) < 0 || j < index_of(s, c)) ==> s[j]
            != c,
    decreases s.len(),
{
    if s.len() > 0 && s[0] != c {
        lemma_index_of_bounds(s.drop_first(), c);
        assert forall|j: int| 0 <= j < s.len() && (index_of(s, c) < 0 || j < index_of(s, c)) implies s[j] != c by {
            if j > 0 {
                assert(s[j] == s.drop_first()[j - 1]);
            }
        }
    }
}

pub proof fn lemma_index_of_at(s: Seq<char>, c: char, k: int)
    requires
        0 <= k < s.len(),
        s[k] == c,
        forall|j: int| 0 <= j < k ==> s[j] != c,
    ensures
        index_of(s, c) == k,
    decreases k,
{
    if k > 0 {
        let t = s.drop_first();
        assert forall|j: int| 0 <= j < k - 1 implies t[j] != c by {
            assert(t[j] == s[j + 1]);
        }
        lemma_index_of_at(t, c, k - 1);
    }
}

pub proof fn lemma_index_of_absent(s: Seq<char>, c: char)
    requires
        forall|j: int| 0 <= j < s.len() ==> s[j] != c,
    ensures
        index_of(s, c) == -1,
    decreases s.len(),
{
    if s.len() > 0 {
        let t = s.drop_first();
        assert forall|j: int| 0 <= j < t.len() implies t[j] != c by {
            assert(t[j] == s[j + 1]);
        }
        lemma_index_of_absent(t, c);
    }
}

/// Drops one `'\r'` that ends a line.
pub open spec fn strip_cr(line: Seq<char>) -> Seq<char> {
    if line.len() > 0 && line.last() == '\r' {
        line.drop_last()
    } else {
        line
    }
}

/// `str::lines`: pieces between `'\n'`s, a `'\r'` before a `'\n'` dropped, no
/// piece after a final `'\n'`.
pub open spec fn lines(s: Seq<char>) -> Seq<Seq<char>>
    decreases s.len(),
{
    if s.len() == 0 {
        seq![]
    } else {
        let k = index_of(s, '\n');
        if k < 0 {
            seq![s]
        } else {
            proof {
                lemma_index_of_bounds(s, '\n');
            }
            seq![strip_cr(s.take(k))] + lines(s.skip(k + 1))
        }
    }
}

/// Bounds in `v` of each of `lines(v)`.
pub fn line_ranges(v: &Vec<char>) -> (res: Vec<(usize, usize)>)
    ensures
        res@.len() == lines(v@).len(),
        forall|i: int|
            0 <= i < res@.len() ==> {
                &&& (#[trigger] res@[i]).0 <= res@[i].1 <= v@.len()
                &&& v@.subrange(res@[i].0 as int, res@[i].1 as int) == lines(v@)[i]
            },
{
    let mut out: Vec<(usize, usize)> = Vec::new();
    let mut start: usize = 0;
    let n = v.len();
    proof {
        assert(v@.skip(0) =~= v@);
    }
    while start < n
        invariant
            n == v@.len(),
            start <= n,
            lines(v@) =~= out@.map_values(|r: (usize, usize)| v@.subrange(r.0 as int, r.1 as int))
                + lines(v@.skip(start as int)),
            forall|i: int|
                0 <= i < out@.len() ==> (#[trigger] out@[i]).0 <= out@[i].1 <= v@.len(),
        decreases n - start,
    {
        let ghost rest = v@.skip(start as int);
        let mut k = start;
        while k < n && v[k] != '\n'
            invariant
                start <= k <= n,
                n == v@.len(),
                forall|j: int| start <= j < k ==> v@[j] != '\n',
            decreases n - k,
        {
            k = k + 1;
        }
        let ghost old_out = out@;
        if k == n {
            proof {
                assert forall|j: int| 0 <= j < rest.len() implies rest[j] != '\n' by {
                    assert(rest[j] == v@[start + j]);
                }
                lemma_index_of_absent(rest, '\n');
                assert(rest =~= v@.subrange(start as int, n as int));
                assert(v@.skip(n as int) =~= Seq::<char>::empty());
            }
            out.push((start, n));
            start = n;
        } else {
            let mut e = k;
            if e > start && v[e - 1] == '\r' {
                e = e - 1;
            }
            proof {
                assert forall|j: int| 0 <= j < k - start implies rest[j] != '\n' by {
                    assert(rest[j] == v@[start + j]);
                }
                lemma_index_of_at(rest, '\n', k - start);
                assert(rest.take(k - start) =~= v@.subrange(start as int, k as int));
                assert(strip_cr(rest.take(k - start)) =~= v@.subrange(start as int, e as int));
                assert(rest.skip(k - start + 1) =~= v@.skip(k + 1));
            }
            out.push((start, e));
            start = k + 1;
        }
        proof {
            assert(out@.map_values(|r: (usize, usize)| v@.subrange(r.0 as int, r.1 as int))
                =~= old_out.map_values(|r: (usize, usize)| v@.subrange(r.0 as int, r.1 as int))
                + seq![v@.subrange(out@.last().0 as int, out@.last().1 as int)]);
        }
    }
    proof {
        assert(v@.skip(n as int) =~= Seq::<char>::empty());
        assert(lines(v@.skip(n as int)) =~= Seq::<Seq<char>>::empty());
    }
    out
}


pub open spec fn is_digit(c: char) -> bool {
    '0' <= c && c <= '9'
}

pub open spec fn digit_val(c: char) -> nat {
    (c as u32 - '0' as u32) as nat
}

pub open spec fn all_digits(s: Seq<char>) -> bool {
    forall|i: int| 0 <= i < s.len() ==> is_digit(#[trigger] s[i])
}

/// The value of a run of decimal digits.
pub open spec fn digits_value(s: Seq<char>) -> nat
    decreases s.len(),
{
    if s.len() == 0 {
        0
    } else {
        digits_value(s.drop_last()) * 10 + digit_val(s.last())
    }
}

/// What `from_str` of an unsigned integer reads: an optional `'+'`, then one
/// or more ASCII digits.
pub open spec fn dec_value(s: Seq<char>) -> Option<nat> {
    let d = if s.len() > 0 && s[0] == '+' {
        s.drop_first()
    } else {
        s
    };
    if d.len() > 0 && all_digits(d) {
        Some(digits_value(d))
    } else {
        None
    }
}

/// `u64::from_str(s).ok()`.
pub open spec fn parse_u64(s: Seq<char>) -> Option<u64> {
    match dec_value(s) {
        Some(n) => if n <= u64::MAX {
            Some(n as u64)
        } else {
            None
        },
        None => None,
    }
}

/// `u32::from_str(s).ok()`.
pub open spec fn parse_u32(s: Seq<char>) -> Option<u32> {
    match dec_value(s) {
        Some(n) => if n <= u32::MAX {
            Some(n as u32)
        } else {
            None
        },
        None => None,
    }
}

proof fn lemma_digits_value_prefix(s: Seq<char>, i: int)
    requires
        0 <= i <= s.len(),
        all_digits(s),
    ensures
        digits_value(s.take(i)) <= digits_value(s),
    decreases s.len() - i,
{
    if i < s.len() {
        let t = s.drop_last();
        assert(all_digits(t)) by {
            assert forall|j: int| 0 <= j < t.len() implies is_digit(#[trigger] t[j]) by {
                assert(t[j] == s[j]);
            }
        }
        lemma_digits_value_prefix(t, i);
        assert(t.take(i) =~= s.take(i));
    } else {
        assert(s.take(i) =~= s);
    }
}

/// `u64::from_str` on `v[from..to]`, `None` where it fails.
pub fn parse_u64_at(v: &Vec<char>, from: usize, to: usize) -> (res: Option<u64>)
    requires
        from <= to <= v@.len(),
    ensures
        res == parse_u64(v@.subrange(from as int, to as int)),
{
    let ghost s = v@.subrange(from as int, to as int);
    let mut i = from;
    if i < to && v[i] == '+' {
        i = i + 1;
    }
    let ghost d = v@.subrange(i as int, to as int);
    proof {
        if s.len() > 0 && s[0] == '+' {
            assert(s.drop_first() =~= d);
        } else {
            assert(s =~= d);
        }
    }
    if i == to {
        return None;
    }
    let start = i;
    let mut acc: u64 = 0;
    while i < to
        invariant
            start <= i <= to,
            to <= v@.len(),
            d == v@.subrange(start as int, to as int),
            d.len() > 0,
            s == v@.subrange(from as int, to as int),
            dec_value(s) == (if d.len() > 0 && all_digits(d) {
                Some(digits_value(d))
            } else {
                None::<nat>
            }),
            all_digits(d.take(i - start)),
            acc == digits_value(d.take(i - start)),
        decreases to - i,
    {
        let c = v[i];
        if !('0' <= c && c <= '9') {
            proof {
                assert(d[i - start] == c);
            }
            return None;
        }
        let dv = (c as u32 - '0' as u32) as u64;
        proof {
            let p = d.take(i - start + 1);
            assert(p.drop_last() =~= d.take(i - start));
            assert(p.last() == c);
            assert(all_digits(p)) by {
                assert forall|j: int| 0 <= j < p.len() implies is_digit(#[trigger] p[j]) by {
                    if j < i - start {
                        assert(p[j] == d.take(i - start)[j]);
                    }
                }
            }
        }
        let m = acc.checked_mul(10);
        if m.is_none() {
            proof {
                let p = d.take(i - start + 1);
                if all_digits(d) {
                    lemma_digits_value_prefix(d, i - start + 1);
                }
            }
            return None;
        }
        let a = m.unwrap().checked_add(dv);
        if a.is_none() {
            proof {
                if all_digits(d) {
                    lemma_digits_value_prefix(d, i - start + 1);
                }
            }
            return None;
        }
        acc = a.unwrap();
        i = i + 1;
    }
    proof {
        assert(d.take(i - start) =~= d);
    }
    Some(acc)
}

/// `u32::from_str` on `v[from..to]`, `None` where it fails.
pub fn parse_u32_at(v: &Vec<char>, from: usize, to: usize) -> (res: Option<u32>)
    requires
        from <= to <= v@.len(),
    ensures
        res == parse_u32(v@.subrange(from as int, to as int)),
{
    match parse_u64_at(v, from, to) {
        Some(n) => if n <= 0xffff_ffffu64 {
            Some(n as u32)
        } else {
            None
        },
        None => None,
    }
}

/// Whether `v[from..to]` begins with `p`.
pub fn has_prefix_at(v: &Vec<char>, from: usize, to: usize, p: &str) -> (res: bool)
    requires
        from <= to <= v@.len(),
    ensures
        res == p@.is_prefix_of(v@.subrange(from as int, to as int)),
{
    let pv = chars_of(p);
    if pv.len() > to - from {
        return false;
    }
    let mut i: usize = 0;
    while i < pv.len()
        invariant
            i <= pv@.len(),
            pv@ == p@,
            pv@.len() <= to - from,
            from <= to <= v@.len(),
            forall|j: int| 0 <= j < i ==> pv@[j] == v@[from + j],
        decreases pv@.len() - i,
    {
        if pv[i] != v[from + i] {
            return false;
        }
        i = i + 1;
    }
    true
}

/// Whether `v[from..to]` ends with `p`.
pub fn has_suffix_at(v: &Vec<char>, from: usize, to: usize, p: &str) -> (res: bool)
    requires
        from <= to <= v@.len(),
    ensures
        res == p@.is_suffix_of(v@.subrange(from as int, to as int)),
{
    let pv = chars_of(p);
    if pv.len() > to - from {
        return false;
    }
    let base = to - pv.len();
    let mut i: usize = 0;
    while i < pv.len()
        invariant
            i <= pv@.len(),
            pv@ == p@,
            pv@.len() <= to - from,
            base == to - pv@.len(),
            from <= to <= v@.len(),
            forall|j: int| 0 <= j < i ==> pv@[j] == v@[base + j],
        decreases pv@.len() - i,
    {
        if pv[i] != v[base + i] {
            return false;
        }
        i = i + 1;
    }
    true
}

/// `str::starts_with`.
pub fn str_starts_with(s: &str, p: &str) -> (res: bool)
    ensures
        res == p@.is_prefix_of(s@),
{
    let v = chars_of(s);
    proof {
        assert(v@.subrange(0, v@.len() as int) =~= v@);
    }
    has_prefix_at(&v, 0, v.len(), p)
}

/// `str::ends_with`.
pub fn str_ends_with(s: &str, p: &str) -> (res: bool)
    ensures
        res == p@.is_suffix_of(s@),
{
    let v = chars_of(s);
    proof {
        assert(v@.subrange(0, v@.len() as int) =~= v@);
    }
    has_suffix_at(&v, 0, v.len(), p)
}

/// Equality of two strings by their characters.
pub fn str_eq(a: &str, b: &str) -> (res: bool)
    ensures
        res == (a@ == b@),
{
    let av = chars_of(a);
    let bv = chars_of(b);
    if av.len() != bv.len() {
        return false;
    }
    let mut i: usize = 0;
    while i < av.len()
        invariant
            i <= av@.len(),
            av@.len() == bv@.len(),
            av@ == a@,
            bv@ == b@,
            forall|j: int| 0 <= j < i ==> av@[j] == bv@[j],
        decreases av@.len() - i,
    {
        if av[i] != bv[i] {
            return false;
        }
        i = i + 1;
    }
    proof {
        assert(av@ =~= bv@);
    }
    true
}


/// `str::split(c)`: the pieces between occurrences of `c`; always at least
/// one piece.
pub open spec fn split(s: Seq<char>, c: char) -> Seq<Seq<char>>
    decreases s.len(),
{
    let k = index_of(s, c);
    if k < 0 {
        seq![s]
    } else {
        proof {
            lemma_index_of_bounds(s, c);
        }
        seq![s.take(k)] + split(s.skip(k + 1), c)
    }
}

pub proof fn lemma_split_nonempty(s: Seq<char>, c: char)
    ensures
        split(s, c).len() > 0,
{
}

/// Bounds in `v` of each of `split(v, c)`.
pub fn split_ranges(v: &Vec<char>, c: char) -> (res: Vec<(usize, usize)>)
    ensures
        res@.len() == split(v@, c).len(),
        forall|i: int|
            0 <= i < res@.len() ==> {
                &&& (#[trigger] res@[i]).0 <= res@[i].1 <= v@.len()
                &&& v@.subrange(res@[i].0 as int, res@[i].1 as int) == split(v@, c)[i]
            },
{
    let mut out: Vec<(usize, usize)> = Vec::new();
    let mut start: usize = 0;
    let n = v.len();
    proof {
        assert(v@.skip(0) =~= v@);
    }
    loop
        invariant
            n == v@.len(),
            start <= n,
            split(v@, c) =~= out@.map_values(
                |r: (usize, usize)| v@.subrange(r.0 as int, r.1 as int),
            ) + split(v@.skip(start as int), c),
            forall|i: int|
                0 <= i < out@.len() ==> (#[trigger] out@[i]).0 <= out@[i].1 <= v@.len(),
        decreases n - start,
    {
        let ghost rest = v@.skip(start as int);
        let mut k = start;
        while k < n && v[k] != c
            invariant
                start <= k <= n,
                n == v@.len(),
                forall|j: int| start <= j < k ==> v@[j] != c,
            decreases n - k,
        {
            k = k + 1;
        }
        let ghost old_out = out@;
        if k == n {
            proof {
                assert forall|j: int| 0 <= j < rest.len() implies rest[j] != c by {
                    assert(rest[j] == v@[start + j]);
                }
                lemma_index_of_absent(rest, c);
                assert(rest =~= v@.subrange(start as int, n as int));
            }
            out.push((start, n));
            proof {
                assert(out@.map_values(|r: (usize, usize)| v@.subrange(r.0 as int, r.1 as int))
                    =~= old_out.map_values(
                    |r: (usize, usize)| v@.subrange(r.0 as int, r.1 as int),
                ) + seq![v@.subrange(start as int, n as int)]);
            }
            return out;
        }
        proof {
            assert forall|j: int| 0 <= j < k - start implies rest[j] != c by {
                assert(rest[j] == v@[start + j]);
            }
            lemma_index_of_at(rest, c, k - start);
            assert(rest.take(k - start) =~= v@.subrange(start as int, k as int));
            assert(rest.skip(k - start + 1) =~= v@.skip(k + 1));
        }
        out.push((start, k));
        proof {
            assert(out@.map_values(|r: (usize, usize)| v@.subrange(r.0 as int, r.1 as int))
                =~= old_out.map_values(|r: (usize, usize)| v@.subrange(r.0 as int, r.1 as int))
                + seq![v@.subrange(start as int, k as int)]);
        }
        start = k + 1;
    }
}


/// The ASCII digit for `d < 10`.
pub open spec fn digit_char(d: nat) -> char {
    (d + 48) as char
}

/// Decimal text of `n` (`{}` of an unsigned integer).
pub open spec fn decimal(n: nat) -> Seq<char>
    decreases n,
{
    if n < 10 {
        seq![digit_char(n)]
    } else {
        decimal(n / 10) + seq![digit_char(n % 10)]
    }
}

/// The decimal text of `n`.
pub fn u64_decimal(n: u64) -> (res: String)
    ensures
        res@ == decimal(n as nat),
    decreases n,
{
    if n < 10 {
        let mut out = String::new();
        push_char(&mut out, ((n as u8) + 48) as char);
        proof {
            assert(out@ =~= seq![digit_char(n as nat)]);
        }
        out
    } else {
        let mut out = u64_decimal(n / 10);
        push_char(&mut out, (((n % 10) as u8) + 48) as char);
        out
    }
}


/// `p` occurs in `s` (`str::contains`).
pub open spec fn contains(s: Seq<char>, p: Seq<char>) -> bool {
    exists|i: int| 0 <= i <= s.len() && #[trigger] p.is_prefix_of(s.skip(i))
}

/// Whether `p` occurs in `v[0..]`.
pub fn contains_at(v: &Vec<char>, p: &str) -> (res: bool)
    ensures
        res == contains(v@, p@),
{
    let n = v.len();
    let mut i: usize = 0;
    while i < n
        invariant
            n == v@.len(),
            i <= n,
            forall|j: int| 0 <= j < i ==> !(#[trigger] p@.is_prefix_of(v@.skip(j))),
        decreases n - i,
    {
        proof {
            assert(v@.subrange(i as int, n as int) =~= v@.skip(i as int));
        }
        if has_prefix_at(v, i, n, p) {
            return true;
        }
        i = i + 1;
    }
    proof {
        assert(v@.subrange(n as int, n as int) =~= v@.skip(n as int));
    }
    has_prefix_at(v, n, n, p)
}

/// `str::contains`.
pub fn str_contains(s: &str, p: &str) -> (res: bool)
    ensures
        res == contains(s@, p@),
{
    let v = chars_of(s);
    contains_at(&v, p)
}


/// Index of the first whitespace character of `s`, or its length.
pub open spec fn ws_index(s: Seq<char>) -> int
    decreases s.len(),
{
    if s.len() == 0 {
        0
    } else if is_ws(s[0]) {
        0
    } else {
        ws_index(s.drop_first()) + 1
    }
}

/// `split_whitespace().next()`: the first run of non-whitespace characters.
pub open spec fn first_token(s: Seq<char>) -> Option<Seq<char>> {
    let t = trim_start(s);
    if t.len() == 0 {
        None
    } else {
        Some(t.take(ws_index(t)))
    }
}

proof fn lemma_ws_index(s: Seq<char>, k: int)
    requires
        0 <= k <= s.len(),
        k < s.len() ==> is_ws(s[k]),
        forall|j: int| 0 <= j < k ==> !is_ws(#[trigger] s[j]),
    ensures
        ws_index(s) == k,
    decreases k,
{
    if k > 0 {
        let t = s.drop_first();
        assert forall|j: int| 0 <= j < k - 1 implies !is_ws(#[trigger] t[j]) by {
            assert(t[j] == s[j + 1]);
            assert(!is_ws(s[j + 1]));
        }
        if k < s.len() {
            assert(t[k - 1] == s[k]);
        }
        assert(!is_ws(s[0]));
        lemma_ws_index(t, k - 1);
    }
}

/// Bounds in `v` of `first_token(v[from..to])`, if there is one.
pub fn first_token_at(v: &Vec<char>, from: usize, to: usize) -> (res: Option<(usize, usize)>)
    requires
        from <= to <= v@.len(),
    ensures
        match res {
            Some((a, b)) => from <= a <= b <= to && first_token(v@.subrange(from as int, to as int))
                == Some(v@.subrange(a as int, b as int)),
            None => first_token(v@.subrange(from as int, to as int)).is_none(),
        },
{
    let ghost s = v@.subrange(from as int, to as int);
    let mut i = from;
    while i < to && char_is_ws(v[i])
        invariant
            from <= i <= to <= v@.len(),
            forall|j: int| from <= j < i ==> is_ws(#[trigger] v@[j]),
        decreases to - i,
    {
        i = i + 1;
    }
    let ghost t = v@.subrange(i as int, to as int);
    proof {
        assert forall|j: int| 0 <= j < i - from implies is_ws(#[trigger] s[j]) by {
            assert(s[j] == v@[from + j]);
        }
        lemma_trim_start_skip(s, i - from);
        assert(s.skip(i - from) =~= t);
        if i < to {
            assert(!is_ws(t[0]));
        }
        assert(trim_start(t) == t);
    }
    if i == to {
        return None;
    }
    let mut j = i;
    while j < to && !char_is_ws(v[j])
        invariant
            i <= j <= to <= v@.len(),
            forall|k: int| i <= k < j ==> !is_ws(#[trigger] v@[k]),
        decreases to - j,
    {
        j = j + 1;
    }
    proof {
        assert forall|k: int| 0 <= k < j - i implies !is_ws(#[trigger] t[k]) by {
            assert(t[k] == v@[i + k]);
        }
        if j < to {
            assert(t[j - i] == v@[j as int]);
        }
        lemma_ws_index(t, j - i);
        assert(t.take(j - i) =~= v@.subrange(i as int, j as int));
    }
    Some((i, j))
}

/// ASCII lower case of one character (other characters unchanged).
pub open spec fn ascii_lower(c: char) -> char {
    if 'A' <= c && c <= 'Z' {
        ((c as u32) + 32) as char
    } else {
        c
    }
}

pub fn char_ascii_lower(c: char) -> (res: char)
    ensures
        res == ascii_lower(c),
{
    if 'A' <= c && c <= 'Z' {
        ((c as u8) + 32) as char
    } else {
        c
    }
}

/// `str::eq_ignore_ascii_case`.
pub open spec fn eq_ignore_ascii_case(a: Seq<char>, b: Seq<char>) -> bool {
    a.len() == b.len() && forall|i: int| 0 <= i < a.len() ==> ascii_lower(#[trigger] a[i])
        == ascii_lower(b[i])
}

pub fn str_eq_ignore_ascii_case(a: &str, b: &str) -> (res: bool)
    ensures
        res == eq_ignore_ascii_case(a@, b@),
{
    let av = chars_of(a);
    let bv = chars_of(b);
    if av.len() != bv.len() {
        return false;
    }
    let mut i: usize = 0;
    while i < av.len()
        invariant
            i <= av@.len(),
            av@.len() == bv@.len(),
            av@ == a@,
            bv@ == b@,
            forall|j: int| 0 <= j < i ==> ascii_lower(#[trigger] av@[j]) == ascii_lower(bv@[j]),
        decreases av@.len() - i,
    {
        if char_ascii_lower(av[i]) != char_ascii_lower(bv[i]) {
            return false;
        }
        i = i + 1;
    }
    true
}

/// The strings joined with `sep` between them (`join`).
pub open spec fn join(parts: Seq<Seq<char>>, sep: Seq<char>) -> Seq<char>
    decreases parts.len(),
{
    if parts.len() == 0 {
        Seq::empty()
    } else if parts.len() == 1 {
        parts[0]
    } else {
        join(parts.drop_last(), sep) + sep + parts.last()
    }
}

/// `parts.join(sep)`.
pub fn join_strs(parts: &Vec<&str>, sep: &str) -> (res: String)
    ensures
        res@ == join(parts@.map_values(|s: &str| s@), sep@),
{
    let ghost ps = parts@.map_values(|s: &str| s@);
    let mut out = String::new();
    let mut i: usize = 0;
    while i < parts.len()
        invariant
            i <= parts@.len(),
            ps == parts@.map_values(|s: &str| s@),
            out@ == join(ps.take(i as int), sep@),
        decreases parts@.len() - i,
    {
        if i > 0 {
            out.append(sep);
        }
        out.append(parts[i]);
        proof {
            let t = ps.take(i + 1);
            assert(t.drop_last() =~= ps.take(i as int));
            if i == 0 {
                assert(ps.take(0).len() == 0);
                assert(out@ =~= t[0]);
            }
        }
        i = i + 1;
    }
    proof {
        assert(ps.take(parts@.len() as int) =~= ps);
    }
    out
}

} // verus!
