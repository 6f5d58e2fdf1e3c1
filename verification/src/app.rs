//! Release-channel and release-list logic of the installer.

use vstd::prelude::*;

use crate::text;

verus! {

broadcast use vstd::seq_lib::group_seq_properties;

pub const REGISTRY_PROD: &'static str = "ghcr.io/stargrid-systems/caustic-os";

pub const REGISTRY_DEV: &'static str = "ghcr.io/stargrid-systems/caustic-os-dev";

/// Number of releases shown on one page of the release list.
pub const PAGE_SIZE: usize = 10;

/// The registry a release comes from.
#[derive(Clone, Copy, Debug, PartialEq, Eq, Structural)]
pub enum Channel {
    Production,
    Development,
}

impl Channel {
    /// The OCI repository of the channel.
    pub fn registry(self) -> (res: &'static str)
        ensures
            res@ == (match self {
                Channel::Production => REGISTRY_PROD@,
                Channel::Development => REGISTRY_DEV@,
            }),
    {
        match self {
            Channel::Production => REGISTRY_PROD,
            Channel::Development => REGISTRY_DEV,
        }
    }

    /// The short name under which images of the channel are cached.
    pub fn slug(self) -> (res: &'static str)
        ensures
            res@ == (match self {
                Channel::Production => "prod"@,
                Channel::Development => "dev"@,
            }),
    {
        match self {
            Channel::Production => "prod",
            Channel::Development => "dev",
        }
    }
}

/// A release tag is CalVer: exactly three dot-separated, non-empty runs of
/// ASCII digits.
pub open spec fn release_tag(t: Seq<char>) -> bool {
    let parts = text::split(t, '.');
    &&& parts.len() == 3
    &&& forall|i: int| 0 <= i < 3 ==> (#[trigger] parts[i]).len() > 0 && text::all_digits(parts[i])
}

fn digits_only(v: &Vec<char>, from: usize, to: usize) -> (res: bool)
    requires
        from <= to <= v@.len(),
    ensures
        res == (to > from && text::all_digits(v@.subrange(from as int, to as int))),
{
    if from == to {
        return false;
    }
    let mut i = from;
    while i < to
        invariant
            from <= i <= to <= v@.len(),
            forall|j: int| from <= j < i ==> text::is_digit(#[trigger] v@[j]),
        decreases to - i,
    {
        if !('0' <= v[i] && v[i] <= '9') {
            proof {
                assert(v@.subrange(from as int, to as int)[i - from] == v@[i as int]);
            }
            return false;
        }
        i = i + 1;
    }
    proof {
        let s = v@.subrange(from as int, to as int);
        assert forall|j: int| 0 <= j < s.len() implies text::is_digit(#[trigger] s[j]) by {
            assert(s[j] == v@[from + j]);
        }
    }
    true
}

/// Whether `tag` names a release (and not a signature, `latest`, ...).
pub fn is_release_tag(tag: &str) -> (res: bool)
    ensures
        res == release_tag(tag@),
{
    let v = text::chars_of(tag);
    let parts = text::split_ranges(&v, '.');
    if parts.len() != 3 {
        return false;
    }
    let ok = digits_only(&v, parts[0].0, parts[0].1) && digits_only(&v, parts[1].0, parts[1].1)
        && digits_only(&v, parts[2].0, parts[2].1);
    proof {
        let ps = text::split(tag@, '.');
        assert(ps[0] == v@.subrange(parts@[0].0 as int, parts@[0].1 as int));
        assert(ps[1] == v@.subrange(parts@[1].0 as int, parts@[1].1 as int));
        assert(ps[2] == v@.subrange(parts@[2].0 as int, parts@[2].1 as int));
        if ok {
            assert forall|i: int| 0 <= i < 3 implies (#[trigger] ps[i]).len() > 0 && text::all_digits(
                ps[i],
            ) by {
                if i == 0 {
                } else if i == 1 {
                } else {
                }
            }
        }
    }
    ok
}

/// Number `i` of a dotted tag, `0` where it is missing or does not parse.
pub open spec fn key_part(parts: Seq<Seq<char>>, i: int) -> u32 {
    if 0 <= i < parts.len() {
        match text::parse_u32(parts[i]) {
            Some(n) => n,
            None => 0,
        }
    } else {
        0
    }
}

/// The (year, month, patch) a tag is ordered by; leading zeros do not count.
pub open spec fn release_key(t: Seq<char>) -> (u32, u32, u32) {
    let parts = text::split(t, '.');
    (key_part(parts, 0), key_part(parts, 1), key_part(parts, 2))
}

/// Lexicographic order of keys: `a` strictly after `b`.
pub open spec fn key_gt(a: (u32, u32, u32), b: (u32, u32, u32)) -> bool {
    ||| a.0 > b.0
    ||| (a.0 == b.0 && a.1 > b.1)
    ||| (a.0 == b.0 && a.1 == b.1 && a.2 > b.2)
}

fn key_after(a: (u32, u32, u32), b: (u32, u32, u32)) -> (res: bool)
    ensures
        res == key_gt(a, b),
{
    a.0 > b.0 || (a.0 == b.0 && a.1 > b.1) || (a.0 == b.0 && a.1 == b.1 && a.2 > b.2)
}

fn part_value(v: &Vec<char>, parts: &Vec<(usize, usize)>, i: usize) -> (res: u32)
    requires
        forall|j: int|
            0 <= j < parts@.len() ==> {
                &&& (#[trigger] parts@[j]).0 <= parts@[j].1 <= v@.len()
            },
    ensures
        res == key_part(parts@.map_values(|r: (usize, usize)| v@.subrange(r.0 as int, r.1 as int)), i as int),
{
    if i < parts.len() {
        match text::parse_u32_at(v, parts[i].0, parts[i].1) {
            Some(n) => n,
            None => 0,
        }
    } else {
        0
    }
}

/// The key by which release tags are ordered.
pub fn release_sort_key(tag: &str) -> (res: (u32, u32, u32))
    ensures
        res == release_key(tag@),
{
    let v = text::chars_of(tag);
    let parts = text::split_ranges(&v, '.');
    proof {
        assert(parts@.map_values(|r: (usize, usize)| v@.subrange(r.0 as int, r.1 as int)) =~= text::split(
            tag@,
            '.',
        ));
    }
    (part_value(&v, &parts, 0), part_value(&v, &parts, 1), part_value(&v, &parts, 2))
}


/// The release tags among `tags`, in their order.
pub open spec fn releases_of(tags: Seq<Seq<char>>) -> Seq<Seq<char>> {
    tags.filter(release_pred())
}

pub open spec fn release_pred() -> spec_fn(Seq<char>) -> bool {
    |t: Seq<char>| release_tag(t)
}

pub open spec fn key_pred(k: (u32, u32, u32)) -> spec_fn(Seq<char>) -> bool {
    |t: Seq<char>| release_key(t) == k
}

/// The tags of `s` whose key is `k`, in their order.
pub open spec fn with_key(s: Seq<Seq<char>>, k: (u32, u32, u32)) -> Seq<Seq<char>> {
    s.filter(key_pred(k))
}

/// Newest first: no tag has a key after the key of a tag before it.
pub open spec fn newest_first(s: Seq<Seq<char>>) -> bool {
    forall|i: int, j: int| 0 <= i < j < s.len() ==> !key_gt(release_key(s[j]), release_key(s[i]))
}

proof fn lemma_filter_none<A>(s: Seq<A>, p: spec_fn(A) -> bool)
    requires
        forall|i: int| 0 <= i < s.len() ==> !p(#[trigger] s[i]),
    ensures
        s.filter(p) == Seq::<A>::empty(),
    decreases s.len(),
{
    reveal(Seq::filter);
    if s.len() > 0 {
        let t = s.drop_last();
        assert forall|i: int| 0 <= i < t.len() implies !p(#[trigger] t[i]) by {
            assert(t[i] == s[i]);
        }
        lemma_filter_none(t, p);
    }
    assert(s.filter(p) =~= Seq::<A>::empty());
}

proof fn lemma_insert_in_order(
    prev: Seq<Seq<char>>,
    p: int,
    x: Seq<char>,
    before: Seq<Seq<char>>,
)
    requires
        newest_first(prev),
        0 <= p <= prev.len(),
        forall|j: int| 0 <= j < p ==> !key_gt(release_key(x), release_key(#[trigger] prev[j])),
        p < prev.len() ==> key_gt(release_key(x), release_key(prev[p])),
        forall|k: (u32, u32, u32)| #[trigger] with_key(prev, k) == with_key(before, k),
    ensures
        newest_first(prev.insert(p, x)),
        forall|k: (u32, u32, u32)|
            #[trigger] with_key(prev.insert(p, x), k) == with_key(before.push(x), k),
{
    let now = prev.insert(p, x);
    let a = prev.take(p);
    let b = prev.skip(p);
    assert(now =~= a + seq![x] + b);
    assert(prev =~= a + b);
    assert forall|j: int| 0 <= j < b.len() implies key_gt(
        release_key(x),
        release_key(#[trigger] b[j]),
    ) by {
        assert(b[j] == prev[p + j]);
        if j > 0 {
            assert(!key_gt(release_key(prev[p + j]), release_key(prev[p])));
        }
    }
    assert forall|m: int, n: int| 0 <= m < n < now.len() implies !key_gt(
        release_key(now[n]),
        release_key(now[m]),
    ) by {
        if m < p && n < p {
            assert(now[m] == prev[m] && now[n] == prev[n]);
        } else if m < p && n == p {
            assert(now[m] == prev[m]);
        } else if m < p {
            assert(now[m] == prev[m] && now[n] == prev[n - 1]);
        } else if m == p {
            assert(now[n] == b[n - p - 1]);
        } else {
            assert(now[m] == prev[m - 1] && now[n] == prev[n - 1]);
        }
    }
    assert forall|k: (u32, u32, u32)| #[trigger]
        with_key(now, k) == with_key(before.push(x), k) by {
        let pk = key_pred(k);
        assert((a + seq![x] + b).filter(pk) == (a + seq![x]).filter(pk) + b.filter(pk));
        assert((a + b).filter(pk) == a.filter(pk) + b.filter(pk));
        assert((a + seq![x]) =~= a.push(x));
        a.lemma_filter_push(x, pk);
        before.lemma_filter_push(x, pk);
        assert(with_key(prev, k) == with_key(before, k));
        if release_key(x) == k {
            assert forall|j: int| 0 <= j < b.len() implies !pk(#[trigger] b[j]) by {
            }
            lemma_filter_none(b, pk);
            assert(b.filter(pk) =~= Seq::<Seq<char>>::empty());
            assert(a.filter(pk) + b.filter(pk) =~= a.filter(pk));
            assert(with_key(now, k) =~= a.filter(pk).push(x) + b.filter(pk));
        } else {
            assert(with_key(now, k) == a.filter(pk) + b.filter(pk));
        }
    }
}

/// The release tags of `tags`, newest first; tags with equal keys keep
/// their order.
pub fn releases_newest_first(tags: &Vec<String>) -> (res: Vec<String>)
    ensures
        newest_first(text::views(res@)),
        forall|k: (u32, u32, u32)|
            #[trigger] with_key(text::views(res@), k) == with_key(releases_of(text::views(tags@)), k),
{
    let mut out: Vec<String> = Vec::new();
    let mut i: usize = 0;
    while i < tags.len()
        invariant
            i <= tags@.len(),
            newest_first(text::views(out@)),
            forall|k: (u32, u32, u32)|
                #[trigger] with_key(text::views(out@), k) == with_key(
                    releases_of(text::views(tags@).take(i as int)),
                    k,
                ),
        decreases tags@.len() - i,
    {
        let ghost prev = text::views(out@);
        let ghost x = tags@[i as int]@;
        proof {
            assert(text::views(tags@).take(i + 1) =~= text::views(tags@).take(i as int).push(x));
        }
        if is_release_tag(tags[i].as_str()) {
            let key = release_sort_key(tags[i].as_str());
            let mut p: usize = 0;
            while p < out.len() && !key_after(key, release_sort_key(out[p].as_str()))
                invariant
                    p <= out@.len(),
                    key == release_key(x),
                    text::views(out@) == prev,
                    newest_first(prev),
                    forall|j: int| 0 <= j < p ==> !key_gt(key, release_key(#[trigger] prev[j])),
                decreases out@.len() - p,
            {
                p = p + 1;
            }
            out.insert(p, tags[i].clone());
            proof {
                assert(text::views(out@) =~= prev.insert(p as int, x));
                lemma_insert_in_order(prev, p as int, x, releases_of(text::views(tags@).take(i as int)));
                let pr = release_pred();
                text::views(tags@).take(i as int).lemma_filter_push(x, pr);
                assert(releases_of(text::views(tags@).take(i + 1)) == releases_of(
                    text::views(tags@).take(i as int),
                ).push(x));
            }
        } else {
            proof {
                assert forall|k: (u32, u32, u32)| #[trigger]
                    with_key(text::views(out@), k) == with_key(
                        releases_of(text::views(tags@).take(i + 1)),
                        k,
                    ) by {
                    let pr = release_pred();
                    text::views(tags@).take(i as int).lemma_filter_push(x, pr);
                    assert(releases_of(text::views(tags@).take(i + 1)) == text::views(tags@).take(
                        i as int,
                    ).filter(pr));
                }
            }
        }
        i = i + 1;
    }
    proof {
        assert(text::views(tags@).take(tags@.len() as int) =~= text::views(tags@));
    }
    out
}


/// Where the creation date of a release stands.
#[derive(Clone, Copy, Debug, PartialEq, Eq, Structural)]
pub enum FetchStatus {
    Idle,
    Loading,
    Done,
    Failed,
}

/// What is known of a release beyond its tag.
#[derive(Clone, Debug)]
pub struct TagMeta {
    pub created: Option<String>,
    pub status: FetchStatus,
}

/// Whether the creation date must (still or again) be fetched.
pub fn should_fetch(status: FetchStatus) -> (res: bool)
    ensures
        res == (status == FetchStatus::Idle || status == FetchStatus::Failed),
{
    match status {
        FetchStatus::Idle | FetchStatus::Failed => true,
        _ => false,
    }
}

/// `s` begins with a date `YYYY-MM-DD`.
pub open spec fn starts_with_date(s: Seq<char>) -> bool {
    &&& s.len() >= 10
    &&& text::is_digit(s[0]) && text::is_digit(s[1]) && text::is_digit(s[2]) && text::is_digit(s[3])
    &&& s[4] == '-'
    &&& text::is_digit(s[5]) && text::is_digit(s[6])
    &&& s[7] == '-'
    &&& text::is_digit(s[8]) && text::is_digit(s[9])
}

/// The date shown for a creation timestamp: the leading `YYYY-MM-DD`
/// where there is one, else the text unchanged.
pub open spec fn date_shown(raw: Seq<char>) -> Seq<char> {
    if starts_with_date(raw) {
        raw.take(10)
    } else {
        raw
    }
}

/// The date shown for a creation timestamp.
pub fn format_created(raw: &str) -> (res: String)
    ensures
        res@ == date_shown(raw@),
{
    let v = text::chars_of(raw);
    let valid = v.len() >= 10 && is_digit_char(v[0]) && is_digit_char(v[1]) && is_digit_char(v[2])
        && is_digit_char(v[3]) && v[4] == '-' && is_digit_char(v[5]) && is_digit_char(v[6])
        && v[7] == '-' && is_digit_char(v[8]) && is_digit_char(v[9]);
    if valid {
        text::string_from(&v, 0, 10)
    } else {
        proof {
            assert(v@.subrange(0, v@.len() as int) =~= v@);
        }
        text::string_from(&v, 0, v.len())
    }
}

fn is_digit_char(c: char) -> (res: bool)
    ensures
        res == text::is_digit(c),
{
    '0' <= c && c <= '9'
}

/// Showing the date of a shown date changes nothing.
pub proof fn law_date_shown_is_stable(raw: Seq<char>)
    ensures
        date_shown(date_shown(raw)) == date_shown(raw),
{
    if starts_with_date(raw) {
        assert(raw.take(10).take(10) =~= raw.take(10));
    }
}

proof fn lemma_leading_zero_value(s: Seq<char>)
    requires
        text::all_digits(s),
    ensures
        text::digits_value(seq!['0'] + s) == text::digits_value(s),
    decreases s.len(),
{
    if s.len() > 0 {
        let t = s.drop_last();
        assert(text::all_digits(t)) by {
            assert forall|j: int| 0 <= j < t.len() implies text::is_digit(#[trigger] t[j]) by {
                assert(t[j] == s[j]);
            }
        }
        lemma_leading_zero_value(t);
        assert((seq!['0'] + s).drop_last() =~= seq!['0'] + t);
        assert((seq!['0'] + s).last() == s.last());
    } else {
        assert(seq!['0'] + s =~= seq!['0']);
        assert(seq!['0'].drop_last() =~= Seq::<char>::empty());
    }
}

/// The numbers a release is ordered by do not change when a zero is put in
/// front of one of them: `2026.08.11` and `2026.8.11` come at the same
/// place.
pub proof fn law_sort_key_ignores_leading_zeros(parts: Seq<Seq<char>>, i: int, j: int)
    requires
        0 <= i < parts.len(),
        parts[i].len() > 0,
        text::all_digits(parts[i]),
    ensures
        key_part(parts.update(i, seq!['0'] + parts[i]), j) == key_part(parts, j),
{
    let s = parts[i];
    let z = seq!['0'] + s;
    if j == i {
        lemma_leading_zero_value(s);
        assert(text::all_digits(z)) by {
            assert forall|k: int| 0 <= k < z.len() implies text::is_digit(#[trigger] z[k]) by {
                if k > 0 {
                    assert(z[k] == s[k - 1]);
                }
            }
        }
        assert(z[0] != '+');
        assert(s[0] != '+');
        assert(text::dec_value(z) == Some(text::digits_value(z)));
        assert(text::dec_value(s) == Some(text::digits_value(s)));
    }
}

proof fn lemma_filter_all<A>(s: Seq<A>, p: spec_fn(A) -> bool)
    requires
        forall|i: int| 0 <= i < s.len() ==> p(#[trigger] s[i]),
    ensures
        s.filter(p) == s,
    decreases s.len(),
{
    if s.len() > 0 {
        let rest = s.drop_first();
        assert forall|i: int| 0 <= i < rest.len() implies p(#[trigger] rest[i]) by {
            assert(rest[i] == s[i + 1]);
        }
        lemma_filter_all(rest, p);
        rest.lemma_filter_prepend(s[0], p);
        assert(seq![s[0]] + rest =~= s);
    }
}

/// A tag of a list lies in the list of the tags with its key.
proof fn lemma_in_own_key(s: Seq<Seq<char>>, i: int)
    requires
        0 <= i < s.len(),
    ensures
        with_key(s, release_key(s[i])).contains(s[i]),
{
    s.lemma_filter_contains(key_pred(release_key(s[i])), i);
}

/// A tag in the list of the tags with key `k` has key `k` and is in the
/// list.
proof fn lemma_key_member(s: Seq<Seq<char>>, k: (u32, u32, u32), x: Seq<char>)
    requires
        with_key(s, k).contains(x),
    ensures
        release_key(x) == k,
        s.contains(x),
{
    s.lemma_filter_contains_rev(key_pred(k), x);
    let j = choose|j: int| 0 <= j < with_key(s, k).len() && with_key(s, k)[j] == x;
    s.lemma_filter_pred(key_pred(k), j);
}

/// Two newest-first lists with the same tags, in the same order, under
/// each key are the same list.
proof fn lemma_newest_first_unique(s: Seq<Seq<char>>, t: Seq<Seq<char>>)
    requires
        newest_first(s),
        newest_first(t),
        forall|k: (u32, u32, u32)| #[trigger] with_key(s, k) == with_key(t, k),
    ensures
        s == t,
    decreases s.len() + t.len(),
{
    if s.len() == 0 || t.len() == 0 {
        if s.len() > 0 {
            lemma_in_own_key(s, 0);
            lemma_key_member(t, release_key(s[0]), s[0]);
        }
        if t.len() > 0 {
            lemma_in_own_key(t, 0);
            lemma_key_member(s, release_key(t[0]), t[0]);
        }
        assert(s =~= t);
        return;
    }
    let a = release_key(s[0]);
    let b = release_key(t[0]);
    if key_gt(a, b) {
        lemma_in_own_key(s, 0);
        lemma_key_member(t, a, s[0]);
        let j = choose|j: int| 0 <= j < t.len() && t[j] == s[0];
        assert(j > 0);
        assert(false);
    }
    if key_gt(b, a) {
        lemma_in_own_key(t, 0);
        lemma_key_member(s, b, t[0]);
        let j = choose|j: int| 0 <= j < s.len() && s[j] == t[0];
        assert(j > 0);
        assert(false);
    }
    assert(a == b);
    let s1 = s.drop_first();
    let t1 = t.drop_first();
    assert(seq![s[0]] + s1 =~= s);
    assert(seq![t[0]] + t1 =~= t);
    assert forall|k: (u32, u32, u32)| #[trigger] with_key(s1, k) == with_key(t1, k) by {
        s1.lemma_filter_prepend(s[0], key_pred(k));
        t1.lemma_filter_prepend(t[0], key_pred(k));
        assert(with_key(s, k) == with_key(t, k));
        if k == a {
            assert(with_key(s, k) == seq![s[0]] + with_key(s1, k));
            assert(with_key(t, k) == seq![t[0]] + with_key(t1, k));
            assert(with_key(s1, k) =~= with_key(s, k).drop_first());
            assert(with_key(t1, k) =~= with_key(t, k).drop_first());
        } else {
            assert(with_key(s, k) =~= with_key(s1, k));
            assert(with_key(t, k) =~= with_key(t1, k));
        }
    }
    s1.lemma_filter_prepend(s[0], key_pred(a));
    t1.lemma_filter_prepend(t[0], key_pred(a));
    assert(with_key(s, a)[0] == s[0]);
    assert(with_key(t, a)[0] == t[0]);
    assert(newest_first(s1)) by {
        assert forall|i: int, j: int| 0 <= i < j < s1.len() implies !key_gt(
            release_key(s1[j]),
            release_key(s1[i]),
        ) by {
            assert(s1[i] == s[i + 1] && s1[j] == s[j + 1]);
        }
    }
    assert(newest_first(t1)) by {
        assert forall|i: int, j: int| 0 <= i < j < t1.len() implies !key_gt(
            release_key(t1[j]),
            release_key(t1[i]),
        ) by {
            assert(t1[i] == t[i + 1] && t1[j] == t[j + 1]);
        }
    }
    lemma_newest_first_unique(s1, t1);
}

/// Ordering the releases of a list that is already ordered changes
/// nothing: where `once` is what `releases_newest_first` gives for `tags`
/// and `twice` what it gives for `once`, they are equal.
pub proof fn law_newest_first_is_stable(
    tags: Seq<Seq<char>>,
    once: Seq<Seq<char>>,
    twice: Seq<Seq<char>>,
)
    requires
        newest_first(once),
        forall|k: (u32, u32, u32)| #[trigger] with_key(once, k) == with_key(releases_of(tags), k),
        newest_first(twice),
        forall|k: (u32, u32, u32)| #[trigger] with_key(twice, k) == with_key(releases_of(once), k),
    ensures
        twice == once,
{
    assert forall|i: int| 0 <= i < once.len() implies release_pred()(#[trigger] once[i]) by {
        lemma_in_own_key(once, i);
        let k = release_key(once[i]);
        assert(with_key(once, k) == with_key(releases_of(tags), k));
        lemma_key_member(releases_of(tags), k, once[i]);
        tags.lemma_filter_contains_rev(release_pred(), once[i]);
        let j = choose|j: int| 0 <= j < releases_of(tags).len() && releases_of(tags)[j] == once[i];
        tags.lemma_filter_pred(release_pred(), j);
    }
    lemma_filter_all(once, release_pred());
    assert(releases_of(once) == once);
    lemma_newest_first_unique(twice, once);
}

} // verus!
