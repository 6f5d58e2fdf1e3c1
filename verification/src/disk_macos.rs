//! Install targets among the disks `diskutil` describes on macOS.

use vstd::prelude::*;

use crate::disk::{join_groups, models, push_grouped, removable_first, Disk, DiskModel};
use crate::oci::concat;
use crate::text;

verus! {

broadcast use vstd::seq_lib::group_seq_properties;

/// What `diskutil info -plist` says of a disk; a field is `None` where the
/// key is missing or of another type.
pub struct DiskInfo {
    pub total_size: Option<u64>,
    pub internal: Option<bool>,
    pub removable: Option<bool>,
    pub ejectable: Option<bool>,
    pub bus_protocol: Option<String>,
    pub media_name: Option<String>,
}

/// A disk description, by the characters of its strings.
pub struct DiskInfoModel {
    pub total_size: Option<u64>,
    pub internal: Option<bool>,
    pub removable: Option<bool>,
    pub ejectable: Option<bool>,
    pub bus_protocol: Option<Seq<char>>,
    pub media_name: Option<Seq<char>>,
}

impl View for DiskInfo {
    type V = DiskInfoModel;

    open spec fn view(&self) -> DiskInfoModel {
        DiskInfoModel {
            total_size: self.total_size,
            internal: self.internal,
            removable: self.removable,
            ejectable: self.ejectable,
            bus_protocol: crate::disk::opt_view(self.bus_protocol),
            media_name: crate::disk::opt_view(self.media_name),
        }
    }
}

/// What `plist` reads from the bytes of a `diskutil` answer: `None` where
/// they are not a plist holding a dictionary; a function of the bytes alone.
pub uninterp spec fn diskutil_info(bytes: Seq<u8>) -> Option<DiskInfoModel>;

/// `plist::Value::from_reader` and the dictionary lookups of `TotalSize`
/// (unsigned integer), `Internal`, `Removable`, `Ejectable` (booleans),
/// `BusProtocol` and `MediaName` (strings). Stated only as a function of the
/// bytes; the plist format is left to the outside crate.
#[verifier::external_body]
fn parse_disk_info(bytes: &[u8]) -> (res: Option<DiskInfo>)
    ensures
        match res {
            Some(i) => diskutil_info(bytes@) == Some(i@),
            None => diskutil_info(bytes@).is_none(),
        },
{
    let value = plist::Value::from_reader(std::io::Cursor::new(bytes)).ok()?;
    let d = value.as_dictionary()?;
    let text = |k: &str| d.get(k).and_then(plist::Value::as_string).map(String::from);
    Some(DiskInfo {
        total_size: d.get("TotalSize").and_then(plist::Value::as_unsigned_integer),
        internal: d.get("Internal").and_then(plist::Value::as_boolean),
        removable: d.get("Removable").and_then(plist::Value::as_boolean),
        ejectable: d.get("Ejectable").and_then(plist::Value::as_boolean),
        bus_protocol: text("BusProtocol"),
        media_name: text("MediaName"),
    })
}

/// `str::replace(from, to)` for a non-empty `from`: each occurrence, left to
/// right and not overlapping, replaced.
pub open spec fn replace_all(s: Seq<char>, from: Seq<char>, to: Seq<char>) -> Seq<char>
    recommends
        from.len() > 0,
    decreases s.len(),
{
    if s.len() == 0 || from.len() == 0 {
        s
    } else if from.is_prefix_of(s) {
        to + replace_all(s.skip(from.len() as int), from, to)
    } else {
        seq![s[0]] + replace_all(s.drop_first(), from, to)
    }
}

/// `s.replace(from, to)`, `from` not empty.
pub fn replace_str(s: &str, from: &str, to: &str) -> (res: String)
    requires
        from@.len() > 0,
    ensures
        res@ == replace_all(s@, from@, to@),
{
    let v = text::chars_of(s);
    let flen = text::chars_of(from).len();
    let mut out = String::new();
    let mut i: usize = 0;
    proof {
        assert(v@.skip(0) =~= v@);
    }
    while i < v.len()
        invariant
            i <= v@.len(),
            v@ == s@,
            flen == from@.len(),
            flen > 0,
            replace_all(s@, from@, to@) == out@ + replace_all(v@.skip(i as int), from@, to@),
        decreases v@.len() - i,
    {
        proof {
            assert(v@.subrange(i as int, v@.len() as int) =~= v@.skip(i as int));
        }
        if text::has_prefix_at(&v, i, v.len(), from) {
            let ghost before = out@;
            out.append(to);
            proof {
                assert(v@.skip(i as int).skip(flen as int) =~= v@.skip(i + flen));
                assert(out@ + replace_all(v@.skip(i + flen), from@, to@) =~= before + (to@
                    + replace_all(v@.skip(i + flen), from@, to@)));
            }
            i = i + flen;
        } else {
            let ghost before = out@;
            text::push_char(&mut out, v[i]);
            proof {
                assert(v@.skip(i as int).drop_first() =~= v@.skip(i + 1));
                assert(v@.skip(i as int)[0] == v@[i as int]);
                assert(out@ + replace_all(v@.skip(i + 1), from@, to@) =~= before + (seq![v@[i as int]]
                    + replace_all(v@.skip(i + 1), from@, to@)));
            }
            i = i + 1;
        }
    }
    proof {
        assert(v@.skip(i as int).len() == 0);
        assert(out@ + v@.skip(i as int) =~= out@);
    }
    out
}

/// The disk that `diskutil` describes as `info` for `device`, where it is
/// an install target: it has a size, and is external or removable. Writes
/// go to the raw device (`/dev/rdisk...`).
pub open spec fn macos_disk(device: Seq<char>, info: DiskInfoModel) -> Option<DiskModel> {
    match info.total_size {
        None => None,
        Some(size) => {
            let internal = match info.internal {
                Some(b) => b,
                None => true,
            };
            let removable = match info.removable {
                Some(b) => b,
                None => false,
            };
            let ejectable = match info.ejectable {
                Some(b) => b,
                None => false,
            };
            let is_removable = removable || ejectable;
            if size == 0 || (internal && !is_removable) {
                None
            } else {
                Some(
                    DiskModel {
                        device: replace_all(device, "/dev/disk"@, "/dev/rdisk"@),
                        description: match info.media_name {
                            Some(n) => n,
                            None => device,
                        },
                        size,
                        is_removable,
                        bus_type: match info.bus_protocol {
                            Some(b) => b,
                            None => "Unknown"@,
                        },
                    },
                )
            }
        },
    }
}

fn str_or(o: &Option<String>, d: &str) -> (res: String)
    ensures
        res@ == (match crate::disk::opt_view(*o) {
            Some(s) => s,
            None => d@,
        }),
{
    match o {
        Some(s) => s.clone(),
        None => String::from_str(d),
    }
}

/// The install target that `diskutil` describes, from its (plist) answer
/// about `device`.
pub fn info(device: &str, output: &[u8]) -> (res: Option<Disk>)
    ensures
        match res {
            Some(d) => diskutil_info(output@) matches Some(i) && macos_disk(device@, i) == Some(
                d@,
            ),
            None => match diskutil_info(output@) {
                Some(i) => macos_disk(device@, i).is_none(),
                None => true,
            },
        },
{
    let i = parse_disk_info(output)?;
    let size = i.total_size?;
    if size == 0 {
        return None;
    }
    let internal = match i.internal {
        Some(b) => b,
        None => true,
    };
    let removable = match i.removable {
        Some(b) => b,
        None => false,
    };
    let ejectable = match i.ejectable {
        Some(b) => b,
        None => false,
    };
    let is_removable = removable || ejectable;
    if internal && !is_removable {
        return None;
    }
    proof {
        reveal_strlit("/dev/disk");
    }
    Some(
        Disk {
            device: replace_str(device, "/dev/disk", "/dev/rdisk"),
            description: str_or(&i.media_name, device),
            size,
            is_removable,
            bus_type: str_or(&i.bus_protocol, "Unknown"),
        },
    )
}

/// Whole disks among the names in `/dev`: `disk<N>`, not a slice
/// (`disk<N>s<M>`).
pub open spec fn whole_disk(name: Seq<char>) -> bool {
    "disk"@.is_prefix_of(name) && !name.contains('s')
}

/// `a` sorts before `b` (code point order, as `str` compares).
pub open spec fn lex_lt(a: Seq<char>, b: Seq<char>) -> bool
    decreases a.len(),
{
    if a.len() == 0 {
        b.len() > 0
    } else if b.len() == 0 {
        false
    } else if a[0] != b[0] {
        (a[0] as u32) < (b[0] as u32)
    } else {
        lex_lt(a.drop_first(), b.drop_first())
    }
}

proof fn lemma_lex_trans(a: Seq<char>, b: Seq<char>, c: Seq<char>)
    requires
        lex_lt(a, b),
        lex_lt(b, c),
    ensures
        lex_lt(a, c),
    decreases a.len(),
{
    if a.len() > 0 && b.len() > 0 && c.len() > 0 && a[0] == b[0] && b[0] == c[0] {
        lemma_lex_trans(a.drop_first(), b.drop_first(), c.drop_first());
    }
}

proof fn lemma_lex_irreflexive(a: Seq<char>)
    ensures
        !lex_lt(a, a),
    decreases a.len(),
{
    if a.len() > 0 {
        lemma_lex_irreflexive(a.drop_first());
    }
}

fn lex_less(a: &Vec<char>, b: &Vec<char>) -> (res: bool)
    ensures
        res == lex_lt(a@, b@),
{
    let mut i: usize = 0;
    while i < a.len() && i < b.len() && a[i] == b[i]
        invariant
            i <= a@.len(),
            i <= b@.len(),
            lex_lt(a@, b@) == lex_lt(a@.skip(i as int), b@.skip(i as int)),
        decreases a@.len() - i,
    {
        proof {
            assert(a@.skip(i as int).drop_first() =~= a@.skip(i + 1));
            assert(b@.skip(i as int).drop_first() =~= b@.skip(i + 1));
        }
        i = i + 1;
    }
    if i == a.len() {
        i < b.len()
    } else if i == b.len() {
        false
    } else {
        (a[i] as u32) < (b[i] as u32)
    }
}

/// Sorted: no name sorts before an earlier one.
pub open spec fn lex_sorted(s: Seq<Seq<char>>) -> bool {
    forall|i: int, j: int| 0 <= i < j < s.len() ==> !lex_lt(s[j], s[i])
}

/// The whole disks among the names found in `/dev`, sorted.
pub fn disk_names(names: &Vec<String>) -> (res: Vec<String>)
    ensures
        lex_sorted(text::views(res@)),
        text::views(res@).to_multiset() == text::views(names@).filter(
            |n: Seq<char>| whole_disk(n),
        ).to_multiset(),
{
    let mut out: Vec<String> = Vec::new();
    let mut keys: Vec<Vec<char>> = Vec::new();
    let mut i: usize = 0;
    while i < names.len()
        invariant
            i <= names@.len(),
            keys@.len() == out@.len(),
            forall|j: int| 0 <= j < keys@.len() ==> (#[trigger] keys@[j])@ == out@[j]@,
            lex_sorted(text::views(out@)),
            text::views(out@).to_multiset() == text::views(names@).take(i as int).filter(
                |n: Seq<char>| whole_disk(n),
            ).to_multiset(),
        decreases names@.len() - i,
    {
        let x = text::chars_of(names[i].as_str());
        let ghost xs = x@;
        proof {
            let t = text::views(names@).take(i + 1);
            assert(t.drop_last() =~= text::views(names@).take(i as int));
            assert(t.last() == xs);
            text::views(names@).take(i as int).lemma_filter_push(xs, |n: Seq<char>| whole_disk(n));
            assert(t =~= text::views(names@).take(i as int).push(xs));
        }
        let has_s = text::contains_at(&x, "s");
        proof {
            reveal_strlit("s");
            if xs.contains('s') {
                let k = choose|k: int| 0 <= k < xs.len() && xs[k] == 's';
                assert("s"@.is_prefix_of(xs.skip(k)));
            }
            if has_s {
                let k = choose|k: int| 0 <= k <= xs.len() && #[trigger] "s"@.is_prefix_of(xs.skip(k));
                assert("s"@.len() == 1 && "s"@[0] == 's');
                assert(xs.skip(k)[0] == 's');
                assert(xs.skip(k)[0] == xs[k]);
            }
        }
        if text::has_prefix_at(&x, 0, x.len(), "disk") && !has_s {
            proof {
                assert(x@.subrange(0, x@.len() as int) =~= x@);
            }
            let ghost prev = text::views(out@);
            let mut p: usize = 0;
            while p < keys.len() && !lex_less(&x, &keys[p])
                invariant
                    p <= keys@.len(),
                    keys@.len() == out@.len(),
                    forall|j: int| 0 <= j < keys@.len() ==> (#[trigger] keys@[j])@ == out@[j]@,
                    text::views(out@) == prev,
                    forall|j: int| 0 <= j < p ==> !lex_lt(xs, #[trigger] prev[j]),
                    x@ == xs,
                decreases keys@.len() - p,
            {
                p = p + 1;
            }
            proof {
                if p < keys@.len() {
                    assert(keys@[p as int]@ == prev[p as int]);
                    assert(lex_lt(xs, prev[p as int]));
                }
            }
            out.insert(p, names[i].clone());
            keys.insert(p, x);
            proof {
                let now = text::views(out@);
                assert(now =~= prev.insert(p as int, xs));
                assert forall|m: int, n: int| 0 <= m < n < now.len() implies !lex_lt(
                    now[n],
                    now[m],
                ) by {
                    if m < p && n < p {
                        assert(now[m] == prev[m] && now[n] == prev[n]);
                    } else if m < p && n == p {
                        assert(now[m] == prev[m]);
                    } else if m < p {
                        assert(now[m] == prev[m] && now[n] == prev[n - 1]);
                    } else if m == p {
                        assert(now[n] == prev[n - 1]);
                        if lex_lt(prev[n - 1], xs) {
                            lemma_lex_trans(prev[n - 1], xs, prev[p as int]);
                            if n - 1 > p {
                                assert(!lex_lt(prev[n - 1], prev[p as int]));
                            } else {
                                lemma_lex_irreflexive(prev[p as int]);
                            }
                        }
                    } else {
                        assert(now[m] == prev[m - 1] && now[n] == prev[n - 1]);
                    }
                }
                vstd::seq_lib::to_multiset_insert(prev, p as int, xs);
                assert forall|j: int| 0 <= j < keys@.len() implies (#[trigger] keys@[j])@
                    == out@[j]@ by {
                    if j < p {
                    } else if j > p {
                    }
                }
            }
        } else {
            proof {
                assert(!whole_disk(xs)) by {
                    assert(x@.subrange(0, x@.len() as int) =~= x@);
                }
            }
        }
        i = i + 1;
    }
    proof {
        assert(text::views(names@).take(names@.len() as int) =~= text::views(names@));
    }
    out
}

/// Removable disks first, each group in its order.
pub fn order_disks(disks: Vec<Disk>) -> (res: Vec<Disk>)
    ensures
        models(res@) == removable_first(models(disks@)),
{
    let mut removable: Vec<Disk> = Vec::new();
    let mut fixed: Vec<Disk> = Vec::new();
    let mut rest = disks;
    let ghost all = models(disks@);
    let ghost mut done: int = 0;
    while rest.len() > 0
        invariant
            0 <= done <= all.len(),
            models(rest@) == all.skip(done),
            models(removable@) == all.take(done).filter(|d: DiskModel| d.is_removable),
            models(fixed@) == all.take(done).filter(|d: DiskModel| !d.is_removable),
        decreases rest@.len(),
    {
        proof {
            assert(models(rest@).len() == rest@.len());
            assert(done < all.len());
        }
        let d = rest.remove(0);
        proof {
            assert(all.skip(done)[0] == d@);
            assert(all.skip(done)[0] == all[done]);
            assert(all.take(done + 1) =~= all.take(done).push(d@));
            all.take(done).lemma_filter_push(d@, |x: DiskModel| x.is_removable);
            all.take(done).lemma_filter_push(d@, |x: DiskModel| !x.is_removable);
            assert(models(rest@) =~= all.skip(done + 1));
            done = done + 1;
        }
        push_grouped(&mut removable, &mut fixed, d);
    }
    proof {
        assert(all.skip(done).len() == 0);
        assert(all.take(done) =~= all);
    }
    join_groups(removable, fixed)
}

/// Removable or ejectable media with a size are offered, as removable,
/// whether or not the reader is built in; an external disk with a size is
/// offered; a built-in (or unknown) disk that is neither removable nor
/// ejectable, and a disk without a size, never is.
pub proof fn law_removable_media_offered(device: Seq<char>, info: DiskInfoModel)
    ensures
        (info.total_size matches Some(n) && n > 0) && (info.removable == Some(true)
            || info.ejectable == Some(true)) ==> (macos_disk(device, info) matches Some(d)
            && d.is_removable && Some(d.size) == info.total_size),
        (info.total_size matches Some(n) && n > 0) && info.internal == Some(false) ==> (macos_disk(
            device,
            info,
        ) matches Some(d) && Some(d.size) == info.total_size && d.is_removable == (info.removable
            == Some(true) || info.ejectable == Some(true))),
        info.internal != Some(false) && info.removable != Some(true) && info.ejectable != Some(
            true,
        ) ==> macos_disk(device, info) is None,
        (info.total_size is None || info.total_size == Some(0u64)) ==> macos_disk(device, info) is None,
{
}

proof fn lemma_replace_absent(s: Seq<char>, from: Seq<char>, to: Seq<char>)
    requires
        from.len() > 0,
        !s.contains(from[0]),
    ensures
        replace_all(s, from, to) == s,
    decreases s.len(),
{
    if s.len() > 0 {
        assert(!from.is_prefix_of(s)) by {
            if from.is_prefix_of(s) {
                assert(s[0] == s.subrange(0, from.len() as int)[0]);
            }
        }
        assert(!s.drop_first().contains(from[0])) by {
            if s.drop_first().contains(from[0]) {
                let j = choose|j: int| 0 <= j < s.drop_first().len() && s.drop_first()[j] == from[0];
                assert(s[j + 1] == from[0]);
            }
        }
        lemma_replace_absent(s.drop_first(), from, to);
        assert(seq![s[0]] + s.drop_first() =~= s);
    }
}

/// An offered disk `/dev/disk<N>` is written through its raw device
/// `/dev/rdisk<N>`; it is described by its media name, else by the device
/// path, and its bus is the reported protocol, else `Unknown`.
pub proof fn law_disk_written_through_raw_device(n: Seq<char>, info: DiskInfoModel)
    requires
        !n.contains('/'),
    ensures
        macos_disk("/dev/disk"@ + n, info) matches Some(d) ==> (d.device == "/dev/rdisk"@ + n
            && d.description == (match info.media_name {
            Some(m) => m,
            None => "/dev/disk"@ + n,
        }) && d.bus_type == (match info.bus_protocol {
            Some(b) => b,
            None => "Unknown"@,
        })),
{
    reveal_strlit("/dev/disk");
    let s = "/dev/disk"@ + n;
    assert("/dev/disk"@.is_prefix_of(s)) by {
        assert(s.subrange(0, 9) =~= "/dev/disk"@);
    }
    assert(s.skip(9) =~= n);
    lemma_replace_absent(n, "/dev/disk"@, "/dev/rdisk"@);
}

} // verus!
