//! Which block devices the installer offers as targets, and how it shows
//! them.

use vstd::prelude::*;

use crate::text;

verus! {

broadcast use vstd::seq_lib::group_seq_properties;

/// A disk the image can be written to.
pub struct Disk {
    pub device: String,
    pub description: String,
    pub size: u64,
    pub is_removable: bool,
    pub bus_type: String,
}

/// A disk, by the characters of its strings.
pub struct DiskModel {
    pub device: Seq<char>,
    pub description: Seq<char>,
    pub size: u64,
    pub is_removable: bool,
    pub bus_type: Seq<char>,
}

impl View for Disk {
    type V = DiskModel;

    open spec fn view(&self) -> DiskModel {
        DiskModel {
            device: self.device@,
            description: self.description@,
            size: self.size,
            is_removable: self.is_removable,
            bus_type: self.bus_type@,
        }
    }
}

pub const BYTES_PER_GB: u64 = 1_000_000_000;

impl Disk {
    /// Size in whole (decimal) gigabytes, rounded down.
    pub fn size_gb(&self) -> (res: u64)
        ensures
            res == self.size / BYTES_PER_GB,
    {
        self.size / BYTES_PER_GB
    }
}

/// The disks of a list, by their models.
pub open spec fn models(v: Seq<Disk>) -> Seq<DiskModel> {
    v.map_values(|d: Disk| d@)
}

/// Removable disks first, each group in its order (a stable sort by
/// "not removable").
pub open spec fn removable_first(s: Seq<DiskModel>) -> Seq<DiskModel> {
    s.filter(|d: DiskModel| d.is_removable) + s.filter(|d: DiskModel| !d.is_removable)
}

/// Appends `d` to the removable or the fixed group.
pub fn push_grouped(removable: &mut Vec<Disk>, fixed: &mut Vec<Disk>, d: Disk)
    ensures
        d.is_removable ==> models(final(removable)@) == models(old(removable)@).push(d@)
            && final(fixed)@ == old(fixed)@,
        !d.is_removable ==> models(final(fixed)@) == models(old(fixed)@).push(d@)
            && final(removable)@ == old(removable)@,
{
    if d.is_removable {
        removable.push(d);
        proof {
            assert(models(final(removable)@) =~= models(old(removable)@).push(d@));
        }
    } else {
        fixed.push(d);
        proof {
            assert(models(final(fixed)@) =~= models(old(fixed)@).push(d@));
        }
    }
}

/// `removable` followed by `fixed`.
pub fn join_groups(removable: Vec<Disk>, fixed: Vec<Disk>) -> (res: Vec<Disk>)
    ensures
        models(res@) == models(removable@) + models(fixed@),
{
    let mut out = removable;
    let mut fixed = fixed;
    let ghost r = out@;
    let ghost f = fixed@;
    out.append(&mut fixed);
    proof {
        assert(models(out@) =~= models(r) + models(f));
    }
    out
}

/// What `lsblk --json` reports of one block device.
pub struct Device {
    pub name: String,
    pub size: String,
    pub rm: String,
    pub hotplug: String,
    pub model: Option<String>,
    pub vendor: Option<String>,
    pub tran: Option<String>,
    pub kind: Option<String>,
    pub subsystems: Option<String>,
}

/// A reported block device, by the characters of its strings.
pub struct DeviceModel {
    pub name: Seq<char>,
    pub size: Seq<char>,
    pub rm: Seq<char>,
    pub hotplug: Seq<char>,
    pub model: Option<Seq<char>>,
    pub vendor: Option<Seq<char>>,
    pub tran: Option<Seq<char>>,
    pub kind: Option<Seq<char>>,
    pub subsystems: Option<Seq<char>>,
}

pub open spec fn opt_view(o: Option<String>) -> Option<Seq<char>> {
    match o {
        Some(s) => Some(s@),
        None => None,
    }
}

impl View for Device {
    type V = DeviceModel;

    open spec fn view(&self) -> DeviceModel {
        DeviceModel {
            name: self.name@,
            size: self.size@,
            rm: self.rm@,
            hotplug: self.hotplug@,
            model: opt_view(self.model),
            vendor: opt_view(self.vendor),
            tran: opt_view(self.tran),
            kind: opt_view(self.kind),
            subsystems: opt_view(self.subsystems),
        }
    }
}

fn opt_is(o: &Option<String>, s: &str) -> (res: bool)
    ensures
        res == (opt_view(*o) == Some(s@)),
{
    match o {
        Some(v) => text::str_eq(v.as_str(), s),
        None => false,
    }
}

impl DeviceModel {
    pub open spec fn is_virtual(self) -> bool {
        self.subsystems == Some("block"@)
    }

    pub open spec fn is_removable(self) -> bool {
        self.rm == "1"@ || self.hotplug == "1"@
    }

    pub open spec fn is_system(self) -> bool {
        !self.is_removable()
    }
}

impl Device {
    /// A device that only the block layer provides (device mapper, ...).
    pub fn is_virtual(&self) -> (res: bool)
        ensures
            res == self@.is_virtual(),
    {
        opt_is(&self.subsystems, "block")
    }

    /// Removable or hot-pluggable.
    pub fn is_removable(&self) -> (res: bool)
        ensures
            res == self@.is_removable(),
    {
        text::str_eq(self.rm.as_str(), "1") || text::str_eq(self.hotplug.as_str(), "1")
    }

    /// Neither removable nor hot-pluggable: assumed to hold the running system.
    pub fn is_system(&self) -> (res: bool)
        ensures
            res == self@.is_system(),
    {
        !self.is_removable()
    }
}

/// `str::trim_start_matches(p)`: drops `p` from the front as long as it is
/// there.
pub open spec fn strip_all(s: Seq<char>, p: Seq<char>) -> Seq<char>
    decreases s.len(),
{
    if p.len() > 0 && p.is_prefix_of(s) {
        strip_all(s.skip(p.len() as int), p)
    } else {
        s
    }
}

/// Index in `v` where `strip_all(v[from..to], p)` begins.
pub fn strip_all_at(v: &Vec<char>, from: usize, to: usize, p: &str) -> (res: usize)
    requires
        from <= to <= v@.len(),
    ensures
        from <= res <= to,
        v@.subrange(res as int, to as int) == strip_all(v@.subrange(from as int, to as int), p@),
{
    let plen = text::chars_of(p).len();
    let mut i = from;
    if plen == 0 {
        return from;
    }
    loop
        invariant
            from <= i <= to <= v@.len(),
            plen == p@.len(),
            plen > 0,
            strip_all(v@.subrange(from as int, to as int), p@) == strip_all(
                v@.subrange(i as int, to as int),
                p@,
            ),
        decreases to - i,
    {
        if text::has_prefix_at(v, i, to, p) {
            proof {
                assert(v@.subrange(i as int, to as int).skip(plen as int) =~= v@.subrange(
                    i + plen,
                    to as int,
                ));
            }
            i = i + plen;
        } else {
            return i;
        }
    }
}

/// Device names that are never install targets: loop, RAM, optical and
/// compressed-RAM devices.
pub open spec fn skip_device(name: Seq<char>) -> bool {
    let dev = strip_all(name, "/dev/"@);
    ||| "loop"@.is_prefix_of(dev)
    ||| "ram"@.is_prefix_of(dev)
    ||| "sr"@.is_prefix_of(dev)
    ||| "zram"@.is_prefix_of(dev)
}

/// Whether a device is never offered, by its name.
pub fn is_skip_device(name: &str) -> (res: bool)
    ensures
        res == skip_device(name@),
{
    let v = text::chars_of(name);
    let d = strip_all_at(&v, 0, v.len(), "/dev/");
    proof {
        assert(v@.subrange(0, v@.len() as int) =~= v@);
    }
    text::has_prefix_at(&v, d, v.len(), "loop") || text::has_prefix_at(&v, d, v.len(), "ram")
        || text::has_prefix_at(&v, d, v.len(), "sr") || text::has_prefix_at(&v, d, v.len(), "zram")
}

/// Vendor and model, trimmed, joined by a space where both are there; the
/// bare device name where neither is.
pub open spec fn description(vendor: Seq<char>, model: Seq<char>, name: Seq<char>) -> Seq<char> {
    let v = text::trim(vendor);
    let m = text::trim(model);
    if v.len() > 0 && m.len() > 0 {
        v + " "@ + m
    } else if v.len() > 0 {
        v
    } else if m.len() > 0 {
        m
    } else {
        strip_all(name, "/dev/"@)
    }
}

/// The description shown for a disk.
pub fn build_description(vendor: &str, model: &str, name: &str) -> (res: String)
    ensures
        res@ == description(vendor@, model@, name@),
{
    let v = text::trim_str(vendor);
    let m = text::trim_str(model);
    let vl = text::chars_of(v.as_str()).len();
    let ml = text::chars_of(m.as_str()).len();
    if vl > 0 && ml > 0 {
        let mut out = v;
        out.append(" ");
        out.append(m.as_str());
        out
    } else if vl > 0 {
        v
    } else if ml > 0 {
        m
    } else {
        let n = text::chars_of(name);
        let d = strip_all_at(&n, 0, n.len(), "/dev/");
        proof {
            assert(n@.subrange(0, n@.len() as int) =~= n@);
        }
        text::string_from(&n, d, n.len())
    }
}

/// Unicode upper case, as `str::to_uppercase` maps it; a function of the
/// string alone.
pub uninterp spec fn uppercase(s: Seq<char>) -> Seq<char>;

/// `str::to_uppercase`. Only stated: the result is the Unicode upper-case
/// mapping of the argument, which is not spelled out here.
#[verifier::external_body]
fn to_uppercase(s: &str) -> (res: String)
    ensures
        res@ == uppercase(s@),
{
    s.to_uppercase()
}

pub open spec fn or_empty(o: Option<Seq<char>>) -> Seq<char> {
    match o {
        Some(s) => s,
        None => Seq::empty(),
    }
}

/// The disk `lsblk` reports by `d`, where it is an install target.
pub open spec fn lsblk_disk(d: DeviceModel) -> Option<DiskModel> {
    if d.kind == Some("disk"@) && !skip_device(d.name) && !d.is_system() && !d.is_virtual() {
        let size = match text::parse_u64(d.size) {
            Some(n) => n,
            None => 0,
        };
        if size > 0 {
            Some(
                DiskModel {
                    device: d.name,
                    description: description(or_empty(d.vendor), or_empty(d.model), d.name),
                    size,
                    is_removable: d.is_removable(),
                    bus_type: uppercase(
                        match d.tran {
                            Some(t) => t,
                            None => "UNKNOWN"@,
                        },
                    ),
                },
            )
        } else {
            None
        }
    } else {
        None
    }
}

pub open spec fn lsblk_disk_fn() -> spec_fn(DeviceModel) -> Option<DiskModel> {
    |d: DeviceModel| lsblk_disk(d)
}

pub open spec fn device_models(v: Seq<Device>) -> Seq<DeviceModel> {
    v.map_values(|d: Device| d@)
}

fn opt_str<'a>(o: &'a Option<String>, default: &'a str) -> (res: &'a str)
    ensures
        res@ == (match opt_view(*o) {
            Some(s) => s,
            None => default@,
        }),
{
    match o {
        Some(s) => s.as_str(),
        None => default,
    }
}

/// The install target that `d` reports, if it is one.
pub fn lsblk_target(d: &Device) -> (res: Option<Disk>)
    ensures
        match res {
            Some(disk) => lsblk_disk(d@) == Some(disk@),
            None => lsblk_disk(d@).is_none(),
        },
{
    if !opt_is(&d.kind, "disk") || is_skip_device(d.name.as_str()) || d.is_system()
        || d.is_virtual() {
        return None;
    }
    let sv = text::chars_of(d.size.as_str());
    proof {
        assert(sv@.subrange(0, sv@.len() as int) =~= sv@);
    }
    let size = match text::parse_u64_at(&sv, 0, sv.len()) {
        Some(n) => n,
        None => 0,
    };
    if size == 0 {
        return None;
    }
    let is_removable = d.is_removable();
    let disk = Disk {
        bus_type: to_uppercase(opt_str(&d.tran, "UNKNOWN")),
        description: build_description(opt_str(&d.vendor, ""), opt_str(&d.model, ""), d.name.as_str()),
        device: d.name.clone(),
        is_removable,
        size,
    };
    proof {
        assert(or_empty(d@.vendor) == (match opt_view(d.vendor) {
            Some(s) => s,
            None => ""@,
        })) by {
            if d.vendor.is_none() {
                assert(""@ =~= Seq::<char>::empty()) by {
                    reveal_strlit("");
                }
            }
        }
        assert(or_empty(d@.model) == (match opt_view(d.model) {
            Some(s) => s,
            None => ""@,
        })) by {
            if d.model.is_none() {
                assert(""@ =~= Seq::<char>::empty()) by {
                    reveal_strlit("");
                }
            }
        }
    }
    Some(disk)
}

/// The install targets among the devices `lsblk` reports, removable ones
/// first, each group in the order reported.
pub fn list_disks(devices: &Vec<Device>) -> (res: Vec<Disk>)
    ensures
        models(res@) == removable_first(device_models(devices@).filter_map(lsblk_disk_fn())),
{
    let mut removable: Vec<Disk> = Vec::new();
    let mut fixed: Vec<Disk> = Vec::new();
    let mut i: usize = 0;
    while i < devices.len()
        invariant
            i <= devices@.len(),
            models(removable@) == device_models(devices@).take(i as int).filter_map(
                lsblk_disk_fn(),
            ).filter(|d: DiskModel| d.is_removable),
            models(fixed@) == device_models(devices@).take(i as int).filter_map(
                lsblk_disk_fn(),
            ).filter(|d: DiskModel| !d.is_removable),
        decreases devices@.len() - i,
    {
        let ghost ms = device_models(devices@);
        let ghost before = ms.take(i as int).filter_map(lsblk_disk_fn());
        proof {
            ms.lemma_filter_map_take_succ(lsblk_disk_fn(), i as int);
            assert(ms[i as int] == devices@[i as int]@);
        }
        match lsblk_target(&devices[i]) {
            Some(disk) => {
                proof {
                    assert(ms.take(i + 1).filter_map(lsblk_disk_fn()) =~= before.push(disk@));
                    before.lemma_filter_push(disk@, |d: DiskModel| d.is_removable);
                    before.lemma_filter_push(disk@, |d: DiskModel| !d.is_removable);
                }
                push_grouped(&mut removable, &mut fixed, disk);
            },
            None => {
                proof {
                    assert(ms.take(i + 1).filter_map(lsblk_disk_fn()) =~= before);
                }
            },
        }
        i = i + 1;
    }
    proof {
        assert(device_models(devices@).take(devices@.len() as int) =~= device_models(devices@));
    }
    join_groups(removable, fixed)
}

/// A whole disk that `lsblk` reports as removable or hot-pluggable (a USB
/// SSD may say `rm` 0 and `hotplug` 1), with a size, not virtual and not a
/// skipped kind, is offered, as removable; one that is neither removable
/// nor hot-pluggable holds the system and is never offered.
pub proof fn law_hotplug_or_removable_is_offered(d: DeviceModel)
    ensures
        (d.rm == "1"@ || d.hotplug == "1"@) && d.kind == Some("disk"@) && !skip_device(d.name)
            && d.subsystems != Some("block"@) && (text::parse_u64(d.size) matches Some(n) && n > 0)
            ==> (lsblk_disk(d) matches Some(disk) && disk.is_removable && disk.device == d.name
            && Some(disk.size) == text::parse_u64(d.size)),
        d.rm != "1"@ && d.hotplug != "1"@ ==> lsblk_disk(d) is None,
{
}

/// Only whole, real disks with a size are offered: partitions and other
/// kinds, devices that only the block layer provides, devices of size 0 or
/// of unreadable size, and loop, RAM, optical and compressed-RAM devices
/// (named with or without `/dev/`) never are. An offered disk keeps the
/// reported name as its device and its reported size, and says whether it
/// is removable.
pub proof fn law_only_real_whole_disks_offered(d: DeviceModel, rest: Seq<char>)
    ensures
        d.kind != Some("disk"@) ==> lsblk_disk(d) is None,
        d.subsystems == Some("block"@) ==> lsblk_disk(d) is None,
        (text::parse_u64(d.size) is None || text::parse_u64(d.size) == Some(0u64)) ==> lsblk_disk(d) is None,
        (d.name == "/dev/"@ + rest || d.name == rest) && rest.len() > 0 && rest[0] != '/' && (
        "loop"@.is_prefix_of(rest) || "ram"@.is_prefix_of(rest) || "sr"@.is_prefix_of(rest)
            || "zram"@.is_prefix_of(rest)) ==> lsblk_disk(d) is None,
        lsblk_disk(d) matches Some(disk) ==> (disk.device == d.name && Some(disk.size)
            == text::parse_u64(d.size) && disk.size > 0 && disk.is_removable && (d.rm == "1"@
            || d.hotplug == "1"@)),
{
    reveal_strlit("/dev/");
    if rest.len() > 0 && rest[0] != '/' {
        assert(!"/dev/"@.is_prefix_of(rest)) by {
            if "/dev/"@.is_prefix_of(rest) {
                assert(rest[0] == rest.subrange(0, 5)[0]);
                assert(rest[0] == "/dev/"@[0]);
            }
        }
        assert(strip_all(rest, "/dev/"@) == rest);
        if d.name == "/dev/"@ + rest {
            assert(d.name.skip(5) =~= rest);
            assert("/dev/"@.is_prefix_of(d.name));
            assert(strip_all(d.name, "/dev/"@) == rest);
        }
    }
}

/// A disk is described by its vendor and model, trimmed and joined by a
/// space, or by whichever of the two is not blank; where both are blank, by
/// its device name without `/dev/`.
pub proof fn law_description(vendor: Seq<char>, model: Seq<char>, rest: Seq<char>)
    ensures
        text::trim(vendor).len() > 0 && text::trim(model).len() > 0 ==> description(vendor, model, rest)
            == text::trim(vendor) + " "@ + text::trim(model),
        text::trim(vendor).len() > 0 && text::trim(model).len() == 0 ==> description(vendor, model, rest)
            == text::trim(vendor),
        text::trim(vendor).len() == 0 && text::trim(model).len() > 0 ==> description(vendor, model, rest)
            == text::trim(model),
        text::trim(vendor).len() == 0 && text::trim(model).len() == 0 && rest.len() > 0 && rest[0]
            != '/' ==> description(vendor, model, "/dev/"@ + rest) == rest,
{
    reveal_strlit("/dev/");
    if rest.len() > 0 && rest[0] != '/' {
        let name = "/dev/"@ + rest;
        assert(!"/dev/"@.is_prefix_of(rest)) by {
            if "/dev/"@.is_prefix_of(rest) {
                assert(rest[0] == rest.subrange(0, 5)[0]);
                assert(rest[0] == "/dev/"@[0]);
            }
        }
        assert(name.skip(5) =~= rest);
        assert("/dev/"@.is_prefix_of(name)) by {
            assert(name.subrange(0, 5) =~= "/dev/"@);
        }
        assert(strip_all(rest, "/dev/"@) == rest);
        assert(strip_all(name, "/dev/"@) == rest);
    }
}

proof fn lemma_groups_split(s: Seq<DiskModel>)
    ensures
        s.filter(|d: DiskModel| d.is_removable).len() + s.filter(|d: DiskModel| !d.is_removable).len()
            == s.len(),
    decreases s.len(),
{
    if s.len() > 0 {
        let t = s.drop_last();
        lemma_groups_split(t);
        assert(t.push(s.last()) =~= s);
        t.lemma_filter_push(s.last(), |d: DiskModel| d.is_removable);
        t.lemma_filter_push(s.last(), |d: DiskModel| !d.is_removable);
    }
}

/// Disks are listed removable ones first: no fixed disk comes before a
/// removable one, every listed disk is kept and none is added, and each
/// group keeps the order in which the disks were found.
pub proof fn law_removable_first(s: Seq<DiskModel>)
    ensures
        ({
            let r = removable_first(s);
            &&& r.len() == s.len()
            &&& forall|i: int, j: int|
                0 <= i < j < r.len() && (#[trigger] r[j]).is_removable ==> (#[trigger] r[i]).is_removable
            &&& forall|k: int| 0 <= k < s.len() ==> r.contains(#[trigger] s[k])
            &&& forall|k: int| 0 <= k < r.len() ==> s.contains(#[trigger] r[k])
            &&& r.take(s.filter(|d: DiskModel| d.is_removable).len() as int) == s.filter(
                |d: DiskModel| d.is_removable,
            )
        }),
{
    let rem = |d: DiskModel| d.is_removable;
    let fix = |d: DiskModel| !d.is_removable;
    let a = s.filter(rem);
    let b = s.filter(fix);
    let r = removable_first(s);
    assert(r == a + b);
    lemma_groups_split(s);
    assert forall|i: int, j: int|
        0 <= i < j < r.len() && (#[trigger] r[j]).is_removable implies (#[trigger] r[i]).is_removable by {
        if j >= a.len() {
            s.lemma_filter_pred(fix, j - a.len());
            assert(r[j] == b[j - a.len()]);
        } else {
            s.lemma_filter_pred(rem, i);
            assert(r[i] == a[i]);
        }
    }
    assert forall|k: int| 0 <= k < s.len() implies r.contains(#[trigger] s[k]) by {
        if s[k].is_removable {
            s.lemma_filter_contains(rem, k);
            let x = choose|x: int| 0 <= x < a.len() && a[x] == s[k];
            assert(r[x] == s[k]);
        } else {
            s.lemma_filter_contains(fix, k);
            let x = choose|x: int| 0 <= x < b.len() && b[x] == s[k];
            assert(r[a.len() + x] == s[k]);
        }
    }
    assert forall|k: int| 0 <= k < r.len() implies s.contains(#[trigger] r[k]) by {
        if k < a.len() {
            assert(r[k] == a[k]);
            assert(a.contains(a[k]));
            s.lemma_filter_contains_rev(rem, a[k]);
        } else {
            assert(r[k] == b[k - a.len()]);
            assert(b.contains(b[k - a.len()]));
            s.lemma_filter_contains_rev(fix, b[k - a.len()]);
        }
    }
    assert(r.take(a.len() as int) =~= a);
}

} // verus!
