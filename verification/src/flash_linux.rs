//! Flashing through `pkexec` and `dd` on Linux: which helper programs are
//! needed, which partitions to unmount first, and how `dd`'s progress
//! output is read.

use vstd::prelude::*;

use crate::disk::strip_all;
use crate::flash::Error;
use crate::oci::concat;
use crate::text;

verus! {

broadcast use vstd::seq_lib::group_seq_properties;

/// The programs the elevated flash script runs.
pub open spec fn required_binaries() -> Seq<Seq<char>> {
    seq!["pkexec"@, "sh"@, "umount"@, "wipefs"@, "blockdev"@, "dd"@]
}

fn required_binaries_vec() -> (res: Vec<&'static str>)
    ensures
        res@.map_values(|s: &str| s@) == required_binaries(),
{
    let v: Vec<&'static str> = vec!["pkexec", "sh", "umount", "wipefs", "blockdev", "dd"];
    proof {
        assert(v@.map_values(|s: &str| s@) =~= required_binaries());
    }
    v
}

/// The required programs for which `exists` says no, in their order.
pub fn missing_binaries<F: Fn(&str) -> bool>(is_present: F) -> (res: Vec<&'static str>)
    requires
        forall|s: &str| #[trigger] is_present.requires((s,)),
    ensures
        exists|asked: Seq<&str>, answers: Seq<bool>|
            #![trigger missing_of(required_binaries(), answers), asked.len()]
            {
                &&& answers.len() == required_binaries().len()
                &&& asked.len() == required_binaries().len()
                &&& forall|i: int|
                    0 <= i < answers.len() ==> (#[trigger] asked[i])@ == required_binaries()[i]
                        && is_present.ensures((asked[i],), answers[i])
                &&& res@.map_values(|s: &str| s@) == missing_of(required_binaries(), answers)
            },
{
    let names = required_binaries_vec();
    let mut out: Vec<&'static str> = Vec::new();
    let ghost mut answers: Seq<bool> = Seq::empty();
    let mut i: usize = 0;
    while i < names.len()
        invariant
            i <= names@.len(),
            names@.map_values(|s: &str| s@) == required_binaries(),
            forall|s: &str| #[trigger] is_present.requires((s,)),
            answers.len() == i,
            forall|j: int| 0 <= j < i ==> is_present.ensures((names@[j],), answers[j]),
            out@.map_values(|s: &str| s@) == missing_of(
                required_binaries().take(i as int),
                answers,
            ),
        decreases names@.len() - i,
    {
        let name = names[i];
        let present = is_present(name);
        let ghost old_out = out@;
        if !present {
            out.push(name);
        }
        proof {
            let rb = required_binaries();
            assert(rb[i as int] == name@);
            assert(rb.take(i + 1).drop_last() =~= rb.take(i as int));
            assert(answers.push(present).drop_last() =~= answers);
            lemma_missing_of_prefix(rb.take(i as int), answers, answers.push(present));
            answers = answers.push(present);
            if !present {
                assert(out@.map_values(|s: &str| s@) =~= old_out.map_values(|s: &str| s@).push(
                    name@,
                ));
            }
        }
        i = i + 1;
    }
    proof {
        assert(required_binaries().take(6) =~= required_binaries());
        let asked = names@;
        assert forall|j: int| 0 <= j < answers.len() implies (#[trigger] asked[j])@
            == required_binaries()[j] && is_present.ensures((asked[j],), answers[j]) by {
            assert(names@.map_values(|s: &str| s@)[j] == names@[j]@);
        }
    }
    out
}

/// The names whose answer is "absent", in order.
pub open spec fn missing_of(names: Seq<Seq<char>>, present: Seq<bool>) -> Seq<Seq<char>>
    decreases names.len(),
{
    if names.len() == 0 {
        Seq::empty()
    } else if present[names.len() - 1] {
        missing_of(names.drop_last(), present)
    } else {
        missing_of(names.drop_last(), present).push(names.last())
    }
}

/// The error for missing helper programs.
pub fn missing_message(missing: &Vec<&str>) -> (res: Error)
    ensures
        res.0@ == "missing required binaries: "@ + text::join(
            missing@.map_values(|s: &str| s@),
            ", "@,
        ),
{
    let j = text::join_strs(missing, ", ");
    Error(concat("missing required binaries: ", j.as_str()))
}

/// The partition of `target` that a line of `lsblk -ln -o name` names, as
/// a `/dev/` path; none for blank lines and for the disk itself.
pub open spec fn child_device(line: Seq<char>, target: Seq<char>) -> Option<Seq<char>> {
    let t = text::trim(line);
    if t.len() == 0 {
        None
    } else {
        let name = strip_all(t, "/dev/"@);
        if name == strip_all(target, "/dev/"@) {
            None
        } else {
            Some("/dev/"@ + name)
        }
    }
}

pub open spec fn child_device_fn(target: Seq<char>) -> spec_fn(Seq<char>) -> Option<Seq<char>> {
    |line: Seq<char>| child_device(line, target)
}

/// The partitions on `target` that `lsblk` listed, to unmount before
/// flashing.
pub fn parse_child_devices(lsblk_output: &str, target: &str) -> (res: Vec<String>)
    ensures
        text::views(res@) == text::lines(lsblk_output@).filter_map(child_device_fn(target@)),
{
    let tv = text::chars_of(target);
    let tn = strip_all_at_start(&tv);
    let v = text::chars_of(lsblk_output);
    let ranges = text::line_ranges(&v);
    let ghost ls = text::lines(v@);
    let mut out: Vec<String> = Vec::new();
    let mut i: usize = 0;
    while i < ranges.len()
        invariant
            i <= ranges@.len(),
            ls == text::lines(v@),
            v@ == lsblk_output@,
            tv@ == target@,
            tn <= tv@.len(),
            tv@.subrange(tn as int, tv@.len() as int) == strip_all(target@, "/dev/"@),
            ranges@.len() == ls.len(),
            forall|j: int|
                0 <= j < ranges@.len() ==> {
                    &&& (#[trigger] ranges@[j]).0 <= ranges@[j].1 <= v@.len()
                    &&& v@.subrange(ranges@[j].0 as int, ranges@[j].1 as int) == ls[j]
                },
            text::views(out@) == ls.take(i as int).filter_map(child_device_fn(target@)),
        decreases ranges@.len() - i,
    {
        let (a, b) = ranges[i];
        let (x, y) = text::trim_range(&v, a, b);
        let ghost old_out = out@;
        proof {
            ls.lemma_filter_map_take_succ(child_device_fn(target@), i as int);
            assert(ls[i as int] == v@.subrange(a as int, b as int));
        }
        if x < y {
            let n = crate::disk::strip_all_at(&v, x, y, "/dev/");
            let same = same_chars(&v, n, y, &tv, tn, tv.len());
            if !same {
                let mut path = String::from_str("/dev/");
                let rest = text::string_from(&v, n, y);
                path.append(rest.as_str());
                out.push(path);
                proof {
                    assert(text::views(out@) =~= text::views(old_out).push(
                        "/dev/"@ + v@.subrange(n as int, y as int),
                    ));
                }
            }
        }
        i = i + 1;
    }
    proof {
        assert(ls.take(ranges@.len() as int) =~= ls);
    }
    out
}

fn strip_all_at_start(v: &Vec<char>) -> (res: usize)
    ensures
        res <= v@.len(),
        v@.subrange(res as int, v@.len() as int) == strip_all(v@, "/dev/"@),
{
    proof {
        assert(v@.subrange(0, v@.len() as int) =~= v@);
    }
    crate::disk::strip_all_at(v, 0, v.len(), "/dev/")
}

fn same_chars(a: &Vec<char>, af: usize, at: usize, b: &Vec<char>, bf: usize, bt: usize) -> (res:
    bool)
    requires
        af <= at <= a@.len(),
        bf <= bt <= b@.len(),
    ensures
        res == (a@.subrange(af as int, at as int) == b@.subrange(bf as int, bt as int)),
{
    if at - af != bt - bf {
        proof {
            assert(a@.subrange(af as int, at as int).len() != b@.subrange(bf as int, bt as int).len());
        }
        return false;
    }
    let mut k: usize = 0;
    while k < at - af
        invariant
            af <= at <= a@.len(),
            bf <= bt <= b@.len(),
            at - af == bt - bf,
            k <= at - af,
            forall|j: int| 0 <= j < k ==> a@.subrange(af as int, at as int)[j] == #[trigger] b@.subrange(bf as int, bt as int)[j],
        decreases at - af - k,
    {
        proof {
            assert(a@.subrange(af as int, at as int)[k as int] == a@[af + k]);
            assert(b@.subrange(bf as int, bt as int)[k as int] == b@[bf + k]);
        }
        if a[af + k] != b[bf + k] {
            return false;
        }
        k = k + 1;
    }
    proof {
        assert(a@.subrange(af as int, at as int) =~= b@.subrange(bf as int, bt as int));
    }
    true
}

/// The byte count at the start of a line of `dd status=progress` output.
pub open spec fn dd_progress(s: Seq<char>) -> Option<u64> {
    match text::first_token(s) {
        Some(t) => text::parse_u64(t),
        None => None,
    }
}

/// Bytes copied so far, if `s` is a progress line of `dd`.
pub fn parse_dd_progress(s: &str) -> (res: Option<u64>)
    ensures
        res == dd_progress(s@),
{
    let v = text::chars_of(s);
    proof {
        assert(v@.subrange(0, v@.len() as int) =~= v@);
    }
    match text::first_token_at(&v, 0, v.len()) {
        Some((a, b)) => text::parse_u64_at(&v, a, b),
        None => None,
    }
}

/// Reads the output of the elevated `dd` as it comes: progress lines report
/// bytes written; the last other line is kept as the error to show if `dd`
/// fails.
pub struct DdMonitor {
    pub last_output: String,
}

impl DdMonitor {
    pub fn new() -> (res: DdMonitor)
        ensures
            res.last_output@ == Seq::<char>::empty(),
    {
        DdMonitor { last_output: String::new() }
    }

    /// Takes one piece of output (up to a carriage return). Returns the
    /// bytes written where it is a progress line; keeps any other non-blank
    /// piece, trimmed, as the last output.
    pub fn on_output(&mut self, piece: &str) -> (res: Option<u64>)
        ensures
            text::trim(piece@).len() == 0 ==> res.is_none() && final(self).last_output@ == old(
                self,
            ).last_output@,
            text::trim(piece@).len() > 0 ==> match dd_progress(text::trim(piece@)) {
                Some(b) => res == Some(b) && final(self).last_output@ == old(self).last_output@,
                None => res.is_none() && final(self).last_output@ == text::trim(piece@),
            },
    {
        let t = text::trim_str(piece);
        if text::chars_of(t.as_str()).len() == 0 {
            return None;
        }
        match parse_dd_progress(t.as_str()) {
            Some(b) => Some(b),
            None => {
                self.last_output = t;
                None
            },
        }
    }

    /// The outcome once `dd` has exited; `status` is how its exit status
    /// reads.
    pub fn finish(self, success: bool, status: &str) -> (res: Result<(), Error>)
        ensures
            success ==> res is Ok,
            !success ==> (res matches Err(e) && e.0@ == (if self.last_output@.len() == 0 {
                "dd exited with status "@ + status@
            } else {
                self.last_output@
            })),
    {
        if success {
            return Ok(());
        }
        if text::chars_of(self.last_output.as_str()).len() == 0 {
            Err(Error(concat("dd exited with status ", status)))
        } else {
            Err(Error(self.last_output))
        }
    }
}

proof fn lemma_missing_of_prefix(names: Seq<Seq<char>>, a: Seq<bool>, b: Seq<bool>)
    requires
        names.len() <= a.len(),
        names.len() <= b.len(),
        forall|j: int| 0 <= j < names.len() ==> a[j] == b[j],
    ensures
        missing_of(names, a) == missing_of(names, b),
    decreases names.len(),
{
    if names.len() > 0 {
        lemma_missing_of_prefix(names.drop_last(), a, b);
    }
}

/// The shell script run as root: unmount the partitions given after the
/// image and device, wipe the device, reread its partition table, write
/// the image with `dd`, showing progress.
pub const ELEVATED_FLASH_SCRIPT: &'static str = "set -e\nimg=\"$1\"\ndev=\"$2\"\nshift 2\nfor p in \"$@\"; do umount \"$p\" 2>/dev/null || true; done\nwipefs -a \"$dev\"\nblockdev --rereadpt \"$dev\"\ndd if=\"$img\" of=\"$dev\" bs=4M conv=fsync status=progress\n";

/// The arguments given to `pkexec`: `sh -c <script> caustic-flash <image>
/// <target> <partitions...>`.
pub fn elevated_flash_args(image: &str, target: &str, children: &Vec<String>) -> (res: Vec<String>)
    ensures
        text::views(res@) == seq!["sh"@, "-c"@, ELEVATED_FLASH_SCRIPT@, "caustic-flash"@, image@, target@]
            + text::views(children@),
{
    let mut out: Vec<String> = Vec::new();
    out.push("sh".to_owned());
    out.push("-c".to_owned());
    out.push(ELEVATED_FLASH_SCRIPT.to_owned());
    out.push("caustic-flash".to_owned());
    out.push(image.to_owned());
    out.push(target.to_owned());
    let ghost head = text::views(out@);
    let mut i: usize = 0;
    while i < children.len()
        invariant
            i <= children@.len(),
            head.len() == 6,
            text::views(out@) == head + text::views(children@).take(i as int),
        decreases children@.len() - i,
    {
        let ghost before = out@;
        out.push(children[i].clone());
        proof {
            assert(text::views(out@) =~= text::views(before).push(children@[i as int]@));
            assert(text::views(children@).take(i + 1) =~= text::views(children@).take(i as int).push(
                children@[i as int]@,
            ));
            assert(text::views(out@) =~= head + text::views(children@).take(i + 1));
        }
        i = i + 1;
    }
    proof {
        assert(text::views(children@).take(children@.len() as int) =~= text::views(children@));
        assert(head =~= seq!["sh"@, "-c"@, ELEVATED_FLASH_SCRIPT@, "caustic-flash"@, image@, target@]);
    }
    out
}

/// The disk being flashed is never among the partitions unmounted first.
pub proof fn law_target_not_unmounted(lines: Seq<Seq<char>>, target: Seq<char>)
    ensures
        !lines.filter_map(child_device_fn(target)).contains("/dev/"@ + strip_all(target, "/dev/"@)),
{
    let disk = "/dev/"@ + strip_all(target, "/dev/"@);
    if lines.filter_map(child_device_fn(target)).contains(disk) {
        lines.lemma_filter_map_contains(child_device_fn(target), disk);
        let l = choose|l: Seq<char>| #[trigger] lines.contains(l) && child_device_fn(target)(l) == Some(
            disk,
        );
        let name = strip_all(text::trim(l), "/dev/"@);
        assert(("/dev/"@ + name).skip(5) =~= name) by {
            reveal_strlit("/dev/");
        }
        assert(disk.skip(5) =~= strip_all(target, "/dev/"@)) by {
            reveal_strlit("/dev/");
        }
        assert(false);
    }
}

} // verus!
