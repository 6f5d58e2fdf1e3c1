//! Flashing on Windows through an elevated copy of the installer: its
//! command line, the progress file it writes, and its exit code.

use vstd::prelude::*;

use crate::disk::opt_view;
use crate::oci::concat;
use crate::text;

verus! {

broadcast use vstd::seq_lib::group_seq_properties;

pub const DRIVE_PREFIX: &'static str = "\\\\.\\PhysicalDrive";

/// The drive number of a `\\.\PhysicalDriveN` path.
pub fn parse_physical_drive_number(device: &str) -> (res: Option<u32>)
    ensures
        res == (if DRIVE_PREFIX@.is_prefix_of(device@) {
            text::parse_u32(device@.skip(DRIVE_PREFIX@.len() as int))
        } else {
            None
        }),
{
    let v = text::chars_of(device);
    proof {
        assert(v@.subrange(0, v@.len() as int) =~= v@);
    }
    if !text::has_prefix_at(&v, 0, v.len(), DRIVE_PREFIX) {
        return None;
    }
    let n = text::chars_of(DRIVE_PREFIX).len();
    proof {
        assert(v@.subrange(n as int, v@.len() as int) =~= device@.skip(DRIVE_PREFIX@.len() as int));
    }
    text::parse_u32_at(&v, n, v.len())
}

/// Each `"` preceded by a backslash.
pub open spec fn escape_quotes(s: Seq<char>) -> Seq<char>
    decreases s.len(),
{
    if s.len() == 0 {
        Seq::empty()
    } else if s.last() == '"' {
        escape_quotes(s.drop_last()) + seq!['\\', '"']
    } else {
        escape_quotes(s.drop_last()).push(s.last())
    }
}

/// One argument on a command line: quoted, with inner quotes escaped, where
/// it holds a space or a quote.
pub open spec fn quoted(arg: Seq<char>) -> Seq<char> {
    if arg.contains(' ') || arg.contains('"') {
        seq!['"'] + escape_quotes(arg) + seq!['"']
    } else {
        arg
    }
}

/// An argument as it stands on the elevated command line.
pub fn quote_arg(arg: &str) -> (res: String)
    ensures
        res@ == quoted(arg@),
{
    let v = text::chars_of(arg);
    let mut needs = false;
    let mut escaped = String::new();
    let mut i: usize = 0;
    while i < v.len()
        invariant
            i <= v@.len(),
            v@ == arg@,
            needs == (v@.take(i as int).contains(' ') || v@.take(i as int).contains('"')),
            escaped@ == escape_quotes(v@.take(i as int)),
        decreases v@.len() - i,
    {
        let c = v[i];
        if c == ' ' || c == '"' {
            needs = true;
        }
        if c == '"' {
            text::push_char(&mut escaped, '\\');
        }
        text::push_char(&mut escaped, c);
        proof {
            let t = v@.take(i + 1);
            assert(t.drop_last() =~= v@.take(i as int));
            assert(t.last() == c);
            if c == ' ' {
                assert(t[i as int] == ' ');
            }
            if c == '"' {
                assert(t[i as int] == '"');
            }
            if needs && !(c == ' ' || c == '"') {
                if v@.take(i as int).contains(' ') {
                    let j = choose|j: int| 0 <= j < i && v@.take(i as int)[j] == ' ';
                    assert(t[j] == ' ');
                } else {
                    let j = choose|j: int| 0 <= j < i && v@.take(i as int)[j] == '"';
                    assert(t[j] == '"');
                }
            }
            if !needs {
                assert forall|j: int| 0 <= j < t.len() implies t[j] != ' ' && t[j] != '"' by {
                    if j < i {
                        assert(t[j] == v@.take(i as int)[j]);
                    }
                }
            }
        }
        i = i + 1;
    }
    proof {
        assert(v@.take(v@.len() as int) =~= v@);
    }
    if needs {
        let mut out = String::from_str("\"");
        out.append(escaped.as_str());
        out.append("\"");
        proof {
            reveal_strlit("\"");
            assert("\""@ =~= seq!['"']);
        }
        out
    } else {
        String::from_str(arg)
    }
}

/// The arguments, quoted, separated by single spaces.
pub fn params_string(args: &Vec<String>) -> (res: String)
    ensures
        res@ == text::join(text::views(args@).map_values(|a: Seq<char>| quoted(a)), " "@),
{
    let ghost qs = text::views(args@).map_values(|a: Seq<char>| quoted(a));
    let mut out = String::new();
    let mut i: usize = 0;
    while i < args.len()
        invariant
            i <= args@.len(),
            qs == text::views(args@).map_values(|a: Seq<char>| quoted(a)),
            out@ == text::join(qs.take(i as int), " "@),
        decreases args@.len() - i,
    {
        let q = quote_arg(args[i].as_str());
        if i > 0 {
            out.append(" ");
        }
        out.append(q.as_str());
        proof {
            let t = qs.take(i + 1);
            assert(t.drop_last() =~= qs.take(i as int));
            assert(t.last() == quoted(args@[i as int]@));
            if i == 0 {
                assert(out@ =~= t[0]);
            }
        }
        i = i + 1;
    }
    proof {
        assert(qs.take(args@.len() as int) =~= qs);
    }
    out
}

pub const PRIVILEGED_FLAG: &'static str = "--privileged-flash";

/// The command line of the elevated child that writes `image` to `device`
/// and reports to `progress_file`.
pub fn build_privileged_args(image: &str, device: &str, progress_file: &str) -> (res: Vec<String>)
    ensures
        text::views(res@) == seq![PRIVILEGED_FLAG@, image@, device@, progress_file@],
{
    let mut out: Vec<String> = Vec::new();
    out.push(String::from_str(PRIVILEGED_FLAG));
    out.push(String::from_str(image));
    out.push(String::from_str(device));
    out.push(String::from_str(progress_file));
    proof {
        assert(text::views(out@) =~= seq![PRIVILEGED_FLAG@, image@, device@, progress_file@]);
    }
    out
}

/// What the elevated child has reported so far. `progress` is the text of
/// the last `progress` line (a fraction of the image, as the child printed
/// it).
pub struct ProgressState {
    pub progress: Option<String>,
    pub done: bool,
    pub error: Option<String>,
}

/// The report after one more line of the progress file.
pub open spec fn progress_step(
    state: (Option<Seq<char>>, bool, Option<Seq<char>>),
    line: Seq<char>,
) -> (Option<Seq<char>>, bool, Option<Seq<char>>) {
    let l = text::trim(line);
    if "progress "@.is_prefix_of(l) {
        (Some(text::trim(l.skip(9))), state.1, state.2)
    } else if l == "done"@ {
        (state.0, true, state.2)
    } else if "error "@.is_prefix_of(l) {
        (state.0, state.1, Some(text::trim(l.skip(6))))
    } else {
        state
    }
}

/// The report after all `lines`, from nothing reported.
pub open spec fn progress_report(lines: Seq<Seq<char>>) -> (Option<Seq<char>>, bool, Option<Seq<char>>)
    decreases lines.len(),
{
    if lines.len() == 0 {
        (None, false, None)
    } else {
        progress_step(progress_report(lines.drop_last()), lines.last())
    }
}

/// Reads the progress file of the elevated child.
pub fn parse_progress_file(contents: &str) -> (res: ProgressState)
    ensures
        (opt_view(res.progress), res.done, opt_view(res.error)) == progress_report(
            text::lines(contents@),
        ),
{
    let v = text::chars_of(contents);
    let ranges = text::line_ranges(&v);
    let ghost ls = text::lines(v@);
    let mut state = ProgressState { progress: None, done: false, error: None };
    let mut i: usize = 0;
    while i < ranges.len()
        invariant
            i <= ranges@.len(),
            ls == text::lines(v@),
            v@ == contents@,
            ranges@.len() == ls.len(),
            forall|j: int|
                0 <= j < ranges@.len() ==> {
                    &&& (#[trigger] ranges@[j]).0 <= ranges@[j].1 <= v@.len()
                    &&& v@.subrange(ranges@[j].0 as int, ranges@[j].1 as int) == ls[j]
                },
            (opt_view(state.progress), state.done, opt_view(state.error)) == progress_report(
                ls.take(i as int),
            ),
        decreases ranges@.len() - i,
    {
        let (a, b) = ranges[i];
        let (x, y) = text::trim_range(&v, a, b);
        proof {
            let t = ls.take(i + 1);
            assert(t.drop_last() =~= ls.take(i as int));
            assert(t.last() == v@.subrange(a as int, b as int));
            assert(progress_report(t) == progress_step(progress_report(ls.take(i as int)), t.last()));
            assert(text::trim(t.last()) == v@.subrange(x as int, y as int));
            reveal_strlit("done");
            reveal_strlit("progress ");
            reveal_strlit("error ");
        }
        if text::has_prefix_at(&v, x, y, "progress ") {
            proof {
                reveal_strlit("progress ");
                assert(v@.subrange(x as int, y as int).skip(9) =~= v@.subrange(x + 9, y as int));
            }
            let (p, q) = text::trim_range(&v, x + 9, y);
            state.progress = Some(text::string_from(&v, p, q));
        } else if text::has_prefix_at(&v, x, y, "done") && y - x == 4 {
            proof {
                reveal_strlit("done");
                assert(v@.subrange(x as int, y as int) =~= "done"@);
            }
            state.done = true;
        } else if text::has_prefix_at(&v, x, y, "error ") {
            proof {
                reveal_strlit("error ");
                assert(v@.subrange(x as int, y as int).skip(6) =~= v@.subrange(x + 6, y as int));
            }
            let (p, q) = text::trim_range(&v, x + 6, y);
            state.error = Some(text::string_from(&v, p, q));
        } else {
            proof {
                if v@.subrange(x as int, y as int) == "done"@ {
                    assert("done"@.is_prefix_of(v@.subrange(x as int, y as int)));
                    assert(y - x == 4);
                }
            }
        }
        i = i + 1;
    }
    proof {
        assert(ls.take(ranges@.len() as int) =~= ls);
    }
    state
}

/// The exit code of the elevated child, and the line it appends to the
/// progress file on failure.
pub fn run_privileged_child(outcome: Result<(), String>) -> (res: (i32, Option<String>))
    ensures
        match outcome {
            Ok(()) => res.0 == 0 && res.1.is_none(),
            Err(m) => res.0 == 1 && (res.1 matches Some(l) && l@ == "error "@ + m@),
        },
{
    match outcome {
        Ok(()) => (0, None),
        Err(m) => (1, Some(concat("error ", m.as_str()))),
    }
}

/// The drive number of the device the elevated child is to write, or why
/// that device cannot be written.
pub fn privileged_drive_number(device: &str) -> (res: Result<u32, String>)
    ensures
        match res {
            Ok(n) => DRIVE_PREFIX@.is_prefix_of(device@) && text::parse_u32(
                device@.skip(DRIVE_PREFIX@.len() as int),
            ) == Some(n),
            Err(m) => !(DRIVE_PREFIX@.is_prefix_of(device@) && text::parse_u32(
                device@.skip(DRIVE_PREFIX@.len() as int),
            ) is Some) && m@ == "unsupported device path '"@ + device@ + "'"@,
        },
{
    match parse_physical_drive_number(device) {
        Some(n) => Ok(n),
        None => {
            let mut m = concat("unsupported device path '", device);
            m.append("'");
            Err(m)
        },
    }
}

/// The name of the progress file of the elevated child of process `pid`.
pub fn progress_file_name(pid: u32) -> (res: String)
    ensures
        res@ == "caustic-flash-"@ + text::decimal(pid as nat) + ".progress"@,
{
    let mut name = concat("caustic-flash-", text::u64_decimal(pid as u64).as_str());
    name.append(".progress");
    name
}

/// Whether a volume lies on drive `drive`: one of its first `count` disk
/// extents (at most the 16 that were asked for) is on that drive.
pub fn volume_extents_on_drive(disk_numbers: &Vec<u32>, count: u32, drive: u32) -> (res: bool)
    requires
        disk_numbers@.len() >= 16 || disk_numbers@.len() >= count,
    ensures
        res == exists|i: int|
            0 <= i < count && i < 16 && #[trigger] disk_numbers@[i] == drive,
{
    if count == 0 {
        return false;
    }
    let limit: u32 = if count < 16 {
        count
    } else {
        16
    };
    let mut i: u32 = 0;
    while i < limit
        invariant
            i <= limit,
            limit <= count,
            limit <= 16,
            limit == count || limit == 16,
            disk_numbers@.len() >= limit,
            forall|j: int| 0 <= j < i ==> #[trigger] disk_numbers@[j] != drive,
        decreases limit - i,
    {
        if disk_numbers[i as usize] == drive {
            return true;
        }
        i = i + 1;
    }
    false
}

/// The outcome of the elevated child once it exited with `code`, given
/// what its progress file held then (`None` where it could not be read):
/// success for code 0; else the error it reported, or its exit code.
pub fn elevated_exit_outcome(code: u32, contents: Option<String>) -> (res: Result<(), String>)
    ensures
        code == 0 ==> res is Ok,
        code != 0 ==> match contents {
            Some(c) => match progress_report(text::lines(c@)).2 {
                Some(e) => res matches Err(m) && m@ == e,
                None => res matches Err(m) && m@ == "Elevated process exited with code "@
                    + text::decimal(code as nat),
            },
            None => res matches Err(m) && m@ == "Elevated process exited with code "@
                + text::decimal(code as nat),
        },
{
    if code == 0 {
        return Ok(());
    }
    match contents {
        Some(c) => {
            let state = parse_progress_file(c.as_str());
            match state.error {
                Some(e) => {
                    return Err(e);
                },
                None => {},
            }
        },
        None => {},
    }
    Err(concat("Elevated process exited with code ", text::u64_decimal(code as u64).as_str()))
}

} // verus!
