//! A/B slot selection and the plan for writing an update to the inactive
//! slot.

use vstd::prelude::*;

use crate::oci::concat;
use crate::text;

verus! {

broadcast use vstd::seq_lib::group_seq_properties;

/// Where the slot that is not running lives.
pub struct InactiveSlot {
    pub number: u32,
    pub usr_dev: &'static str,
    pub boot_mount: &'static str,
    pub cmdline_prefix: &'static str,
}

/// What an [`InactiveSlot`] holds, as plain values.
pub struct SlotModel {
    pub number: u32,
    pub usr_dev: Seq<char>,
    pub boot_mount: Seq<char>,
    pub cmdline_prefix: Seq<char>,
}

impl View for InactiveSlot {
    type V = SlotModel;

    open spec fn view(&self) -> SlotModel {
        SlotModel {
            number: self.number,
            usr_dev: self.usr_dev@,
            boot_mount: self.boot_mount@,
            cmdline_prefix: self.cmdline_prefix@,
        }
    }
}

/// The slot to write while partition set `current` runs: set B while A
/// runs, set A while B runs, none for any other partition.
pub open spec fn slot_for(current: u32) -> Option<SlotModel> {
    if current == 1 {
        Some(
            SlotModel {
                number: 2,
                usr_dev: "/dev/mmcblk0p6"@,
                boot_mount: "/boot/b"@,
                cmdline_prefix: "cmdline-b"@,
            },
        )
    } else if current == 2 {
        Some(
            SlotModel {
                number: 1,
                usr_dev: "/dev/mmcblk0p5"@,
                boot_mount: "/boot/a"@,
                cmdline_prefix: "cmdline-a"@,
            },
        )
    } else {
        None
    }
}

/// Why no inactive slot could be chosen.
#[derive(Debug, PartialEq, Eq, Structural)]
pub enum SlotError {
    /// The bootloader reported a partition other than 1 or 2.
    UnexpectedPartition(u32),
}

impl SlotError {
    /// The text shown for the error.
    pub fn message(&self) -> (res: String)
        ensures
            res@ == (match self {
                SlotError::UnexpectedPartition(n) => "unexpected active partition: "@
                    + text::decimal(*n as nat),
            }),
    {
        match self {
            SlotError::UnexpectedPartition(n) => {
                let d = text::u64_decimal(*n as u64);
                concat("unexpected active partition: ", d.as_str())
            },
        }
    }
}

/// The number of the slot that is not running while slot `current` runs.
pub open spec fn other_slot(current: u32) -> Option<u32> {
    if current == 1 {
        Some(2)
    } else if current == 2 {
        Some(1)
    } else {
        None
    }
}

/// An update never goes to the running slot, and the slot that is not
/// running while the other one runs is the first again: updating twice
/// comes back to where it started.
pub proof fn law_other_slot_alternates(current: u32)
    ensures
        other_slot(current) matches Some(n) ==> n != current && other_slot(n) == Some(current),
{
}

/// The slot to write to while slot `current` is running: slot 1 runs from
/// partition set A, slot 2 from set B.
pub fn inactive_slot(current: u32) -> (res: Result<InactiveSlot, SlotError>)
    ensures
        match res {
            Ok(s) => other_slot(current) == Some(s.number),
            Err(_) => other_slot(current) is None,
        },
        current == 1 ==> (res matches Ok(s) && s.number == 2 && s.usr_dev@ == "/dev/mmcblk0p6"@
            && s.boot_mount@ == "/boot/b"@ && s.cmdline_prefix@ == "cmdline-b"@),
        current == 2 ==> (res matches Ok(s) && s.number == 1 && s.usr_dev@ == "/dev/mmcblk0p5"@
            && s.boot_mount@ == "/boot/a"@ && s.cmdline_prefix@ == "cmdline-a"@),
        current != 1 && current != 2 ==> res == Err::<InactiveSlot, SlotError>(
            SlotError::UnexpectedPartition(current),
        ),
        match res {
            Ok(s) => slot_for(current) == Some(s@),
            Err(_) => slot_for(current) is None,
        },
{
    match current {
        1 => Ok(
            InactiveSlot {
                number: 2,
                usr_dev: "/dev/mmcblk0p6",
                boot_mount: "/boot/b",
                cmdline_prefix: "cmdline-b",
            },
        ),
        2 => Ok(
            InactiveSlot {
                number: 1,
                usr_dev: "/dev/mmcblk0p5",
                boot_mount: "/boot/a",
                cmdline_prefix: "cmdline-a",
            },
        ),
        other => Err(SlotError::UnexpectedPartition(other)),
    }
}

/// `std::str::from_utf8`. Stated: it accepts exactly valid UTF-8 and
/// decodes it (vstd's model of UTF-8).
#[verifier::external_body]
fn utf8_decode(bytes: &[u8]) -> (res: Option<String>)
    ensures
        match res {
            Some(s) => vstd::utf8::valid_utf8(bytes@) && s@ == vstd::utf8::decode_utf8(bytes@),
            None => !vstd::utf8::valid_utf8(bytes@),
        },
{
    std::str::from_utf8(bytes).ok().map(|s| s.to_string())
}

/// Why the partition the bootloader reports could not be read.
#[derive(Debug)]
pub enum PartitionError {
    /// The text is not a partition number; the trimmed text.
    NotANumber(String),
    /// Neither a binary number nor UTF-8 text; the length in bytes.
    BadLength(usize),
}

/// The partition number in the bootloader's device-tree entry: big-endian
/// 32 bits where there are four or more bytes, the byte itself where there
/// is one, else decimal text.
pub open spec fn partition_number(data: Seq<u8>) -> Option<u32> {
    if data.len() >= 4 {
        Some(
            (data[0] as int * 0x100_0000 + data[1] as int * 0x1_0000 + data[2] as int * 0x100
                + data[3] as int) as u32,
        )
    } else if data.len() == 1 {
        Some(data[0] as u32)
    } else if vstd::utf8::valid_utf8(data) {
        text::parse_u32(text::trim(vstd::utf8::decode_utf8(data)))
    } else {
        None
    }
}

/// Reads the running partition from the bootloader's device-tree entry.
pub fn decode_partition(data: &[u8]) -> (res: Result<u32, PartitionError>)
    ensures
        match res {
            Ok(n) => partition_number(data@) == Some(n),
            Err(PartitionError::NotANumber(t)) => partition_number(data@).is_none() && data@.len()
                < 4 && data@.len() != 1 && vstd::utf8::valid_utf8(data@) && t@ == text::trim(
                vstd::utf8::decode_utf8(data@),
            ),
            Err(PartitionError::BadLength(n)) => partition_number(data@).is_none() && data@.len()
                < 4 && data@.len() != 1 && !vstd::utf8::valid_utf8(data@) && n == data@.len(),
        },
{
    if data.len() >= 4 {
        Ok(
            (data[0] as u32) * 0x100_0000 + (data[1] as u32) * 0x1_0000 + (data[2] as u32) * 0x100
                + (data[3] as u32),
        )
    } else if data.len() == 1 {
        Ok(data[0] as u32)
    } else {
        match utf8_decode(data) {
            Some(s) => {
                let t = text::trim_str(s.as_str());
                let v = text::chars_of(t.as_str());
                proof {
                    assert(v@.subrange(0, v@.len() as int) =~= v@);
                }
                match text::parse_u32_at(&v, 0, v.len()) {
                    Some(n) => Ok(n),
                    None => Err(PartitionError::NotANumber(t)),
                }
            },
            None => Err(PartitionError::BadLength(data.len())),
        }
    }
}

/// The file `name` ends with `suffix` (a name that is not UTF-8 never does).
pub open spec fn name_matches(name: Option<String>, suffix: Seq<char>) -> bool {
    match name {
        Some(n) => suffix.is_suffix_of(n@),
        None => false,
    }
}

/// Why no single staged file could be picked.
#[derive(Debug, PartialEq, Eq, Structural)]
pub enum FindError {
    NoneFound,
    Multiple,
}

/// The one file among `names` that ends with `suffix`.
pub fn find_file(names: &Vec<Option<String>>, suffix: &str) -> (res: Result<usize, FindError>)
    ensures
        match res {
            Ok(i) => i < names@.len() && name_matches(names@[i as int], suffix@) && forall|j: int|
                0 <= j < names@.len() && j != i ==> !name_matches(#[trigger] names@[j], suffix@),
            Err(FindError::NoneFound) => forall|j: int|
                0 <= j < names@.len() ==> !name_matches(#[trigger] names@[j], suffix@),
            Err(FindError::Multiple) => exists|a: int, b: int|
                0 <= a < b < names@.len() && name_matches(#[trigger] names@[a], suffix@)
                    && name_matches(#[trigger] names@[b], suffix@),
        },
{
    let mut found: Option<usize> = None;
    let mut i: usize = 0;
    while i < names.len()
        invariant
            i <= names@.len(),
            match found {
                Some(f) => f < i && name_matches(names@[f as int], suffix@) && forall|j: int|
                    0 <= j < i && j != f ==> !name_matches(#[trigger] names@[j], suffix@),
                None => forall|j: int| 0 <= j < i ==> !name_matches(#[trigger] names@[j], suffix@),
            },
        decreases names@.len() - i,
    {
        let hit = match &names[i] {
            Some(n) => text::str_ends_with(n.as_str(), suffix),
            None => false,
        };
        if hit {
            match found {
                Some(f) => {
                    proof {
                        assert(name_matches(names@[f as int], suffix@));
                        assert(name_matches(names@[i as int], suffix@));
                    }
                    return Err(FindError::Multiple);
                },
                None => {
                    found = Some(i);
                },
            }
        }
        i = i + 1;
    }
    match found {
        Some(f) => Ok(f),
        None => Err(FindError::NoneFound),
    }
}

/// The boot file `name` is a per-slot `cmdline-*` source.
pub open spec fn cmdline_name(name: Option<String>) -> bool {
    match name {
        Some(n) => "cmdline-"@.is_prefix_of(n@),
        None => false,
    }
}

/// Boot files named `cmdline-*` are per-slot sources, not copied as they
/// are (a name that is not UTF-8 is copied).
pub fn is_cmdline_source(name: &Option<String>) -> (res: bool)
    ensures
        res == cmdline_name(*name),
{
    match name {
        Some(n) => text::str_starts_with(n.as_str(), "cmdline-"),
        None => false,
    }
}

/// The kernel command line that becomes the slot's `cmdline.txt`.
pub fn cmdline_file_name(slot: &InactiveSlot) -> (res: String)
    ensures
        res@ == slot.cmdline_prefix@ + ".txt"@,
{
    concat(slot.cmdline_prefix, ".txt")
}

/// `dd` arguments that write `image` to the device `dev`.
pub fn dd_args(image: &str, dev: &str) -> (res: Vec<String>)
    ensures
        text::views(res@) == seq!["if="@ + image@, "of="@ + dev@, "bs=128M"@, "conv=fsync"@],
{
    let mut out: Vec<String> = Vec::new();
    out.push(concat("if=", image));
    out.push(concat("of=", dev));
    out.push(String::from_str("bs=128M"));
    out.push(String::from_str("conv=fsync"));
    proof {
        assert(text::views(out@) =~= seq![
            "if="@ + image@,
            "of="@ + dev@,
            "bs=128M"@,
            "conv=fsync"@,
        ]);
    }
    out
}

/// A program to run and its arguments.
pub struct Invocation {
    pub program: String,
    pub args: Vec<String>,
}

/// The command that reboots into the other slot once (`tryboot`).
pub fn trigger_tryboot() -> (res: Invocation)
    ensures
        res.program@ == "reboot"@,
        text::views(res.args@) == seq!["0 tryboot"@],
{
    let mut args: Vec<String> = Vec::new();
    args.push(String::from_str("0 tryboot"));
    proof {
        assert(text::views(args@) =~= seq!["0 tryboot"@]);
    }
    Invocation { program: String::from_str("reboot"), args }
}

} // verus!
