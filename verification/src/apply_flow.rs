//! The steps that write a staged release to the inactive slot: read which
//! partition set runs, pick the staged usr image and boot archive, unpack
//! the boot files, write the usr partition, then copy the boot files and
//! the slot's kernel command line onto its boot partition. Each step's
//! outside work is done by the caller, which hands its outcome back as the
//! next [`ApplyEvent`].

use vstd::prelude::*;

use crate::slot::{
    cmdline_name, decode_partition, find_file, inactive_slot, is_cmdline_source, name_matches,
    other_slot, partition_number, FindError, InactiveSlot, PartitionError, SlotModel, slot_for,
};
use crate::oci::concat;
use crate::text;

verus! {

/// Why the slot could not be written.
pub enum ApplyFailure {
    /// Outside work failed; what it reported.
    Io(String),
    /// The running partition is given as text that is not a number.
    NotANumber(String),
    /// The running partition is given in neither form; its length.
    BadLength(usize),
    /// The running partition is neither set A nor set B.
    UnexpectedPartition(u32),
    /// No staged file ends with this suffix.
    NoneFound(&'static str),
    /// Several staged files end with this suffix.
    Multiple(&'static str),
    /// The slot's boot partition is not mounted at this directory.
    MountMissing(&'static str),
}

pub enum FailureModel {
    Io(Seq<char>),
    NotANumber(Seq<char>),
    BadLength(nat),
    UnexpectedPartition(u32),
    NoneFound(Seq<char>),
    Multiple(Seq<char>),
    MountMissing(Seq<char>),
}

impl View for ApplyFailure {
    type V = FailureModel;

    open spec fn view(&self) -> FailureModel {
        match self {
            ApplyFailure::Io(m) => FailureModel::Io(m@),
            ApplyFailure::NotANumber(t) => FailureModel::NotANumber(t@),
            ApplyFailure::BadLength(n) => FailureModel::BadLength(*n as nat),
            ApplyFailure::UnexpectedPartition(n) => FailureModel::UnexpectedPartition(*n),
            ApplyFailure::NoneFound(s) => FailureModel::NoneFound(s@),
            ApplyFailure::Multiple(s) => FailureModel::Multiple(s@),
            ApplyFailure::MountMissing(d) => FailureModel::MountMissing(d@),
        }
    }
}

/// The outcome of a step's outside work.
pub enum ApplyEvent {
    /// Writing the slot was asked for.
    Begin,
    /// The bootloader's record of the running partition, or why it could
    /// not be read.
    Partition(Result<Vec<u8>, String>),
    /// The names of the files in the staging directory (`None` for a name
    /// that is not UTF-8).
    Staged(Result<Vec<Option<String>>, String>),
    /// The boot archive was unpacked into a fresh directory.
    Extracted(Result<(), String>),
    /// The usr image was written to the slot's usr partition.
    UsrWritten(Result<(), String>),
    /// Whether the slot's boot partition is a mounted directory.
    MountChecked(bool),
    /// The names of the unpacked boot files.
    BootFiles(Result<Vec<Option<String>>, String>),
    /// The last copy finished.
    Copied(Result<(), String>),
}

/// The outside work to do next.
pub enum ApplyCommand {
    /// Nothing: the event was not the one awaited.
    Wait,
    /// Read the running partition; answer `Partition`.
    ReadPartition,
    /// List the staging directory; answer `Staged`.
    ListStaged,
    /// Unpack the staged file at `tar` into an emptied boot directory;
    /// answer `Extracted`.
    ExtractBoot { tar: usize },
    /// Write the staged file at `usr` to `device` (with `dd_args`); answer
    /// `UsrWritten`.
    WriteUsr { usr: usize, device: &'static str },
    /// Look whether `dir` is a directory; answer `MountChecked`.
    CheckMount { dir: &'static str },
    /// List the unpacked boot files; answer `BootFiles`.
    ListBootFiles,
    /// Copy the boot file at `file` into `dir` under its own name; answer
    /// `Copied`.
    CopyBootFile { file: usize, dir: &'static str },
    /// Copy the unpacked boot file `source` to `dir` as `cmdline.txt`;
    /// answer `Copied`.
    CopyCmdline { source: String, dir: &'static str },
    /// Writing the slot is over, with this outcome.
    Done(Result<(), ApplyFailure>),
}

pub enum CommandModel {
    Wait,
    ReadPartition,
    ListStaged,
    ExtractBoot { tar: int },
    WriteUsr { usr: int, device: Seq<char> },
    CheckMount { dir: Seq<char> },
    ListBootFiles,
    CopyBootFile { file: int, dir: Seq<char> },
    CopyCmdline { source: Seq<char>, dir: Seq<char> },
    Done(Result<(), FailureModel>),
}

impl View for ApplyCommand {
    type V = CommandModel;

    open spec fn view(&self) -> CommandModel {
        match self {
            ApplyCommand::Wait => CommandModel::Wait,
            ApplyCommand::ReadPartition => CommandModel::ReadPartition,
            ApplyCommand::ListStaged => CommandModel::ListStaged,
            ApplyCommand::ExtractBoot { tar } => CommandModel::ExtractBoot { tar: *tar as int },
            ApplyCommand::WriteUsr { usr, device } => CommandModel::WriteUsr {
                usr: *usr as int,
                device: device@,
            },
            ApplyCommand::CheckMount { dir } => CommandModel::CheckMount { dir: dir@ },
            ApplyCommand::ListBootFiles => CommandModel::ListBootFiles,
            ApplyCommand::CopyBootFile { file, dir } => CommandModel::CopyBootFile {
                file: *file as int,
                dir: dir@,
            },
            ApplyCommand::CopyCmdline { source, dir } => CommandModel::CopyCmdline {
                source: source@,
                dir: dir@,
            },
            ApplyCommand::Done(r) => CommandModel::Done(
                match r {
                    Ok(()) => Ok(()),
                    Err(f) => Err(f@),
                },
            ),
        }
    }
}

/// Where writing the slot stands.
pub enum ApplyPhase {
    Start,
    AwaitPartition,
    AwaitStaged { slot: InactiveSlot },
    AwaitExtract { slot: InactiveSlot, usr: usize },
    AwaitUsrWrite { slot: InactiveSlot },
    AwaitMountCheck { slot: InactiveSlot },
    AwaitBootFiles { slot: InactiveSlot },
    AwaitCopy { slot: InactiveSlot, names: Vec<Option<String>>, next: usize },
    AwaitCmdline,
    Finished,
}

pub enum PhaseModel {
    Start,
    AwaitPartition,
    AwaitStaged { slot: SlotModel },
    AwaitExtract { slot: SlotModel, usr: int },
    AwaitUsrWrite { slot: SlotModel },
    AwaitMountCheck { slot: SlotModel },
    AwaitBootFiles { slot: SlotModel },
    AwaitCopy { slot: SlotModel, names: Seq<Option<String>>, next: int },
    AwaitCmdline,
    Finished,
}

impl View for ApplyPhase {
    type V = PhaseModel;

    open spec fn view(&self) -> PhaseModel {
        match self {
            ApplyPhase::Start => PhaseModel::Start,
            ApplyPhase::AwaitPartition => PhaseModel::AwaitPartition,
            ApplyPhase::AwaitStaged { slot } => PhaseModel::AwaitStaged { slot: slot@ },
            ApplyPhase::AwaitExtract { slot, usr } => PhaseModel::AwaitExtract {
                slot: slot@,
                usr: *usr as int,
            },
            ApplyPhase::AwaitUsrWrite { slot } => PhaseModel::AwaitUsrWrite { slot: slot@ },
            ApplyPhase::AwaitMountCheck { slot } => PhaseModel::AwaitMountCheck { slot: slot@ },
            ApplyPhase::AwaitBootFiles { slot } => PhaseModel::AwaitBootFiles { slot: slot@ },
            ApplyPhase::AwaitCopy { slot, names, next } => PhaseModel::AwaitCopy {
                slot: slot@,
                names: names@,
                next: *next as int,
            },
            ApplyPhase::AwaitCmdline => PhaseModel::AwaitCmdline,
            ApplyPhase::Finished => PhaseModel::Finished,
        }
    }
}

/// The one file among `names` that ends with `suffix`, or why there is
/// not exactly one.
pub open spec fn found(names: Seq<Option<String>>, suffix: Seq<char>) -> Result<int, FindError> {
    if forall|j: int| 0 <= j < names.len() ==> !name_matches(#[trigger] names[j], suffix) {
        Err(FindError::NoneFound)
    } else if exists|a: int, b: int|
        0 <= a < b < names.len() && name_matches(#[trigger] names[a], suffix) && name_matches(
            #[trigger] names[b],
            suffix,
        ) {
        Err(FindError::Multiple)
    } else {
        Ok(choose|i: int| 0 <= i < names.len() && name_matches(names[i], suffix))
    }
}

/// The failure for a staged file with `suffix` that is missing or not alone.
pub open spec fn find_failure(suffix: Seq<char>, f: FindError) -> FailureModel {
    match f {
        FindError::NoneFound => FailureModel::NoneFound(suffix),
        FindError::Multiple => FailureModel::Multiple(suffix),
    }
}

/// The failure for a record of the running partition that holds no
/// number: its trimmed text where it is UTF-8, else its length.
pub open spec fn partition_failure(data: Seq<u8>) -> FailureModel {
    if vstd::utf8::valid_utf8(data) {
        FailureModel::NotANumber(text::trim(vstd::utf8::decode_utf8(data)))
    } else {
        FailureModel::BadLength(data.len())
    }
}

/// The first boot file at or after `from` that is copied as it is.
pub open spec fn next_copy(names: Seq<Option<String>>, from: int) -> Option<int>
    decreases names.len() - from,
{
    if from < 0 || from >= names.len() {
        None
    } else if !cmdline_name(names[from]) {
        Some(from)
    } else {
        next_copy(names, from + 1)
    }
}

/// Copies the next boot file at or after `from`; once none is left, the
/// slot's command line.
pub open spec fn copy_from(slot: SlotModel, names: Seq<Option<String>>, from: int) -> (
    PhaseModel,
    CommandModel,
) {
    match next_copy(names, from) {
        Some(i) => (
            PhaseModel::AwaitCopy { slot, names, next: i + 1 },
            CommandModel::CopyBootFile { file: i, dir: slot.boot_mount },
        ),
        None => (
            PhaseModel::AwaitCmdline,
            CommandModel::CopyCmdline {
                source: slot.cmdline_prefix + ".txt"@,
                dir: slot.boot_mount,
            },
        ),
    }
}

/// The end of writing the slot, with failure `f`.
pub open spec fn fail(f: FailureModel) -> (PhaseModel, CommandModel) {
    (PhaseModel::Finished, CommandModel::Done(Err(f)))
}

/// The next phase and command, from phase `p` on event `e`.
pub open spec fn apply_next(p: PhaseModel, e: ApplyEvent) -> (PhaseModel, CommandModel) {
    match (p, e) {
        (PhaseModel::Start, ApplyEvent::Begin) => (
            PhaseModel::AwaitPartition,
            CommandModel::ReadPartition,
        ),
        (PhaseModel::AwaitPartition, ApplyEvent::Partition(r)) => match r {
            Err(m) => fail(FailureModel::Io(m@)),
            Ok(data) => match partition_number(data@) {
                None => fail(partition_failure(data@)),
                Some(n) => match slot_for(n) {
                    None => fail(FailureModel::UnexpectedPartition(n)),
                    Some(slot) => (PhaseModel::AwaitStaged { slot }, CommandModel::ListStaged),
                },
            },
        },
        (PhaseModel::AwaitStaged { slot }, ApplyEvent::Staged(r)) => match r {
            Err(m) => fail(FailureModel::Io(m@)),
            Ok(names) => match found(names@, ".usr"@) {
                Err(f) => fail(find_failure(".usr"@, f)),
                Ok(usr) => match found(names@, "_boot.tar"@) {
                    Err(f) => fail(find_failure("_boot.tar"@, f)),
                    Ok(tar) => (
                        PhaseModel::AwaitExtract { slot, usr },
                        CommandModel::ExtractBoot { tar },
                    ),
                },
            },
        },
        (PhaseModel::AwaitExtract { slot, usr }, ApplyEvent::Extracted(r)) => match r {
            Err(m) => fail(FailureModel::Io(m@)),
            Ok(()) => (
                PhaseModel::AwaitUsrWrite { slot },
                CommandModel::WriteUsr { usr, device: slot.usr_dev },
            ),
        },
        (PhaseModel::AwaitUsrWrite { slot }, ApplyEvent::UsrWritten(r)) => match r {
            Err(m) => fail(FailureModel::Io(m@)),
            Ok(()) => (
                PhaseModel::AwaitMountCheck { slot },
                CommandModel::CheckMount { dir: slot.boot_mount },
            ),
        },
        (PhaseModel::AwaitMountCheck { slot }, ApplyEvent::MountChecked(is_dir)) => if is_dir {
            (PhaseModel::AwaitBootFiles { slot }, CommandModel::ListBootFiles)
        } else {
            fail(FailureModel::MountMissing(slot.boot_mount))
        },
        (PhaseModel::AwaitBootFiles { slot }, ApplyEvent::BootFiles(r)) => match r {
            Err(m) => fail(FailureModel::Io(m@)),
            Ok(names) => copy_from(slot, names@, 0),
        },
        (PhaseModel::AwaitCopy { slot, names, next }, ApplyEvent::Copied(r)) => match r {
            Err(m) => fail(FailureModel::Io(m@)),
            Ok(()) => copy_from(slot, names, next),
        },
        (PhaseModel::AwaitCmdline, ApplyEvent::Copied(r)) => match r {
            Err(m) => fail(FailureModel::Io(m@)),
            Ok(()) => (PhaseModel::Finished, CommandModel::Done(Ok(()))),
        },
        (p, _) => (p, CommandModel::Wait),
    }
}

/// `find_file`, with its outcome as [`found`] states it.
fn locate(names: &Vec<Option<String>>, suffix: &str) -> (res: Result<usize, FindError>)
    ensures
        found(names@, suffix@) == (match res {
            Ok(i) => Ok(i as int),
            Err(e) => Err::<int, FindError>(e),
        }),
{
    let res = find_file(names, suffix);
    proof {
        match res {
            Ok(i) => {
                assert(name_matches(names@[i as int], suffix@));
                assert(!(forall|j: int|
                    0 <= j < names@.len() ==> !name_matches(#[trigger] names@[j], suffix@)));
                assert(!(exists|a: int, b: int|
                    0 <= a < b < names@.len() && name_matches(#[trigger] names@[a], suffix@)
                        && name_matches(#[trigger] names@[b], suffix@)));
                let c = choose|c: int| 0 <= c < names@.len() && name_matches(names@[c], suffix@);
                assert(0 <= c < names@.len() && name_matches(names@[c], suffix@));
                assert(c == i);
            },
            Err(FindError::NoneFound) => {},
            Err(FindError::Multiple) => {
                let (a, b) = choose|a: int, b: int|
                    0 <= a < b < names@.len() && name_matches(#[trigger] names@[a], suffix@)
                        && name_matches(#[trigger] names@[b], suffix@);
                assert(name_matches(names@[a], suffix@));
            },
        }
    }
    res
}

/// The failure for a staged file with `suffix` that is missing or not alone.
fn find_failed(suffix: &'static str, f: FindError) -> (res: ApplyFailure)
    ensures
        res@ == find_failure(suffix@, f),
{
    match f {
        FindError::NoneFound => ApplyFailure::NoneFound(suffix),
        FindError::Multiple => ApplyFailure::Multiple(suffix),
    }
}

/// Copies the next boot file at or after `from`, else the command line.
fn copy_step(slot: InactiveSlot, names: Vec<Option<String>>, from: usize) -> (res: (
    ApplyPhase,
    ApplyCommand,
))
    ensures
        (res.0@, res.1@) == copy_from(slot@, names@, from as int),
{
    let mut i: usize = from;
    while i < names.len()
        invariant
            from <= i,
            next_copy(names@, from as int) == next_copy(names@, i as int),
        decreases names@.len() - i,
    {
        if !is_cmdline_source(&names[i]) {
            let dir = slot.boot_mount;
            return (ApplyPhase::AwaitCopy { slot, names, next: i + 1 }, ApplyCommand::CopyBootFile {
                file: i,
                dir,
            });
        }
        i = i + 1;
    }
    let source = concat(slot.cmdline_prefix, ".txt");
    (ApplyPhase::AwaitCmdline, ApplyCommand::CopyCmdline { source, dir: slot.boot_mount })
}

/// Writing the slot in progress.
pub struct ApplyFlow {
    pub phase: ApplyPhase,
}

impl ApplyFlow {
    /// Writing the slot has not started.
    pub fn new() -> (res: ApplyFlow)
        ensures
            res.phase@ == PhaseModel::Start,
    {
        ApplyFlow { phase: ApplyPhase::Start }
    }

    /// Takes in the outcome of the last command; returns the next one.
    pub fn step(&mut self, event: ApplyEvent) -> (res: ApplyCommand)
        ensures
            (final(self).phase@, res@) == apply_next(old(self).phase@, event),
    {
        let mut phase = ApplyPhase::Finished;
        std::mem::swap(&mut phase, &mut self.phase);
        let (next, cmd) = match (phase, event) {
            (ApplyPhase::Start, ApplyEvent::Begin) => (
                ApplyPhase::AwaitPartition,
                ApplyCommand::ReadPartition,
            ),
            (ApplyPhase::AwaitPartition, ApplyEvent::Partition(r)) => match r {
                Err(m) => (ApplyPhase::Finished, ApplyCommand::Done(Err(ApplyFailure::Io(m)))),
                Ok(data) => match decode_partition(data.as_slice()) {
                    Err(PartitionError::NotANumber(t)) => (
                        ApplyPhase::Finished,
                        ApplyCommand::Done(Err(ApplyFailure::NotANumber(t))),
                    ),
                    Err(PartitionError::BadLength(n)) => (
                        ApplyPhase::Finished,
                        ApplyCommand::Done(Err(ApplyFailure::BadLength(n))),
                    ),
                    Ok(n) => match inactive_slot(n) {
                        Err(_) => (
                            ApplyPhase::Finished,
                            ApplyCommand::Done(Err(ApplyFailure::UnexpectedPartition(n))),
                        ),
                        Ok(slot) => (ApplyPhase::AwaitStaged { slot }, ApplyCommand::ListStaged),
                    },
                },
            },
            (ApplyPhase::AwaitStaged { slot }, ApplyEvent::Staged(r)) => match r {
                Err(m) => (ApplyPhase::Finished, ApplyCommand::Done(Err(ApplyFailure::Io(m)))),
                Ok(names) => match locate(&names, ".usr") {
                    Err(f) => (
                        ApplyPhase::Finished,
                        ApplyCommand::Done(Err(find_failed(".usr", f))),
                    ),
                    Ok(usr) => match locate(&names, "_boot.tar") {
                        Err(f) => (
                            ApplyPhase::Finished,
                            ApplyCommand::Done(Err(find_failed("_boot.tar", f))),
                        ),
                        Ok(tar) => (
                            ApplyPhase::AwaitExtract { slot, usr },
                            ApplyCommand::ExtractBoot { tar },
                        ),
                    },
                },
            },
            (ApplyPhase::AwaitExtract { slot, usr }, ApplyEvent::Extracted(r)) => match r {
                Err(m) => (ApplyPhase::Finished, ApplyCommand::Done(Err(ApplyFailure::Io(m)))),
                Ok(()) => {
                    let device = slot.usr_dev;
                    (ApplyPhase::AwaitUsrWrite { slot }, ApplyCommand::WriteUsr { usr, device })
                },
            },
            (ApplyPhase::AwaitUsrWrite { slot }, ApplyEvent::UsrWritten(r)) => match r {
                Err(m) => (ApplyPhase::Finished, ApplyCommand::Done(Err(ApplyFailure::Io(m)))),
                Ok(()) => {
                    let dir = slot.boot_mount;
                    (ApplyPhase::AwaitMountCheck { slot }, ApplyCommand::CheckMount { dir })
                },
            },
            (ApplyPhase::AwaitMountCheck { slot }, ApplyEvent::MountChecked(is_dir)) => if is_dir {
                (ApplyPhase::AwaitBootFiles { slot }, ApplyCommand::ListBootFiles)
            } else {
                (
                    ApplyPhase::Finished,
                    ApplyCommand::Done(Err(ApplyFailure::MountMissing(slot.boot_mount))),
                )
            },
            (ApplyPhase::AwaitBootFiles { slot }, ApplyEvent::BootFiles(r)) => match r {
                Err(m) => (ApplyPhase::Finished, ApplyCommand::Done(Err(ApplyFailure::Io(m)))),
                Ok(names) => copy_step(slot, names, 0),
            },
            (ApplyPhase::AwaitCopy { slot, names, next }, ApplyEvent::Copied(r)) => match r {
                Err(m) => (ApplyPhase::Finished, ApplyCommand::Done(Err(ApplyFailure::Io(m)))),
                Ok(()) => copy_step(slot, names, next),
            },
            (ApplyPhase::AwaitCmdline, ApplyEvent::Copied(r)) => match r {
                Err(m) => (ApplyPhase::Finished, ApplyCommand::Done(Err(ApplyFailure::Io(m)))),
                Ok(()) => (ApplyPhase::Finished, ApplyCommand::Done(Ok(()))),
            },
            (p, _) => (p, ApplyCommand::Wait),
        };
        self.phase = next;
        cmd
    }
}

/// The slot that is written is the one that is not running: it is chosen
/// from the running partition, before anything else is done.
pub proof fn law_writes_the_other_slot(p: PhaseModel, e: ApplyEvent)
    ensures
        apply_next(p, e).1 is ListStaged ==> (p is AwaitPartition && (e matches ApplyEvent::Partition(
            Ok(data),
        ) && (partition_number(data@) matches Some(n) && (apply_next(p, e).0 matches PhaseModel::AwaitStaged {
            slot,
        } && slot_for(n) == Some(slot) && other_slot(n) == Some(slot.number))))),
{
}

/// Nothing is unpacked or written before exactly one usr image and exactly
/// one boot archive were found among the staged files; the usr image goes
/// to the chosen slot's usr partition, and only once the boot archive was
/// unpacked.
pub proof fn law_staged_files_checked_first(p: PhaseModel, e: ApplyEvent)
    ensures
        apply_next(p, e).1 matches CommandModel::ExtractBoot { tar } ==> (p matches PhaseModel::AwaitStaged {
            slot,
        } && (e matches ApplyEvent::Staged(Ok(names)) && found(names@, "_boot.tar"@) == Ok::<
            int,
            FindError,
        >(tar) && (found(names@, ".usr"@) matches Ok(usr) && apply_next(p, e).0
            == PhaseModel::AwaitExtract { slot, usr }))),
        apply_next(p, e).1 matches CommandModel::WriteUsr { usr, device } ==> (p matches PhaseModel::AwaitExtract {
            slot,
            usr: u,
        } && u == usr && device == slot.usr_dev && e matches ApplyEvent::Extracted(Ok(()))),
{
}

/// The boot partition is only written once the usr partition was written
/// and the boot partition was found mounted; each boot file goes to the
/// chosen slot's boot partition, and the command line comes last.
pub proof fn law_boot_files_after_usr(p: PhaseModel, e: ApplyEvent)
    ensures
        apply_next(p, e).1 is CheckMount ==> (p is AwaitUsrWrite && e matches ApplyEvent::UsrWritten(
            Ok(()),
        )),
        apply_next(p, e).1 is ListBootFiles ==> (p is AwaitMountCheck
            && e matches ApplyEvent::MountChecked(true)),
        apply_next(p, e).1 matches CommandModel::CopyBootFile { file, dir } ==> (p is AwaitBootFiles
            || p is AwaitCopy) && (apply_next(p, e).0 matches PhaseModel::AwaitCopy {
            slot,
            names,
            next,
        } && dir == slot.boot_mount && 0 <= file < names.len() && next == file + 1
            && !cmdline_name(names[file])),
        apply_next(p, e).1 matches CommandModel::CopyCmdline { source, dir } ==> (p matches PhaseModel::AwaitBootFiles {
            slot,
        } && source == slot.cmdline_prefix + ".txt"@ && dir == slot.boot_mount) || (p matches PhaseModel::AwaitCopy {
            slot,
            ..
        } && source == slot.cmdline_prefix + ".txt"@ && dir == slot.boot_mount),
        apply_next(p, e).1 == CommandModel::Done(Ok(())) ==> (p is AwaitCmdline
            && e matches ApplyEvent::Copied(Ok(()))),
{
    if let CommandModel::CopyBootFile { file, dir } = apply_next(p, e).1 {
        match (p, e) {
            (PhaseModel::AwaitBootFiles { slot }, ApplyEvent::BootFiles(Ok(names))) => {
                law_copies_every_boot_file(names@, 0);
            },
            (PhaseModel::AwaitCopy { slot, names, next }, ApplyEvent::Copied(Ok(()))) => {
                if next >= 0 {
                    law_copies_every_boot_file(names, next);
                }
            },
            _ => {},
        }
    }
}

/// Every unpacked boot file but the `cmdline-*` sources is copied, in the
/// order listed: the next one copied after position `from` is the first
/// such file from there, and once none is found, none is left.
pub proof fn law_copies_every_boot_file(names: Seq<Option<String>>, from: int)
    requires
        0 <= from,
    ensures
        match next_copy(names, from) {
            Some(i) => from <= i < names.len() && !cmdline_name(names[i]) && forall|j: int|
                from <= j < i ==> cmdline_name(#[trigger] names[j]),
            None => forall|j: int| from <= j < names.len() ==> cmdline_name(#[trigger] names[j]),
        },
    decreases names.len() - from,
{
    if from < names.len() && cmdline_name(names[from]) {
        law_copies_every_boot_file(names, from + 1);
    }
}

/// Every failure ends writing the slot, and once over it stays over.
pub proof fn law_failure_ends(p: PhaseModel, e: ApplyEvent)
    ensures
        apply_next(p, e).1 is Done ==> apply_next(p, e).0 is Finished,
        apply_next(PhaseModel::Finished, e) == (PhaseModel::Finished, CommandModel::Wait),
{
}

} // verus!
