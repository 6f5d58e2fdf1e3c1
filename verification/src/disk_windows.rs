//! Install targets among the physical disks Windows reports.

use vstd::prelude::*;

use crate::disk::{join_groups, models, opt_view, push_grouped, removable_first, Disk, DiskModel};
use crate::oci::concat;
use crate::text;

verus! {

broadcast use vstd::seq_lib::group_seq_properties;

/// What PowerShell reports of one physical disk; a field is `None` where it
/// is missing or of another JSON type.
pub struct WinDiskEntry {
    pub device_id: Option<String>,
    pub friendly_name: Option<String>,
    pub size: Option<u64>,
    pub bus_type: Option<String>,
    pub is_system: Option<bool>,
}

/// A reported disk, by the characters of its strings.
pub struct WinDiskEntryModel {
    pub device_id: Option<Seq<char>>,
    pub friendly_name: Option<Seq<char>>,
    pub size: Option<u64>,
    pub bus_type: Option<Seq<char>>,
    pub is_system: Option<bool>,
}

impl View for WinDiskEntry {
    type V = WinDiskEntryModel;

    open spec fn view(&self) -> WinDiskEntryModel {
        WinDiskEntryModel {
            device_id: opt_view(self.device_id),
            friendly_name: opt_view(self.friendly_name),
            size: self.size,
            bus_type: opt_view(self.bus_type),
            is_system: self.is_system,
        }
    }
}

/// The reported disks, by their models.
pub open spec fn entry_models(v: Seq<WinDiskEntry>) -> Seq<WinDiskEntryModel> {
    v.map_values(|e: WinDiskEntry| e@)
}

/// What the PowerShell disk query printed, read as JSON: the list of
/// reported disks (one object stands for a list of one), or `None` where
/// the bytes are not JSON; a function of the bytes alone.
pub uninterp spec fn powershell_disk_entries(stdout: Seq<u8>) -> Option<Seq<WinDiskEntryModel>>;

/// `serde_json::from_str` on the (lossily decoded) output, then the lookups
/// of `DeviceId`, `FriendlyName`, `BusType` (strings), `Size` (unsigned
/// integer) and `IsSystem` (boolean) in each object. Stated only as a
/// function of the bytes; JSON itself is left to the outside crate.
#[verifier::external_body]
fn parse_windows_disks(stdout: &[u8]) -> (res: Option<Vec<WinDiskEntry>>)
    ensures
        match res {
            Some(v) => powershell_disk_entries(stdout@) == Some(entry_models(v@)),
            None => powershell_disk_entries(stdout@).is_none(),
        },
{
    let value: serde_json::Value = serde_json::from_str(&String::from_utf8_lossy(stdout)).ok()?;
    let values = match value {
        serde_json::Value::Array(a) => a,
        other => vec![other],
    };
    let text = |e: &serde_json::Value, k: &str| e.get(k).and_then(|v| v.as_str()).map(String::from);
    Some(values.iter().map(|e| WinDiskEntry {
        device_id: text(e, "DeviceId"),
        friendly_name: text(e, "FriendlyName"),
        size: e.get("Size").and_then(serde_json::Value::as_u64),
        bus_type: text(e, "BusType"),
        is_system: e.get("IsSystem").and_then(serde_json::Value::as_bool),
    }).collect())
}

/// A disk can be installed to when it holds no boot or system partition,
/// is not empty, and is removable.
pub fn is_install_target(is_system: bool, size: u64, is_removable: bool) -> (res: bool)
    ensures
        res == (!is_system && size > 0 && is_removable),
{
    !is_system && size > 0 && is_removable
}

/// Bus types of removable media.
pub open spec fn removable_bus(bus: Seq<char>) -> bool {
    bus == "USB"@ || bus == "SD"@ || bus == "MMC"@ || bus == "1394"@ || bus
        == "FileBackedVirtual"@
}

pub open spec fn str_or(o: Option<Seq<char>>, d: Seq<char>) -> Seq<char> {
    match o {
        Some(s) => s,
        None => d,
    }
}

/// The install target an entry reports, if it is one.
pub open spec fn win_disk(e: WinDiskEntryModel) -> Option<DiskModel> {
    match e.device_id {
        None => None,
        Some(id) => {
            let bus = str_or(e.bus_type, "Unknown"@);
            let size = match e.size {
                Some(n) => n,
                None => 0,
            };
            let is_system = match e.is_system {
                Some(b) => b,
                None => false,
            };
            if !is_system && size > 0 && removable_bus(bus) {
                Some(
                    DiskModel {
                        device: "\\\\.\\PhysicalDrive"@ + id,
                        description: str_or(e.friendly_name, "Unknown"@),
                        size,
                        is_removable: true,
                        bus_type: bus,
                    },
                )
            } else {
                None
            }
        },
    }
}

pub open spec fn win_disk_fn() -> spec_fn(WinDiskEntryModel) -> Option<DiskModel> {
    |e: WinDiskEntryModel| win_disk(e)
}

fn str_or_default(o: &Option<String>, d: &str) -> (res: String)
    ensures
        res@ == str_or(opt_view(*o), d@),
{
    match o {
        Some(s) => s.clone(),
        None => String::from_str(d),
    }
}

fn win_target(e: &WinDiskEntry) -> (res: Option<Disk>)
    ensures
        match res {
            Some(d) => win_disk(e@) == Some(d@),
            None => win_disk(e@).is_none(),
        },
{
    let id = match &e.device_id {
        Some(id) => id,
        None => return None,
    };
    let bus = str_or_default(&e.bus_type, "Unknown");
    let size = match e.size {
        Some(n) => n,
        None => 0,
    };
    let is_system = match e.is_system {
        Some(b) => b,
        None => false,
    };
    let b = bus.as_str();
    let is_removable = text::str_eq(b, "USB") || text::str_eq(b, "SD") || text::str_eq(b, "MMC")
        || text::str_eq(b, "1394") || text::str_eq(b, "FileBackedVirtual");
    if !is_install_target(is_system, size, is_removable) {
        return None;
    }
    Some(
        Disk {
            device: concat("\\\\.\\PhysicalDrive", id.as_str()),
            description: str_or_default(&e.friendly_name, "Unknown"),
            size,
            is_removable,
            bus_type: bus,
        },
    )
}

/// The install targets among the reported disks, removable ones first,
/// each group in the order reported.
pub fn list_disks(entries: &Vec<WinDiskEntry>) -> (res: Vec<Disk>)
    ensures
        models(res@) == removable_first(entry_models(entries@).filter_map(win_disk_fn())),
{
    let ghost ms = entry_models(entries@);
    let mut removable: Vec<Disk> = Vec::new();
    let mut fixed: Vec<Disk> = Vec::new();
    let mut i: usize = 0;
    while i < entries.len()
        invariant
            i <= entries@.len(),
            ms == entry_models(entries@),
            models(removable@) == ms.take(i as int).filter_map(win_disk_fn()).filter(
                |d: DiskModel| d.is_removable,
            ),
            models(fixed@) == ms.take(i as int).filter_map(win_disk_fn()).filter(
                |d: DiskModel| !d.is_removable,
            ),
        decreases entries@.len() - i,
    {
        let ghost before = ms.take(i as int).filter_map(win_disk_fn());
        proof {
            ms.lemma_filter_map_take_succ(win_disk_fn(), i as int);
            assert(ms[i as int] == entries@[i as int]@);
        }
        match win_target(&entries[i]) {
            Some(disk) => {
                proof {
                    assert(ms.take(i + 1).filter_map(win_disk_fn()) =~= before.push(disk@));
                    before.lemma_filter_push(disk@, |d: DiskModel| d.is_removable);
                    before.lemma_filter_push(disk@, |d: DiskModel| !d.is_removable);
                }
                push_grouped(&mut removable, &mut fixed, disk);
            },
            None => {
                proof {
                    assert(ms.take(i + 1).filter_map(win_disk_fn()) =~= before);
                }
            },
        }
        i = i + 1;
    }
    proof {
        assert(ms.take(entries@.len() as int) =~= ms);
    }
    join_groups(removable, fixed)
}

/// The install targets in what the PowerShell disk query printed, removable
/// ones first; none where the output is not JSON.
pub fn list_from_powershell(stdout: &[u8]) -> (res: Vec<Disk>)
    ensures
        match powershell_disk_entries(stdout@) {
            None => res@.len() == 0,
            Some(es) => models(res@) == removable_first(es.filter_map(win_disk_fn())),
        },
{
    match parse_windows_disks(stdout) {
        None => Vec::new(),
        Some(entries) => list_disks(&entries),
    }
}

/// A reported disk is offered only when it has an id, a size, holds no
/// boot or system partition, and sits on a removable bus (USB, SD, MMC,
/// FireWire, or a virtual disk backed by a file); it is then offered as
/// removable, as `\\.\PhysicalDrive<id>`, with its size and bus. Fixed
/// buses such as NVMe or SATA are never offered.
pub proof fn law_windows_targets(e: WinDiskEntryModel)
    ensures
        win_disk(e) matches Some(d) ==> (e.device_id matches Some(id) && d.device
            == "\\\\.\\PhysicalDrive"@ + id && e.size == Some(d.size) && d.size > 0
            && e.is_system != Some(true) && d.is_removable && e.bus_type == Some(d.bus_type) && (
        d.bus_type == "USB"@ || d.bus_type == "SD"@ || d.bus_type == "MMC"@ || d.bus_type
            == "1394"@ || d.bus_type == "FileBackedVirtual"@)),
        (e.device_id is Some && (e.size matches Some(n) && n > 0) && e.is_system != Some(true) && (
        e.bus_type == Some("USB"@) || e.bus_type == Some("SD"@) || e.bus_type == Some("MMC"@)
            || e.bus_type == Some("1394"@) || e.bus_type == Some("FileBackedVirtual"@)))
            ==> win_disk(e) is Some,
        e.bus_type == Some("NVMe"@) || e.bus_type == Some("SATA"@) || e.bus_type is None
            ==> win_disk(e) is None,
{
    reveal_strlit("Unknown");
    reveal_strlit("USB");
    reveal_strlit("SD");
    reveal_strlit("MMC");
    reveal_strlit("1394");
    reveal_strlit("FileBackedVirtual");
    reveal_strlit("NVMe");
    reveal_strlit("SATA");
    assert(!removable_bus("Unknown"@)) by {
        assert("Unknown"@.len() == 7);
    }
    assert(!removable_bus("NVMe"@)) by {
        assert("NVMe"@[0] != "1394"@[0]);
    }
    assert(!removable_bus("SATA"@)) by {
        assert("SATA"@[1] != "1394"@[1]);
    }
}

} // verus!
