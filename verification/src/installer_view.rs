//! What the installer's window shows in each state: the buttons under the
//! main area, the rows of the release and disk lists, the error line.

use vstd::prelude::*;

use crate::app::{self, Channel, FetchStatus, PAGE_SIZE};
use crate::disk::{opt_view, Disk, DiskModel, BYTES_PER_GB};
use crate::i18n::{t, wording, Lang, Text};
use crate::installer::{page_end, page_start, Installer, InstallerModel, StepModel, Step};
use crate::text;

verus! {

broadcast use vstd::seq_lib::group_seq_properties;

/// A button under the main area, with the message it sends.
#[derive(Clone, Copy, Debug, PartialEq, Eq, Structural)]
pub enum Button {
    /// Sends `LocalFileClicked`.
    UseLocalFile,
    /// Sends `DownloadClicked`.
    Download,
    /// Sends `VerifyContinue`.
    Continue,
    /// Sends `DiskRefreshClicked`.
    Refresh,
    /// Sends `RpibootClicked`.
    Rpiboot,
    /// Sends `FlashClicked`.
    Flash,
}

/// The buttons under the main area, in order: choosing a release offers a
/// local file and, once a release is selected, its download; a disabled
/// check offers to go on; the disk list offers a refresh, rpiboot where it
/// is available (or simulated) and, once a disk is selected, flashing.
pub open spec fn footer(s: InstallerModel, rpiboot_available: bool) -> Seq<Button> {
    match s.step {
        StepModel::SelectRelease => seq![Button::UseLocalFile] + if s.selected_tag is Some {
            seq![Button::Download]
        } else {
            Seq::empty()
        },
        StepModel::VerifyDisabled => seq![Button::Continue],
        StepModel::SelectDisk { selected, .. } => seq![Button::Refresh] + (if rpiboot_available
            || s.simulate {
            seq![Button::Rpiboot]
        } else {
            Seq::empty()
        }) + if selected is Some {
            seq![Button::Flash]
        } else {
            Seq::empty()
        },
        _ => Seq::empty(),
    }
}

/// The text under a release's tag: a short loading note while its
/// metadata is fetched, its creation date once known.
pub open spec fn row_date(s: InstallerModel, tag: Seq<char>) -> Option<Seq<char>> {
    if s.metas.contains_key(tag) {
        let m = s.metas[tag];
        match m.status {
            FetchStatus::Loading => Some(wording(s.lang, Text::LoadingShort)),
            FetchStatus::Done => match m.created {
                Some(c) => Some(app::date_shown(c)),
                None => None,
            },
            _ => None,
        }
    } else {
        None
    }
}

/// One row of the release list.
pub struct ReleaseRow {
    /// Position of the release in the whole list (what `TagSelected` takes).
    pub index: usize,
    pub tag: String,
    pub date: Option<String>,
    pub selected: bool,
}

/// The second line of a disk's row: size in GB, bus, and whether it is
/// removable, joined by ` · `.
pub open spec fn disk_info(lang: Lang, d: DiskModel) -> Seq<char> {
    text::join(
        seq![text::decimal((d.size / BYTES_PER_GB) as nat) + " GB"@, d.bus_type] + if d.is_removable {
            seq![wording(lang, Text::Removable)]
        } else {
            Seq::empty()
        },
        " · "@,
    )
}

/// One row of the disk list.
pub struct DiskRow {
    pub description: String,
    pub info: String,
    pub selected: bool,
}

fn date_text(inst: &Installer, tag: &str) -> (res: Option<String>)
    requires
        inst.wf(),
    ensures
        opt_view(res) == row_date(inst@, tag@),
{
    match inst.tag_metas.get(tag) {
        Some(meta) => match meta.status {
            FetchStatus::Loading => Some(t(inst.lang, Text::LoadingShort).to_owned()),
            FetchStatus::Done => match &meta.created {
                Some(c) => Some(app::format_created(c.as_str())),
                None => None,
            },
            _ => None,
        },
        None => None,
    }
}

impl Installer {
    /// The buttons under the main area; `rpiboot_available` tells whether
    /// the rpiboot tool was found.
    pub fn footer_buttons(&self, rpiboot_available: bool) -> (res: Vec<Button>)
        ensures
            res@ == footer(self@, rpiboot_available),
    {
        let mut out: Vec<Button> = Vec::new();
        match &self.step {
            Step::SelectRelease => {
                out.push(Button::UseLocalFile);
                if self.selected_tag.is_some() {
                    out.push(Button::Download);
                }
            },
            Step::VerifyDisabled => {
                out.push(Button::Continue);
            },
            Step::SelectDisk { selected, .. } => {
                out.push(Button::Refresh);
                if rpiboot_available || self.simulate {
                    out.push(Button::Rpiboot);
                }
                if selected.is_some() {
                    out.push(Button::Flash);
                }
            },
            _ => {},
        }
        proof {
            assert(out@ =~= footer(self@, rpiboot_available));
        }
        out
    }

    /// Whether the channel buttons are shown above the list: while the
    /// releases load and while one is chosen.
    pub fn shows_channels(&self) -> (res: bool)
        ensures
            res == (self@.step is Loading || self@.step is SelectRelease),
    {
        match &self.step {
            Step::Loading | Step::SelectRelease => true,
            _ => false,
        }
    }

    /// The error line: `Error: <message>` in the installer's language.
    pub fn error_line(&self) -> (res: Option<String>)
        ensures
            match self@.error {
                Some(e) => res matches Some(l) && l@ == wording(self.lang, Text::Error) + ": "@ + e,
                None => res is None,
            },
    {
        match &self.error {
            Some(e) => {
                let mut line = t(self.lang, Text::Error).to_owned();
                line.append(": ");
                line.append(e.as_str());
                Some(line)
            },
            None => None,
        }
    }

    /// The rows of the page of releases shown.
    pub fn release_rows(&self) -> (res: Vec<ReleaseRow>)
        requires
            self.wf(),
        ensures
            res@.len() == page_end(self@.current_page, self@.tags.len()) - page_start(
                self@.current_page,
            ),
            forall|k: int|
                0 <= k < res@.len() ==> {
                    let i = page_start(self@.current_page) + k;
                    &&& (#[trigger] res@[k]).index == i
                    &&& res@[k].tag@ == self@.tags[i]
                    &&& opt_view(res@[k].date) == row_date(self@, self@.tags[i])
                    &&& res@[k].selected == (self@.selected_tag == Some(i as usize))
                },
    {
        let n = self.tags.len();
        let page = self.current_page;
        proof {
            assert(page * 10 < n || (n == 0 && page == 0)) by (nonlinear_arith)
                requires
                    n == 0 ==> page == 0,
                    n > 0 ==> page < (n + 9) / 10,
            ;
        }
        let start = page * PAGE_SIZE;
        let end = if n - start > PAGE_SIZE {
            start + PAGE_SIZE
        } else {
            n
        };
        let mut out: Vec<ReleaseRow> = Vec::new();
        let mut i = start;
        while i < end
            invariant
                start <= i <= end <= n,
                n == self.tags@.len(),
                start == page_start(self@.current_page),
                self.wf(),
                out@.len() == i - start,
                forall|k: int|
                    0 <= k < out@.len() ==> {
                        let j = start + k;
                        &&& (#[trigger] out@[k]).index == j
                        &&& out@[k].tag@ == self@.tags[j]
                        &&& opt_view(out@[k].date) == row_date(self@, self@.tags[j])
                        &&& out@[k].selected == (self@.selected_tag == Some(j as usize))
                    },
            decreases end - i,
        {
            let tag = self.tags[i].clone();
            let date = date_text(self, tag.as_str());
            let selected = match self.selected_tag {
                Some(s) => s == i,
                None => false,
            };
            out.push(ReleaseRow { index: i, tag, date, selected });
            i = i + 1;
        }
        out
    }
}

/// The second line of a disk's row.
pub fn disk_info_line(lang: Lang, d: &Disk) -> (res: String)
    ensures
        res@ == disk_info(lang, d@),
{
    let mut size = text::u64_decimal(d.size_gb());
    size.append(" GB");
    let mut parts: Vec<&str> = Vec::new();
    parts.push(size.as_str());
    parts.push(d.bus_type.as_str());
    if d.is_removable {
        parts.push(t(lang, Text::Removable));
    }
    let res = text::join_strs(&parts, " · ");
    proof {
        let want = seq![text::decimal((d.size / BYTES_PER_GB) as nat) + " GB"@, d@.bus_type] + if d.is_removable {
            seq![wording(lang, Text::Removable)]
        } else {
            Seq::empty()
        };
        assert(parts@.map_values(|s: &str| s@) =~= want);
    }
    res
}

/// The rows of the disk list, `selected` marking the chosen one.
pub fn disk_rows(lang: Lang, disks: &Vec<Disk>, selected: Option<usize>) -> (res: Vec<DiskRow>)
    ensures
        res@.len() == disks@.len(),
        forall|k: int|
            0 <= k < res@.len() ==> {
                &&& (#[trigger] res@[k]).description@ == disks@[k].description@
                &&& res@[k].info@ == disk_info(lang, disks@[k]@)
                &&& res@[k].selected == (selected == Some(k as usize))
            },
{
    let mut out: Vec<DiskRow> = Vec::new();
    let mut i: usize = 0;
    while i < disks.len()
        invariant
            i <= disks@.len(),
            out@.len() == i,
            forall|k: int|
                0 <= k < i ==> {
                    &&& (#[trigger] out@[k]).description@ == disks@[k].description@
                    &&& out@[k].info@ == disk_info(lang, disks@[k]@)
                    &&& out@[k].selected == (selected == Some(k as usize))
                },
        decreases disks@.len() - i,
    {
        let d = &disks[i];
        let row = DiskRow {
            description: d.description.clone(),
            info: disk_info_line(lang, d),
            selected: match selected {
                Some(s) => s == i,
                None => false,
            },
        };
        out.push(row);
        i = i + 1;
    }
    out
}

/// A channel's button above the release list: its label, and whether it is
/// the active channel (shown as the primary button).
pub fn channel_button(active: Channel, channel: Channel) -> (res: (Text, bool))
    ensures
        res.0 == (match channel {
            Channel::Production => Text::Production,
            Channel::Development => Text::Development,
        }),
        res.1 == (active == channel),
{
    let label = match channel {
        Channel::Production => Text::Production,
        Channel::Development => Text::Development,
    };
    (label, active == channel)
}

} // verus!
