//! The installer's state machine: from its state and an event to the next
//! state and the one piece of outside work to do next.
//!
//! The caller performs the [`Action`] that [`Installer::update`] returns
//! (a registry query, a download, listing disks, a timer, ...) and hands
//! the outcome back as the next [`Message`].

use vstd::prelude::*;

use crate::app::{self, Channel, FetchStatus, TagMeta, PAGE_SIZE};
use crate::disk::{models, opt_view, Disk, DiskModel};
use crate::i18n::{t, wording, Lang, Text};
use crate::tag_metas::{MetaModel, TagMetas};
use crate::text;

verus! {

broadcast use vstd::seq_lib::group_seq_properties;

/// Where the installer stands. Progress is a whole percentage.
pub enum Step {
    Loading,
    SelectRelease,
    Downloading { progress: u8 },
    Verify,
    VerifyDisabled,
    SelectDisk { disks: Vec<Disk>, selected: Option<usize> },
    RunningRpiboot,
    Flashing { progress: u8 },
    Done,
}

pub enum StepModel {
    Loading,
    SelectRelease,
    Downloading { progress: u8 },
    Verify,
    VerifyDisabled,
    SelectDisk { disks: Seq<DiskModel>, selected: Option<usize> },
    RunningRpiboot,
    Flashing { progress: u8 },
    Done,
}

impl View for Step {
    type V = StepModel;

    open spec fn view(&self) -> StepModel {
        match self {
            Step::Loading => StepModel::Loading,
            Step::SelectRelease => StepModel::SelectRelease,
            Step::Downloading { progress } => StepModel::Downloading { progress: *progress },
            Step::Verify => StepModel::Verify,
            Step::VerifyDisabled => StepModel::VerifyDisabled,
            Step::SelectDisk { disks, selected } => StepModel::SelectDisk {
                disks: models(disks@),
                selected: *selected,
            },
            Step::RunningRpiboot => StepModel::RunningRpiboot,
            Step::Flashing { progress } => StepModel::Flashing { progress: *progress },
            Step::Done => StepModel::Done,
        }
    }
}

/// What a disk listing is for.
#[derive(Clone, Copy, Debug, PartialEq, Eq, Structural)]
pub enum DiskPurpose {
    /// Entering the disk step (after verification, rpiboot or a local file).
    Enter,
    /// Going back to the disk step after an error there.
    AfterError,
    /// The user asked for a fresh list.
    Refresh,
}

/// A message to send to the installer after a pause.
#[derive(Clone, Copy, Debug, PartialEq, Eq, Structural)]
pub enum Later {
    DownloadClicked,
    VerifyContinue,
    FlashClicked,
    DiskRefreshClicked,
    FirstDiskSelected,
    SimulatedTags,
    RpibootSucceeded,
}

/// Where the cached image stands, once the cache directory was looked at.
pub enum Prepared {
    /// No cache directory could be found or made.
    NoCacheDir,
    /// A non-empty image is already in the cache.
    Cached { image_path: String },
    /// The image must be downloaded to `partial_path`, then renamed.
    Fresh { image_path: String, partial_path: String },
}

/// A file the user picked, with its extension and its length on disk
/// (`None` where they could not be had).
pub struct PickedFile {
    pub path: String,
    pub extension: Option<String>,
    pub len: Option<u64>,
}

/// An event for the installer.
pub enum Message {
    TagsLoaded(Result<Vec<String>, String>),
    TagSelected(usize),
    TagMetaLoaded { tag: String, created: Result<Option<String>, String> },
    NextPage,
    PrevPage,
    ChannelSelected(Channel),
    DownloadClicked,
    LocalFileClicked,
    LocalFilePicked(Option<PickedFile>),
    DownloadPrepared(Prepared),
    DownloadProgress(u8),
    DownloadFinished(Result<(), String>),
    VerifyResult(Result<(), String>),
    VerifyContinue,
    DiskSelected(usize),
    DiskRefreshClicked,
    DisksListed { purpose: DiskPurpose, disks: Vec<Disk> },
    RpibootClicked,
    RpibootAvailability(bool),
    RpibootFinished(Result<(), String>),
    FlashClicked,
    FlashProgress(u8),
    FlashFinished(Result<(), String>),
}

/// The outside work the installer asks for.
pub enum Action {
    Nothing,
    /// Wait `millis` milliseconds, then send the message `then` stands for.
    Delay { millis: u64, then: Later },
    /// List the tags of `registry`; answer `TagsLoaded`.
    LoadTags { registry: String },
    /// Fetch the manifest of each tag; answer `TagMetaLoaded` for each.
    FetchMetas { registry: String, tags: Vec<String> },
    /// Ask the user for an image file; answer `LocalFilePicked`.
    PickFile,
    /// Find the cache directory of `slug` and look for `file_name` in it;
    /// answer `DownloadPrepared`.
    PrepareDownload { slug: String, file_name: String, partial_name: String },
    /// Download the image layer of `tag` to `partial_path`, rename it to
    /// `image_path`; answer `DownloadProgress` and `DownloadFinished`.
    Download { registry: String, tag: String, image_path: String, partial_path: String },
    /// Pretend to download; answer as for `Download`.
    SimulateDownload,
    /// Check the signature of `tag`; answer `VerifyResult`.
    Verify { registry: String, tag: String },
    /// List the disks; answer `DisksListed` with the same purpose.
    ListDisks { purpose: DiskPurpose },
    /// Look for the rpiboot tool; answer `RpibootAvailability`.
    CheckRpiboot,
    /// Run rpiboot; answer `RpibootFinished`.
    RunRpiboot,
    /// Write `image` to the device `target`; answer `FlashProgress` and
    /// `FlashFinished`.
    Flash { image: String, target: String },
    /// Pretend to flash; answer as for `Flash`.
    SimulateFlash,
}

pub enum ActionModel {
    Nothing,
    Delay { millis: u64, then: Later },
    LoadTags { registry: Seq<char> },
    FetchMetas { registry: Seq<char>, tags: Seq<Seq<char>> },
    PickFile,
    PrepareDownload { slug: Seq<char>, file_name: Seq<char>, partial_name: Seq<char> },
    Download { registry: Seq<char>, tag: Seq<char>, image_path: Seq<char>, partial_path: Seq<char> },
    SimulateDownload,
    Verify { registry: Seq<char>, tag: Seq<char> },
    ListDisks { purpose: DiskPurpose },
    CheckRpiboot,
    RunRpiboot,
    Flash { image: Seq<char>, target: Seq<char> },
    SimulateFlash,
}

impl View for Action {
    type V = ActionModel;

    open spec fn view(&self) -> ActionModel {
        match self {
            Action::Nothing => ActionModel::Nothing,
            Action::Delay { millis, then } => ActionModel::Delay { millis: *millis, then: *then },
            Action::LoadTags { registry } => ActionModel::LoadTags { registry: registry@ },
            Action::FetchMetas { registry, tags } => ActionModel::FetchMetas {
                registry: registry@,
                tags: text::views(tags@),
            },
            Action::PickFile => ActionModel::PickFile,
            Action::PrepareDownload { slug, file_name, partial_name } =>
                ActionModel::PrepareDownload {
                    slug: slug@,
                    file_name: file_name@,
                    partial_name: partial_name@,
                },
            Action::Download { registry, tag, image_path, partial_path } => ActionModel::Download {
                registry: registry@,
                tag: tag@,
                image_path: image_path@,
                partial_path: partial_path@,
            },
            Action::SimulateDownload => ActionModel::SimulateDownload,
            Action::Verify { registry, tag } => ActionModel::Verify {
                registry: registry@,
                tag: tag@,
            },
            Action::ListDisks { purpose } => ActionModel::ListDisks { purpose: *purpose },
            Action::CheckRpiboot => ActionModel::CheckRpiboot,
            Action::RunRpiboot => ActionModel::RunRpiboot,
            Action::Flash { image, target } => ActionModel::Flash {
                image: image@,
                target: target@,
            },
            Action::SimulateFlash => ActionModel::SimulateFlash,
        }
    }
}

/// The installer's state.
pub struct Installer {
    pub lang: Lang,
    pub channel: Channel,
    pub step: Step,
    pub tags: Vec<String>,
    pub tag_metas: TagMetas,
    pub current_page: usize,
    pub selected_tag: Option<usize>,
    pub image_path: Option<String>,
    pub error: Option<String>,
    pub simulate: bool,
    pub auto: bool,
    /// Whether a signing key was built in, so that signatures are checked.
    pub verification_enabled: bool,
    /// The registry and tag of the release whose download was started.
    pub download_target: Option<(String, String)>,
}

pub struct InstallerModel {
    pub lang: Lang,
    pub channel: Channel,
    pub step: StepModel,
    pub tags: Seq<Seq<char>>,
    pub metas: Map<Seq<char>, MetaModel>,
    pub current_page: nat,
    pub selected_tag: Option<usize>,
    pub image_path: Option<Seq<char>>,
    pub error: Option<Seq<char>>,
    pub simulate: bool,
    pub auto: bool,
    pub verification_enabled: bool,
    pub download_target: Option<(Seq<char>, Seq<char>)>,
}

/// A registry and tag, by their characters.
pub open spec fn target_view(t: Option<(String, String)>) -> Option<(Seq<char>, Seq<char>)> {
    match t {
        Some((r, g)) => Some((r@, g@)),
        None => None,
    }
}

impl View for Installer {
    type V = InstallerModel;

    open spec fn view(&self) -> InstallerModel {
        InstallerModel {
            lang: self.lang,
            channel: self.channel,
            step: self.step@,
            tags: text::views(self.tags@),
            metas: self.tag_metas@,
            current_page: self.current_page as nat,
            selected_tag: self.selected_tag,
            image_path: opt_view(self.image_path),
            error: opt_view(self.error),
            simulate: self.simulate,
            auto: self.auto,
            verification_enabled: self.verification_enabled,
            download_target: target_view(self.download_target),
        }
    }
}

/// The OCI repository of a channel.
pub open spec fn registry_of(c: Channel) -> Seq<char> {
    match c {
        Channel::Production => app::REGISTRY_PROD@,
        Channel::Development => app::REGISTRY_DEV@,
    }
}

/// The cache folder of a channel.
pub open spec fn slug_of(c: Channel) -> Seq<char> {
    match c {
        Channel::Production => "prod"@,
        Channel::Development => "dev"@,
    }
}

/// Number of pages of a list of `n` releases; an empty list has one page.
pub open spec fn pages(n: nat) -> nat {
    if n == 0 {
        1
    } else {
        ((n + 9) / 10) as nat
    }
}

/// First index of page `page`.
pub open spec fn page_start(page: nat) -> nat {
    page * 10
}

/// One past the last index of page `page` of a list of `n`.
pub open spec fn page_end(page: nat, n: nat) -> nat {
    if page * 10 + 10 < n {
        page * 10 + 10
    } else {
        n
    }
}

/// The file name under which the image of `tag` is cached.
pub open spec fn image_name(tag: Seq<char>) -> Seq<char> {
    "caustic-os-"@ + tag + ".img"@
}

/// The name the image has while it is being downloaded.
pub open spec fn partial_name(tag: Seq<char>) -> Seq<char> {
    image_name(tag) + ".partial"@
}

/// The release list shown in simulation.
pub open spec fn simulated_tag_list() -> Seq<Seq<char>> {
    seq!["2026.08.11"@, "2026.08.04"@, "2026.07.28"@]
}

/// The disks shown in simulation.
pub open spec fn simulated_disk_list() -> Seq<DiskModel> {
    seq![
        DiskModel {
            device: "/dev/sda"@,
            description: "SanDisk Ultra 64GB"@,
            size: 64_000_000_000,
            is_removable: true,
            bus_type: "USB"@,
        },
        DiskModel {
            device: "/dev/sdb"@,
            description: "Samsung T7 500GB"@,
            size: 500_107_862_016,
            is_removable: true,
            bus_type: "USB"@,
        },
        DiskModel {
            device: "/dev/nvme0n1"@,
            description: "WD Black SN750 1TB"@,
            size: 1_000_000_000_000,
            is_removable: false,
            bus_type: "NVMe"@,
        },
    ]
}

/// The one-second pause before the next automatic step.
pub open spec fn after_a_second(then: Later) -> ActionModel {
    ActionModel::Delay { millis: 1000, then }
}

/// What the metadata of releases becomes, and which tags are fetched, when
/// the tags of `page` are shown in order: each tag without metadata, or
/// whose fetch failed, is marked as loading and fetched.
pub open spec fn mark_page(m: Map<Seq<char>, MetaModel>, page: Seq<Seq<char>>) -> (
    Map<Seq<char>, MetaModel>,
    Seq<Seq<char>>,
)
    decreases page.len(),
{
    if page.len() == 0 {
        (m, Seq::empty())
    } else {
        let (m1, f1) = mark_page(m, page.drop_last());
        let tag = page.last();
        let cur = if m1.contains_key(tag) {
            m1[tag]
        } else {
            MetaModel { created: None, status: FetchStatus::Idle }
        };
        if cur.status == FetchStatus::Idle || cur.status == FetchStatus::Failed {
            (m1.insert(tag, MetaModel { created: cur.created, status: FetchStatus::Loading }), f1.push(tag))
        } else {
            (m1, f1)
        }
    }
}

/// A picked file is an image: its extension is `img`, `iso` or `gz` in
/// any case, and it is not empty.
pub open spec fn usable_image(extension: Option<Seq<char>>, len: Option<u64>) -> bool {
    &&& extension matches Some(e) && (text::eq_ignore_ascii_case(e, "img"@)
        || text::eq_ignore_ascii_case(e, "iso"@) || text::eq_ignore_ascii_case(e, "gz"@))
    &&& len matches Some(n) && n > 0
}

impl InstallerModel {
    /// The current page is one of the pages of the list.
    pub open spec fn page_ok(self) -> bool {
        self.current_page < pages(self.tags.len())
    }

    /// The selected release's tag, where a release in the list is selected.
    pub open spec fn selected(self) -> Option<Seq<char>> {
        match self.selected_tag {
            Some(i) => if i < self.tags.len() {
                Some(self.tags[i as int])
            } else {
                None
            },
            None => None,
        }
    }

    /// The work that loads the release list of the current channel.
    pub open spec fn load_tags(self) -> ActionModel {
        if self.simulate {
            ActionModel::Delay { millis: 500, then: Later::SimulatedTags }
        } else {
            ActionModel::LoadTags { registry: registry_of(self.channel) }
        }
    }

    /// Marks the shown page's releases as loading and asks for their
    /// metadata; nothing in simulation.
    pub open spec fn fetch_visible_page(self) -> (InstallerModel, ActionModel) {
        if self.simulate {
            (self, ActionModel::Nothing)
        } else {
            let page = self.tags.subrange(
                page_start(self.current_page) as int,
                page_end(self.current_page, self.tags.len()) as int,
            );
            let (m, f) = mark_page(self.metas, page);
            (
                InstallerModel { metas: m, ..self },
                ActionModel::FetchMetas { registry: registry_of(self.channel), tags: f },
            )
        }
    }

    /// Goes to page `page`, or to the last page where there are fewer.
    pub open spec fn goto_page(self, page: nat) -> (InstallerModel, ActionModel) {
        let last = (pages(self.tags.len()) - 1) as nat;
        let target = if page < last {
            page
        } else {
            last
        };
        if target != self.current_page {
            InstallerModel { current_page: target, ..self }.fetch_visible_page()
        } else {
            (self, ActionModel::Nothing)
        }
    }

    /// Shows the disks listed for `purpose`.
    pub open spec fn show_disks(self, purpose: DiskPurpose, disks: Seq<DiskModel>) -> (
        InstallerModel,
        ActionModel,
    ) {
        let auto_next = if self.auto {
            after_a_second(
                if disks.len() > 0 {
                    Later::FirstDiskSelected
                } else {
                    Later::DiskRefreshClicked
                },
            )
        } else {
            ActionModel::Nothing
        };
        match purpose {
            DiskPurpose::AfterError => (
                InstallerModel { step: StepModel::SelectDisk { disks, selected: None }, ..self },
                ActionModel::Nothing,
            ),
            DiskPurpose::Enter => (
                InstallerModel { step: StepModel::SelectDisk { disks, selected: None }, ..self },
                auto_next,
            ),
            DiskPurpose::Refresh => {
                let old = match self.step {
                    StepModel::SelectDisk { selected, .. } => selected,
                    _ => None,
                };
                let kept = match old {
                    Some(i) => if i < disks.len() {
                        Some(i)
                    } else {
                        None
                    },
                    None => None,
                };
                (
                    InstallerModel {
                        step: StepModel::SelectDisk { disks, selected: kept },
                        ..self
                    },
                    auto_next,
                )
            },
        }
    }

    /// Lists the disks for `purpose`: the simulated ones at once, else by
    /// asking for a listing.
    pub open spec fn get_disks(self, purpose: DiskPurpose) -> (InstallerModel, ActionModel) {
        if self.simulate {
            self.show_disks(purpose, simulated_disk_list())
        } else {
            (self, ActionModel::ListDisks { purpose })
        }
    }

    /// Shows `err`; back to the disk list where the error came while
    /// choosing or writing a disk, else back to the release list.
    pub open spec fn handle_error(self, err: Seq<char>) -> (InstallerModel, ActionModel) {
        let s = InstallerModel { error: Some(err), ..self };
        match self.step {
            StepModel::Flashing { .. } | StepModel::SelectDisk { .. } | StepModel::RunningRpiboot =>
                s.get_disks(DiskPurpose::AfterError),
            _ => (InstallerModel { step: StepModel::SelectRelease, ..s }, ActionModel::Nothing),
        }
    }

    /// Switches to `channel` and reloads its releases; nothing where it is
    /// the current channel.
    pub open spec fn select_channel(self, channel: Channel) -> (InstallerModel, ActionModel) {
        if channel == self.channel {
            (self, ActionModel::Nothing)
        } else {
            let s = InstallerModel {
                channel,
                selected_tag: None,
                tags: Seq::empty(),
                metas: Map::empty(),
                current_page: 0,
                error: None,
                image_path: None,
                download_target: None,
                step: StepModel::Loading,
                ..self
            };
            (s, s.load_tags())
        }
    }

    /// Takes in a newly loaded release list.
    pub open spec fn tags_loaded(self, tags: Seq<Seq<char>>) -> (InstallerModel, ActionModel) {
        let s = InstallerModel {
            tags,
            metas: Map::empty(),
            current_page: 0,
            step: StepModel::SelectRelease,
            ..self
        };
        if self.auto {
            (
                InstallerModel { selected_tag: Some(0), ..s },
                after_a_second(Later::DownloadClicked),
            )
        } else {
            s.fetch_visible_page()
        }
    }

    /// Records the creation date fetched for `tag`, or that the fetch
    /// failed; nothing for a tag that has no metadata.
    pub open spec fn store_tag_meta(self, tag: Seq<char>, created: Result<Option<Seq<char>>, ()>) -> InstallerModel {
        if self.metas.contains_key(tag) {
            let meta = match created {
                Ok(c) => MetaModel { created: c, status: FetchStatus::Done },
                Err(_) => MetaModel { created: self.metas[tag].created, status: FetchStatus::Failed },
            };
            InstallerModel { metas: self.metas.insert(tag, meta), ..self }
        } else {
            self
        }
    }

    /// Moves on to the disks.
    pub open spec fn enter_disk_selection(self) -> (InstallerModel, ActionModel) {
        self.get_disks(DiskPurpose::Enter)
    }

    /// Asks for the signature check of the selected release.
    pub open spec fn start_verify(self) -> ActionModel {
        match self.selected() {
            Some(tag) => ActionModel::Verify { registry: registry_of(self.channel), tag },
            None => ActionModel::Nothing,
        }
    }

    /// Once the image is there: check its signature, or, where that is
    /// not done, say so.
    pub open spec fn after_download(self) -> (InstallerModel, ActionModel) {
        if self.simulate || !self.verification_enabled {
            (
                InstallerModel { step: StepModel::VerifyDisabled, ..self },
                if self.auto {
                    after_a_second(Later::VerifyContinue)
                } else {
                    ActionModel::Nothing
                },
            )
        } else {
            let s = InstallerModel { step: StepModel::Verify, ..self };
            (s, s.start_verify())
        }
    }

    /// Starts getting the image of the selected release.
    pub open spec fn start_download(self) -> (InstallerModel, ActionModel) {
        match self.selected() {
            None => (self, ActionModel::Nothing),
            Some(tag) => if self.simulate {
                (
                    InstallerModel { step: StepModel::Downloading { progress: 0 }, ..self },
                    ActionModel::SimulateDownload,
                )
            } else {
                (
                    InstallerModel {
                        error: None,
                        download_target: Some((registry_of(self.channel), tag)),
                        ..self
                    },
                    ActionModel::PrepareDownload {
                        slug: slug_of(self.channel),
                        file_name: image_name(tag),
                        partial_name: partial_name(tag),
                    },
                )
            },
        }
    }

    /// Goes on once the cache directory was looked at.
    pub open spec fn download_prepared(self, p: Prepared) -> (InstallerModel, ActionModel) {
        match p {
            Prepared::NoCacheDir => (
                InstallerModel { error: Some("Could not determine cache directory"@), ..self },
                ActionModel::Nothing,
            ),
            Prepared::Cached { image_path } => InstallerModel {
                image_path: Some(image_path@),
                ..self
            }.after_download(),
            Prepared::Fresh { image_path, partial_path } => match self.download_target {
                Some((registry, tag)) => (
                    InstallerModel {
                        image_path: Some(image_path@),
                        step: StepModel::Downloading { progress: 0 },
                        ..self
                    },
                    ActionModel::Download {
                        registry,
                        tag,
                        image_path: image_path@,
                        partial_path: partial_path@,
                    },
                ),
                None => (self, ActionModel::Nothing),
            },
        }
    }

    /// Takes in a picked file: an image goes on to the disks, anything
    /// else is an error.
    pub open spec fn use_local_file(self, f: Option<PickedFile>) -> (InstallerModel, ActionModel) {
        match f {
            None => (self, ActionModel::Nothing),
            Some(f) => if !usable_image(opt_view(f.extension), f.len) {
                self.handle_error(wording(self.lang, Text::LocalFileInvalid))
            } else {
                InstallerModel { error: None, image_path: Some(f.path@), ..self }.enter_disk_selection()
            },
        }
    }

    /// Starts rpiboot: at once in simulation, else after looking for it.
    pub open spec fn start_rpiboot(self) -> (InstallerModel, ActionModel) {
        if self.simulate {
            (
                InstallerModel { step: StepModel::RunningRpiboot, ..self },
                after_a_second(Later::RpibootSucceeded),
            )
        } else {
            (self, ActionModel::CheckRpiboot)
        }
    }

    /// Runs rpiboot where it was found, else says that it is missing.
    pub open spec fn rpiboot_availability(self, available: bool) -> (InstallerModel, ActionModel) {
        if available {
            (InstallerModel { step: StepModel::RunningRpiboot, ..self }, ActionModel::RunRpiboot)
        } else {
            (
                InstallerModel { error: Some(wording(self.lang, Text::RpibootNotFound)), ..self },
                ActionModel::Nothing,
            )
        }
    }

    /// Starts writing the image to the selected disk.
    pub open spec fn start_flash(self) -> (InstallerModel, ActionModel) {
        let s = InstallerModel { error: None, ..self };
        match self.step {
            StepModel::SelectDisk { disks, selected: Some(i) } => if i < disks.len() {
                if self.simulate {
                    (
                        InstallerModel { step: StepModel::Flashing { progress: 0 }, ..s },
                        ActionModel::SimulateFlash,
                    )
                } else {
                    match self.image_path {
                        Some(image) => (
                            InstallerModel { step: StepModel::Flashing { progress: 0 }, ..s },
                            ActionModel::Flash { image, target: disks[i as int].device },
                        ),
                        None => (s, ActionModel::Nothing),
                    }
                }
            } else {
                (s, ActionModel::Nothing)
            },
            _ => (s, ActionModel::Nothing),
        }
    }

    /// Selects disk `index` of the list shown.
    pub open spec fn select_disk(self, index: usize) -> (InstallerModel, ActionModel) {
        let s = match self.step {
            StepModel::SelectDisk { disks, .. } => InstallerModel {
                step: StepModel::SelectDisk { disks, selected: Some(index) },
                ..self
            },
            _ => self,
        };
        (
            s,
            if self.auto {
                after_a_second(Later::FlashClicked)
            } else {
                ActionModel::Nothing
            },
        )
    }

    /// What the installer does on `msg`.
    pub open spec fn next(self, msg: Message) -> (InstallerModel, ActionModel) {
        match msg {
            Message::TagsLoaded(Ok(tags)) => self.tags_loaded(text::views(tags@)),
            Message::TagsLoaded(Err(e)) => self.handle_error(e@),
            Message::DownloadFinished(Err(e)) => self.handle_error(e@),
            Message::VerifyResult(Err(e)) => self.handle_error(e@),
            Message::FlashFinished(Err(e)) => self.handle_error(e@),
            Message::RpibootFinished(Err(e)) => self.handle_error(e@),
            Message::TagSelected(i) => (
                InstallerModel { selected_tag: Some(i), ..self },
                ActionModel::Nothing,
            ),
            Message::TagMetaLoaded { tag, created } => (
                self.store_tag_meta(
                    tag@,
                    match created {
                        Ok(c) => Ok(opt_view(c)),
                        Err(_) => Err(()),
                    },
                ),
                ActionModel::Nothing,
            ),
            Message::NextPage => self.goto_page(self.current_page + 1),
            Message::PrevPage => self.goto_page(
                if self.current_page > 0 {
                    (self.current_page - 1) as nat
                } else {
                    0
                },
            ),
            Message::ChannelSelected(c) => self.select_channel(c),
            Message::DownloadClicked => self.start_download(),
            Message::LocalFileClicked => (self, ActionModel::PickFile),
            Message::LocalFilePicked(f) => self.use_local_file(f),
            Message::DownloadPrepared(p) => self.download_prepared(p),
            Message::DownloadProgress(p) => (
                match self.step {
                    StepModel::Downloading { .. } => InstallerModel {
                        step: StepModel::Downloading { progress: p },
                        ..self
                    },
                    _ => self,
                },
                ActionModel::Nothing,
            ),
            Message::DownloadFinished(Ok(())) => self.after_download(),
            Message::VerifyResult(Ok(())) => self.enter_disk_selection(),
            Message::VerifyContinue => self.enter_disk_selection(),
            Message::RpibootFinished(Ok(())) => self.enter_disk_selection(),
            Message::DiskSelected(i) => self.select_disk(i),
            Message::DiskRefreshClicked => self.get_disks(DiskPurpose::Refresh),
            Message::DisksListed { purpose, disks } => self.show_disks(purpose, models(disks@)),
            Message::RpibootClicked => self.start_rpiboot(),
            Message::RpibootAvailability(b) => self.rpiboot_availability(b),
            Message::FlashClicked => self.start_flash(),
            Message::FlashProgress(p) => (
                match self.step {
                    StepModel::Flashing { .. } => InstallerModel {
                        step: StepModel::Flashing { progress: p },
                        ..self
                    },
                    _ => self,
                },
                ActionModel::Nothing,
            ),
            Message::FlashFinished(Ok(())) => (
                InstallerModel { step: StepModel::Done, ..self },
                ActionModel::Nothing,
            ),
        }
    }
}

/// The installer as it starts: loading the releases of the production
/// channel.
pub open spec fn initial(simulate: bool, auto: bool, lang: Lang, verification_enabled: bool) -> (
    InstallerModel,
    ActionModel,
) {
    let s = InstallerModel {
        lang,
        channel: Channel::Production,
        step: StepModel::Loading,
        tags: Seq::empty(),
        metas: Map::empty(),
        current_page: 0,
        selected_tag: None,
        image_path: None,
        error: None,
        simulate,
        auto,
        verification_enabled,
        download_target: None,
    };
    (s, s.load_tags())
}

/// The whole percentage shown for `done` of `total` bytes: `done` capped
/// at `total`, times 100 (saturating at `u64::MAX`), divided by `total`;
/// 0 while `total` is unknown (0).
pub open spec fn percent(done: u64, total: u64) -> int {
    if total == 0 {
        0
    } else {
        let capped: int = if done < total {
            done as int
        } else {
            total as int
        };
        let scaled: int = if capped * 100 > u64::MAX {
            u64::MAX as int
        } else {
            capped * 100
        };
        scaled / (total as int)
    }
}

/// The progress to report for `done` of `total` bytes written or
/// downloaded; never more than 100.
pub fn progress_percent(done: u64, total: u64) -> (res: u8)
    ensures
        res == percent(done, total),
        res <= 100,
{
    if total == 0 {
        return 0;
    }
    let capped = if done < total {
        done
    } else {
        total
    };
    let scaled = match capped.checked_mul(100) {
        Some(x) => x,
        None => u64::MAX,
    };
    let ratio = scaled / total;
    proof {
        if capped * 100 <= u64::MAX {
            assert(scaled / total <= 100) by (nonlinear_arith)
                requires
                    scaled == capped * 100,
                    capped <= total,
                    total > 0,
            ;
        } else {
            assert(scaled / total <= 100) by (nonlinear_arith)
                requires
                    scaled == u64::MAX,
                    capped * 100 > u64::MAX,
                    capped <= total,
                    total > 0,
            ;
        }
    }
    if ratio < 256 {
        ratio as u8
    } else {
        100
    }
}

/// The error text a message carries where it reports a failure.
pub open spec fn failure(m: Message) -> Option<Seq<char>> {
    match m {
        Message::TagsLoaded(Err(e)) => Some(e@),
        Message::DownloadFinished(Err(e)) => Some(e@),
        Message::VerifyResult(Err(e)) => Some(e@),
        Message::FlashFinished(Err(e)) => Some(e@),
        Message::RpibootFinished(Err(e)) => Some(e@),
        _ => None,
    }
}

/// The page shown is always one of the pages of the release list.
pub proof fn law_page_stays_in_range(s: InstallerModel, m: Message)
    requires
        s.page_ok(),
    ensures
        s.next(m).0.page_ok(),
{
    let n = s.tags.len();
    assert(pages(n) >= 1);
}

/// Choosing the channel already chosen changes nothing and starts nothing.
pub proof fn law_same_channel_changes_nothing(s: InstallerModel)
    ensures
        s.next(Message::ChannelSelected(s.channel)) == (s, ActionModel::Nothing),
{
}

/// Choosing another channel forgets the releases, the selection, the image
/// and the error, and loads the releases of that channel.
pub proof fn law_channel_switch_starts_over(s: InstallerModel, c: Channel)
    requires
        c != s.channel,
    ensures
        ({
            let (n, a) = s.next(Message::ChannelSelected(c));
            &&& n.channel == c
            &&& n.tags.len() == 0
            &&& n.metas == Map::<Seq<char>, MetaModel>::empty()
            &&& n.current_page == 0
            &&& n.selected_tag is None
            &&& n.image_path is None
            &&& n.error is None
            &&& n.step is Loading
            &&& a == n.load_tags()
        }),
{
}

/// An image is written only to the disk selected in the disk list, only
/// outside simulation, and only the image the installer holds.
pub proof fn law_flash_only_selected_disk(s: InstallerModel, m: Message)
    ensures
        s.next(m).1 matches ActionModel::Flash { image, target } ==> {
            &&& s.step matches StepModel::SelectDisk { disks, selected: Some(i) }
            &&& i < disks.len()
            &&& target == disks[i as int].device
            &&& s.image_path == Some(image)
            &&& !s.simulate
        },
{
}

/// The installer is done only once flashing reported success.
pub proof fn law_done_only_after_flash(s: InstallerModel, m: Message)
    requires
        !(s.step is Done),
        s.next(m).0.step is Done,
    ensures
        m matches Message::FlashFinished(Ok(())),
{
}

/// A failure is always shown, and the installer goes back to choosing a
/// release, or to the disk list (at once, or once the disks are listed).
pub proof fn law_failure_is_shown(s: InstallerModel, m: Message)
    requires
        failure(m) is Some,
    ensures
        s.next(m).0.error == failure(m),
        s.next(m).0.step is SelectRelease || s.next(m).0.step is SelectDisk
            || s.next(m).1 == (ActionModel::ListDisks { purpose: DiskPurpose::AfterError }),
{
}

/// A download is started for the release selected, from the current
/// channel's registry, and the download asked for later is of that same
/// release, whatever was selected in between; signature checks are only
/// asked for the selected release of the current channel.
pub proof fn law_work_on_selected_release(s: InstallerModel, m: Message)
    ensures
        s.next(Message::DownloadClicked).1 is PrepareDownload ==> (s.selected() matches Some(tag)
            && s.next(Message::DownloadClicked).0.download_target == Some(
            (registry_of(s.channel), tag),
        )),
        s.next(m).1 matches ActionModel::Download { registry, tag, .. } ==> s.download_target
            == Some((registry, tag)),
        s.next(m).1 matches ActionModel::Verify { registry, tag } ==> (s.selected() == Some(tag)
            && registry == registry_of(s.channel)),
{
}

/// A release still waits for its metadata: it has none, or its fetch has
/// not started or failed.
pub open spec fn pending(m: Map<Seq<char>, MetaModel>, tag: Seq<char>) -> bool {
    !m.contains_key(tag) || m[tag].status == FetchStatus::Idle || m[tag].status
        == FetchStatus::Failed
}

/// Once a page was shown, none of its releases waits to be fetched. Each
/// tag fetched is on the page and was waiting, and none is fetched twice;
/// the metadata of tags that are not on the page stays as it was.
pub proof fn law_page_fetch_covers_page(m: Map<Seq<char>, MetaModel>, page: Seq<Seq<char>>)
    ensures
        forall|i: int| 0 <= i < page.len() ==> !pending(mark_page(m, page).0, #[trigger] page[i]),
        forall|j: int|
            0 <= j < mark_page(m, page).1.len() ==> page.contains(#[trigger] mark_page(m, page).1[j])
                && pending(m, mark_page(m, page).1[j]),
        forall|j: int, k: int|
            0 <= j < k < mark_page(m, page).1.len() ==> mark_page(m, page).1[j] != mark_page(
                m,
                page,
            ).1[k],
        forall|t: Seq<char>|
            !page.contains(t) ==> (#[trigger] mark_page(m, page).0.contains_key(t)
                == m.contains_key(t) && (m.contains_key(t) ==> mark_page(m, page).0[t] == m[t])),
    decreases page.len(),
{
    if page.len() > 0 {
        let prev = page.drop_last();
        law_page_fetch_covers_page(m, prev);
        let m1 = mark_page(m, prev).0;
        let f1 = mark_page(m, prev).1;
        let m2 = mark_page(m, page).0;
        let f = mark_page(m, page).1;
        let tag = page.last();
        assert forall|i: int| 0 <= i < page.len() implies !pending(m2, #[trigger] page[i]) by {
            if i < page.len() - 1 {
                assert(page[i] == prev[i]);
                assert(!pending(m1, prev[i]));
            }
        }
        assert forall|j: int| 0 <= j < f.len() implies page.contains(#[trigger] f[j]) && pending(
            m,
            f[j],
        ) by {
            if j < f1.len() {
                assert(f[j] == f1[j]);
                let w = choose|w: int| 0 <= w < prev.len() && prev[w] == f1[j];
                assert(page[w] == prev[w]);
            } else {
                assert(f[j] == tag);
                assert(page[page.len() - 1] == tag);
                if !prev.contains(tag) {
                    assert(m1.contains_key(tag) == m.contains_key(tag));
                } else {
                    let w = choose|w: int| 0 <= w < prev.len() && prev[w] == tag;
                    assert(!pending(m1, prev[w]));
                }
            }
        }
        assert forall|j: int, k: int| 0 <= j < k < f.len() implies f[j] != f[k] by {
            if k == f1.len() {
                assert(f[k] == tag);
                assert(f[j] == f1[j]);
                let w = choose|w: int| 0 <= w < prev.len() && prev[w] == f1[j];
                assert(!pending(m1, prev[w]));
            } else {
                assert(f[j] == f1[j] && f[k] == f1[k]);
            }
        }
        assert forall|t: Seq<char>| !page.contains(t) implies (#[trigger] m2.contains_key(t)
            == m.contains_key(t) && (m.contains_key(t) ==> m2[t] == m[t])) by {
            assert(t != tag) by {
                assert(page[page.len() - 1] == tag);
            }
            assert(!prev.contains(t)) by {
                if prev.contains(t) {
                    let w = choose|w: int| 0 <= w < prev.len() && prev[w] == t;
                    assert(page[w] == prev[w]);
                }
            }
            assert(m1.contains_key(t) == m.contains_key(t));
        }
    }
}

/// The pager's buttons are enabled exactly when they change the page: there
/// is a next page when going forward moves, and a previous page when going
/// back moves.
pub proof fn law_pager_matches_paging(s: InstallerModel)
    requires
        s.page_ok(),
    ensures
        (s.current_page + 1 < pages(s.tags.len())) <==> s.next(Message::NextPage).0.current_page
            != s.current_page,
        (s.current_page > 0) <==> s.next(Message::PrevPage).0.current_page != s.current_page,
{
}

/// Going to the next page and back returns to the page left, wherever
/// there is a next page.
pub proof fn law_next_then_previous_returns(s: InstallerModel)
    requires
        s.page_ok(),
        s.current_page + 1 < pages(s.tags.len()),
    ensures
        s.next(Message::NextPage).0.next(Message::PrevPage).0.current_page == s.current_page,
{
    law_page_stays_in_range(s, Message::NextPage);
}

/// The registry of a channel, as an owned string.
fn registry_string(c: Channel) -> (res: String)
    ensures
        res@ == registry_of(c),
{
    c.registry().to_owned()
}

fn clone_opt(o: &Option<String>) -> (res: Option<String>)
    ensures
        opt_view(res) == opt_view(*o),
{
    match o {
        Some(s) => Some(s.clone()),
        None => None,
    }
}

/// The release list shown in simulation.
pub fn simulated_tags() -> (res: Vec<String>)
    ensures
        text::views(res@) == simulated_tag_list(),
{
    let res = vec!["2026.08.11".to_owned(), "2026.08.04".to_owned(), "2026.07.28".to_owned()];
    proof {
        assert(text::views(res@) =~= simulated_tag_list());
    }
    res
}

/// The disks shown in simulation.
pub fn simulate_disks() -> (res: Vec<Disk>)
    ensures
        models(res@) == simulated_disk_list(),
{
    let res = vec![
        Disk {
            device: "/dev/sda".to_owned(),
            description: "SanDisk Ultra 64GB".to_owned(),
            size: 64_000_000_000,
            is_removable: true,
            bus_type: "USB".to_owned(),
        },
        Disk {
            device: "/dev/sdb".to_owned(),
            description: "Samsung T7 500GB".to_owned(),
            size: 500_107_862_016,
            is_removable: true,
            bus_type: "USB".to_owned(),
        },
        Disk {
            device: "/dev/nvme0n1".to_owned(),
            description: "WD Black SN750 1TB".to_owned(),
            size: 1_000_000_000_000,
            is_removable: false,
            bus_type: "NVMe".to_owned(),
        },
    ];
    proof {
        assert(models(res@) =~= simulated_disk_list());
    }
    res
}

/// Whether a picked file is an image that can be written.
pub fn validate_image_file(f: &PickedFile) -> (res: bool)
    ensures
        res == usable_image(opt_view(f.extension), f.len),
{
    let ext_ok = match &f.extension {
        Some(e) => text::str_eq_ignore_ascii_case(e.as_str(), "img") || text::str_eq_ignore_ascii_case(
            e.as_str(),
            "iso",
        ) || text::str_eq_ignore_ascii_case(e.as_str(), "gz"),
        None => false,
    };
    let len_ok = match f.len {
        Some(n) => n > 0,
        None => false,
    };
    ext_ok && len_ok
}

impl Later {
    /// The message this stands for.
    pub fn message(self) -> (res: Message)
        ensures
            match self {
                Later::DownloadClicked => res is DownloadClicked,
                Later::VerifyContinue => res is VerifyContinue,
                Later::FlashClicked => res is FlashClicked,
                Later::DiskRefreshClicked => res is DiskRefreshClicked,
                Later::FirstDiskSelected => res matches Message::DiskSelected(0),
                Later::SimulatedTags => res matches Message::TagsLoaded(Ok(tags)) && text::views(
                    tags@,
                ) == simulated_tag_list(),
                Later::RpibootSucceeded => res matches Message::RpibootFinished(Ok(())),
            },
    {
        match self {
            Later::DownloadClicked => Message::DownloadClicked,
            Later::VerifyContinue => Message::VerifyContinue,
            Later::FlashClicked => Message::FlashClicked,
            Later::DiskRefreshClicked => Message::DiskRefreshClicked,
            Later::FirstDiskSelected => Message::DiskSelected(0),
            Later::SimulatedTags => Message::TagsLoaded(Ok(simulated_tags())),
            Later::RpibootSucceeded => Message::RpibootFinished(Ok(())),
        }
    }
}

fn after_second(then: Later) -> (res: Action)
    ensures
        res@ == after_a_second(then),
{
    Action::Delay { millis: 1000, then }
}

impl Installer {
    /// The state is consistent: one entry per tag, and the page shown is
    /// one of the pages.
    pub open spec fn wf(&self) -> bool {
        self.tag_metas.wf() && self@.page_ok()
    }

    /// The installer as it starts, and the work that loads the releases.
    pub fn init(simulate: bool, auto: bool, lang: Lang, verification_enabled: bool) -> (res: (
        Installer,
        Action,
    ))
        ensures
            res.0.wf(),
            (res.0@, res.1@) == initial(simulate, auto, lang, verification_enabled),
    {
        let inst = Installer {
            lang,
            channel: Channel::Production,
            step: Step::Loading,
            tags: Vec::new(),
            tag_metas: TagMetas::new(),
            current_page: 0,
            selected_tag: None,
            image_path: None,
            error: None,
            simulate,
            auto,
            verification_enabled,
            download_target: None,
        };
        proof {
            assert(inst@.tags =~= Seq::<Seq<char>>::empty());
        }
        let a = inst.load_tags();
        (inst, a)
    }

    /// The work that loads the release list of the current channel.
    pub fn load_tags(&self) -> (res: Action)
        ensures
            res@ == self@.load_tags(),
    {
        if self.simulate {
            Action::Delay { millis: 500, then: Later::SimulatedTags }
        } else {
            Action::LoadTags { registry: registry_string(self.channel) }
        }
    }

    /// Number of pages of the release list.
    pub fn total_pages(&self) -> (res: usize)
        ensures
            res == pages(self.tags@.len() as nat),
    {
        let n = self.tags.len();
        if n == 0 {
            1
        } else {
            (n - 1) / PAGE_SIZE + 1
        }
    }

    /// Marks the shown page's releases as loading and asks for their
    /// metadata.
    pub fn fetch_visible_page(&mut self) -> (res: Action)
        requires
            old(self).wf(),
        ensures
            final(self).wf(),
            (final(self)@, res@) == old(self)@.fetch_visible_page(),
    {
        if self.simulate {
            return Action::Nothing;
        }
        let n = self.tags.len();
        let page = self.current_page;
        proof {
            assert(page * 10 < n || (n == 0 && page == 0)) by (nonlinear_arith)
                requires
                    n == 0 ==> page == 0,
                    n > 0 ==> page < (n + 9) / 10,
            ;
        }
        let start = page * PAGE_SIZE;
        let end = if n - start > PAGE_SIZE {
            start + PAGE_SIZE
        } else {
            n
        };
        let registry = registry_string(self.channel);
        let mut fetched: Vec<String> = Vec::new();
        let ghost s0 = self@;
        let ghost tags0 = self.tags;
        let mut i = start;
        assert(self.tags@.subrange(start as int, start as int).len() == 0);
        assert(text::views(self.tags@).subrange(start as int, start as int) =~= Seq::<Seq<char>>::empty());
        while i < end
            invariant
                start <= i <= end <= n,
                n == self.tags@.len(),
                self.tags == tags0,
                s0 == old(self)@,
                s0.tags == text::views(tags0@),
                self.tag_metas.wf(),
                self@ == (InstallerModel { metas: self.tag_metas@, ..s0 }),
                (self.tag_metas@, text::views(fetched@)) == mark_page(
                    s0.metas,
                    s0.tags.subrange(start as int, i as int),
                ),
            decreases end - i,
        {
            let tag = self.tags[i].clone();
            let (created, status) = match self.tag_metas.get(tag.as_str()) {
                Some(m) => (clone_opt(&m.created), m.status),
                None => (None, FetchStatus::Idle),
            };
            proof {
                assert(s0.tags.subrange(start as int, i + 1).drop_last() =~= s0.tags.subrange(
                    start as int,
                    i as int,
                ));
                assert(s0.tags.subrange(start as int, i + 1).last() == tag@);
            }
            if app::should_fetch(status) {
                self.tag_metas.set(tag.as_str(), TagMeta { created, status: FetchStatus::Loading });
                fetched.push(tag);
                proof {
                    assert(text::views(fetched@) =~= mark_page(
                        s0.metas,
                        s0.tags.subrange(start as int, i as int),
                    ).1.push(tag@));
                }
            }
            i = i + 1;
        }
        proof {
            assert(start == page_start(s0.current_page));
            assert(end == page_end(s0.current_page, s0.tags.len()));
        }
        Action::FetchMetas { registry, tags: fetched }
    }

    /// Goes to page `page`, or to the last page where there are fewer.
    pub fn goto_page(&mut self, page: usize) -> (res: Action)
        requires
            old(self).wf(),
        ensures
            final(self).wf(),
            (final(self)@, res@) == old(self)@.goto_page(page as nat),
    {
        let last = self.total_pages() - 1;
        let target = if page < last {
            page
        } else {
            last
        };
        if target != self.current_page {
            self.current_page = target;
            self.fetch_visible_page()
        } else {
            Action::Nothing
        }
    }
}

impl Installer {
    /// Shows the disks listed for `purpose`.
    pub fn show_disks(&mut self, purpose: DiskPurpose, disks: Vec<Disk>) -> (res: Action)
        requires
            old(self).wf(),
        ensures
            final(self).wf(),
            (final(self)@, res@) == old(self)@.show_disks(purpose, models(disks@)),
    {
        let count = disks.len();
        let auto_next = if self.auto {
            after_second(
                if count > 0 {
                    Later::FirstDiskSelected
                } else {
                    Later::DiskRefreshClicked
                },
            )
        } else {
            Action::Nothing
        };
        match purpose {
            DiskPurpose::AfterError => {
                self.step = Step::SelectDisk { disks, selected: None };
                Action::Nothing
            },
            DiskPurpose::Enter => {
                self.step = Step::SelectDisk { disks, selected: None };
                auto_next
            },
            DiskPurpose::Refresh => {
                let old = match &self.step {
                    Step::SelectDisk { selected, .. } => *selected,
                    _ => None,
                };
                let kept = match old {
                    Some(i) => if i < count {
                        Some(i)
                    } else {
                        None
                    },
                    None => None,
                };
                self.step = Step::SelectDisk { disks, selected: kept };
                auto_next
            },
        }
    }

    /// Lists the disks for `purpose`: the simulated ones at once, else by
    /// asking for a listing.
    pub fn get_disks(&mut self, purpose: DiskPurpose) -> (res: Action)
        requires
            old(self).wf(),
        ensures
            final(self).wf(),
            (final(self)@, res@) == old(self)@.get_disks(purpose),
    {
        if self.simulate {
            let disks = simulate_disks();
            self.show_disks(purpose, disks)
        } else {
            Action::ListDisks { purpose }
        }
    }

    /// Shows `err` and goes back a step.
    pub fn handle_error(&mut self, err: String) -> (res: Action)
        requires
            old(self).wf(),
        ensures
            final(self).wf(),
            (final(self)@, res@) == old(self)@.handle_error(err@),
    {
        self.error = Some(err);
        let back_to_disks = match &self.step {
            Step::Flashing { .. } | Step::SelectDisk { .. } | Step::RunningRpiboot => true,
            _ => false,
        };
        if back_to_disks {
            self.get_disks(DiskPurpose::AfterError)
        } else {
            self.step = Step::SelectRelease;
            Action::Nothing
        }
    }

    /// Switches to `channel` and reloads its releases.
    pub fn select_channel(&mut self, channel: Channel) -> (res: Action)
        requires
            old(self).wf(),
        ensures
            final(self).wf(),
            (final(self)@, res@) == old(self)@.select_channel(channel),
    {
        if channel == self.channel {
            return Action::Nothing;
        }
        self.channel = channel;
        self.selected_tag = None;
        self.tags = Vec::new();
        self.tag_metas = TagMetas::new();
        self.current_page = 0;
        self.error = None;
        self.image_path = None;
        self.download_target = None;
        self.step = Step::Loading;
        proof {
            assert(self@.tags =~= Seq::<Seq<char>>::empty());
        }
        self.load_tags()
    }

    /// Takes in a newly loaded release list.
    pub fn tags_loaded(&mut self, tags: Vec<String>) -> (res: Action)
        requires
            old(self).wf(),
        ensures
            final(self).wf(),
            (final(self)@, res@) == old(self)@.tags_loaded(text::views(tags@)),
    {
        self.tags = tags;
        self.tag_metas = TagMetas::new();
        self.current_page = 0;
        self.step = Step::SelectRelease;
        if self.auto {
            self.selected_tag = Some(0);
            return after_second(Later::DownloadClicked);
        }
        self.fetch_visible_page()
    }

    /// Records the creation date fetched for `tag`, or that the fetch
    /// failed.
    pub fn store_tag_meta(&mut self, tag: &str, created: Result<Option<String>, String>)
        requires
            old(self).wf(),
        ensures
            final(self).wf(),
            final(self)@ == old(self)@.store_tag_meta(
                tag@,
                match created {
                    Ok(c) => Ok(opt_view(c)),
                    Err(_) => Err(()),
                },
            ),
    {
        let kept = match self.tag_metas.get(tag) {
            Some(meta) => Some(clone_opt(&meta.created)),
            None => None,
        };
        match kept {
            Some(old_created) => {
                let meta = match created {
                    Ok(c) => TagMeta { created: c, status: FetchStatus::Done },
                    Err(_) => TagMeta { created: old_created, status: FetchStatus::Failed },
                };
                self.tag_metas.set(tag, meta);
            },
            None => {},
        }
    }

    /// Moves on to the disks.
    pub fn enter_disk_selection(&mut self) -> (res: Action)
        requires
            old(self).wf(),
        ensures
            final(self).wf(),
            (final(self)@, res@) == old(self)@.enter_disk_selection(),
    {
        self.get_disks(DiskPurpose::Enter)
    }

    /// The selected release's tag.
    fn selected_tag_name(&self) -> (res: Option<String>)
        ensures
            opt_view(res) == self@.selected(),
    {
        match self.selected_tag {
            Some(i) => if i < self.tags.len() {
                Some(self.tags[i].clone())
            } else {
                None
            },
            None => None,
        }
    }

    /// Asks for the signature check of the selected release.
    pub fn start_verify(&self) -> (res: Action)
        ensures
            res@ == self@.start_verify(),
    {
        match self.selected_tag_name() {
            Some(tag) => Action::Verify { registry: registry_string(self.channel), tag },
            None => Action::Nothing,
        }
    }

    /// Once the image is there: check its signature, or say that this is
    /// not done.
    pub fn after_download(&mut self) -> (res: Action)
        requires
            old(self).wf(),
        ensures
            final(self).wf(),
            (final(self)@, res@) == old(self)@.after_download(),
    {
        if self.simulate || !self.verification_enabled {
            self.step = Step::VerifyDisabled;
            if self.auto {
                return after_second(Later::VerifyContinue);
            }
            return Action::Nothing;
        }
        self.step = Step::Verify;
        self.start_verify()
    }

    /// Starts getting the image of the selected release.
    pub fn start_download(&mut self) -> (res: Action)
        requires
            old(self).wf(),
        ensures
            final(self).wf(),
            (final(self)@, res@) == old(self)@.start_download(),
    {
        let tag = match self.selected_tag_name() {
            Some(tag) => tag,
            None => {
                return Action::Nothing;
            },
        };
        if self.simulate {
            self.step = Step::Downloading { progress: 0 };
            return Action::SimulateDownload;
        }
        self.error = None;
        self.download_target = Some((registry_string(self.channel), tag.clone()));
        let slug = self.channel.slug().to_owned();
        let mut file_name = "caustic-os-".to_owned();
        file_name.append(tag.as_str());
        file_name.append(".img");
        let mut partial = file_name.clone();
        partial.append(".partial");
        Action::PrepareDownload { slug, file_name, partial_name: partial }
    }

    /// Goes on once the cache directory was looked at.
    pub fn download_prepared(&mut self, p: Prepared) -> (res: Action)
        requires
            old(self).wf(),
        ensures
            final(self).wf(),
            (final(self)@, res@) == old(self)@.download_prepared(p),
    {
        match p {
            Prepared::NoCacheDir => {
                self.error = Some("Could not determine cache directory".to_owned());
                Action::Nothing
            },
            Prepared::Cached { image_path } => {
                self.image_path = Some(image_path);
                self.after_download()
            },
            Prepared::Fresh { image_path, partial_path } => {
                let target = match &self.download_target {
                    Some((registry, tag)) => Some((registry.clone(), tag.clone())),
                    None => None,
                };
                match target {
                    Some((registry, tag)) => {
                        self.image_path = Some(image_path.clone());
                        self.step = Step::Downloading { progress: 0 };
                        Action::Download { registry, tag, image_path, partial_path }
                    },
                    None => Action::Nothing,
                }
            },
        }
    }

    /// Takes in a picked file.
    pub fn use_local_file(&mut self, f: Option<PickedFile>) -> (res: Action)
        requires
            old(self).wf(),
        ensures
            final(self).wf(),
            (final(self)@, res@) == old(self)@.use_local_file(f),
    {
        match f {
            None => Action::Nothing,
            Some(f) => {
                if !validate_image_file(&f) {
                    let msg = t(self.lang, Text::LocalFileInvalid).to_owned();
                    return self.handle_error(msg);
                }
                self.error = None;
                self.image_path = Some(f.path);
                self.enter_disk_selection()
            },
        }
    }

    /// Starts rpiboot: at once in simulation, else after looking for it.
    pub fn start_rpiboot(&mut self) -> (res: Action)
        requires
            old(self).wf(),
        ensures
            final(self).wf(),
            (final(self)@, res@) == old(self)@.start_rpiboot(),
    {
        if self.simulate {
            self.step = Step::RunningRpiboot;
            return after_second(Later::RpibootSucceeded);
        }
        Action::CheckRpiboot
    }

    /// Runs rpiboot where it was found, else says that it is missing.
    pub fn rpiboot_availability(&mut self, available: bool) -> (res: Action)
        requires
            old(self).wf(),
        ensures
            final(self).wf(),
            (final(self)@, res@) == old(self)@.rpiboot_availability(available),
    {
        if !available {
            self.error = Some(t(self.lang, Text::RpibootNotFound).to_owned());
            return Action::Nothing;
        }
        self.step = Step::RunningRpiboot;
        Action::RunRpiboot
    }

    /// Starts writing the image to the selected disk.
    pub fn start_flash(&mut self) -> (res: Action)
        requires
            old(self).wf(),
        ensures
            final(self).wf(),
            (final(self)@, res@) == old(self)@.start_flash(),
    {
        self.error = None;
        let target = match &self.step {
            Step::SelectDisk { disks, selected: Some(i) } => if *i < disks.len() {
                Some(disks[*i].device.clone())
            } else {
                None
            },
            _ => None,
        };
        let target = match target {
            Some(t) => t,
            None => {
                return Action::Nothing;
            },
        };
        if self.simulate {
            self.step = Step::Flashing { progress: 0 };
            return Action::SimulateFlash;
        }
        let image = match &self.image_path {
            Some(p) => p.clone(),
            None => {
                return Action::Nothing;
            },
        };
        self.step = Step::Flashing { progress: 0 };
        Action::Flash { image, target }
    }

    /// Selects disk `index` of the list shown.
    pub fn select_disk(&mut self, index: usize) -> (res: Action)
        requires
            old(self).wf(),
        ensures
            final(self).wf(),
            (final(self)@, res@) == old(self)@.select_disk(index),
    {
        let mut step = Step::Loading;
        std::mem::swap(&mut step, &mut self.step);
        self.step = match step {
            Step::SelectDisk { disks, .. } => Step::SelectDisk { disks, selected: Some(index) },
            other => other,
        };
        if self.auto {
            return after_second(Later::FlashClicked);
        }
        Action::Nothing
    }

    /// Takes in an event; returns the outside work to do next.
    pub fn update(&mut self, message: Message) -> (res: Action)
        requires
            old(self).wf(),
        ensures
            final(self).wf(),
            (final(self)@, res@) == old(self)@.next(message),
    {
        match message {
            Message::TagsLoaded(Ok(tags)) => self.tags_loaded(tags),
            Message::TagsLoaded(Err(e)) => self.handle_error(e),
            Message::DownloadFinished(Err(e)) => self.handle_error(e),
            Message::VerifyResult(Err(e)) => self.handle_error(e),
            Message::FlashFinished(Err(e)) => self.handle_error(e),
            Message::RpibootFinished(Err(e)) => self.handle_error(e),
            Message::TagSelected(i) => {
                self.selected_tag = Some(i);
                Action::Nothing
            },
            Message::TagMetaLoaded { tag, created } => {
                self.store_tag_meta(tag.as_str(), created);
                Action::Nothing
            },
            Message::NextPage => {
                let n = self.tags.len();
                proof {
                    let page = self.current_page;
                    assert(page < usize::MAX) by (nonlinear_arith)
                        requires
                            n == 0 ==> page == 0,
                            n > 0 ==> page < (n + 9) / 10,
                            n <= usize::MAX,
                    ;
                }
                self.goto_page(self.current_page + 1)
            },
            Message::PrevPage => {
                let p = if self.current_page > 0 {
                    self.current_page - 1
                } else {
                    0
                };
                self.goto_page(p)
            },
            Message::ChannelSelected(c) => self.select_channel(c),
            Message::DownloadClicked => self.start_download(),
            Message::LocalFileClicked => Action::PickFile,
            Message::LocalFilePicked(f) => self.use_local_file(f),
            Message::DownloadPrepared(p) => self.download_prepared(p),
            Message::DownloadProgress(p) => {
                if let Step::Downloading { .. } = self.step {
                    self.step = Step::Downloading { progress: p };
                }
                Action::Nothing
            },
            Message::DownloadFinished(Ok(())) => self.after_download(),
            Message::VerifyResult(Ok(())) => self.enter_disk_selection(),
            Message::VerifyContinue => self.enter_disk_selection(),
            Message::RpibootFinished(Ok(())) => self.enter_disk_selection(),
            Message::DiskSelected(i) => self.select_disk(i),
            Message::DiskRefreshClicked => self.get_disks(DiskPurpose::Refresh),
            Message::DisksListed { purpose, disks } => self.show_disks(purpose, disks),
            Message::RpibootClicked => self.start_rpiboot(),
            Message::RpibootAvailability(b) => self.rpiboot_availability(b),
            Message::FlashClicked => self.start_flash(),
            Message::FlashProgress(p) => {
                if let Step::Flashing { .. } = self.step {
                    self.step = Step::Flashing { progress: p };
                }
                Action::Nothing
            },
            Message::FlashFinished(Ok(())) => {
                self.step = Step::Done;
                Action::Nothing
            },
        }
    }
}

/// A failure that comes while the releases are loaded, downloaded or
/// checked is shown, and the installer goes back to the release list and
/// starts nothing; all else it holds stays as it was.
pub proof fn law_failure_before_disks_goes_back_to_releases(s: InstallerModel, m: Message)
    requires
        failure(m) is Some,
        !(s.step is Flashing || s.step is SelectDisk || s.step is RunningRpiboot),
    ensures
        s.next(m).0 == (InstallerModel { error: failure(m), step: StepModel::SelectRelease, ..s }),
        s.next(m).1 == ActionModel::Nothing,
{
}

/// A failure while a disk is chosen or written, or while rpiboot runs, is
/// shown and the disks are listed again (outside simulation); all else the
/// installer holds stays as it was.
pub proof fn law_failure_at_disks_lists_disks_again(s: InstallerModel, m: Message)
    requires
        failure(m) is Some,
        s.step is Flashing || s.step is SelectDisk || s.step is RunningRpiboot,
        !s.simulate,
    ensures
        s.next(m).0 == (InstallerModel { error: failure(m), ..s }),
        s.next(m).1 == (ActionModel::ListDisks { purpose: DiskPurpose::AfterError }),
{
}

/// The registry releases of channel `c` come from, and the folder their
/// images are cached in: the production registry under `prod`, the
/// development registry under `dev`.
pub open spec fn channel_source(c: Channel) -> (Seq<char>, Seq<char>) {
    match c {
        Channel::Production => (app::REGISTRY_PROD@, "prod"@),
        Channel::Development => (app::REGISTRY_DEV@, "dev"@),
    }
}

/// Clicking Download on a live installer with a release selected clears
/// the error, remembers that release and its channel's registry, and asks
/// to look in the channel's cache folder for `caustic-os-<tag>.img` (being
/// downloaded as `caustic-os-<tag>.img.partial`); with nothing selected it
/// does nothing.
pub proof fn law_download_click(s: InstallerModel)
    requires
        !s.simulate,
    ensures
        s.selected() matches Some(tag) ==> s.next(Message::DownloadClicked) == (
            (InstallerModel {
                error: None,
                download_target: Some((channel_source(s.channel).0, tag)),
                ..s
            }),
            (ActionModel::PrepareDownload {
                slug: channel_source(s.channel).1,
                file_name: "caustic-os-"@ + tag + ".img"@,
                partial_name: "caustic-os-"@ + tag + ".img"@ + ".partial"@,
            }),
        ),
        s.selected() is None ==> s.next(Message::DownloadClicked) == (s, ActionModel::Nothing),
{
}

/// Once the cache was looked at: a fresh download fetches the release
/// remembered at the click into the given paths; a missing cache folder is
/// reported and nothing starts; a cached image is taken as downloaded.
pub proof fn law_prepared_download(s: InstallerModel, image_path: String, partial_path: String)
    ensures
        s.download_target matches Some((registry, tag)) ==> s.next(
            Message::DownloadPrepared(Prepared::Fresh { image_path, partial_path }),
        ) == (
            (InstallerModel {
                image_path: Some(image_path@),
                step: StepModel::Downloading { progress: 0 },
                ..s
            }),
            (ActionModel::Download {
                registry,
                tag,
                image_path: image_path@,
                partial_path: partial_path@,
            }),
        ),
        s.download_target is None ==> s.next(
            Message::DownloadPrepared(Prepared::Fresh { image_path, partial_path }),
        ) == (s, ActionModel::Nothing),
        s.next(Message::DownloadPrepared(Prepared::NoCacheDir)) == (
            (InstallerModel { error: Some("Could not determine cache directory"@), ..s }),
            ActionModel::Nothing,
        ),
        s.next(Message::DownloadPrepared(Prepared::Cached { image_path })).0.image_path == Some(
            image_path@,
        ),
        s.next(Message::DownloadPrepared(Prepared::Cached { image_path })) == (InstallerModel {
            image_path: Some(image_path@),
            ..s
        }).next(Message::DownloadFinished(Ok(()))),
{
}

/// A finished download has its signature checked: on a live installer with
/// checks on, the step is the check and the selected release is checked
/// against its channel's registry; with checks off, or in simulation, the
/// step says so and (unless the run is automatic) nothing starts.
pub proof fn law_download_finished_checks_signature(s: InstallerModel)
    ensures
        !s.simulate && s.verification_enabled ==> s.next(Message::DownloadFinished(Ok(()))).0 == (
        InstallerModel { step: StepModel::Verify, ..s }),
        !s.simulate && s.verification_enabled ==> (s.selected() matches Some(tag) ==> s.next(
            Message::DownloadFinished(Ok(())),
        ).1 == (ActionModel::Verify { registry: channel_source(s.channel).0, tag })),
        (s.simulate || !s.verification_enabled) && !s.auto ==> s.next(
            Message::DownloadFinished(Ok(())),
        ) == ((InstallerModel { step: StepModel::VerifyDisabled, ..s }), ActionModel::Nothing),
{
}

/// A passed or skipped signature check, or a finished rpiboot, leads to the
/// disk list: a live installer asks for the disks and changes nothing else.
pub proof fn law_on_to_the_disks(s: InstallerModel, m: Message)
    requires
        !s.simulate,
        m matches Message::VerifyResult(Ok(())) || m is VerifyContinue || m matches Message::RpibootFinished(Ok(())),
    ensures
        s.next(m) == (s, ActionModel::ListDisks { purpose: DiskPurpose::Enter }),
{
}

/// Listed disks are shown with none selected, when entering the list and
/// after a failure; a refresh keeps the selection while it still points
/// into the new list. Only an automatic run goes on by itself.
pub proof fn law_listed_disks_are_shown(s: InstallerModel, disks: Vec<Disk>)
    ensures
        s.next(Message::DisksListed { purpose: DiskPurpose::Enter, disks }).0 == (InstallerModel {
            step: StepModel::SelectDisk { disks: models(disks@), selected: None },
            ..s
        }),
        s.next(Message::DisksListed { purpose: DiskPurpose::AfterError, disks }) == (
            (InstallerModel {
                step: StepModel::SelectDisk { disks: models(disks@), selected: None },
                ..s
            }),
            ActionModel::Nothing,
        ),
        !s.auto ==> s.next(Message::DisksListed { purpose: DiskPurpose::Enter, disks }).1
            == ActionModel::Nothing,
        s.step matches StepModel::SelectDisk { selected: Some(i), .. } ==> (i < disks@.len()
            ==> s.next(Message::DisksListed { purpose: DiskPurpose::Refresh, disks }).0.step == (
        StepModel::SelectDisk { disks: models(disks@), selected: Some(i) })),
{
}

/// Choosing a release or a disk only records the choice (outside an
/// automatic run); progress is only recorded while downloading or flashing;
/// a successful flash ends the installation.
pub proof fn law_choices_and_progress(s: InstallerModel, i: usize, p: u8)
    ensures
        s.next(Message::TagSelected(i)) == ((InstallerModel { selected_tag: Some(i), ..s }), ActionModel::Nothing),
        !s.auto ==> (s.step matches StepModel::SelectDisk { disks, .. } ==> s.next(
            Message::DiskSelected(i),
        ) == ((InstallerModel { step: StepModel::SelectDisk { disks, selected: Some(i) }, ..s }),
            ActionModel::Nothing)),
        s.step is Downloading ==> s.next(Message::DownloadProgress(p)) == ((InstallerModel {
            step: StepModel::Downloading { progress: p },
            ..s
        }), ActionModel::Nothing),
        !(s.step is Downloading) ==> s.next(Message::DownloadProgress(p)) == (s, ActionModel::Nothing),
        s.step is Flashing ==> s.next(Message::FlashProgress(p)) == ((InstallerModel {
            step: StepModel::Flashing { progress: p },
            ..s
        }), ActionModel::Nothing),
        s.next(Message::FlashFinished(Ok(()))) == ((InstallerModel { step: StepModel::Done, ..s }), ActionModel::Nothing),
{
}

/// Where rpiboot is found it runs; where it is not, that is reported in the
/// installer's language and nothing starts.
pub proof fn law_rpiboot_runs_where_found(s: InstallerModel)
    ensures
        s.next(Message::RpibootAvailability(true)) == ((InstallerModel { step: StepModel::RunningRpiboot, ..s }), ActionModel::RunRpiboot),
        s.next(Message::RpibootAvailability(false)) == ((InstallerModel { error: Some(wording(s.lang, Text::RpibootNotFound)), ..s }), ActionModel::Nothing),
        !s.simulate ==> s.next(Message::RpibootClicked) == (s, ActionModel::CheckRpiboot),
{
}

/// A picked file goes on to the disk list, as the image to write, exactly
/// when it is not empty and its extension is `img`, `iso` or `gz` in any
/// letter case; any other file is refused with the installer's wording
/// for it, and the installer goes back to the release list. Picking
/// nothing changes nothing.
pub proof fn law_local_file_must_be_an_image(s: InstallerModel, f: PickedFile)
    requires
        !s.simulate,
        !(s.step is Flashing || s.step is SelectDisk || s.step is RunningRpiboot),
    ensures
        (f.len matches Some(n) && n > 0) && (f.extension matches Some(e) && (
        text::eq_ignore_ascii_case(e@, "img"@) || text::eq_ignore_ascii_case(e@, "iso"@)
            || text::eq_ignore_ascii_case(e@, "gz"@))) ==> s.next(Message::LocalFilePicked(Some(f)))
            == ((InstallerModel { error: None, image_path: Some(f.path@), ..s }), (
        ActionModel::ListDisks { purpose: DiskPurpose::Enter })),
        !((f.len matches Some(n) && n > 0) && (f.extension matches Some(e) && (
        text::eq_ignore_ascii_case(e@, "img"@) || text::eq_ignore_ascii_case(e@, "iso"@)
            || text::eq_ignore_ascii_case(e@, "gz"@)))) ==> s.next(
            Message::LocalFilePicked(Some(f)),
        ) == ((InstallerModel {
            error: Some(wording(s.lang, Text::LocalFileInvalid)),
            step: StepModel::SelectRelease,
            ..s
        }), ActionModel::Nothing),
        s.next(Message::LocalFilePicked(None)) == (s, ActionModel::Nothing),
{
}

/// A loaded release list replaces the old one and is shown from its first
/// page; a live, non-automatic installer then marks each release of that
/// page (the first ten) as loading and fetches the metadata of releases of
/// that page only, from its channel's registry.
pub proof fn law_loaded_releases_are_shown(s: InstallerModel, tags: Vec<String>)
    requires
        !s.simulate,
        !s.auto,
    ensures
        ({
            let all = text::views(tags@);
            let first = all.take(if all.len() < 10 { all.len() as int } else { 10 });
            let (n, a) = s.next(Message::TagsLoaded(Ok(tags)));
            &&& n.tags == all
            &&& n.current_page == 0
            &&& n.step is SelectRelease
            &&& forall|i: int| 0 <= i < first.len() ==> n.metas.contains_key(#[trigger] first[i])
                && n.metas[first[i]].status == FetchStatus::Loading
            &&& a matches ActionModel::FetchMetas { registry, tags: fetched } && registry
                == channel_source(s.channel).0 && forall|j: int|
                0 <= j < fetched.len() ==> first.contains(#[trigger] fetched[j])
        }),
{
    let all = text::views(tags@);
    let first = all.take(if all.len() < 10 { all.len() as int } else { 10 });
    let page = all.subrange(page_start(0) as int, page_end(0, all.len()) as int);
    assert(page =~= first);
    law_page_fetch_covers_page(Map::empty(), page);
    let m = mark_page(Map::empty(), page).0;
    assert forall|i: int| 0 <= i < first.len() implies m.contains_key(#[trigger] first[i])
        && m[first[i]].status == FetchStatus::Loading by {
        assert(!pending(m, page[i]));
        lemma_marked_are_loading(page, first[i]);
    }
}

proof fn lemma_marked_are_loading(page: Seq<Seq<char>>, t: Seq<char>)
    requires
        mark_page(Map::empty(), page).0.contains_key(t),
    ensures
        mark_page(Map::empty(), page).0[t].status == FetchStatus::Loading,
    decreases page.len(),
{
    if page.len() > 0 {
        let (m1, f1) = mark_page(Map::empty(), page.drop_last());
        if m1.contains_key(t) {
            lemma_marked_are_loading(page.drop_last(), t);
        }
    }
}

} // verus!
