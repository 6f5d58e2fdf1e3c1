use caustic::app::{Channel, FetchStatus, REGISTRY_DEV, REGISTRY_PROD};
use caustic::disk::Disk;
use caustic::i18n::{t, Lang, Text};
use caustic::installer::{
    progress_percent, simulate_disks, simulated_tags, validate_image_file, Action, DiskPurpose,
    Installer, Later, Message, PickedFile, Prepared, Step,
};
use caustic::widgets::{next_in_bounds, prev_in_bounds};
use caustic::installer_view::{channel_button, disk_info_line, disk_rows, Button};

fn tags(v: &[&str]) -> Vec<String> {
    v.iter().map(|s| s.to_string()).collect()
}

fn usb_disk(device: &str) -> Disk {
    Disk {
        device: device.to_string(),
        description: "SanDisk Ultra".to_string(),
        size: 64_000_000_000,
        is_removable: true,
        bus_type: "USB".to_string(),
    }
}

/// A live installer that has loaded the three given releases.
fn loaded(list: &[&str]) -> Installer {
    let (mut inst, action) = Installer::init(false, false, Lang::En, true);
    assert!(matches!(&action, Action::LoadTags { registry } if registry == REGISTRY_PROD));
    let action = inst.update(Message::TagsLoaded(Ok(tags(list))));
    match action {
        Action::FetchMetas { registry, tags } => {
            assert_eq!(registry, REGISTRY_PROD);
            assert_eq!(tags.len(), list.len().min(10));
        }
        _ => panic!("the shown page's metadata is fetched"),
    }
    inst
}

#[test]
fn initial_state_loads_production_releases() {
    let (inst, action) = Installer::init(false, false, Lang::De, true);
    assert!(matches!(inst.step, Step::Loading));
    assert_eq!(inst.channel, Channel::Production);
    assert!(matches!(action, Action::LoadTags { .. }));
    let (_, simulated) = Installer::init(true, false, Lang::En, true);
    assert!(matches!(simulated, Action::Delay { millis: 500, then: Later::SimulatedTags }));
    match Later::SimulatedTags.message() {
        Message::TagsLoaded(Ok(list)) => assert_eq!(list, simulated_tags()),
        _ => panic!("simulated tags"),
    }
}

#[test]
fn whole_install_goes_through_every_step() {
    let mut inst = loaded(&["2026.08.11", "2026.08.04"]);
    assert!(matches!(inst.step, Step::SelectRelease));
    inst.update(Message::TagMetaLoaded {
        tag: "2026.08.11".to_string(),
        created: Ok(Some("2026-08-11T09:00:00Z".to_string())),
    });
    let rows = inst.release_rows();
    assert_eq!(rows.len(), 2);
    assert_eq!(rows[0].date.as_deref(), Some("2026-08-11"));
    assert_eq!(rows[1].date.as_deref(), Some(t(Lang::En, Text::LoadingShort)));
    assert_eq!(inst.footer_buttons(false), vec![Button::UseLocalFile]);

    inst.update(Message::TagSelected(0));
    assert_eq!(inst.footer_buttons(false), vec![Button::UseLocalFile, Button::Download]);
    assert!(inst.release_rows()[0].selected);

    match inst.update(Message::DownloadClicked) {
        Action::PrepareDownload { slug, file_name, partial_name } => {
            assert_eq!(slug, "prod");
            assert_eq!(file_name, "caustic-os-2026.08.11.img");
            assert_eq!(partial_name, "caustic-os-2026.08.11.img.partial");
        }
        _ => panic!("the cache is looked at first"),
    }
    match inst.update(Message::DownloadPrepared(Prepared::Fresh {
        image_path: "/cache/prod/caustic-os-2026.08.11.img".to_string(),
        partial_path: "/cache/prod/caustic-os-2026.08.11.img.partial".to_string(),
    })) {
        Action::Download { registry, tag, image_path, partial_path } => {
            assert_eq!(registry, REGISTRY_PROD);
            assert_eq!(tag, "2026.08.11");
            assert_eq!(image_path, "/cache/prod/caustic-os-2026.08.11.img");
            assert_eq!(partial_path, "/cache/prod/caustic-os-2026.08.11.img.partial");
        }
        _ => panic!("the image is downloaded"),
    }
    inst.update(Message::DownloadProgress(42));
    assert!(matches!(inst.step, Step::Downloading { progress: 42 }));

    match inst.update(Message::DownloadFinished(Ok(()))) {
        Action::Verify { registry, tag } => {
            assert_eq!(registry, REGISTRY_PROD);
            assert_eq!(tag, "2026.08.11");
        }
        _ => panic!("the signature is checked"),
    }
    assert!(matches!(inst.step, Step::Verify));

    assert!(matches!(
        inst.update(Message::VerifyResult(Ok(()))),
        Action::ListDisks { purpose: DiskPurpose::Enter }
    ));
    inst.update(Message::DisksListed {
        purpose: DiskPurpose::Enter,
        disks: vec![usb_disk("/dev/sda"), usb_disk("/dev/sdb")],
    });
    assert_eq!(inst.footer_buttons(true), vec![Button::Refresh, Button::Rpiboot]);
    inst.update(Message::DiskSelected(1));
    assert_eq!(
        inst.footer_buttons(false),
        vec![Button::Refresh, Button::Flash]
    );
    match inst.update(Message::FlashClicked) {
        Action::Flash { image, target } => {
            assert_eq!(image, "/cache/prod/caustic-os-2026.08.11.img");
            assert_eq!(target, "/dev/sdb");
        }
        _ => panic!("the selected disk is flashed"),
    }
    inst.update(Message::FlashProgress(100));
    assert!(matches!(inst.step, Step::Flashing { progress: 100 }));
    inst.update(Message::FlashFinished(Ok(())));
    assert!(matches!(inst.step, Step::Done));
}

#[test]
fn cached_image_skips_the_download() {
    let mut inst = loaded(&["2026.08.11"]);
    inst.update(Message::TagSelected(0));
    inst.update(Message::DownloadClicked);
    let action = inst.update(Message::DownloadPrepared(Prepared::Cached {
        image_path: "/cache/prod/caustic-os-2026.08.11.img".to_string(),
    }));
    assert!(matches!(action, Action::Verify { .. }));
    assert_eq!(inst.image_path.as_deref(), Some("/cache/prod/caustic-os-2026.08.11.img"));
}

#[test]
fn no_cache_dir_is_an_error() {
    let mut inst = loaded(&["2026.08.11"]);
    inst.update(Message::TagSelected(0));
    inst.update(Message::DownloadClicked);
    inst.update(Message::DownloadPrepared(Prepared::NoCacheDir));
    assert_eq!(inst.error.as_deref(), Some("Could not determine cache directory"));
    assert_eq!(inst.error_line().as_deref(), Some("Error: Could not determine cache directory"));
}

#[test]
fn download_without_selection_does_nothing() {
    let mut inst = loaded(&["2026.08.11"]);
    assert!(matches!(inst.update(Message::DownloadClicked), Action::Nothing));
    inst.update(Message::TagSelected(5));
    assert!(matches!(inst.update(Message::DownloadClicked), Action::Nothing));
}

#[test]
fn unsigned_builds_skip_the_check() {
    let (mut inst, _) = Installer::init(false, false, Lang::En, false);
    inst.update(Message::TagsLoaded(Ok(tags(&["2026.08.11"]))));
    inst.update(Message::TagSelected(0));
    inst.update(Message::DownloadFinished(Ok(())));
    assert!(matches!(inst.step, Step::VerifyDisabled));
    assert_eq!(inst.footer_buttons(false), vec![Button::Continue]);
    assert!(matches!(
        inst.update(Message::VerifyContinue),
        Action::ListDisks { purpose: DiskPurpose::Enter }
    ));
}

#[test]
fn failures_go_back_a_step() {
    let mut inst = loaded(&["2026.08.11"]);
    inst.update(Message::TagSelected(0));
    inst.update(Message::DownloadFinished(Ok(())));
    inst.update(Message::VerifyResult(Err("signature does not match".to_string())));
    assert!(matches!(inst.step, Step::SelectRelease));
    assert_eq!(inst.error.as_deref(), Some("signature does not match"));

    inst.update(Message::DisksListed { purpose: DiskPurpose::Enter, disks: vec![usb_disk("/dev/sda")] });
    inst.update(Message::DiskSelected(0));
    inst.update(Message::FlashClicked);
    assert!(matches!(
        inst.update(Message::FlashFinished(Err("dd failed".to_string()))),
        Action::ListDisks { purpose: DiskPurpose::AfterError }
    ));
    assert_eq!(inst.error.as_deref(), Some("dd failed"));
    inst.update(Message::DisksListed { purpose: DiskPurpose::AfterError, disks: vec![usb_disk("/dev/sdc")] });
    assert!(matches!(&inst.step, Step::SelectDisk { disks, selected: None } if disks[0].device == "/dev/sdc"));
}

#[test]
fn refresh_keeps_a_selection_that_still_exists() {
    let mut inst = loaded(&["2026.08.11"]);
    inst.update(Message::DisksListed {
        purpose: DiskPurpose::Enter,
        disks: vec![usb_disk("/dev/sda"), usb_disk("/dev/sdb")],
    });
    inst.update(Message::DiskSelected(1));
    assert!(matches!(inst.update(Message::DiskRefreshClicked), Action::ListDisks { purpose: DiskPurpose::Refresh }));
    inst.update(Message::DisksListed {
        purpose: DiskPurpose::Refresh,
        disks: vec![usb_disk("/dev/sda"), usb_disk("/dev/sdb"), usb_disk("/dev/sdc")],
    });
    assert!(matches!(inst.step, Step::SelectDisk { selected: Some(1), .. }));
    inst.update(Message::DisksListed { purpose: DiskPurpose::Refresh, disks: vec![usb_disk("/dev/sda")] });
    assert!(matches!(inst.step, Step::SelectDisk { selected: None, .. }));
}

#[test]
fn switching_channel_starts_over() {
    let mut inst = loaded(&["2026.08.11"]);
    inst.update(Message::TagSelected(0));
    assert!(matches!(inst.update(Message::ChannelSelected(Channel::Production)), Action::Nothing));
    assert_eq!(inst.selected_tag, Some(0));
    match inst.update(Message::ChannelSelected(Channel::Development)) {
        Action::LoadTags { registry } => assert_eq!(registry, REGISTRY_DEV),
        _ => panic!("the other channel's releases load"),
    }
    assert!(inst.tags.is_empty());
    assert_eq!(inst.selected_tag, None);
    assert!(matches!(inst.step, Step::Loading));
    assert!(inst.shows_channels());
}

#[test]
fn paging_fetches_each_page_once() {
    let list: Vec<String> = (0..25).map(|i| format!("2026.1.{i}")).collect();
    let names: Vec<&str> = list.iter().map(String::as_str).collect();
    let mut inst = loaded(&names);
    match inst.update(Message::NextPage) {
        Action::FetchMetas { tags, .. } => assert_eq!(tags, list[10..20].to_vec()),
        _ => panic!("page two is fetched"),
    }
    assert_eq!(inst.current_page, 1);
    match inst.update(Message::PrevPage) {
        Action::FetchMetas { tags, .. } => assert!(tags.is_empty()),
        _ => panic!("page one is shown again"),
    }
    inst.update(Message::TagMetaLoaded { tag: "2026.1.3".to_string(), created: Err("timeout".to_string()) });
    inst.update(Message::NextPage);
    match inst.update(Message::PrevPage) {
        Action::FetchMetas { tags, .. } => assert_eq!(tags, vec!["2026.1.3".to_string()]),
        _ => panic!("a failed fetch is retried"),
    }
    assert!(matches!(inst.update(Message::PrevPage), Action::Nothing));
    assert_eq!(inst.tag_metas.get("2026.1.3").map(|m| m.status), Some(FetchStatus::Loading));
}

#[test]
fn local_files_are_checked() {
    let mut inst = loaded(&["2026.08.11"]);
    inst.update(Message::LocalFilePicked(Some(PickedFile {
        path: "/home/u/notes.txt".to_string(),
        extension: Some("txt".to_string()),
        len: Some(10),
    })));
    assert_eq!(inst.error.as_deref(), Some(t(Lang::En, Text::LocalFileInvalid)));
    assert!(matches!(inst.step, Step::SelectRelease));
    let action = inst.update(Message::LocalFilePicked(Some(PickedFile {
        path: "/home/u/os.IMG".to_string(),
        extension: Some("IMG".to_string()),
        len: Some(10),
    })));
    assert!(matches!(action, Action::ListDisks { purpose: DiskPurpose::Enter }));
    assert_eq!(inst.image_path.as_deref(), Some("/home/u/os.IMG"));
    assert_eq!(inst.error, None);
    assert!(matches!(inst.update(Message::LocalFilePicked(None)), Action::Nothing));
    assert!(matches!(inst.update(Message::LocalFileClicked), Action::PickFile));
}

#[test]
fn image_file_rules() {
    let f = |ext: Option<&str>, len: Option<u64>| PickedFile {
        path: "x".to_string(),
        extension: ext.map(str::to_string),
        len,
    };
    assert!(validate_image_file(&f(Some("img"), Some(1))));
    assert!(validate_image_file(&f(Some("Iso"), Some(1))));
    assert!(validate_image_file(&f(Some("gz"), Some(1))));
    assert!(!validate_image_file(&f(Some("xz"), Some(1))));
    assert!(!validate_image_file(&f(Some("img"), Some(0))));
    assert!(!validate_image_file(&f(Some("img"), None)));
    assert!(!validate_image_file(&f(None, Some(1))));
}

#[test]
fn rpiboot_needs_the_tool() {
    let mut inst = loaded(&["2026.08.11"]);
    assert!(matches!(inst.update(Message::RpibootClicked), Action::CheckRpiboot));
    inst.update(Message::RpibootAvailability(false));
    assert_eq!(inst.error.as_deref(), Some(t(Lang::En, Text::RpibootNotFound)));
    assert!(matches!(inst.update(Message::RpibootAvailability(true)), Action::RunRpiboot));
    assert!(matches!(inst.step, Step::RunningRpiboot));
    assert!(matches!(
        inst.update(Message::RpibootFinished(Ok(()))),
        Action::ListDisks { purpose: DiskPurpose::Enter }
    ));
}

#[test]
fn automatic_simulation_runs_by_itself() {
    let (mut inst, _) = Installer::init(true, true, Lang::En, true);
    let action = inst.update(Later::SimulatedTags.message());
    assert!(matches!(action, Action::Delay { millis: 1000, then: Later::DownloadClicked }));
    assert_eq!(inst.selected_tag, Some(0));
    assert!(matches!(inst.update(Later::DownloadClicked.message()), Action::SimulateDownload));
    assert!(matches!(
        inst.update(Message::DownloadFinished(Ok(()))),
        Action::Delay { then: Later::VerifyContinue, .. }
    ));
    assert!(matches!(
        inst.update(Later::VerifyContinue.message()),
        Action::Delay { then: Later::FirstDiskSelected, .. }
    ));
    assert!(matches!(&inst.step, Step::SelectDisk { disks, .. } if disks.len() == 3));
    assert!(matches!(
        inst.update(Later::FirstDiskSelected.message()),
        Action::Delay { then: Later::FlashClicked, .. }
    ));
    assert!(matches!(inst.update(Later::FlashClicked.message()), Action::SimulateFlash));
    inst.update(Message::FlashFinished(Ok(())));
    assert!(matches!(inst.step, Step::Done));
}

#[test]
fn simulated_disks_are_fixed() {
    let disks = simulate_disks();
    assert_eq!(disks.len(), 3);
    assert_eq!(disks[0].device, "/dev/sda");
    assert_eq!(disks[2].bus_type, "NVMe");
    assert!(!disks[2].is_removable);
}

#[test]
fn disk_rows_show_size_bus_and_removable() {
    let disks = simulate_disks();
    assert_eq!(disk_info_line(Lang::En, &disks[0]), "64 GB · USB · Removable");
    assert_eq!(disk_info_line(Lang::De, &disks[1]), "500 GB · USB · Wechselmedium");
    assert_eq!(disk_info_line(Lang::En, &disks[2]), "1000 GB · NVMe");
    let rows = disk_rows(Lang::En, &disks, Some(2));
    assert_eq!(rows.len(), 3);
    assert_eq!(rows[1].description, "Samsung T7 500GB");
    assert!(rows[2].selected && !rows[0].selected);
}

#[test]
fn progress_is_a_capped_percentage() {
    assert_eq!(progress_percent(0, 0), 0);
    assert_eq!(progress_percent(50, 200), 25);
    assert_eq!(progress_percent(199, 200), 99);
    assert_eq!(progress_percent(300, 200), 100);
    assert_eq!(progress_percent(u64::MAX, u64::MAX), 1);
    assert_eq!(progress_percent(u64::MAX / 2, u64::MAX), 1);
}

#[test]
fn pager_buttons_match_paging() {
    let list: Vec<String> = (0..15).map(|i| format!("2026.2.{i}")).collect();
    let names: Vec<&str> = list.iter().map(String::as_str).collect();
    let mut inst = loaded(&names);
    for _ in 0..3 {
        let page = inst.current_page;
        let can_go_on = next_in_bounds(page, inst.total_pages());
        inst.update(Message::NextPage);
        assert_eq!(can_go_on, inst.current_page != page);
    }
    for _ in 0..3 {
        let page = inst.current_page;
        let can_go_back = prev_in_bounds(page);
        inst.update(Message::PrevPage);
        assert_eq!(can_go_back, inst.current_page != page);
    }
}

#[test]
fn channel_buttons_mark_the_active_one() {
    assert_eq!(channel_button(Channel::Production, Channel::Production), (Text::Production, true));
    assert_eq!(channel_button(Channel::Production, Channel::Development), (Text::Development, false));
}

#[test]
fn next_then_previous_returns() {
    let list: Vec<String> = (0..35).map(|i| format!("2026.3.{i}")).collect();
    let names: Vec<&str> = list.iter().map(String::as_str).collect();
    let mut inst = loaded(&names);
    inst.update(Message::NextPage);
    assert_eq!(inst.current_page, 1);
    inst.update(Message::NextPage);
    inst.update(Message::PrevPage);
    assert_eq!(inst.current_page, 1);
}

#[test]
fn download_keeps_the_release_chosen_when_it_started() {
    let mut inst = loaded(&["2026.08.11", "2026.08.04"]);
    inst.update(Message::TagSelected(0));
    assert!(matches!(inst.update(Message::DownloadClicked), Action::PrepareDownload { .. }));
    inst.update(Message::TagSelected(1));
    match inst.update(Message::DownloadPrepared(Prepared::Fresh {
        image_path: "/cache/prod/caustic-os-2026.08.11.img".to_string(),
        partial_path: "/cache/prod/caustic-os-2026.08.11.img.partial".to_string(),
    })) {
        Action::Download { registry, tag, .. } => {
            assert_eq!(registry, REGISTRY_PROD);
            assert_eq!(tag, "2026.08.11");
        }
        _ => panic!("the release chosen at the click is downloaded"),
    }
}
