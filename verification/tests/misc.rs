use caustic::app::Channel;
use caustic::disk_macos::{disk_names, info, order_disks, replace_str};
use caustic::disk::Disk;
use caustic::github::{releases_from, Error as GithubError, GithubAsset, GithubRelease};
use caustic::i18n::{t, Lang, Text};
use caustic::installer_core::{expect_image, image_layer, Error as CoreError, ManifestKind};
use caustic::oci::{parse_ref, Error as OciError, ImageManifest, LayerDescriptor};
use caustic::usbboot::{
    binary_name, build_elevated_command, failure_message, should_retry_elevated, Error as UsbError,
};
use caustic::widgets::{next_in_bounds, pager_label, prev_in_bounds};

#[test]
fn prev_in_bounds_at_boundaries() {
    assert!(!prev_in_bounds(0));
    assert!(prev_in_bounds(1));
    assert!(prev_in_bounds(5));
}

#[test]
fn next_in_bounds_at_boundaries() {
    assert!(next_in_bounds(0, 3));
    assert!(next_in_bounds(1, 3));
    assert!(!next_in_bounds(2, 3));
    assert!(!next_in_bounds(3, 3));
    assert!(!next_in_bounds(0, 0));
}

#[test]
fn prev_in_bounds_handles_single_page() {
    assert!(!prev_in_bounds(0));
}

#[test]
fn pager_label_counts_from_one() {
    assert_eq!(pager_label(0, 3), "1 / 3");
    assert_eq!(pager_label(2, 3), "3 / 3");
    assert_eq!(pager_label(0, 0), "1 / 1");
}

#[test]
fn channels_name_their_registries() {
    assert_eq!(Channel::Production.registry(), "ghcr.io/stargrid-systems/caustic-os");
    assert_eq!(Channel::Development.registry(), "ghcr.io/stargrid-systems/caustic-os-dev");
    assert_eq!(Channel::Production.slug(), "prod");
    assert_eq!(Channel::Development.slug(), "dev");
}

#[test]
fn texts_in_both_languages() {
    assert_eq!(t(Lang::En, Text::Loading), "Loading available releases...");
    assert_eq!(t(Lang::De, Text::Error), "Fehler");
    assert_eq!(t(Lang::De, Text::Close), "Schließen");
    assert!(t(Lang::En, Text::RpibootNotFound).starts_with("rpiboot was not found"));
}

fn vars(v: &[Option<&str>]) -> Vec<Option<String>> {
    v.iter().map(|o| o.map(str::to_string)).collect()
}

#[test]
fn language_follows_locale_variables() {
    assert_eq!(Lang::detect(&vars(&[None, None, Some("de_DE.UTF-8")])), Lang::De);
    assert_eq!(Lang::detect(&vars(&[Some("en_US.UTF-8"), None, Some("DE_AT")])), Lang::De);
    assert_eq!(Lang::detect(&vars(&[Some("en_US.UTF-8"), None, None])), Lang::En);
    assert_eq!(Lang::detect(&vars(&[None, None, None])), Lang::En);
    assert_eq!(Lang::detect(&vars(&[Some("d")])), Lang::En);
}

#[test]
fn rpiboot_binary_and_errors() {
    assert_eq!(binary_name(true), "rpiboot.exe");
    assert_eq!(binary_name(false), "rpiboot");
    assert_eq!(UsbError::NotFound.message(), "rpiboot not found");
    assert_eq!(UsbError::NoElevator.message(), "pkexec is required for privilege escalation");
    let e = failure_message(String::new(), "out".to_string());
    assert_eq!(e.message(), "rpiboot failed: out");
    let e = failure_message("err".to_string(), "out".to_string());
    assert_eq!(e.message(), "rpiboot failed: err");
}

#[test]
fn rpiboot_retries_elevated_on_permission_errors() {
    let denied = UsbError::ExecutionFailed("libusb: Permission Denied".to_string());
    assert!(should_retry_elevated(false, &denied));
    assert!(!should_retry_elevated(true, &denied));
    let other = UsbError::ExecutionFailed("device not found".to_string());
    assert!(!should_retry_elevated(false, &other));
    assert!(should_retry_elevated(false, &UsbError::ExecutionFailed("LIBUSB_ERROR_ACCESS".to_string())));
    assert!(!should_retry_elevated(false, &UsbError::NotFound));
    let cmd = build_elevated_command("/usr/bin/rpiboot", true).expect("pkexec present");
    assert_eq!(cmd.program, "pkexec");
    assert_eq!(cmd.args, vec!["/usr/bin/rpiboot"]);
    assert!(matches!(build_elevated_command("/usr/bin/rpiboot", false), Err(UsbError::NoElevator)));
}

fn asset(name: &str) -> GithubAsset {
    GithubAsset {
        name: name.to_string(),
        browser_download_url: format!("https://example.com/{name}"),
    }
}

#[test]
fn github_releases_need_an_image() {
    let list = vec![
        GithubRelease {
            tag_name: "v2".to_string(),
            published_at: "2026-08-11T10:00:00Z".to_string(),
            assets: vec![asset("SHA256SUMS"), asset("caustic.img.xz")],
        },
        GithubRelease {
            tag_name: "v1".to_string(),
            published_at: "2026-07-01T10:00:00Z".to_string(),
            assets: vec![asset("notes.txt")],
        },
        GithubRelease {
            tag_name: "v0".to_string(),
            published_at: "2026-06-01".to_string(),
            assets: vec![asset("old.img.xz")],
        },
    ];
    let releases = releases_from(&list);
    assert_eq!(releases.len(), 2);
    assert_eq!(releases[0].tag, "v2");
    assert_eq!(releases[0].date, "2026-08-11");
    assert_eq!(releases[0].image_url, "https://example.com/caustic.img.xz");
    assert_eq!(releases[0].image_checksum.as_deref(), Some("https://example.com/SHA256SUMS"));
    assert_eq!(releases[1].date, "2026-06-01");
    assert_eq!(releases[1].image_checksum, None);
    assert_eq!(GithubError::api_status("404 Not Found").message(), "GitHub API returned 404 Not Found");
}

#[test]
fn oci_error_messages() {
    assert_eq!(OciError::Parse("x".to_string()).message(), "Failed to parse reference: x");
    assert_eq!(OciError::Fetch("x".to_string()).message(), "Registry error: x");
    assert_eq!(OciError::NoImageLayer.message(), "Manifest has no .img layer");
    assert_eq!(OciError::MissingSha256Sums.message(), "SHA256SUMS file is missing");
    assert_eq!(OciError::ChecksumMismatch("a.img".to_string()).message(), "Checksum mismatch for a.img");
    assert_eq!(OciError::Other("boom".to_string()).message(), "boom");
    assert_eq!(CoreError::UnexpectedManifestType.message(), "Expected image manifest, got image index");
    assert_eq!(OciError::UnexpectedManifestType.message(), "Expected image manifest, got image index");
    assert_eq!(OciError::Io("disk full".to_string()).message(), "I/O error: disk full");
    assert_eq!(
        OciError::MissingAnnotation("org.opencontainers.image.version".to_string()).message(),
        "Manifest missing org.opencontainers.image.version annotation"
    );
    assert_eq!(CoreError::Parse("x".to_string()).message(), "Failed to parse reference: x");
    assert_eq!(CoreError::Fetch("x".to_string()).message(), "Registry error: x");
    assert_eq!(CoreError::Io("x".to_string()).message(), "I/O error: x");
    assert_eq!(CoreError::NoImageLayer.message(), "Manifest has no .img layer");
}

#[test]
fn references_are_parsed_by_the_registry_client() {
    let r = parse_ref("ghcr.io/stargrid-systems/caustic-os", "2026.08.11").expect("valid");
    assert_eq!(r.registry(), "ghcr.io");
    assert_eq!(r.repository(), "stargrid-systems/caustic-os");
    assert_eq!(r.tag(), Some("2026.08.11"));
    assert!(matches!(parse_ref("ghcr.io/UPPER/Case", "bad tag"), Err(OciError::Parse(_))));
}

fn titled(title: &str) -> LayerDescriptor {
    LayerDescriptor {
        media_type: "application/octet-stream".to_string(),
        digest: "sha256:00".to_string(),
        size: 1,
        urls: None,
        annotations: Some(vec![("org.opencontainers.image.title".to_string(), title.to_string())]),
    }
}

#[test]
fn image_layer_and_manifest_kind() {
    let m = ImageManifest { layers: vec![titled("boot.tar"), titled("caustic.img")], annotations: None };
    let layer = image_layer(&m).expect("an image layer");
    assert_eq!(layer.annotations.as_ref().unwrap()[0].1, "caustic.img");
    let none = ImageManifest { layers: vec![titled("boot.tar")], annotations: None };
    assert!(matches!(image_layer(&none), Err(CoreError::NoImageLayer)));
    assert!(matches!(expect_image(ManifestKind::ImageIndex), Err(CoreError::UnexpectedManifestType)));
    assert!(expect_image(ManifestKind::Image(none)).is_ok());
}

const PLIST: &str = r#"<?xml version="1.0" encoding="UTF-8"?>
<!DOCTYPE plist PUBLIC "-//Apple//DTD PLIST 1.0//EN" "http://www.apple.com/DTDs/PropertyList-1.0.dtd">
<plist version="1.0">
<dict>
  <key>BusProtocol</key><string>USB</string>
  <key>Ejectable</key><true/>
  <key>Internal</key><false/>
  <key>MediaName</key><string>SanDisk Ultra</string>
  <key>Removable</key><true/>
  <key>TotalSize</key><integer>64000000000</integer>
</dict>
</plist>
"#;

#[test]
fn diskutil_answers_become_disks() {
    let d = info("/dev/disk4", PLIST.as_bytes()).expect("a removable disk");
    assert_eq!(d.device, "/dev/rdisk4");
    assert_eq!(d.description, "SanDisk Ultra");
    assert_eq!(d.size, 64_000_000_000);
    assert!(d.is_removable);
    assert_eq!(d.bus_type, "USB");
    let internal = PLIST
        .replace("<key>Internal</key><false/>", "<key>Internal</key><true/>")
        .replace("<key>Removable</key><true/>", "<key>Removable</key><false/>")
        .replace("<key>Ejectable</key><true/>", "<key>Ejectable</key><false/>");
    assert!(info("/dev/disk0", internal.as_bytes()).is_none());
    assert!(info("/dev/disk4", b"not a plist").is_none());
}

#[test]
fn replace_works_left_to_right() {
    assert_eq!(replace_str("/dev/disk2", "/dev/disk", "/dev/rdisk"), "/dev/rdisk2");
    assert_eq!(replace_str("aaa", "aa", "b"), "ba");
    assert_eq!(replace_str("x", "y", "z"), "x");
}

#[test]
fn dev_names_with_an_s_are_never_whole_disks() {
    let names: Vec<String> = ["disk1", "disk0", "disk0s1", "null"].iter().map(|s| s.to_string()).collect();
    assert!(disk_names(&names).is_empty());
}

#[test]
fn macos_disks_removable_first() {
    let mk = |dev: &str, removable: bool| Disk {
        device: dev.to_string(),
        description: dev.to_string(),
        size: 1,
        is_removable: removable,
        bus_type: "USB".to_string(),
    };
    let ordered = order_disks(vec![mk("a", false), mk("b", true), mk("c", false), mk("d", true)]);
    let devices: Vec<&str> = ordered.iter().map(|d| d.device.as_str()).collect();
    assert_eq!(devices, vec!["b", "d", "a", "c"]);
}
