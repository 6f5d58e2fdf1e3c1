//! Decision logic of the Caustic OS installer and over-the-air updater:
//! the installer's state machine and what its window shows, release
//! selection, disk filtering, flashing helpers, checksum, signature and
//! manifest handling, A/B slot selection and the order of an update, and
//! the small text parsers these rely on.

pub mod app;
pub mod apply_flow;
pub mod cosign;
pub mod digest;
pub mod disk;
pub mod disk_macos;
pub mod disk_windows;
pub mod download;
pub mod flash;
pub mod flash_linux;
pub mod flash_windows;
pub mod github;
pub mod i18n;
pub mod installer;
pub mod installer_view;
pub mod installer_core;
pub mod oci;
pub mod ota;
pub mod ota_flow;
pub mod slot;
pub mod state;
pub mod systemctl;
pub mod tag_metas;
pub mod text;
pub mod usbboot;
pub mod verify;
pub mod widgets;
