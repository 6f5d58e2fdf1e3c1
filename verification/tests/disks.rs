use caustic::disk::{build_description, is_skip_device, list_disks, Device, Disk};
use caustic::disk_windows::{
    is_install_target, list_disks as list_windows_disks, list_from_powershell, WinDiskEntry,
};

#[test]
fn usb_disk_is_target() {
    assert!(is_install_target(false, 16_000_000_000, true));
}

#[test]
fn internal_sata_disk_is_dropped() {
    assert!(!is_install_target(false, 500_000_000_000, false));
}

#[test]
fn system_disk_is_dropped_even_if_removable() {
    assert!(!is_install_target(true, 16_000_000_000, true));
}

#[test]
fn zero_size_disk_is_dropped() {
    assert!(!is_install_target(false, 0, true));
}

fn device(name: &str, size: &str, rm: &str, tran: Option<&str>, kind: &str) -> Device {
    Device {
        name: name.to_string(),
        size: size.to_string(),
        rm: rm.to_string(),
        hotplug: "0".to_string(),
        model: Some("Ultra".to_string()),
        vendor: Some("SanDisk ".to_string()),
        tran: tran.map(str::to_string),
        kind: Some(kind.to_string()),
        subsystems: Some("block:scsi:usb:pci".to_string()),
    }
}

#[test]
fn size_gb_rounds_down() {
    let d = Disk {
        device: "/dev/sda".to_string(),
        description: "x".to_string(),
        size: 64_999_999_999,
        is_removable: true,
        bus_type: "USB".to_string(),
    };
    assert_eq!(d.size_gb(), 64);
}

#[test]
fn skip_devices_by_name() {
    assert!(is_skip_device("/dev/loop0"));
    assert!(is_skip_device("ram1"));
    assert!(is_skip_device("/dev/sr0"));
    assert!(is_skip_device("/dev/zram0"));
    assert!(!is_skip_device("/dev/sda"));
    assert!(!is_skip_device("/dev/mmcblk0"));
}

#[test]
fn description_joins_vendor_and_model() {
    assert_eq!(build_description(" SanDisk ", "Ultra", "/dev/sda"), "SanDisk Ultra");
    assert_eq!(build_description("", "Ultra", "/dev/sda"), "Ultra");
    assert_eq!(build_description(" ", "", "/dev/sdb"), "sdb");
}

#[test]
fn lsblk_list_keeps_removable_targets_first() {
    let mut fixed_disk = device("/dev/sdb", "500000000000", "0", Some("sata"), "disk");
    fixed_disk.hotplug = "0".to_string();
    let devices = vec![
        fixed_disk,
        device("/dev/sda", "64000000000", "1", Some("usb"), "disk"),
        device("/dev/sda1", "1000", "1", Some("usb"), "part"),
        device("/dev/loop0", "1000", "1", None, "disk"),
        device("/dev/sdc", "0", "1", Some("usb"), "disk"),
    ];
    let disks = list_disks(&devices);
    assert_eq!(disks.len(), 1);
    assert_eq!(disks[0].device, "/dev/sda");
    assert_eq!(disks[0].bus_type, "USB");
    assert_eq!(disks[0].description, "SanDisk Ultra");
    assert_eq!(disks[0].size, 64_000_000_000);
    assert!(disks[0].is_removable);
}

#[test]
fn lsblk_virtual_disks_are_dropped() {
    let mut d = device("/dev/vda", "1000", "1", None, "disk");
    d.subsystems = Some("block".to_string());
    assert!(list_disks(&vec![d]).is_empty());
}

fn entry(id: &str, name: &str, size: u64, bus: &str, system: bool) -> WinDiskEntry {
    WinDiskEntry {
        device_id: Some(id.to_string()),
        friendly_name: Some(name.to_string()),
        size: Some(size),
        bus_type: Some(bus.to_string()),
        is_system: Some(system),
    }
}

#[test]
fn windows_list_keeps_removable_buses_only() {
    let entries = vec![
        entry("0", "Samsung SSD", 500_000_000_000, "NVMe", true),
        entry("1", "SanDisk Ultra", 64_000_000_000, "USB", false),
        entry("2", "Card Reader", 0, "SD", false),
        entry("3", "SD Card", 32_000_000_000, "SD", false),
        WinDiskEntry {
            device_id: None,
            friendly_name: None,
            size: None,
            bus_type: None,
            is_system: None,
        },
    ];
    let disks = list_windows_disks(&entries);
    assert_eq!(disks.len(), 2);
    assert_eq!(disks[0].device, "\\\\.\\PhysicalDrive1");
    assert_eq!(disks[0].description, "SanDisk Ultra");
    assert_eq!(disks[1].device, "\\\\.\\PhysicalDrive3");
    assert_eq!(disks[1].bus_type, "SD");
}

#[test]
fn powershell_output_is_read_as_a_disk_list() {
    let out = br#"[{"DeviceId":"0","FriendlyName":"Samsung SSD","Size":500000000000,"BusType":"NVMe","IsSystem":true},{"DeviceId":"2","FriendlyName":"SanDisk Ultra","Size":64000000000,"BusType":"USB","IsSystem":false}]"#;
    let disks = list_from_powershell(out);
    assert_eq!(disks.len(), 1);
    assert_eq!(disks[0].device, "\\\\.\\PhysicalDrive2");
    assert_eq!(disks[0].description, "SanDisk Ultra");
    assert_eq!(disks[0].size, 64_000_000_000);
    assert_eq!(disks[0].bus_type, "USB");
    assert!(disks[0].is_removable);
}

#[test]
fn powershell_single_object_is_a_list_of_one() {
    let out = br#"{"DeviceId":"1","FriendlyName":"SD Card","Size":32000000000,"BusType":"SD","IsSystem":false}"#;
    let disks = list_from_powershell(out);
    assert_eq!(disks.len(), 1);
    assert_eq!(disks[0].device, "\\\\.\\PhysicalDrive1");
    assert_eq!(disks[0].bus_type, "SD");
}

#[test]
fn powershell_output_that_is_not_json_lists_nothing() {
    assert!(list_from_powershell(b"Get-PhysicalDisk : access denied").is_empty());
    assert!(list_from_powershell(b"").is_empty());
    let numeric_id = br#"{"DeviceId":3,"FriendlyName":"USB","Size":8,"BusType":"USB","IsSystem":false}"#;
    assert!(list_from_powershell(numeric_id).is_empty());
}
