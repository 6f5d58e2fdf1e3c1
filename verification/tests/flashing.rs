use caustic::flash::{flash_route, FlashRoute, OpenOutcome};
use caustic::flash_linux::{
    elevated_flash_args, missing_binaries, missing_message, parse_child_devices,
    parse_dd_progress, DdMonitor, ELEVATED_FLASH_SCRIPT,
};
use caustic::flash_windows::{
    build_privileged_args, elevated_exit_outcome, params_string, parse_physical_drive_number,
    parse_progress_file, privileged_drive_number, progress_file_name, quote_arg,
    run_privileged_child, volume_extents_on_drive,
};

#[test]
fn excludes_target_and_prefixes_dev() {
    let out = "mmcblk0\nmmcblk0p1\nmmcblk0p2\n";
    let children = parse_child_devices(out, "/dev/mmcblk0");
    assert_eq!(
        children,
        vec!["/dev/mmcblk0p1".to_string(), "/dev/mmcblk0p2".to_string()]
    );
}

#[test]
fn ignores_blank_lines() {
    let out = "\nsda\n\nsda1\nsda2\n";
    let children = parse_child_devices(out, "/dev/sda");
    assert_eq!(children, vec!["/dev/sda1".to_string(), "/dev/sda2".to_string()]);
}

#[test]
fn handles_already_prefixed_input() {
    let out = "/dev/sdb\n/dev/sdb1\n";
    let children = parse_child_devices(out, "/dev/sdb");
    assert_eq!(children, vec!["/dev/sdb1".to_string()]);
}

#[test]
fn empty_when_only_target() {
    assert!(parse_child_devices("loop0\n", "/dev/loop0").is_empty());
}

#[test]
fn missing_binaries_reports_only_absent() {
    let missing = missing_binaries(|n| n != "wipefs");
    assert_eq!(missing, vec!["wipefs"]);
}

#[test]
fn missing_binaries_none_when_all_present() {
    assert!(missing_binaries(|_| true).is_empty());
}

#[test]
fn missing_binaries_lists_in_order() {
    let missing = missing_binaries(|n| n == "sh" || n == "umount");
    assert_eq!(missing, vec!["pkexec", "wipefs", "blockdev", "dd"]);
    assert_eq!(
        missing_message(&missing).message(),
        "missing required binaries: pkexec, wipefs, blockdev, dd"
    );
}

#[test]
fn dd_progress_lines_are_read() {
    assert_eq!(
        parse_dd_progress("4194304 bytes (4.2 MB, 4.0 MiB) copied, 0.01 s, 400 MB/s"),
        Some(4_194_304)
    );
    assert_eq!(parse_dd_progress("dd: error writing"), None);
    assert_eq!(parse_dd_progress(""), None);
}

#[test]
fn dd_monitor_keeps_last_other_line() {
    let mut m = DdMonitor::new();
    assert_eq!(m.on_output("  1048576 bytes copied \r"), Some(1_048_576));
    assert_eq!(m.on_output("   "), None);
    assert_eq!(m.on_output("dd: /dev/sdz: No space left on device\r"), None);
    assert_eq!(m.last_output, "dd: /dev/sdz: No space left on device");
    assert_eq!(
        m.finish(false, "exit status: 1").unwrap_err().message(),
        "dd: /dev/sdz: No space left on device"
    );
}

#[test]
fn dd_monitor_reports_status_without_output() {
    let m = DdMonitor::new();
    assert_eq!(
        m.finish(false, "exit status: 1").unwrap_err().message(),
        "dd exited with status exit status: 1"
    );
    assert!(DdMonitor::new().finish(true, "exit status: 0").is_ok());
}

#[test]
fn elevated_args_put_partitions_last() {
    let args = elevated_flash_args(
        "/tmp/os.img",
        "/dev/sda",
        &vec!["/dev/sda1".to_string(), "/dev/sda2".to_string()],
    );
    assert_eq!(
        args,
        vec![
            "sh".to_string(),
            "-c".to_string(),
            ELEVATED_FLASH_SCRIPT.to_string(),
            "caustic-flash".to_string(),
            "/tmp/os.img".to_string(),
            "/dev/sda".to_string(),
            "/dev/sda1".to_string(),
            "/dev/sda2".to_string(),
        ]
    );
    assert!(ELEVATED_FLASH_SCRIPT.contains("dd if=\"$img\" of=\"$dev\" bs=4M conv=fsync status=progress"));
}

#[test]
fn flash_route_follows_open_outcome() {
    assert!(matches!(flash_route(OpenOutcome::Opened), FlashRoute::Direct));
    assert!(matches!(flash_route(OpenOutcome::PermissionDenied), FlashRoute::Elevated));
    match flash_route(OpenOutcome::Failed("No such device".to_string())) {
        FlashRoute::Fail(e) => assert_eq!(e.message(), "No such device"),
        _ => panic!("expected a failure"),
    }
}

#[test]
fn build_privileged_args_layout() {
    let args = build_privileged_args("C:/images/os.img", r"\\.\PhysicalDrive2", "C:/tmp/p.progress");
    assert_eq!(
        args,
        vec![
            "--privileged-flash".to_string(),
            "C:/images/os.img".to_string(),
            r"\\.\PhysicalDrive2".to_string(),
            "C:/tmp/p.progress".to_string(),
        ]
    );
}

fn progress_value(p: &Option<String>) -> Option<f32> {
    p.as_deref().and_then(|t| t.parse::<f32>().ok())
}

#[test]
fn parse_progress_file_keeps_latest_progress() {
    let state = parse_progress_file("progress 0.5\nprogress 0.75\n");
    assert_eq!(progress_value(&state.progress), Some(0.75));
    assert!(!state.done);
    assert!(state.error.is_none());
}

#[test]
fn parse_progress_file_done() {
    let state = parse_progress_file("progress 1\ndone\n");
    assert_eq!(progress_value(&state.progress), Some(1.0));
    assert!(state.done);
}

#[test]
fn parse_progress_file_error() {
    let state = parse_progress_file("progress 0.3\nerror access denied\n");
    assert_eq!(state.error.as_deref(), Some("access denied"));
    assert!(!state.done);
}

#[test]
fn parse_progress_file_empty() {
    let state = parse_progress_file("");
    assert!(state.progress.is_none());
    assert!(!state.done);
    assert!(state.error.is_none());
}

#[test]
fn physical_drive_numbers() {
    assert_eq!(parse_physical_drive_number(r"\\.\PhysicalDrive2"), Some(2));
    assert_eq!(parse_physical_drive_number(r"\\.\PhysicalDrive"), None);
    assert_eq!(parse_physical_drive_number("/dev/sda"), None);
    assert_eq!(privileged_drive_number(r"\\.\PhysicalDrive7"), Ok(7));
    assert_eq!(
        privileged_drive_number("/dev/sda"),
        Err("unsupported device path '/dev/sda'".to_string())
    );
}

#[test]
fn command_line_quoting() {
    assert_eq!(quote_arg("plain"), "plain");
    assert_eq!(quote_arg("C:/My Images/os.img"), "\"C:/My Images/os.img\"");
    assert_eq!(quote_arg("say \"hi\""), "\"say \\\"hi\\\"\"");
    assert_eq!(
        params_string(&vec!["--privileged-flash".to_string(), "a b".to_string()]),
        "--privileged-flash \"a b\""
    );
}

#[test]
fn privileged_child_exit_codes() {
    assert_eq!(run_privileged_child(Ok(())), (0, None));
    assert_eq!(
        run_privileged_child(Err("failed writing to device".to_string())),
        (1, Some("error failed writing to device".to_string()))
    );
}

#[test]
fn progress_file_is_named_by_process() {
    assert_eq!(progress_file_name(4242), "caustic-flash-4242.progress");
}

#[test]
fn volume_extents_match_drive() {
    let numbers = vec![3, 1, 2, 0, 0, 0, 0, 0, 0, 0, 0, 0, 0, 0, 0, 0];
    assert!(volume_extents_on_drive(&numbers, 3, 2));
    assert!(!volume_extents_on_drive(&numbers, 2, 2));
    assert!(!volume_extents_on_drive(&numbers, 0, 3));
}

#[test]
fn elevated_exit_outcomes() {
    assert!(elevated_exit_outcome(0, None).is_ok());
    assert_eq!(
        elevated_exit_outcome(1, Some("progress 0.2\nerror cannot open drive\n".to_string())),
        Err("cannot open drive".to_string())
    );
    assert_eq!(
        elevated_exit_outcome(5, Some("progress 0.2\n".to_string())),
        Err("Elevated process exited with code 5".to_string())
    );
    assert_eq!(
        elevated_exit_outcome(5, None),
        Err("Elevated process exited with code 5".to_string())
    );
}
