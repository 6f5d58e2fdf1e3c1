use caustic::oci::LayerDescriptor;
use caustic::ota::{
    check_capacity, check_report, layer_file_name, needs_update, parse_device_size,
    verify_boot_healthy,
};
use caustic::ota_flow::{UpdateCommand, UpdateEvent, UpdateFlow, UpdatePhase};
use caustic::slot::{
    cmdline_file_name, dd_args, decode_partition, find_file, inactive_slot, is_cmdline_source,
    trigger_tryboot, FindError, PartitionError, SlotError,
};
use caustic::state::State;
use caustic::systemctl::SystemState;

#[test]
fn inactive_slot_is_the_other_one() {
    let b = inactive_slot(1).expect("slot 1 is known");
    assert_eq!(b.number, 2);
    assert_eq!(b.usr_dev, "/dev/mmcblk0p6");
    assert_eq!(b.boot_mount, "/boot/b");
    assert_eq!(cmdline_file_name(&b), "cmdline-b.txt");
    let a = inactive_slot(2).expect("slot 2 is known");
    assert_eq!(a.number, 1);
    assert_eq!(a.usr_dev, "/dev/mmcblk0p5");
    assert_eq!(a.boot_mount, "/boot/a");
    assert_eq!(cmdline_file_name(&a), "cmdline-a.txt");
    assert_eq!(inactive_slot(inactive_slot(1).unwrap().number).unwrap().number, 1);
}

#[test]
fn unexpected_partition_is_refused() {
    match inactive_slot(3) {
        Err(e) => {
            assert_eq!(e, SlotError::UnexpectedPartition(3));
            assert_eq!(e.message(), "unexpected active partition: 3");
        }
        Ok(_) => panic!("partition 3 has no slot"),
    }
}

#[test]
fn partition_data_forms() {
    assert_eq!(decode_partition(&[0, 0, 0, 2]).unwrap(), 2);
    assert_eq!(decode_partition(&[0, 0, 1, 0, 9]).unwrap(), 256);
    assert_eq!(decode_partition(&[1]).unwrap(), 1);
    assert_eq!(decode_partition(b"2\n").unwrap(), 2);
    assert!(matches!(decode_partition(b"x\n"), Err(PartitionError::NotANumber(t)) if t == "x"));
    assert!(matches!(decode_partition(&[0xff, 0xfe]), Err(PartitionError::BadLength(2))));
    assert!(matches!(decode_partition(&[]), Err(PartitionError::NotANumber(t)) if t.is_empty()));
}

fn names(v: &[&str]) -> Vec<Option<String>> {
    v.iter().map(|s| Some(s.to_string())).collect()
}

#[test]
fn staged_files_are_found_by_suffix() {
    let staged = names(&["caustic.usr", "caustic_boot.tar", "SHA256SUMS"]);
    assert_eq!(find_file(&staged, ".usr"), Ok(0));
    assert_eq!(find_file(&staged, "_boot.tar"), Ok(1));
    assert_eq!(find_file(&staged, ".img"), Err(FindError::NoneFound));
    assert_eq!(find_file(&names(&["a.usr", "b.usr"]), ".usr"), Err(FindError::Multiple));
    assert_eq!(find_file(&vec![None, Some("x.usr".to_string())], ".usr"), Ok(1));
}

#[test]
fn cmdline_sources_are_not_copied() {
    assert!(is_cmdline_source(&Some("cmdline-a.txt".to_string())));
    assert!(!is_cmdline_source(&Some("config.txt".to_string())));
    assert!(!is_cmdline_source(&None));
}

#[test]
fn dd_and_reboot_commands() {
    assert_eq!(
        dd_args("/var/lib/caustic-ota/staging/caustic.usr", "/dev/mmcblk0p6"),
        vec![
            "if=/var/lib/caustic-ota/staging/caustic.usr",
            "of=/dev/mmcblk0p6",
            "bs=128M",
            "conv=fsync"
        ]
    );
    let reboot = trigger_tryboot();
    assert_eq!(reboot.program, "reboot");
    assert_eq!(reboot.args, vec!["0 tryboot"]);
}

#[test]
fn update_due_only_for_other_version() {
    assert!(needs_update("1.2.3", ""));
    assert!(needs_update("1.2.4", "1.2.3"));
    assert!(!needs_update("1.2.3", "1.2.3"));
    assert_eq!(check_report("1.2.3", "1.2.3"), "up-to-date");
    assert_eq!(check_report("1.2.4", "1.2.3"), "update-available 1.2.4");
}

#[test]
fn boot_health() {
    assert!(verify_boot_healthy("running\n").is_ok());
    assert!(verify_boot_healthy("degraded").is_ok());
    assert_eq!(
        verify_boot_healthy(" starting \n"),
        Err("current boot is unhealthy (starting); refusing to update (use --force to override)".to_string())
    );
}

#[test]
fn system_states_are_read() {
    assert_eq!(SystemState::parse("running\n"), Ok(SystemState::Running));
    assert_eq!(SystemState::parse(" degraded"), Ok(SystemState::Degraded));
    assert_eq!(SystemState::parse("offline"), Ok(SystemState::Offline));
    assert_eq!(
        SystemState::parse("weird"),
        Err("unrecognized system state: weird".to_string())
    );
    let parsed: Result<SystemState, String> = "maintenance".parse();
    assert_eq!(parsed, Ok(SystemState::Maintenance));
}

fn titled(title: Option<&str>) -> LayerDescriptor {
    LayerDescriptor {
        media_type: "application/octet-stream".to_string(),
        digest: "sha256:00".to_string(),
        size: 1,
        urls: None,
        annotations: title.map(|t| vec![("org.opencontainers.image.title".to_string(), t.to_string())]),
    }
}

#[test]
fn layer_names_must_stay_in_staging() {
    assert_eq!(layer_file_name(&titled(Some("caustic.usr")), '/'), Ok("caustic.usr".to_string()));
    assert_eq!(
        layer_file_name(&titled(None), '/'),
        Err("layer missing title annotation".to_string())
    );
    assert_eq!(
        layer_file_name(&titled(Some("../etc/passwd")), '/'),
        Err("layer title contains unsafe path characters: ../etc/passwd".to_string())
    );
    assert_eq!(
        layer_file_name(&titled(Some("a\\b")), '\\'),
        Err("layer title contains unsafe path characters: a\\b".to_string())
    );
    assert!(layer_file_name(&titled(Some("a..b")), '/').is_err());
}

#[test]
fn capacity_and_device_size() {
    assert!(check_capacity(10, 10, "/dev/sda").is_ok());
    assert_eq!(
        check_capacity(11, 10, "/dev/sda"),
        Err("image (11 bytes) exceeds /dev/sda capacity (10 bytes)".to_string())
    );
    assert_eq!(parse_device_size("32010928128\n"), Ok(32_010_928_128));
    assert_eq!(parse_device_size("n/a"), Err("parse size: n/a".to_string()));
}

#[test]
fn missing_state_reads_as_empty() {
    assert_eq!(State::read_or_default(None).current_version, "");
    let s = State { current_version: "1.0".to_string() };
    assert_eq!(State::read_or_default(Some(s)).current_version, "1.0");
}

fn is_done_ok(c: &UpdateCommand) -> bool {
    matches!(c, UpdateCommand::Done(Ok(())))
}

#[test]
fn update_runs_in_order() {
    let mut flow = UpdateFlow::new(false);
    assert!(matches!(flow.step(UpdateEvent::Begin), UpdateCommand::CheckHealth));
    assert!(matches!(flow.step(UpdateEvent::Health("running\n".to_string())), UpdateCommand::FetchManifest));
    assert!(matches!(flow.step(UpdateEvent::Manifest(Ok("1.1".to_string()))), UpdateCommand::ReadState));
    let state = State { current_version: "1.0".to_string() };
    assert!(matches!(flow.step(UpdateEvent::CurrentState(Some(state))), UpdateCommand::Stage));
    assert!(matches!(flow.step(UpdateEvent::Staged(Ok(()))), UpdateCommand::Apply));
    match flow.step(UpdateEvent::Applied(Ok(()))) {
        UpdateCommand::WriteState { version } => assert_eq!(version, "1.1"),
        _ => panic!("the version is remembered next"),
    }
    assert!(matches!(flow.step(UpdateEvent::StateWritten(Ok(()))), UpdateCommand::Reboot));
    assert!(is_done_ok(&flow.step(UpdateEvent::Rebooted(Ok(())))));
    assert!(matches!(flow.phase, UpdatePhase::Finished));
    assert!(matches!(flow.step(UpdateEvent::Begin), UpdateCommand::Wait));
}

#[test]
fn update_stops_when_current() {
    let mut flow = UpdateFlow::new(true);
    assert!(matches!(flow.step(UpdateEvent::Begin), UpdateCommand::FetchManifest));
    flow.step(UpdateEvent::Manifest(Ok("1.0".to_string())));
    let state = State { current_version: "1.0".to_string() };
    assert_eq!(check_report("1.0", &state.current_version), "up-to-date");
    assert!(is_done_ok(&flow.step(UpdateEvent::CurrentState(Some(state)))));
}

#[test]
fn update_refuses_unhealthy_boot() {
    let mut flow = UpdateFlow::new(false);
    flow.step(UpdateEvent::Begin);
    match flow.step(UpdateEvent::Health("maintenance".to_string())) {
        UpdateCommand::Done(Err(m)) => assert_eq!(
            m,
            "current boot is unhealthy (maintenance); refusing to update (use --force to override)"
        ),
        _ => panic!("an unhealthy boot ends the update"),
    }
}

#[test]
fn update_failures_end_it() {
    let mut flow = UpdateFlow::new(true);
    flow.step(UpdateEvent::Begin);
    flow.step(UpdateEvent::Manifest(Ok("2.0".to_string())));
    flow.step(UpdateEvent::CurrentState(None));
    match flow.step(UpdateEvent::Staged(Err("verify checksums: mismatch".to_string()))) {
        UpdateCommand::Done(Err(m)) => assert_eq!(m, "verify checksums: mismatch"),
        _ => panic!("a failed staging ends the update"),
    }
    let mut flow = UpdateFlow::new(true);
    flow.step(UpdateEvent::Begin);
    assert!(matches!(
        flow.step(UpdateEvent::Manifest(Err("no version".to_string()))),
        UpdateCommand::Done(Err(_))
    ));
    let mut flow = UpdateFlow::new(true);
    flow.step(UpdateEvent::Begin);
    assert!(matches!(flow.step(UpdateEvent::Staged(Ok(()))), UpdateCommand::Wait));
}
