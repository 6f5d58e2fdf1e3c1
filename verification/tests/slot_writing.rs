use caustic::apply_flow::{ApplyCommand, ApplyEvent, ApplyFailure, ApplyFlow};

fn names(v: &[&str]) -> Vec<Option<String>> {
    v.iter().map(|s| Some(s.to_string())).collect()
}

/// A flow that has read partition set A as running (slot B is written).
fn on_slot_b() -> ApplyFlow {
    let mut flow = ApplyFlow::new();
    assert!(matches!(flow.step(ApplyEvent::Begin), ApplyCommand::ReadPartition));
    assert!(matches!(
        flow.step(ApplyEvent::Partition(Ok(vec![0, 0, 0, 1]))),
        ApplyCommand::ListStaged
    ));
    flow
}

#[test]
fn slot_is_written_in_order() {
    let mut flow = on_slot_b();
    match flow.step(ApplyEvent::Staged(Ok(names(&[
        "caustic_boot.tar",
        "SHA256SUMS",
        "caustic.usr",
    ])))) {
        ApplyCommand::ExtractBoot { tar } => assert_eq!(tar, 0),
        _ => panic!("the boot archive is unpacked first"),
    }
    match flow.step(ApplyEvent::Extracted(Ok(()))) {
        ApplyCommand::WriteUsr { usr, device } => {
            assert_eq!(usr, 2);
            assert_eq!(device, "/dev/mmcblk0p6");
        }
        _ => panic!("then the usr partition is written"),
    }
    match flow.step(ApplyEvent::UsrWritten(Ok(()))) {
        ApplyCommand::CheckMount { dir } => assert_eq!(dir, "/boot/b"),
        _ => panic!("then the boot mount is checked"),
    }
    assert!(matches!(flow.step(ApplyEvent::MountChecked(true)), ApplyCommand::ListBootFiles));
    let boot = vec![
        Some("cmdline-a.txt".to_string()),
        Some("kernel.img".to_string()),
        Some("cmdline-b.txt".to_string()),
        None,
        Some("config.txt".to_string()),
    ];
    let mut copied = Vec::new();
    let mut cmd = flow.step(ApplyEvent::BootFiles(Ok(boot)));
    loop {
        match cmd {
            ApplyCommand::CopyBootFile { file, dir } => {
                assert_eq!(dir, "/boot/b");
                copied.push(file);
                cmd = flow.step(ApplyEvent::Copied(Ok(())));
            }
            ApplyCommand::CopyCmdline { source, dir } => {
                assert_eq!(source, "cmdline-b.txt");
                assert_eq!(dir, "/boot/b");
                break;
            }
            _ => panic!("only copies until the command line"),
        }
    }
    assert_eq!(copied, vec![1, 3, 4]);
    assert!(matches!(flow.step(ApplyEvent::Copied(Ok(()))), ApplyCommand::Done(Ok(()))));
    assert!(matches!(flow.step(ApplyEvent::Copied(Ok(()))), ApplyCommand::Wait));
}

#[test]
fn running_set_b_writes_slot_a() {
    let mut flow = ApplyFlow::new();
    flow.step(ApplyEvent::Begin);
    flow.step(ApplyEvent::Partition(Ok(b"2\n".to_vec())));
    flow.step(ApplyEvent::Staged(Ok(names(&["x.usr", "x_boot.tar"]))));
    match flow.step(ApplyEvent::Extracted(Ok(()))) {
        ApplyCommand::WriteUsr { usr, device } => {
            assert_eq!(usr, 0);
            assert_eq!(device, "/dev/mmcblk0p5");
        }
        _ => panic!("slot A is written"),
    }
    flow.step(ApplyEvent::UsrWritten(Ok(())));
    flow.step(ApplyEvent::MountChecked(true));
    match flow.step(ApplyEvent::BootFiles(Ok(Vec::new()))) {
        ApplyCommand::CopyCmdline { source, dir } => {
            assert_eq!(source, "cmdline-a.txt");
            assert_eq!(dir, "/boot/a");
        }
        _ => panic!("with no boot files only the command line is copied"),
    }
}

#[test]
fn partition_record_failures() {
    let mut flow = ApplyFlow::new();
    flow.step(ApplyEvent::Begin);
    assert!(matches!(
        flow.step(ApplyEvent::Partition(Ok(vec![3]))),
        ApplyCommand::Done(Err(ApplyFailure::UnexpectedPartition(3)))
    ));
    let mut flow = ApplyFlow::new();
    flow.step(ApplyEvent::Begin);
    match flow.step(ApplyEvent::Partition(Ok(b" a ".to_vec()))) {
        ApplyCommand::Done(Err(ApplyFailure::NotANumber(t))) => assert_eq!(t, "a"),
        _ => panic!("text that is not a number"),
    }
    let mut flow = ApplyFlow::new();
    flow.step(ApplyEvent::Begin);
    assert!(matches!(
        flow.step(ApplyEvent::Partition(Ok(vec![0xff, 0xfe]))),
        ApplyCommand::Done(Err(ApplyFailure::BadLength(2)))
    ));
    let mut flow = ApplyFlow::new();
    flow.step(ApplyEvent::Begin);
    match flow.step(ApplyEvent::Partition(Err("no such file".to_string()))) {
        ApplyCommand::Done(Err(ApplyFailure::Io(m))) => assert_eq!(m, "no such file"),
        _ => panic!("a read error ends it"),
    }
}

#[test]
fn staged_files_must_be_unique() {
    let mut flow = on_slot_b();
    assert!(matches!(
        flow.step(ApplyEvent::Staged(Ok(names(&["a_boot.tar"])))),
        ApplyCommand::Done(Err(ApplyFailure::NoneFound(".usr")))
    ));
    let mut flow = on_slot_b();
    assert!(matches!(
        flow.step(ApplyEvent::Staged(Ok(names(&["a.usr", "b.usr", "a_boot.tar"])))),
        ApplyCommand::Done(Err(ApplyFailure::Multiple(".usr")))
    ));
    let mut flow = on_slot_b();
    assert!(matches!(
        flow.step(ApplyEvent::Staged(Ok(names(&["a.usr"])))),
        ApplyCommand::Done(Err(ApplyFailure::NoneFound("_boot.tar")))
    ));
}

#[test]
fn unmounted_boot_partition_stops_before_copying() {
    let mut flow = on_slot_b();
    flow.step(ApplyEvent::Staged(Ok(names(&["a.usr", "a_boot.tar"]))));
    flow.step(ApplyEvent::Extracted(Ok(())));
    flow.step(ApplyEvent::UsrWritten(Ok(())));
    assert!(matches!(
        flow.step(ApplyEvent::MountChecked(false)),
        ApplyCommand::Done(Err(ApplyFailure::MountMissing("/boot/b")))
    ));
    assert!(matches!(flow.step(ApplyEvent::BootFiles(Ok(Vec::new()))), ApplyCommand::Wait));
}

#[test]
fn failed_write_ends_before_the_boot_partition() {
    let mut flow = on_slot_b();
    flow.step(ApplyEvent::Staged(Ok(names(&["a.usr", "a_boot.tar"]))));
    flow.step(ApplyEvent::Extracted(Ok(())));
    match flow.step(ApplyEvent::UsrWritten(Err("dd exited 1".to_string()))) {
        ApplyCommand::Done(Err(ApplyFailure::Io(m))) => assert_eq!(m, "dd exited 1"),
        _ => panic!("a failed write ends it"),
    }
    assert!(matches!(flow.step(ApplyEvent::MountChecked(true)), ApplyCommand::Wait));
}
