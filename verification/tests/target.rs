//! Setting targets up and taking them down.

use tcmu::target::{
    after_step, delete_scsi_device, derive_wwn, scan_scsi_address, set_max_sectors_kb,
    set_read_ahead_kb, set_scheduler, uio_name_matches, uio_size_file, wait_for_block_device,
    wait_for_uio, BlockDeviceWait, BuildError, FsOp, Step, TcmuTarget, UioWait,
};

fn text(text: &str) -> String {
    text.to_string()
}

fn needed(op: FsOp, context: &str) -> Step {
    Step { op, context: Some(text(context)) }
}

fn best_effort(op: FsOp) -> Step {
    Step { op, context: None }
}

fn write(path: &str, contents: &str) -> FsOp {
    FsOp::Write { path: text(path), contents: text(contents) }
}

fn remove_dir(path: &str) -> Step {
    best_effort(FsOp::RemoveDir { path: text(path) })
}

const DEVICE: &str = "/sys/kernel/config/target/core/user_0/mydev";
const WWN_DIR: &str = "/sys/kernel/config/target/loopback/naa.600000310ff77fca";

fn unloop() -> Vec<Step> {
    let tpgt = format!("{WWN_DIR}/tpgt_1");
    vec![
        best_effort(write(&format!("{tpgt}/enable"), "0")),
        best_effort(FsOp::RemoveFile { path: format!("{tpgt}/lun/lun_0/mydev") }),
        remove_dir(&format!("{tpgt}/lun/lun_0")),
        remove_dir(&tpgt),
        remove_dir(WWN_DIR),
    ]
}

fn looped_target() -> TcmuTarget {
    let plan = TcmuTarget::builder()
        .name(text("mydev"))
        .size_bytes(64 << 20)
        .with_loopback()
        .read_ahead_kb(8192)
        .build()
        .unwrap();
    plan.created(text("/dev/uio3"))
}

#[test]
fn settings_are_checked() {
    let error = TcmuTarget::builder().size_bytes(512).build().unwrap_err();
    assert_eq!(error, BuildError::EmptyName);
    assert_eq!(error.message(), "device name must not be empty");
    let error = TcmuTarget::builder().name(text("mydev")).build().unwrap_err();
    assert_eq!(error, BuildError::ZeroSize);
    assert_eq!(error.message(), "size_bytes must be > 0");
    let error = TcmuTarget::builder().name(text("mydev")).size_bytes(513).build().unwrap_err();
    assert_eq!(error, BuildError::UnalignedSize);
    assert_eq!(error.message(), "size_bytes must be a multiple of 512");
    // The name is looked at first.
    let error = TcmuTarget::builder().size_bytes(513).build().unwrap_err();
    assert_eq!(error, BuildError::EmptyName);
}

#[test]
fn plan_with_defaults() {
    let plan = TcmuTarget::builder().name(text("mydev")).size_bytes(64 << 20).build().unwrap();
    assert_eq!(plan.device_configfs, DEVICE);
    assert_eq!(plan.uio_name, "tcm-user/0/mydev");
    assert_eq!(plan.loopback_cfg, None);
    let expected = vec![
        needed(FsOp::CreateDirAll { path: text(DEVICE) }, &format!("creating {DEVICE}")),
        needed(write(&format!("{DEVICE}/attrib/dev_size"), "67108864"), "writing dev_size"),
        needed(
            write(&format!("{DEVICE}/control"), "cmd_time_out=10"),
            "writing cmd_time_out to control",
        ),
        needed(write(&format!("{DEVICE}/enable"), "1"), "enabling device"),
    ];
    assert_eq!(plan.steps, expected);
}

#[test]
fn plan_with_everything_set() {
    let plan = TcmuTarget::builder()
        .name(text("disk"))
        .size_bytes(1024)
        .hba_index(12)
        .with_loopback()
        .wwn(text("naa.1"))
        .read_ahead_kb(256)
        .hw_max_sectors(8192)
        .cmd_time_out(0)
        .build()
        .unwrap();
    let dir = "/sys/kernel/config/target/core/user_12/disk";
    assert_eq!(plan.device_configfs, dir);
    assert_eq!(plan.uio_name, "tcm-user/12/disk");
    assert_eq!(plan.steps.len(), 5);
    assert_eq!(
        plan.steps[2],
        needed(
            write(&format!("{dir}/control"), "hw_max_sectors=8192"),
            "writing hw_max_sectors to control",
        )
    );
    assert_eq!(plan.steps[3].op, write(&format!("{dir}/control"), "cmd_time_out=0"));
    assert_eq!(plan.steps[4].op, write(&format!("{dir}/enable"), "1"));
    let cfg = plan.loopback_cfg.unwrap();
    assert_eq!(cfg.wwn, "naa.1");
    assert_eq!(cfg.name, "disk");
    assert_eq!(cfg.read_ahead_kb, Some(256));
}

#[test]
fn names_get_stable_wwns() {
    assert_eq!(derive_wwn("mydev"), "naa.600000310ff77fca");
    assert_eq!(derive_wwn("loopback"), "naa.601ae74593082dd0");
    assert_eq!(derive_wwn(""), "naa.6000000000001505");
    assert_eq!(derive_wwn("\u{fc}n\u{ef}"), "naa.600000311630af64");
    // A hash that wraps around and needs all sixteen digits.
    assert_eq!(derive_wwn("a-very-long-device-name"), "naa.6de811d7b25ea0ec1");
}

#[test]
fn loopback_comes_and_goes() {
    let mut target = looped_target();
    assert_eq!(target.uio_path(), "/dev/uio3");
    assert!(!target.is_stopped());
    assert_eq!(target.read_ahead(), None);
    let plan = target.create_loopback().unwrap();
    let tpgt = format!("{WWN_DIR}/tpgt_1");
    let lun = format!("{tpgt}/lun/lun_0");
    let expected = vec![
        needed(
            FsOp::CreateDirAll { path: lun.clone() },
            &format!("creating LUN directory {lun}"),
        ),
        needed(
            write(&format!("{tpgt}/nexus"), "naa.600000310ff77fca"),
            "writing loopback nexus",
        ),
        needed(
            FsOp::Symlink { original: text(DEVICE), link: format!("{lun}/mydev") },
            &format!("creating LUN symlink {lun}/mydev -> {DEVICE}"),
        ),
        best_effort(write(&format!("{tpgt}/enable"), "1")),
    ];
    assert_eq!(plan.steps, expected);
    assert_eq!(plan.address_file, format!("{tpgt}/address"));

    let scan = target.loopback_created(Some(text("0:1:2\n")));
    assert_eq!(scan, vec![best_effort(write("/sys/class/scsi_host/host0/scan", "1 2 0"))]);
    // The fabric is there already.
    assert_eq!(target.create_loopback(), None);
    assert_eq!(
        target.read_ahead(),
        Some((text("/sys/class/scsi_device/0:1:2:0/device/block"), 8192))
    );

    let mut removal =
        vec![best_effort(write(&format!("{DEVICE}/action/reset_ring"), "2"))];
    removal.extend(unloop());
    removal.push(remove_dir(DEVICE));
    assert_eq!(target.drop_steps(), removal);

    let mut shutdown =
        vec![best_effort(write("/sys/class/scsi_device/0:1:2:0/device/delete", "1"))];
    shutdown.extend(unloop());
    assert_eq!(target.stop(), shutdown);
    assert!(target.is_stopped());
    // What is gone is not removed again, and does not come back.
    assert_eq!(target.stop(), vec![]);
    assert_eq!(target.create_loopback(), None);
    assert_eq!(target.read_ahead(), None);
    let removal = vec![
        best_effort(write(&format!("{DEVICE}/action/reset_ring"), "2")),
        remove_dir(DEVICE),
    ];
    assert_eq!(target.drop_steps(), removal);
}

#[test]
fn loopback_without_an_address() {
    let mut target = looped_target();
    assert_eq!(target.loopback_created(None), vec![]);
    assert_eq!(target.read_ahead(), None);
    assert_eq!(target.stop(), unloop());
}

#[test]
fn loopback_is_not_created_unless_asked_for() {
    let plan = TcmuTarget::builder().name(text("mydev")).size_bytes(512).build().unwrap();
    let mut target = plan.created(text("/dev/uio0"));
    assert_eq!(target.create_loopback(), None);
    assert_eq!(target.loopback_created(Some(text("0:0:1"))), vec![]);
    assert_eq!(target.stop(), vec![]);
    let mut target = looped_target();
    assert_eq!(target.stop(), vec![]);
    assert_eq!(target.create_loopback(), None);
}

#[test]
fn scsi_addresses() {
    let scan = scan_scsi_address("7:0:13");
    assert_eq!(scan, vec![best_effort(write("/sys/class/scsi_host/host7/scan", "0 13 0"))]);
    assert_eq!(scan_scsi_address("7:0"), vec![]);
    assert_eq!(scan_scsi_address("7:0:1:0"), vec![]);
    assert_eq!(scan_scsi_address(""), vec![]);
    let delete = delete_scsi_device("7:0:13");
    let path = "/sys/class/scsi_device/7:0:13:0/device/delete";
    assert_eq!(delete, best_effort(write(path, "1")));
}

#[test]
fn waiting_for_the_uio_device() {
    assert!(uio_name_matches("tcm-user/0/mydev\n", "tcm-user/0/mydev"));
    assert!(!uio_name_matches("tcm-user/0/mydev2\n", "tcm-user/0/mydev"));
    let found = wait_for_uio(Some(text("uio7")), true);
    assert_eq!(found, UioWait::Found(text("/dev/uio7")));
    assert_eq!(wait_for_uio(None, true), UioWait::GiveUp);
    assert_eq!(wait_for_uio(None, false), UioWait::Sleep);
    let file = uio_size_file("/dev/uio7");
    assert_eq!(file, Some(text("/sys/class/uio/uio7/maps/map0/size")));
    assert_eq!(uio_size_file("/"), None);
}

#[test]
fn queue_parameters() {
    let step = set_read_ahead_kb("/dev/sda", 8192).unwrap();
    let path = "/sys/block/sda/queue/read_ahead_kb";
    assert_eq!(step, needed(write(path, "8192"), &format!("writing 8192 to {path}")));
    let step = set_max_sectors_kb("/dev/sdb", 16384).unwrap();
    let path = "/sys/block/sdb/queue/max_sectors_kb";
    assert_eq!(step, needed(write(path, "16384"), &format!("writing 16384 to {path}")));
    let step = set_scheduler("/dev/sdc", "none").unwrap();
    let path = "/sys/block/sdc/queue/scheduler";
    assert_eq!(step, needed(write(path, "none"), &format!("writing none to {path}")));
    let error = set_scheduler("/dev/..", "none").unwrap_err();
    assert_eq!(error.message(), "invalid block device path: /dev/..");
}

#[test]
fn failures_that_end_an_operation() {
    let step = needed(write("/a", "1"), "writing a");
    assert!(after_step(&step, true));
    assert!(!after_step(&step, false));
    let step = best_effort(write("/a", "1"));
    assert!(!after_step(&step, true));
    assert!(!after_step(&step, false));
}

#[test]
fn waiting_for_the_block_device() {
    let found = wait_for_block_device(Some(text("sdb")), false, false);
    assert_eq!(found, BlockDeviceWait::Found(text("/dev/sdb")));
    assert_eq!(wait_for_block_device(None, false, false), BlockDeviceWait::Sleep);
    assert_eq!(wait_for_block_device(None, true, false), BlockDeviceWait::GiveUp);
    assert_eq!(wait_for_block_device(None, false, true), BlockDeviceWait::GiveUp);
    let found = wait_for_block_device(Some(text("sdb")), true, false);
    assert_eq!(found, BlockDeviceWait::Found(text("/dev/sdb")));
    assert_eq!(wait_for_block_device(Some(text("sdb")), false, true), BlockDeviceWait::GiveUp);
}
