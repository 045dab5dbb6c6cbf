//! How a TCMU target is set up in configfs and taken down again.
//!
//! Nothing here touches the file system: each operation says which steps are to be
//! carried out, in which order, and what becomes of their failures.

use crate::text;
use crate::text::{decimal, file_name, join, padded_hex, split, trim};
use vstd::prelude::*;

verus! {

/// Something that is done to the file system.
#[derive(Clone, Debug, PartialEq, Eq)]
pub enum FsOp {
    /// Create a directory and those above it.
    CreateDirAll { path: String },
    /// Write a text to a file.
    Write { path: String, contents: String },
    /// Create a symbolic link at `link` that leads to `original`.
    Symlink { original: String, link: String },
    /// Remove a file or a symbolic link.
    RemoveFile { path: String },
    /// Remove an empty directory.
    RemoveDir { path: String },
}

/// The mathematical value of an [`FsOp`].
pub enum FsAction {
    CreateDirAll { path: Seq<char> },
    Write { path: Seq<char>, contents: Seq<char> },
    Symlink { original: Seq<char>, link: Seq<char> },
    RemoveFile { path: Seq<char> },
    RemoveDir { path: Seq<char> },
}

impl View for FsOp {
    type V = FsAction;

    open spec fn view(&self) -> FsAction {
        match *self {
            FsOp::CreateDirAll { path } => FsAction::CreateDirAll { path: path@ },
            FsOp::Write { path, contents } => FsAction::Write {
                path: path@,
                contents: contents@,
            },
            FsOp::Symlink { original, link } => FsAction::Symlink {
                original: original@,
                link: link@,
            },
            FsOp::RemoveFile { path } => FsAction::RemoveFile { path: path@ },
            FsOp::RemoveDir { path } => FsAction::RemoveDir { path: path@ },
        }
    }
}

/// One step of an operation.
#[derive(Clone, Debug, PartialEq, Eq)]
pub struct Step {
    /// What is to be done.
    pub op: FsOp,
    /// What the operation fails with if the step does; `None` where a failure does not
    /// matter.
    pub context: Option<String>,
}

/// The mathematical value of a [`Step`].
pub struct StepView {
    pub action: FsAction,
    pub context: Option<Seq<char>>,
}

/// The value of a text that may be absent.
pub open spec fn optional(text: Option<String>) -> Option<Seq<char>> {
    match text {
        Some(text) => Some(text@),
        None => None,
    }
}

impl View for Step {
    type V = StepView;

    open spec fn view(&self) -> StepView {
        StepView { action: self.op@, context: optional(self.context) }
    }
}

/// The values of steps.
pub open spec fn steps_view(steps: Seq<Step>) -> Seq<StepView> {
    Seq::new(steps.len(), |i: int| steps[i]@)
}

/// A step whose failure fails the operation.
pub open spec fn needed(action: FsAction, context: Seq<char>) -> StepView {
    StepView { action, context: Some(context) }
}

/// A step whose failure does not matter.
pub open spec fn best_effort(action: FsAction) -> StepView {
    StepView { action, context: None }
}

/// Writing `contents` to the file at `path`.
pub open spec fn writing(path: Seq<char>, contents: Seq<char>) -> FsAction {
    FsAction::Write { path, contents }
}

/// Whether an operation ends with `step`, after that failed or not: where it failed and
/// its failure matters.
pub fn after_step(step: &Step, failed: bool) -> (stop: bool)
    ensures
        stop == (failed && step@.context is Some),
{
    failed && step.context.is_some()
}

/// The mathematical value of a [`TcmuTargetBuilder`].
pub struct Settings {
    pub name: Seq<char>,
    pub size_bytes: u64,
    pub hba_index: u32,
    pub loopback: bool,
    pub wwn: Option<Seq<char>>,
    pub read_ahead_kb: Option<u32>,
    pub hw_max_sectors: Option<u32>,
    pub cmd_time_out: Option<u64>,
}

/// The settings before anything is set.
pub open spec fn unset() -> Settings {
    Settings {
        name: Seq::empty(),
        size_bytes: 0,
        hba_index: 0,
        loopback: false,
        wwn: None,
        read_ahead_kb: None,
        hw_max_sectors: None,
        cmd_time_out: None,
    }
}

/// Builder for a [`TcmuTarget`].
pub struct TcmuTargetBuilder {
    name: String,
    size_bytes: u64,
    hba_index: u32,
    loopback: bool,
    wwn: Option<String>,
    read_ahead_kb: Option<u32>,
    hw_max_sectors: Option<u32>,
    cmd_time_out: Option<u64>,
}

impl View for TcmuTargetBuilder {
    type V = Settings;

    closed spec fn view(&self) -> Settings {
        Settings {
            name: self.name@,
            size_bytes: self.size_bytes,
            hba_index: self.hba_index,
            loopback: self.loopback,
            wwn: optional(self.wwn),
            read_ahead_kb: self.read_ahead_kb,
            hw_max_sectors: self.hw_max_sectors,
            cmd_time_out: self.cmd_time_out,
        }
    }
}

impl Default for TcmuTargetBuilder {
    fn default() -> (builder: Self)
        ensures
            builder@ == unset(),
    {
        let builder = TcmuTargetBuilder {
            name: String::new(),
            size_bytes: 0,
            hba_index: 0,
            loopback: false,
            wwn: None,
            read_ahead_kb: None,
            hw_max_sectors: None,
            cmd_time_out: None,
        };
        assert(builder@.name =~= unset().name);
        builder
    }
}

/// Why a target cannot be built with the settings it was given.
#[derive(Clone, Copy, Debug, PartialEq, Eq, Structural)]
pub enum BuildError {
    /// The device name is empty.
    EmptyName,
    /// The size is zero.
    ZeroSize,
    /// The size is not a multiple of the block size.
    UnalignedSize,
}

impl BuildError {
    /// What is wrong, in words.
    pub open spec fn text(self) -> Seq<char> {
        match self {
            BuildError::EmptyName => "device name must not be empty"@,
            BuildError::ZeroSize => "size_bytes must be > 0"@,
            BuildError::UnalignedSize => "size_bytes must be a multiple of 512"@,
        }
    }

    /// What is wrong, in words.
    pub fn message(&self) -> (text: String)
        ensures
            text@ == self.text(),
    {
        match self {
            BuildError::EmptyName => "device name must not be empty".to_owned(),
            BuildError::ZeroSize => "size_bytes must be > 0".to_owned(),
            BuildError::UnalignedSize => "size_bytes must be a multiple of 512".to_owned(),
        }
    }
}

/// What is wrong with the settings, if anything is.
pub open spec fn settings_error(settings: Settings) -> Option<BuildError> {
    if settings.name.len() == 0 {
        Some(BuildError::EmptyName)
    } else if settings.size_bytes == 0 {
        Some(BuildError::ZeroSize)
    } else if settings.size_bytes % 512 != 0 {
        Some(BuildError::UnalignedSize)
    } else {
        None
    }
}

/// The configfs directory of the target subsystem.
pub open spec fn configfs() -> Seq<char> {
    "/sys/kernel/config/target"@
}

/// The configfs directory of the device.
pub open spec fn device_dir(settings: Settings) -> Seq<char> {
    text::joined(
        text::joined(
            text::joined(configfs(), "core"@),
            "user_"@ + text::decimal_text(settings.hba_index as nat),
        ),
        settings.name,
    )
}

/// The seconds after which the kernel gives up a command; ten unless set.
pub open spec fn time_out_secs(settings: Settings) -> u64 {
    match settings.cmd_time_out {
        Some(secs) => secs,
        None => 10,
    }
}

/// The step that limits the size of transfers, where a limit is set.
pub open spec fn sectors_steps(settings: Settings) -> Seq<StepView> {
    match settings.hw_max_sectors {
        Some(sectors) => seq![
            needed(
                writing(
                    text::joined(device_dir(settings), "control"@),
                    "hw_max_sectors="@ + text::decimal_text(sectors as nat),
                ),
                "writing hw_max_sectors to control"@,
            ),
        ],
        None => Seq::empty(),
    }
}

/// The steps that create the device: the directory, the size, the limits, and only
/// then the switch.
pub open spec fn create_steps(settings: Settings) -> Seq<StepView> {
    let dir = device_dir(settings);
    seq![
        needed(FsAction::CreateDirAll { path: dir }, "creating "@ + dir),
        needed(
            writing(
                text::joined(text::joined(dir, "attrib"@), "dev_size"@),
                text::decimal_text(settings.size_bytes as nat),
            ),
            "writing dev_size"@,
        ),
    ] + sectors_steps(settings) + seq![
        needed(
            writing(
                text::joined(dir, "control"@),
                "cmd_time_out="@ + text::decimal_text(time_out_secs(settings) as nat),
            ),
            "writing cmd_time_out to control"@,
        ),
        needed(writing(text::joined(dir, "enable"@), "1"@), "enabling device"@),
    ]
}

/// The name under which the kernel lists the UIO device of the target.
pub open spec fn uio_name_of(settings: Settings) -> Seq<char> {
    "tcm-user/"@ + text::decimal_text(settings.hba_index as nat) + "/"@ + settings.name
}

/// The hash of a name: from 5381 on, thirty-three times what came before plus the next
/// byte, in sixty-four bits.
pub open spec fn name_hash(bytes: Seq<u8>) -> u64
    decreases bytes.len(),
{
    if bytes.len() == 0 {
        5381
    } else {
        ((name_hash(bytes.drop_last()) * 33 + bytes.last()) % 0x1_0000_0000_0000_0000) as u64
    }
}

/// The world-wide name for a device name.
pub open spec fn wwn_of(name: Seq<char>) -> Seq<char> {
    "naa.6"@ + text::padded_hex_text(name_hash(vstd::utf8::encode_utf8(name)) as nat, 15)
}

/// What is needed to expose a target as a local SCSI device.
#[derive(Clone, Debug, PartialEq, Eq)]
pub struct LoopbackConfig {
    /// World-wide name of the loopback fabric.
    pub wwn: String,
    /// Name of the device.
    pub name: String,
    /// Read-ahead to set on the block device, in KiB.
    pub read_ahead_kb: Option<u32>,
}

/// The mathematical value of a [`LoopbackConfig`].
pub struct LoopbackSettings {
    pub wwn: Seq<char>,
    pub name: Seq<char>,
    pub read_ahead_kb: Option<u32>,
}

impl View for LoopbackConfig {
    type V = LoopbackSettings;

    open spec fn view(&self) -> LoopbackSettings {
        LoopbackSettings {
            wwn: self.wwn@,
            name: self.name@,
            read_ahead_kb: self.read_ahead_kb,
        }
    }
}

/// The loopback fabric that the settings ask for, if any.
pub open spec fn loopback_of(settings: Settings) -> Option<LoopbackSettings> {
    if settings.loopback {
        Some(
            LoopbackSettings {
                wwn: match settings.wwn {
                    Some(wwn) => wwn,
                    None => wwn_of(settings.name),
                },
                name: settings.name,
                read_ahead_kb: settings.read_ahead_kb,
            },
        )
    } else {
        None
    }
}

/// The value of a loopback configuration that may be absent.
pub open spec fn optional_loopback(cfg: Option<LoopbackConfig>) -> Option<LoopbackSettings> {
    match cfg {
        Some(cfg) => Some(cfg@),
        None => None,
    }
}

/// A target that is about to be created.
#[derive(Clone, Debug, PartialEq, Eq)]
pub struct TargetPlan {
    /// The configfs directory of the device.
    pub device_configfs: String,
    /// What creates the device.
    pub steps: Vec<Step>,
    /// The name under which the kernel then lists the UIO device.
    pub uio_name: String,
    /// What is needed to expose the target locally, if it is to be.
    pub loopback_cfg: Option<LoopbackConfig>,
}

impl TargetPlan {
    /// Whether this is the plan for a target with these settings.
    pub open spec fn is_for(self, settings: Settings) -> bool {
        &&& self.device_configfs@ == device_dir(settings)
        &&& steps_view(self.steps@) == create_steps(settings)
        &&& self.uio_name@ == uio_name_of(settings)
        &&& optional_loopback(self.loopback_cfg) == loopback_of(settings)
    }
}

/// A step whose failure fails the operation.
fn need(op: FsOp, context: String) -> (step: Step)
    ensures
        step@ == needed(op@, context@),
{
    Step { op, context: Some(context) }
}

/// A step whose failure does not matter.
fn attempt(op: FsOp) -> (step: Step)
    ensures
        step@ == best_effort(op@),
{
    Step { op, context: None }
}

/// Writing `contents` to the file at `path`.
fn write(path: String, contents: String) -> (op: FsOp)
    ensures
        op@ == writing(path@, contents@),
{
    FsOp::Write { path, contents }
}

/// Appends `second` to a copy of `first`.
fn concat(first: &str, second: &str) -> (text: String)
    ensures
        text@ == first@ + second@,
{
    let mut text = first.to_owned();
    text.append(second);
    text
}

/// Derive a deterministic NAA WWN from a device name so the loopback target
/// gets a stable identity across restarts.
pub fn derive_wwn(name: &str) -> (wwn: String)
    ensures
        wwn@ == wwn_of(name@),
{
    let bytes: &[u8] = name.as_bytes();
    let mut hash: u64 = 5381;
    let mut i: usize = 0;
    assert(bytes@.take(0) =~= Seq::empty());
    while i < bytes.len()
        invariant
            i <= bytes@.len(),
            hash == name_hash(bytes@.take(i as int)),
        decreases bytes@.len() - i,
    {
        let ghost before = hash as int;
        let ghost next = bytes@.take(i + 1);
        assert(next.drop_last() =~= bytes@.take(i as int));
        let scaled: u64 = hash.wrapping_mul(33);
        hash = scaled.wrapping_add(bytes[i] as u64);
        proof {
            wrapped_sum(before * 33, bytes@[i as int] as int);
        }
        i = i + 1;
    }
    assert(bytes@.take(bytes@.len() as int) =~= bytes@);
    concat("naa.6", padded_hex(hash, 15).as_str())
}

/// A sum may be reduced to sixty-four bits before its last addition.
proof fn wrapped_sum(a: int, b: int)
    ensures
        (a % 0x1_0000_0000_0000_0000 + b) % 0x1_0000_0000_0000_0000 == (a + b)
            % 0x1_0000_0000_0000_0000,
{
}

impl TcmuTargetBuilder {
    /// Device name as it will appear in configfs (e.g. `"mydev"`).
    pub fn name(self, name: String) -> (builder: Self)
        ensures
            builder@ == (Settings { name: name@, ..self@ }),
    {
        let mut builder = self;
        builder.name = name;
        builder
    }

    /// Total device size in bytes (must be a multiple of 512).
    pub fn size_bytes(self, size: u64) -> (builder: Self)
        ensures
            builder@ == (Settings { size_bytes: size, ..self@ }),
    {
        let mut builder = self;
        builder.size_bytes = size;
        builder
    }

    /// HBA index for the `user_N` configfs slot (default: `0`).
    pub fn hba_index(self, idx: u32) -> (builder: Self)
        ensures
            builder@ == (Settings { hba_index: idx, ..self@ }),
    {
        let mut builder = self;
        builder.hba_index = idx;
        builder
    }

    /// Also create a `tcm_loop` fabric so a SCSI block device (`/dev/sdX`)
    /// appears in the system. Requires the `tcm_loop` kernel module.
    ///
    /// The loopback fabric is created lazily, once the UIO file is open and ready
    /// to service SCSI commands. This avoids the kernel probing a LUN whose
    /// user-space handler is not yet running.
    pub fn with_loopback(self) -> (builder: Self)
        ensures
            builder@ == (Settings { loopback: true, ..self@ }),
    {
        let mut builder = self;
        builder.loopback = true;
        builder
    }

    /// Override the auto-generated WWN used for the loopback fabric.
    ///
    /// If not set, a deterministic WWN is derived from the device name.
    pub fn wwn(self, wwn: String) -> (builder: Self)
        ensures
            builder@ == (Settings { wwn: Some(wwn@), ..self@ }),
    {
        let mut builder = self;
        builder.wwn = Some(wwn);
        builder
    }

    /// Set `read_ahead_kb` on the block device queue after the loopback
    /// device appears. Only meaningful with [`with_loopback`](Self::with_loopback).
    ///
    /// If not set, the kernel default (typically 128 KiB) is used.
    pub fn read_ahead_kb(self, kb: u32) -> (builder: Self)
        ensures
            builder@ == (Settings { read_ahead_kb: Some(kb), ..self@ }),
    {
        let mut builder = self;
        builder.read_ahead_kb = Some(kb);
        builder
    }

    /// Maximum transfer size in 512-byte sectors for a single SCSI command.
    ///
    /// Written to the TCMU `control` file (as `hw_max_sectors=N`) before the
    /// device is enabled. The kernel default is 128 sectors (64 KiB). Higher
    /// values allow the kernel to send larger SCSI READ/WRITE commands,
    /// reducing per-command overhead.
    pub fn hw_max_sectors(self, sectors: u32) -> (builder: Self)
        ensures
            builder@ == (Settings { hw_max_sectors: Some(sectors), ..self@ }),
    {
        let mut builder = self;
        builder.hw_max_sectors = Some(sectors);
        builder
    }

    /// SCSI command timeout for the TCMU device, in whole seconds.
    ///
    /// Written to the `control` file before the device is enabled. When a
    /// handler crashes (UIO fd closes), in-flight commands time out after
    /// this duration and the kernel completes them with CHECK CONDITION,
    /// allowing cleanup to proceed.
    ///
    /// **Cannot be changed after LUN exports exist.** Defaults to 10 seconds.
    /// Setting to zero disables timeouts entirely.
    pub fn cmd_time_out(self, timeout_secs: u64) -> (builder: Self)
        ensures
            builder@ == (Settings { cmd_time_out: Some(timeout_secs), ..self@ }),
    {
        let mut builder = self;
        builder.cmd_time_out = Some(timeout_secs);
        builder
    }

    /// Checks the settings and plans the target.
    pub fn build(self) -> (plan: Result<TargetPlan, BuildError>)
        ensures
            plan is Err <==> settings_error(self@) is Some,
            plan matches Err(error) ==> settings_error(self@) == Some(error),
            plan matches Ok(plan) ==> plan.is_for(self@),
    {
        if self.name.as_str().is_empty() {
            return Err(BuildError::EmptyName);
        }
        if self.size_bytes == 0 {
            return Err(BuildError::ZeroSize);
        }
        if self.size_bytes % 512 != 0 {
            return Err(BuildError::UnalignedSize);
        }
        Ok(self.create())
    }

    /// Plans the target.
    fn create(self) -> (plan: TargetPlan)
        ensures
            plan.is_for(self@),
    {
        let hba = decimal(self.hba_index as u64);
        let core = join("/sys/kernel/config/target", "core");
        let user = join(core.as_str(), concat("user_", hba.as_str()).as_str());
        let dir = join(user.as_str(), self.name.as_str());
        let control = join(dir.as_str(), "control");
        let mut steps: Vec<Step> = Vec::new();
        steps.push(
            need(
                FsOp::CreateDirAll { path: dir.clone() },
                concat("creating ", dir.as_str()),
            ),
        );
        let attrib = join(dir.as_str(), "attrib");
        steps.push(
            need(
                write(join(attrib.as_str(), "dev_size"), decimal(self.size_bytes)),
                "writing dev_size".to_owned(),
            ),
        );
        let ghost head = steps_view(steps@);
        if let Some(sectors) = self.hw_max_sectors {
            steps.push(
                need(
                    write(
                        control.clone(),
                        concat("hw_max_sectors=", decimal(sectors as u64).as_str()),
                    ),
                    "writing hw_max_sectors to control".to_owned(),
                ),
            );
        }
        assert(steps_view(steps@) =~= head + sectors_steps(self@));
        let secs: u64 = match self.cmd_time_out {
            Some(secs) => secs,
            None => 10,
        };
        steps.push(
            need(
                write(control, concat("cmd_time_out=", decimal(secs).as_str())),
                "writing cmd_time_out to control".to_owned(),
            ),
        );
        steps.push(
            need(
                write(join(dir.as_str(), "enable"), "1".to_owned()),
                "enabling device".to_owned(),
            ),
        );
        assert(steps_view(steps@) =~= create_steps(self@));
        let mut uio_name = concat("tcm-user/", hba.as_str());
        uio_name.append("/");
        uio_name.append(self.name.as_str());
        let loopback_cfg = if self.loopback {
            let wwn = match self.wwn {
                Some(wwn) => wwn,
                None => derive_wwn(self.name.as_str()),
            };
            Some(LoopbackConfig { wwn, name: self.name, read_ahead_kb: self.read_ahead_kb })
        } else {
            None
        };
        TargetPlan { device_configfs: dir, steps, uio_name, loopback_cfg }
    }
}

/// Where the loopback fabric of a target lies in configfs.
pub struct LoopbackPaths {
    pub wwn_dir: String,
    pub tpgt_dir: String,
    pub lun_symlink: String,
    /// SCSI address that the kernel gave the target, e.g. `"0:0:1"` for host 0,
    /// channel 0, target 1. The LUN is always 0.
    pub scsi_address: Option<String>,
}

/// The mathematical value of [`LoopbackPaths`].
pub struct LoopbackPlaces {
    pub wwn_dir: Seq<char>,
    pub tpgt_dir: Seq<char>,
    pub lun_symlink: Seq<char>,
    pub scsi_address: Option<Seq<char>>,
}

impl View for LoopbackPaths {
    type V = LoopbackPlaces;

    open spec fn view(&self) -> LoopbackPlaces {
        LoopbackPlaces {
            wwn_dir: self.wwn_dir@,
            tpgt_dir: self.tpgt_dir@,
            lun_symlink: self.lun_symlink@,
            scsi_address: optional(self.scsi_address),
        }
    }
}

/// The directory of the one logical unit of a target portal group.
pub open spec fn lun_dir(tpgt_dir: Seq<char>) -> Seq<char> {
    text::joined(text::joined(tpgt_dir, "lun"@), "lun_0"@)
}

/// Where the loopback fabric with these settings lies, given what the kernel says its
/// address is.
pub open spec fn places_of(cfg: LoopbackSettings, address: Option<Seq<char>>) -> LoopbackPlaces {
    let wwn_dir = text::joined(text::joined(configfs(), "loopback"@), cfg.wwn);
    let tpgt_dir = text::joined(wwn_dir, "tpgt_1"@);
    LoopbackPlaces {
        wwn_dir,
        tpgt_dir,
        lun_symlink: text::joined(lun_dir(tpgt_dir), cfg.name),
        scsi_address: match address {
            Some(raw) => Some(text::trimmed(raw)),
            None => None,
        },
    }
}

/// The steps that create the loopback fabric at `places` for the device in `device_dir`.
pub open spec fn loopback_steps(
    cfg: LoopbackSettings,
    places: LoopbackPlaces,
    device_dir: Seq<char>,
) -> Seq<StepView> {
    let lun = lun_dir(places.tpgt_dir);
    seq![
        needed(FsAction::CreateDirAll { path: lun }, "creating LUN directory "@ + lun),
        needed(
            writing(text::joined(places.tpgt_dir, "nexus"@), cfg.wwn),
            "writing loopback nexus"@,
        ),
        needed(
            FsAction::Symlink { original: device_dir, link: places.lun_symlink },
            "creating LUN symlink "@ + places.lun_symlink + " -> "@ + device_dir,
        ),
        best_effort(writing(text::joined(places.tpgt_dir, "enable"@), "1"@)),
    ]
}

/// The step that makes the kernel look for a target at `address`, where that names a
/// host, a channel and a target.
pub open spec fn scan_steps(address: Seq<char>) -> Seq<StepView> {
    let parts = text::parts_of(address, ':');
    if parts.len() == 3 {
        seq![
            best_effort(
                writing(
                    "/sys/class/scsi_host/host"@ + parts[0] + "/scan"@,
                    parts[1] + " "@ + parts[2] + " 0"@,
                ),
            ),
        ]
    } else {
        Seq::empty()
    }
}

/// The step that removes the SCSI device at `address`.
pub open spec fn delete_step(address: Seq<char>) -> StepView {
    best_effort(writing("/sys/class/scsi_device/"@ + address + ":0/device/delete"@, "1"@))
}

/// The steps that take the loopback fabric at `places` down.
pub open spec fn unloop_steps(places: LoopbackPlaces) -> Seq<StepView> {
    seq![
        best_effort(writing(text::joined(places.tpgt_dir, "enable"@), "0"@)),
        best_effort(FsAction::RemoveFile { path: places.lun_symlink }),
        best_effort(FsAction::RemoveDir { path: lun_dir(places.tpgt_dir) }),
        best_effort(FsAction::RemoveDir { path: places.tpgt_dir }),
        best_effort(FsAction::RemoveDir { path: places.wwn_dir }),
    ]
}

/// The steps that shut a target down whose loopback fabric, if it has one, lies at
/// `loopback`: the SCSI device goes first.
pub open spec fn stop_steps(loopback: Option<LoopbackPlaces>) -> Seq<StepView> {
    match loopback {
        Some(places) => (match places.scsi_address {
            Some(address) => seq![delete_step(address)],
            None => Seq::empty(),
        }) + unloop_steps(places),
        None => Seq::empty(),
    }
}

/// The steps that remove a target: first every command in flight is completed, then
/// the loopback fabric goes, if it is still there, and the device last.
pub open spec fn removal_steps(
    device_dir: Seq<char>,
    loopback: Option<LoopbackPlaces>,
) -> Seq<StepView> {
    seq![
        best_effort(
            writing(text::joined(text::joined(device_dir, "action"@), "reset_ring"@), "2"@),
        ),
    ] + (match loopback {
        Some(places) => unloop_steps(places),
        None => Seq::empty(),
    }) + seq![best_effort(FsAction::RemoveDir { path: device_dir })]
}

/// The value of loopback paths that may be absent.
pub open spec fn optional_places(paths: Option<LoopbackPaths>) -> Option<LoopbackPlaces> {
    match paths {
        Some(paths) => Some(paths@),
        None => None,
    }
}

/// A loopback fabric that is about to be created.
#[derive(Clone, Debug, PartialEq, Eq)]
pub struct LoopbackPlan {
    /// What creates the fabric.
    pub steps: Vec<Step>,
    /// The file in which the kernel then says what the SCSI address is.
    pub address_file: String,
}

/// Adds the steps that take the loopback fabric at `paths` down.
fn push_unloop(steps: &mut Vec<Step>, paths: &LoopbackPaths)
    ensures
        steps_view(final(steps)@) == steps_view(old(steps)@) + unloop_steps(paths@),
{
    let ghost before = steps@;
    let tpgt: &str = paths.tpgt_dir.as_str();
    let lun = join(tpgt, "lun");
    steps.push(attempt(write(join(tpgt, "enable"), "0".to_owned())));
    steps.push(attempt(FsOp::RemoveFile { path: paths.lun_symlink.clone() }));
    steps.push(attempt(FsOp::RemoveDir { path: join(lun.as_str(), "lun_0") }));
    steps.push(attempt(FsOp::RemoveDir { path: paths.tpgt_dir.clone() }));
    steps.push(attempt(FsOp::RemoveDir { path: paths.wwn_dir.clone() }));
    assert(steps_view(steps@) =~= steps_view(before) + unloop_steps(paths@));
}

/// The step, if any, that makes the kernel look for a target at `address`.
///
/// `address` is the `H:C:T` string from `tpgt_1/address` (e.g. `"0:0:1"`). Writes
/// `"C T 0"` to the `scan` file of host `H`, so only this one LUN is probed.
pub fn scan_scsi_address(address: &str) -> (steps: Vec<Step>)
    ensures
        steps_view(steps@) == scan_steps(address@),
{
    let parts = split(address, ':');
    let mut steps: Vec<Step> = Vec::new();
    if parts.len() == 3 {
        let mut path = concat("/sys/class/scsi_host/host", parts[0].as_str());
        path.append("/scan");
        let mut value = concat(parts[1].as_str(), " ");
        value.append(parts[2].as_str());
        value.append(" 0");
        steps.push(attempt(write(path, value)));
    }
    assert(steps_view(steps@) =~= scan_steps(address@));
    steps
}

/// The step that deletes the SCSI device at an H:C:T address (LUN 0).
pub fn delete_scsi_device(address: &str) -> (step: Step)
    ensures
        step@ == delete_step(address@),
{
    let mut path = concat("/sys/class/scsi_device/", address);
    path.append(":0/device/delete");
    attempt(write(path, "1".to_owned()))
}

/// The mathematical value of a [`TcmuTarget`].
pub struct TargetState {
    pub device_dir: Seq<char>,
    pub uio_path: Seq<char>,
    pub loopback_cfg: Option<LoopbackSettings>,
    pub loopback: Option<LoopbackPlaces>,
    pub stopped: bool,
}

/// A TCMU block device target registered with the Linux kernel.
pub struct TcmuTarget {
    device_configfs: String,
    uio_path: String,
    loopback_cfg: Option<LoopbackConfig>,
    loopback: Option<LoopbackPaths>,
    stopped: bool,
}

impl View for TcmuTarget {
    type V = TargetState;

    closed spec fn view(&self) -> TargetState {
        TargetState {
            device_dir: self.device_configfs@,
            uio_path: self.uio_path@,
            loopback_cfg: optional_loopback(self.loopback_cfg),
            loopback: optional_places(self.loopback),
            stopped: self.stopped,
        }
    }
}

impl TargetPlan {
    /// The target, once its device was created and its UIO device was found.
    pub fn created(self, uio_path: String) -> (target: TcmuTarget)
        ensures
            target@ == (TargetState {
                device_dir: self.device_configfs@,
                uio_path: uio_path@,
                loopback_cfg: optional_loopback(self.loopback_cfg),
                loopback: None,
                stopped: false,
            }),
    {
        TcmuTarget {
            device_configfs: self.device_configfs,
            uio_path,
            loopback_cfg: self.loopback_cfg,
            loopback: None,
            stopped: false,
        }
    }
}

impl TcmuTarget {
    /// Create a [`TcmuTargetBuilder`].
    pub fn builder() -> (builder: TcmuTargetBuilder)
        ensures
            builder@ == unset(),
    {
        TcmuTargetBuilder::default()
    }

    /// Path to the UIO character device (e.g. `/dev/uio0`).
    pub fn uio_path(&self) -> (path: &str)
        ensures
            path@ == self@.uio_path,
    {
        self.uio_path.as_str()
    }

    /// Whether the target was shut down.
    pub fn is_stopped(&self) -> (stopped: bool)
        ensures
            stopped == self@.stopped,
    {
        self.stopped
    }

    /// What creates the loopback fabric; `None` where none is asked for, it is there
    /// already, or the target was shut down.
    pub fn create_loopback(&self) -> (plan: Option<LoopbackPlan>)
        ensures
            plan is Some <==> self@.loopback_cfg is Some && self@.loopback is None
                && !self@.stopped,
            plan matches Some(plan) ==> {
                let cfg = self@.loopback_cfg->Some_0;
                let places = places_of(cfg, None);
                &&& steps_view(plan.steps@) == loopback_steps(cfg, places, self@.device_dir)
                &&& plan.address_file@ == text::joined(places.tpgt_dir, "address"@)
            },
    {
        if self.stopped || self.loopback.is_some() {
            return None;
        }
        let cfg: &LoopbackConfig = match &self.loopback_cfg {
            Some(cfg) => cfg,
            None => {
                return None;
            },
        };
        let paths = loopback_paths(cfg, None);
        let ghost places = places_of(cfg@, None);
        let tpgt: &str = paths.tpgt_dir.as_str();
        let lun_parent = join(tpgt, "lun");
        let lun = join(lun_parent.as_str(), "lun_0");
        let mut steps: Vec<Step> = Vec::new();
        steps.push(
            need(
                FsOp::CreateDirAll { path: lun.clone() },
                concat("creating LUN directory ", lun.as_str()),
            ),
        );
        steps.push(
            need(
                write(join(tpgt, "nexus"), cfg.wwn.clone()),
                "writing loopback nexus".to_owned(),
            ),
        );
        let mut context = concat("creating LUN symlink ", paths.lun_symlink.as_str());
        context.append(" -> ");
        context.append(self.device_configfs.as_str());
        steps.push(
            need(
                FsOp::Symlink {
                    original: self.device_configfs.clone(),
                    link: paths.lun_symlink.clone(),
                },
                context,
            ),
        );
        steps.push(attempt(write(join(tpgt, "enable"), "1".to_owned())));
        assert(steps_view(steps@) =~= loopback_steps(cfg@, places, self@.device_dir));
        Some(LoopbackPlan { steps, address_file: join(tpgt, "address") })
    }

    /// Notes that the loopback fabric was created and that the kernel says its address
    /// is `address`; returns what makes the SCSI device appear. Does nothing for a target
    /// without a loopback fabric.
    pub fn loopback_created(&mut self, address: Option<String>) -> (steps: Vec<Step>)
        ensures
            match old(self)@.loopback_cfg {
                Some(cfg) => {
                    &&& final(self)@ == (TargetState {
                        loopback: Some(places_of(cfg, optional(address))),
                        ..old(self)@
                    })
                    &&& steps_view(steps@) == (match optional(address) {
                        Some(raw) => scan_steps(text::trimmed(raw)),
                        None => Seq::empty(),
                    })
                },
                None => final(self)@ == old(self)@ && steps@.len() == 0,
            },
    {
        let mut steps: Vec<Step> = Vec::new();
        assert(steps_view(steps@) =~= Seq::empty());
        if let Some(cfg) = &self.loopback_cfg {
            let paths = loopback_paths(cfg, address);
            if let Some(address) = &paths.scsi_address {
                steps = scan_scsi_address(address.as_str());
            }
            self.loopback = Some(paths);
        }
        steps
    }

    /// The directory in which the kernel lists the block device of the loopback fabric,
    /// and the read-ahead to set on that device; `None` where none is to be set.
    pub fn read_ahead(&self) -> (tuning: Option<(String, u32)>)
        ensures
            tuning is Some <==> read_ahead_of(self@) is Some,
            tuning matches Some((dir, kb)) ==> read_ahead_of(self@) == Some((dir@, kb)),
    {
        match (&self.loopback_cfg, &self.loopback) {
            (Some(cfg), Some(paths)) => {
                match (cfg.read_ahead_kb, &paths.scsi_address) {
                    (Some(kb), Some(address)) => {
                        let mut dir = concat("/sys/class/scsi_device/", address.as_str());
                        dir.append(":0/device/block");
                        Some((dir, kb))
                    },
                    _ => None,
                }
            },
            _ => None,
        }
    }

    /// Gracefully shut down the target.
    ///
    /// If a loopback fabric is active, it is torn down first while the event
    /// loop is still running, so the kernel's SCSI teardown commands can be
    /// serviced normally. Then the event loop is to be told to stop.
    pub fn stop(&mut self) -> (steps: Vec<Step>)
        ensures
            final(self)@ == (TargetState { loopback: None, stopped: true, ..old(self)@ }),
            steps_view(steps@) == stop_steps(old(self)@.loopback),
    {
        let mut steps: Vec<Step> = Vec::new();
        if let Some(paths) = &self.loopback {
            if let Some(address) = &paths.scsi_address {
                steps.push(delete_scsi_device(address.as_str()));
            }
            assert(steps_view(steps@) =~= (match paths@.scsi_address {
                Some(address) => seq![delete_step(address)],
                None => Seq::empty(),
            }));
            push_unloop(&mut steps, paths);
        }
        assert(steps_view(steps@) =~= stop_steps(self@.loopback));
        self.loopback = None;
        self.stopped = true;
        steps
    }

    /// What removes the target from configfs.
    ///
    /// In-flight commands are force-completed first, so that the removal of the
    /// loopback fabric cannot block on them.
    pub fn drop_steps(&self) -> (steps: Vec<Step>)
        ensures
            steps_view(steps@) == removal_steps(self@.device_dir, self@.loopback),
    {
        let dir: &str = self.device_configfs.as_str();
        let action = join(dir, "action");
        let mut steps: Vec<Step> = Vec::new();
        steps.push(attempt(write(join(action.as_str(), "reset_ring"), "2".to_owned())));
        let ghost first = steps_view(steps@);
        if let Some(paths) = &self.loopback {
            push_unloop(&mut steps, paths);
        }
        let ghost second = steps_view(steps@);
        assert(second =~= first + (match self@.loopback {
            Some(places) => unloop_steps(places),
            None => Seq::empty(),
        }));
        steps.push(attempt(FsOp::RemoveDir { path: self.device_configfs.clone() }));
        assert(steps_view(steps@) =~= second.push(
            best_effort(FsAction::RemoveDir { path: self@.device_dir }),
        ));
        assert(steps_view(steps@) =~= removal_steps(self@.device_dir, self@.loopback));
        steps
    }
}

/// The directory that lists the block device of the loopback fabric, and the read-ahead
/// to set on that device.
pub open spec fn read_ahead_of(target: TargetState) -> Option<(Seq<char>, u32)> {
    match (target.loopback_cfg, target.loopback) {
        (Some(cfg), Some(places)) => match (cfg.read_ahead_kb, places.scsi_address) {
            (Some(kb), Some(address)) => Some(
                ("/sys/class/scsi_device/"@ + address + ":0/device/block"@, kb),
            ),
            _ => None,
        },
        _ => None,
    }
}

/// Where the loopback fabric lies, given what the kernel says its address is.
fn loopback_paths(cfg: &LoopbackConfig, address: Option<String>) -> (paths: LoopbackPaths)
    ensures
        paths@ == places_of(cfg@, optional(address)),
{
    let parent = join("/sys/kernel/config/target", "loopback");
    let wwn_dir = join(parent.as_str(), cfg.wwn.as_str());
    let tpgt_dir = join(wwn_dir.as_str(), "tpgt_1");
    let lun_parent = join(tpgt_dir.as_str(), "lun");
    let lun = join(lun_parent.as_str(), "lun_0");
    let lun_symlink = join(lun.as_str(), cfg.name.as_str());
    let scsi_address = match address {
        Some(raw) => Some(trim(raw.as_str())),
        None => None,
    };
    LoopbackPaths { wwn_dir, tpgt_dir, lun_symlink, scsi_address }
}

/// How long to wait for a device to appear, in seconds.
pub const DEVICE_WAIT_SECS: u64 = 5;

/// How long to sleep before looking for a device again, in milliseconds.
pub const DEVICE_POLL_MS: u64 = 50;

/// What to do next while waiting for the UIO device to appear.
#[derive(Clone, Debug, PartialEq, Eq)]
pub enum UioWait {
    /// The device is at this path.
    Found(String),
    /// It did not appear in time.
    GiveUp,
    /// Look again after a while.
    Sleep,
}

/// Whether the UIO device whose `name` file holds `text` is the one that is waited for.
pub fn uio_name_matches(text: &str, expected: &str) -> (b: bool)
    ensures
        b == (text::trimmed(text@) == expected@),
{
    trim(text) == expected.to_owned()
}

/// What to do next after looking for the UIO device, which was found to be listed as
/// `found` or not at all, before the deadline or after it.
pub fn wait_for_uio(found: Option<String>, expired: bool) -> (next: UioWait)
    ensures
        found matches Some(entry) ==> next matches UioWait::Found(path) && path@ == text::joined(
            "/dev"@,
            entry@,
        ),
        found is None && expired ==> next is GiveUp,
        found is None && !expired ==> next is Sleep,
{
    match found {
        Some(entry) => UioWait::Found(join("/dev", entry.as_str())),
        None => if expired {
            UioWait::GiveUp
        } else {
            UioWait::Sleep
        },
    }
}

/// What to do next while waiting for the block device of the loopback fabric to appear.
#[derive(Clone, Debug, PartialEq, Eq)]
pub enum BlockDeviceWait {
    /// The device is at this path.
    Found(String),
    /// It is not waited for any longer.
    GiveUp,
    /// Look again after a while.
    Sleep,
}

/// What to do next after looking for the block device of the loopback fabric, which was
/// found to be listed as `found` or not at all, before the deadline or after it, with
/// the target shut down or not.
pub fn wait_for_block_device(found: Option<String>, expired: bool, stopped: bool) -> (next:
    BlockDeviceWait)
    ensures
        stopped ==> next is GiveUp,
        !stopped ==> (found matches Some(entry) ==> next matches BlockDeviceWait::Found(path)
            && path@ == text::joined("/dev"@, entry@)),
        !stopped && found is None && expired ==> next is GiveUp,
        !stopped && found is None && !expired ==> next is Sleep,
{
    if stopped {
        return BlockDeviceWait::GiveUp;
    }
    match found {
        Some(entry) => BlockDeviceWait::Found(join("/dev", entry.as_str())),
        None => if expired {
            BlockDeviceWait::GiveUp
        } else {
            BlockDeviceWait::Sleep
        },
    }
}

/// The file that holds the size of the memory that the UIO device at `uio_path` shares;
/// `None` where the path does not name a device.
pub fn uio_size_file(uio_path: &str) -> (file: Option<String>)
    ensures
        file is Some <==> text::file_name_of(uio_path@) is Some,
        file matches Some(path) ==> path@ == "/sys/class/uio/"@ + text::file_name_of(
            uio_path@,
        )->Some_0 + "/maps/map0/size"@,
{
    match file_name(uio_path) {
        Some(name) => {
            let mut path = concat("/sys/class/uio/", name.as_str());
            path.append("/maps/map0/size");
            Some(path)
        },
        None => None,
    }
}

/// A path that does not name a block device.
#[derive(Clone, Debug, PartialEq, Eq)]
pub struct InvalidDevicePath {
    pub path: String,
}

impl InvalidDevicePath {
    /// What is wrong, in words.
    pub fn message(&self) -> (text: String)
        ensures
            text@ == "invalid block device path: "@ + self.path@,
    {
        concat("invalid block device path: ", self.path.as_str())
    }
}

/// The step that sets a parameter of the queue of the block device `name`.
pub open spec fn queue_step(name: Seq<char>, param: Seq<char>, value: Seq<char>) -> StepView {
    let path = "/sys/block/"@ + name + "/queue/"@ + param;
    needed(writing(path, value), "writing "@ + value + " to "@ + path)
}

/// Whether `result` is the step that sets a parameter of the queue of the block device
/// at `block_dev`, or the error where that path names no device.
pub open spec fn queue_param_set(
    block_dev: Seq<char>,
    param: Seq<char>,
    value: Seq<char>,
    result: Result<Step, InvalidDevicePath>,
) -> bool {
    match (text::file_name_of(block_dev), result) {
        (Some(name), Ok(step)) => step@ == queue_step(name, param, value),
        (None, Err(error)) => error.path@ == block_dev,
        _ => false,
    }
}

/// The step that sets a parameter of a block device queue.
fn set_block_queue_param(block_dev: &str, param: &str, value: &str) -> (result: Result<
    Step,
    InvalidDevicePath,
>)
    ensures
        queue_param_set(block_dev@, param@, value@, result),
{
    let name = match file_name(block_dev) {
        Some(name) => name,
        None => {
            return Err(InvalidDevicePath { path: block_dev.to_owned() });
        },
    };
    let mut path = concat("/sys/block/", name.as_str());
    path.append("/queue/");
    path.append(param);
    let mut context = concat("writing ", value);
    context.append(" to ");
    context.append(path.as_str());
    Ok(need(write(path, value.to_owned()), context))
}

/// Set `read_ahead_kb` on a block device queue via sysfs.
///
/// `block_dev` is the device path (e.g. `/dev/sda`). The device must
/// already exist.
pub fn set_read_ahead_kb(block_dev: &str, kb: u32) -> (result: Result<Step, InvalidDevicePath>)
    ensures
        queue_param_set(
            block_dev@,
            "read_ahead_kb"@,
            text::decimal_text(kb as nat),
            result,
        ),
{
    set_block_queue_param(block_dev, "read_ahead_kb", decimal(kb as u64).as_str())
}

/// Set `max_sectors_kb` on a block device queue via sysfs.
pub fn set_max_sectors_kb(block_dev: &str, kb: u32) -> (result: Result<Step, InvalidDevicePath>)
    ensures
        queue_param_set(
            block_dev@,
            "max_sectors_kb"@,
            text::decimal_text(kb as nat),
            result,
        ),
{
    set_block_queue_param(block_dev, "max_sectors_kb", decimal(kb as u64).as_str())
}

/// Set the I/O scheduler on a block device via sysfs.
///
/// Common values: `"none"`, `"mq-deadline"`, `"kyber"`, `"bfq"`.
pub fn set_scheduler(block_dev: &str, scheduler: &str) -> (result: Result<Step, InvalidDevicePath>)
    ensures
        queue_param_set(block_dev@, "scheduler"@, scheduler@, result),
{
    set_block_queue_param(block_dev, "scheduler", scheduler)
}

} // verus!
