//! What holds of setting targets up and taking them down, over all settings.

use crate::target;
use crate::target::{
    BuildError, FsAction, FsOp, InvalidDevicePath, LoopbackConfig, LoopbackPaths, LoopbackPlaces,
    LoopbackSettings, Settings, Step, StepView, TargetPlan, TargetState,
};
use crate::text;
use crate::text_laws;
use vstd::prelude::*;

verus! {

/// Whether the step creates a directory or a link at `path`.
pub open spec fn creates(step: StepView, path: Seq<char>) -> bool {
    match step.action {
        FsAction::CreateDirAll { path: created } => created == path,
        FsAction::Symlink { original: _, link } => link == path,
        _ => false,
    }
}

/// Whether the step removes what is at `path`.
pub open spec fn removes(step: StepView, path: Seq<char>) -> bool {
    match step.action {
        FsAction::RemoveFile { path: removed } => removed == path,
        FsAction::RemoveDir { path: removed } => removed == path,
        _ => false,
    }
}

/// Whether each path that one of the `first` steps creates is removed by one of the
/// `second`.
pub open spec fn undone_by(first: Seq<StepView>, second: Seq<StepView>) -> bool {
    forall|i: int, path: Seq<char>|
        0 <= i < first.len() && #[trigger] creates(first[i], path) ==> removed_in(second, path)
}

/// Whether one of the steps removes what is at `path`.
pub open spec fn removed_in(steps: Seq<StepView>, path: Seq<char>) -> bool {
    exists|j: int| 0 <= j < steps.len() && #[trigger] removes(steps[j], path)
}

/// Removing a target removes what creating it created, whether its loopback fabric is
/// still there or not, and the device directory goes last.
pub proof fn removal_undoes_creation(settings: Settings, loopback: Option<LoopbackPlaces>)
    ensures
        ({
            let steps = target::removal_steps(target::device_dir(settings), loopback);
            &&& undone_by(target::create_steps(settings), steps)
            &&& removes(steps.last(), target::device_dir(settings))
        }),
{
    let dir = target::device_dir(settings);
    let steps = target::removal_steps(dir, loopback);
    assert(removes(steps[steps.len() - 1], dir));
}

/// Taking a loopback fabric down removes what setting it up created, and the
/// directories above: the link, which is unlinked, before the directory that holds it,
/// and each directory before the one above it.
pub proof fn unloop_undoes_loopback(
    cfg: LoopbackSettings,
    address: Option<Seq<char>>,
    device_dir: Seq<char>,
)
    ensures
        ({
            let places = target::places_of(cfg, address);
            let steps = target::unloop_steps(places);
            &&& undone_by(target::loopback_steps(cfg, places, device_dir), steps)
            &&& steps.len() == 5
            &&& steps[1].action == (FsAction::RemoveFile { path: places.lun_symlink })
            &&& removes(steps[2], target::lun_dir(places.tpgt_dir))
            &&& removes(steps[3], places.tpgt_dir)
            &&& removes(steps[4], places.wwn_dir)
        }),
{
    let places = target::places_of(cfg, address);
    let steps = target::unloop_steps(places);
    assert(removes(steps[1], places.lun_symlink));
    assert(removes(steps[2], target::lun_dir(places.tpgt_dir)));
}

/// The limits of a device are written before it is switched on, and the switch is the
/// last step.
pub proof fn device_is_switched_on_last(settings: Settings)
    ensures
        ({
            let dir = target::device_dir(settings);
            let steps = target::create_steps(settings);
            &&& steps.last().action == target::writing(text::joined(dir, "enable"@), "1"@)
            &&& steps[steps.len() - 2].action == target::writing(
                text::joined(dir, "control"@),
                "cmd_time_out="@ + text::decimal_text(target::time_out_secs(settings) as nat),
            )
            &&& settings.hw_max_sectors matches Some(sectors) ==> steps[steps.len() - 3].action
                == target::writing(
                text::joined(dir, "control"@),
                "hw_max_sectors="@ + text::decimal_text(sectors as nat),
            )
        }),
{
}

/// Commands in flight are completed before anything else of a target is removed.
pub proof fn ring_is_reset_first(device_dir: Seq<char>, loopback: Option<LoopbackPlaces>)
    ensures
        target::removal_steps(device_dir, loopback).first().action == target::writing(
            text::joined(text::joined(device_dir, "action"@), "reset_ring"@),
            "2"@,
        ),
{
}

/// After a shutdown the loopback fabric is gone: a second shutdown and the removal of
/// the target do not touch it again.
pub proof fn shutdown_happens_once(before: TargetState, after: TargetState)
    requires
        after == (TargetState { loopback: None, stopped: true, ..before }),
    ensures
        target::stop_steps(after.loopback).len() == 0,
        target::removal_steps(after.device_dir, after.loopback).len() == 2,
{
}

/// The shutdown removes the SCSI device before it takes the loopback fabric down.
pub proof fn scsi_device_goes_first(places: LoopbackPlaces, address: Seq<char>)
    requires
        places.scsi_address == Some(address),
    ensures
        target::stop_steps(Some(places)).first() == target::delete_step(address),
        target::stop_steps(Some(places)).skip(1) == target::unloop_steps(places),
{
    assert(target::stop_steps(Some(places)).skip(1) =~= target::unloop_steps(places));
}

/// A derived world-wide name starts with the NAA prefix, and its digits write the hash
/// of the device name: names with different hashes get different world-wide names.
pub proof fn derived_wwn_names_the_hash(name: Seq<char>)
    ensures
        target::wwn_of(name).take("naa.6"@.len() as int) == "naa.6"@,
        target::wwn_of(name).len() >= "naa.6"@.len() + 15,
        text::digits_value(target::wwn_of(name).skip("naa.6"@.len() as int)) == Some(
            target::name_hash(vstd::utf8::encode_utf8(name)) as int,
        ),
{
    let hash = target::name_hash(vstd::utf8::encode_utf8(name)) as nat;
    let wwn = target::wwn_of(name);
    let prefix = "naa.6"@;
    text::padded_hex_reads_back(hash, 15);
    assert(wwn.take(prefix.len() as int) =~= prefix);
    assert(wwn.skip(prefix.len() as int) =~= text::padded_hex_text(hash, 15));
}

/// `part` under the directory `dir`.
pub open spec fn under(dir: Seq<char>, part: Seq<char>) -> Seq<char> {
    if dir.len() > 0 && dir[dir.len() - 1] != '/' {
        dir + seq!['/'] + part
    } else {
        dir + part
    }
}

/// Joining a part that does not start at the root puts it under the base.
proof fn joined_is_under(base: Seq<char>, part: Seq<char>)
    requires
        part.len() > 0,
        part[0] != '/',
    ensures
        text::joined(base, part) == under(base, part),
{
    text_laws::joined_paths(base, part);
    let path = text::joined(base, part);
    assert(path =~= path.subrange(0, base.len() as int) + path.subrange(
        base.len() as int,
        path.len() as int,
    ));
    assert(path =~= under(base, part));
}

/// Joining the file names that targets use.
pub proof fn joined_names(base: Seq<char>)
    ensures
        text::joined(base, "core"@) == under(base, "core"@),
        text::joined(base, "loopback"@) == under(base, "loopback"@),
        text::joined(base, "attrib"@) == under(base, "attrib"@),
        text::joined(base, "dev_size"@) == under(base, "dev_size"@),
        text::joined(base, "control"@) == under(base, "control"@),
        text::joined(base, "enable"@) == under(base, "enable"@),
        text::joined(base, "action"@) == under(base, "action"@),
        text::joined(base, "reset_ring"@) == under(base, "reset_ring"@),
        text::joined(base, "tpgt_1"@) == under(base, "tpgt_1"@),
        text::joined(base, "nexus"@) == under(base, "nexus"@),
        text::joined(base, "address"@) == under(base, "address"@),
        text::joined(base, "lun"@) == under(base, "lun"@),
        text::joined(base, "lun_0"@) == under(base, "lun_0"@),
{
    reveal_strlit("core");
    reveal_strlit("loopback");
    reveal_strlit("attrib");
    reveal_strlit("dev_size");
    reveal_strlit("control");
    reveal_strlit("enable");
    reveal_strlit("action");
    reveal_strlit("reset_ring");
    reveal_strlit("tpgt_1");
    reveal_strlit("nexus");
    reveal_strlit("address");
    reveal_strlit("lun");
    reveal_strlit("lun_0");
    joined_is_under(base, "core"@);
    joined_is_under(base, "loopback"@);
    joined_is_under(base, "attrib"@);
    joined_is_under(base, "dev_size"@);
    joined_is_under(base, "control"@);
    joined_is_under(base, "enable"@);
    joined_is_under(base, "action"@);
    joined_is_under(base, "reset_ring"@);
    joined_is_under(base, "tpgt_1"@);
    joined_is_under(base, "nexus"@);
    joined_is_under(base, "address"@);
    joined_is_under(base, "lun"@);
    joined_is_under(base, "lun_0"@);
}

/// Whether `digits` write `n` in decimal.
pub open spec fn writes(digits: Seq<char>, n: int) -> bool {
    text_laws::is_decimal(digits) && text_laws::decimal_value(digits) == n
}

/// The directory of a device is named by its HBA and its name, and so is its UIO device.
pub proof fn names_of_a_device(settings: Settings) -> (hba: Seq<char>)
    requires
        settings.name.len() > 0,
        settings.name[0] != '/',
    ensures
        writes(hba, settings.hba_index as int),
        target::device_dir(settings) == "/sys/kernel/config/target/core/user_"@ + hba + "/"@
            + settings.name,
        target::uio_name_of(settings) == "tcm-user/"@ + hba + "/"@ + settings.name,
{
    let hba = text::decimal_text(settings.hba_index as nat);
    text_laws::decimal_text_reads_back(settings.hba_index as nat);
    reveal_strlit("/sys/kernel/config/target/core/user_");
    reveal_strlit("/sys/kernel/config/target");
    reveal_strlit("core");
    reveal_strlit("user_");
    reveal_strlit("/");
    let core = "/sys/kernel/config/target"@ + seq!['/'] + "core"@;
    joined_names("/sys/kernel/config/target"@);
    assert(text::joined(target::configfs(), "core"@) =~= core);
    let user = "user_"@ + hba;
    joined_is_under(core, user);
    assert(under(core, user) =~= core + seq!['/'] + user);
    joined_is_under(core + seq!['/'] + user, settings.name);
    assert(('0' <= hba[hba.len() - 1] <= '9'));
    assert(core + seq!['/'] + user + seq!['/'] + settings.name
        =~= "/sys/kernel/config/target/core/user_"@ + hba + "/"@ + settings.name);
    hba
}

/// Creating a device makes its directory, writes its size, its limits and its time-out in
/// decimal, and then switches it on; each step names what failed.
pub proof fn creation_in_configfs(settings: Settings) -> (digits: (Seq<char>, Seq<char>, Seq<char>))
    ensures
        ({
            let (size, time_out, sectors) = digits;
            let dir = target::device_dir(settings);
            let steps = target::create_steps(settings);
            let extra: int = if settings.hw_max_sectors is Some {
                1
            } else {
                0
            };
            &&& writes(size, settings.size_bytes as int)
            &&& writes(
                time_out,
                match settings.cmd_time_out {
                    Some(secs) => secs as int,
                    None => 10,
                },
            )
            &&& settings.hw_max_sectors matches Some(limit) ==> writes(sectors, limit as int)
            &&& steps.len() == 4 + extra
            &&& steps[0] == (StepView {
                action: FsAction::CreateDirAll { path: dir },
                context: Some("creating "@ + dir),
            })
            &&& steps[1] == (StepView {
                action: FsAction::Write {
                    path: under(under(dir, "attrib"@), "dev_size"@),
                    contents: size,
                },
                context: Some("writing dev_size"@),
            })
            &&& settings.hw_max_sectors is Some ==> steps[2] == (StepView {
                action: FsAction::Write {
                    path: under(dir, "control"@),
                    contents: "hw_max_sectors="@ + sectors,
                },
                context: Some("writing hw_max_sectors to control"@),
            })
            &&& steps[2 + extra] == (StepView {
                action: FsAction::Write {
                    path: under(dir, "control"@),
                    contents: "cmd_time_out="@ + time_out,
                },
                context: Some("writing cmd_time_out to control"@),
            })
            &&& steps[3 + extra] == (StepView {
                action: FsAction::Write { path: under(dir, "enable"@), contents: "1"@ },
                context: Some("enabling device"@),
            })
        }),
{
    let dir = target::device_dir(settings);
    joined_names(dir);
    joined_names(under(dir, "attrib"@));
    let secs = target::time_out_secs(settings);
    let limit = match settings.hw_max_sectors {
        Some(limit) => limit,
        None => 0,
    };
    text_laws::decimal_text_reads_back(settings.size_bytes as nat);
    text_laws::decimal_text_reads_back(secs as nat);
    text_laws::decimal_text_reads_back(limit as nat);
    (
        text::decimal_text(settings.size_bytes as nat),
        text::decimal_text(secs as nat),
        text::decimal_text(limit as nat),
    )
}

/// Settings are refused for an empty name, for no size, and for a size that is not made of
/// whole blocks of 512 bytes, in this order, and for nothing else.
pub proof fn settings_that_are_refused(settings: Settings)
    ensures
        target::settings_error(settings) == Some(BuildError::EmptyName) <==> settings.name.len()
            == 0,
        target::settings_error(settings) == Some(BuildError::ZeroSize) <==> settings.name.len() > 0
            && settings.size_bytes == 0,
        target::settings_error(settings) == Some(BuildError::UnalignedSize) <==> settings.name.len()
            > 0 && settings.size_bytes > 0 && settings.size_bytes % 512 != 0,
        target::settings_error(settings) is None <==> settings.name.len() > 0
            && settings.size_bytes > 0 && settings.size_bytes % 512 == 0,
        BuildError::EmptyName.text() == "device name must not be empty"@,
        BuildError::ZeroSize.text() == "size_bytes must be > 0"@,
        BuildError::UnalignedSize.text() == "size_bytes must be a multiple of 512"@,
{
}

/// Before anything is set, the name is empty, the size and the HBA are zero, and nothing
/// else is asked for.
pub proof fn nothing_is_set_at_first()
    ensures
        target::unset().name.len() == 0,
        target::unset().size_bytes == 0,
        target::unset().hba_index == 0,
        !target::unset().loopback,
        target::unset().wwn is None,
        target::unset().read_ahead_kb is None,
        target::unset().hw_max_sectors is None,
        target::unset().cmd_time_out is None,
{
}

/// A plan is that of its settings.
pub proof fn plans_are_for_their_settings(plan: TargetPlan, settings: Settings)
    requires
        plan.is_for(settings),
    ensures
        plan.device_configfs@ == target::device_dir(settings),
        plan.steps@.len() == target::create_steps(settings).len(),
        forall|i: int|
            0 <= i < plan.steps@.len() ==> #[trigger] plan.steps@[i]@ == target::create_steps(
                settings,
            )[i],
        plan.uio_name@ == target::uio_name_of(settings),
        plan.loopback_cfg is Some <==> settings.loopback,
        plan.loopback_cfg matches Some(cfg) ==> cfg.name@ == settings.name && cfg.read_ahead_kb
            == settings.read_ahead_kb && match settings.wwn {
            Some(wwn) => cfg.wwn@ == wwn,
            None => cfg.wwn@ == target::wwn_of(settings.name),
        },
{
    assert(target::steps_view(plan.steps@).len() == plan.steps@.len());
    assert forall|i: int| 0 <= i < plan.steps@.len() implies #[trigger] plan.steps@[i]@
        == target::create_steps(settings)[i] by {
        assert(target::steps_view(plan.steps@)[i] == plan.steps@[i]@);
    }
}

/// The hash of a name starts at 5381, and each byte adds itself to thirty-three times what
/// came before, in sixty-four bits.
pub proof fn hashes_of_names(bytes: Seq<u8>, next: u8)
    ensures
        target::name_hash(Seq::empty()) == 5381,
        target::name_hash(bytes.push(next)) == (target::name_hash(bytes) * 33 + next)
            % 0x1_0000_0000_0000_0000,
{
    assert(bytes.push(next).drop_last() =~= bytes);
}

/// A derived world-wide name is `naa.6` and the hash of the name in at least fifteen
/// hexadecimal digits, and in more only where those are needed.
pub proof fn derived_wwn_digits(name: Seq<char>) -> (digits: Seq<char>)
    ensures
        target::wwn_of(name) == "naa.6"@ + digits,
        text_laws::nibbles_value(digits) == target::name_hash(vstd::utf8::encode_utf8(name)),
        digits.len() >= 15,
        digits.len() > 15 ==> digits[0] != '0',
        forall|i: int| 0 <= i < digits.len() ==> text_laws::is_nibble(#[trigger] digits[i]),
{
    let hash = target::name_hash(vstd::utf8::encode_utf8(name)) as nat;
    text_laws::padded_hex_text_reads_back(hash, 15);
    text::padded_hex_text(hash, 15)
}

/// A loopback fabric is named by its world-wide name; its one logical unit is a link, named
/// as the device, and its address is what the kernel says without white space around it.
pub proof fn places_of_a_loopback(cfg: LoopbackSettings, address: Option<Seq<char>>)
    requires
        cfg.wwn.len() > 0,
        cfg.wwn[0] != '/',
        cfg.name.len() > 0,
        cfg.name[0] != '/',
    ensures
        ({
            let places = target::places_of(cfg, address);
            &&& places.wwn_dir == "/sys/kernel/config/target/loopback/"@ + cfg.wwn
            &&& places.tpgt_dir == under(places.wwn_dir, "tpgt_1"@)
            &&& target::lun_dir(places.tpgt_dir) == under(under(places.tpgt_dir, "lun"@), "lun_0"@)
            &&& places.lun_symlink == under(
                under(under(places.tpgt_dir, "lun"@), "lun_0"@),
                cfg.name,
            )
            &&& address is None ==> places.scsi_address is None
            &&& address matches Some(raw) ==> places.scsi_address == Some(text::trimmed(raw))
        }),
{
    let places = target::places_of(cfg, address);
    reveal_strlit("/sys/kernel/config/target/loopback/");
    reveal_strlit("/sys/kernel/config/target");
    reveal_strlit("loopback");
    joined_names("/sys/kernel/config/target"@);
    let parent = "/sys/kernel/config/target"@ + seq!['/'] + "loopback"@;
    assert(text::joined(target::configfs(), "loopback"@) =~= parent);
    joined_is_under(parent, cfg.wwn);
    assert(parent + seq!['/'] + cfg.wwn =~= "/sys/kernel/config/target/loopback/"@ + cfg.wwn);
    joined_names(places.wwn_dir);
    joined_names(places.tpgt_dir);
    joined_names(under(places.tpgt_dir, "lun"@));
    joined_is_under(target::lun_dir(places.tpgt_dir), cfg.name);
}

/// Setting a loopback fabric up makes the directory of its logical unit, tells the kernel
/// its world-wide name, links the device, and switches it on where the kernel asks for
/// that.
pub proof fn loopback_set_up(cfg: LoopbackSettings, places: LoopbackPlaces, device_dir: Seq<char>)
    ensures
        ({
            let lun = target::lun_dir(places.tpgt_dir);
            let steps = target::loopback_steps(cfg, places, device_dir);
            &&& steps.len() == 4
            &&& steps[0] == (StepView {
                action: FsAction::CreateDirAll { path: lun },
                context: Some("creating LUN directory "@ + lun),
            })
            &&& steps[1] == (StepView {
                action: FsAction::Write {
                    path: under(places.tpgt_dir, "nexus"@),
                    contents: cfg.wwn,
                },
                context: Some("writing loopback nexus"@),
            })
            &&& steps[2] == (StepView {
                action: FsAction::Symlink { original: device_dir, link: places.lun_symlink },
                context: Some(
                    "creating LUN symlink "@ + places.lun_symlink + " -> "@ + device_dir,
                ),
            })
            &&& steps[3] == (StepView {
                action: FsAction::Write {
                    path: under(places.tpgt_dir, "enable"@),
                    contents: "1"@,
                },
                context: None,
            })
        }),
{
    joined_names(places.tpgt_dir);
}

/// A step whose failure does not matter.
pub open spec fn tried(action: FsAction) -> StepView {
    StepView { action, context: None }
}

/// Taking a loopback fabric down switches it off, unlinks the device, and removes the
/// directories from the innermost out; nothing of that may fail the rest.
pub proof fn loopback_take_down(places: LoopbackPlaces)
    ensures
        target::unloop_steps(places) == seq![
            tried(
                FsAction::Write { path: under(places.tpgt_dir, "enable"@), contents: "0"@ },
            ),
            tried(FsAction::RemoveFile { path: places.lun_symlink }),
            tried(
                FsAction::RemoveDir { path: under(under(places.tpgt_dir, "lun"@), "lun_0"@) },
            ),
            tried(FsAction::RemoveDir { path: places.tpgt_dir }),
            tried(FsAction::RemoveDir { path: places.wwn_dir }),
        ],
{
    joined_names(places.tpgt_dir);
    joined_names(under(places.tpgt_dir, "lun"@));
}

/// A shutdown deletes the SCSI device, where its address is known, and takes the loopback
/// fabric down, where there is one.
pub proof fn shutdowns(places: LoopbackPlaces)
    ensures
        target::stop_steps(None).len() == 0,
        places.scsi_address is None ==> target::stop_steps(Some(places)) == target::unloop_steps(
            places,
        ),
        places.scsi_address matches Some(address) ==> target::stop_steps(Some(places)) == seq![
            tried(
                FsAction::Write {
                    path: "/sys/class/scsi_device/"@ + address + ":0/device/delete"@,
                    contents: "1"@,
                },
            ),
        ] + target::unloop_steps(places),
        forall|address: Seq<char>| #[trigger]
            target::delete_step(address) == tried(
                FsAction::Write {
                    path: "/sys/class/scsi_device/"@ + address + ":0/device/delete"@,
                    contents: "1"@,
                },
            ),
{
    assert(Seq::<StepView>::empty() + target::unloop_steps(places) =~= target::unloop_steps(places));
}

/// Removing a target resets its ring, takes its loopback fabric down, where there is one,
/// and removes its directory.
pub proof fn removals(device_dir: Seq<char>, places: LoopbackPlaces)
    ensures
        ({
            let reset = tried(
                FsAction::Write {
                    path: under(under(device_dir, "action"@), "reset_ring"@),
                    contents: "2"@,
                },
            );
            let removed = tried(FsAction::RemoveDir { path: device_dir });
            &&& target::removal_steps(device_dir, None) == seq![reset, removed]
            &&& target::removal_steps(device_dir, Some(places)) == seq![reset]
                + target::unloop_steps(places) + seq![removed]
        }),
{
    joined_names(device_dir);
    joined_names(under(device_dir, "action"@));
    assert(target::removal_steps(device_dir, None) =~= seq![
        tried(
            FsAction::Write {
                path: under(under(device_dir, "action"@), "reset_ring"@),
                contents: "2"@,
            },
        ),
        tried(FsAction::RemoveDir { path: device_dir }),
    ]);
}

/// The read-ahead is set on the device that the kernel lists for the SCSI address, exactly
/// where one is asked for and the address is known.
pub proof fn read_ahead_tuning(state: TargetState)
    ensures
        match (state.loopback_cfg, state.loopback) {
            (Some(cfg), Some(places)) => match (cfg.read_ahead_kb, places.scsi_address) {
                (Some(kb), Some(address)) => target::read_ahead_of(state) == Some(
                    ("/sys/class/scsi_device/"@ + address + ":0/device/block"@, kb),
                ),
                _ => target::read_ahead_of(state) is None,
            },
            _ => target::read_ahead_of(state) is None,
        },
{
}

/// A parameter of a queue is written to its file under the name of the device; a path
/// without a name is refused.
pub proof fn queue_parameters_in_sysfs(
    block_dev: Seq<char>,
    param: Seq<char>,
    value: Seq<char>,
    result: Result<Step, InvalidDevicePath>,
)
    requires
        target::queue_param_set(block_dev, param, value, result),
    ensures
        text::file_name_of(block_dev) matches Some(name) ==> {
            let path = "/sys/block/"@ + name + "/queue/"@ + param;
            &&& result matches Ok(step) && step@ == (StepView {
                action: FsAction::Write { path, contents: value },
                context: Some("writing "@ + value + " to "@ + path),
            })
        },
        text::file_name_of(block_dev) is None ==> (result matches Err(error)
            && error.path@ == block_dev),
{
}

/// Whether `text` is free of the separator of SCSI addresses.
pub open spec fn is_plain(text: Seq<char>) -> bool {
    forall|i: int| 0 <= i < text.len() ==> #[trigger] text[i] != ':'
}

/// An address of host, channel and target makes the kernel look for that target on that
/// host.
pub proof fn scans_of_addresses(host: Seq<char>, channel: Seq<char>, scsi_target: Seq<char>)
    requires
        is_plain(host),
        is_plain(channel),
        is_plain(scsi_target),
    ensures
        target::scan_steps(host + seq![':'] + channel + seq![':'] + scsi_target) == seq![
            tried(
                FsAction::Write {
                    path: "/sys/class/scsi_host/host"@ + host + "/scan"@,
                    contents: channel + " "@ + scsi_target + " 0"@,
                },
            ),
        ],
{
    let none = Seq::<char>::empty();
    assert(none + host =~= host);
    parts_with_a_piece(none, host);
    assert(text::parts_of(none, ':') =~= seq![none]);
    assert(text::parts_of(host, ':') =~= seq![host]);
    let first = host + seq![':'];
    assert(first.drop_last() =~= host);
    assert(text::parts_of(first, ':') =~= seq![host, none]);
    parts_with_a_piece(first, channel);
    assert(none + channel =~= channel);
    assert(text::parts_of(first + channel, ':') =~= seq![host, channel]);
    let second = first + channel + seq![':'];
    assert(second.drop_last() =~= first + channel);
    assert(text::parts_of(second, ':') =~= seq![host, channel, none]);
    parts_with_a_piece(second, scsi_target);
    assert(none + scsi_target =~= scsi_target);
    assert(text::parts_of(second + scsi_target, ':') =~= seq![host, channel, scsi_target]);
}

/// A piece without a separator makes the last part longer.
proof fn parts_with_a_piece(text: Seq<char>, piece: Seq<char>)
    requires
        is_plain(piece),
    ensures
        text::parts_of(text, ':').len() > 0,
        text::parts_of(text + piece, ':') == text::parts_of(text, ':').drop_last().push(
            text::parts_of(text, ':').last() + piece,
        ),
    decreases piece.len(),
{
    text_laws::split_texts(text, ':');
    let parts = text::parts_of(text, ':');
    if piece.len() == 0 {
        assert(text + piece =~= text);
        assert(parts.last() + piece =~= parts.last());
        assert(parts.drop_last().push(parts.last()) =~= parts);
    } else {
        let shorter = piece.drop_last();
        assert forall|i: int| 0 <= i < shorter.len() implies #[trigger] shorter[i] != ':' by {
            assert(shorter[i] == piece[i]);
        }
        parts_with_a_piece(text, shorter);
        assert((text + piece).drop_last() =~= text + shorter);
        assert(piece[piece.len() - 1] != ':');
        let before = text::parts_of(text + shorter, ':');
        assert(before.drop_last() =~= parts.drop_last());
        assert((parts.last() + shorter).push(piece.last()) =~= parts.last() + piece);
    }
}

/// How many separators of SCSI addresses `text` has.
pub open spec fn colons(text: Seq<char>) -> int
    decreases text.len(),
{
    if text.len() == 0 {
        0
    } else {
        colons(text.drop_last()) + if text.last() == ':' {
            1int
        } else {
            0
        }
    }
}

/// An address without exactly two separators makes the kernel look for nothing.
pub proof fn other_addresses_are_not_scanned(address: Seq<char>)
    ensures
        colons(address) != 2 ==> target::scan_steps(address).len() == 0,
        colons(address) == 2 ==> target::scan_steps(address).len() == 1,
{
    parts_and_colons(address);
}

/// There is one more part than separators.
proof fn parts_and_colons(text: Seq<char>)
    ensures
        text::parts_of(text, ':').len() == colons(text) + 1,
        colons(text) >= 0,
    decreases text.len(),
{
    if text.len() > 0 {
        parts_and_colons(text.drop_last());
    }
}

/// The values of steps and of what they do are those of their fields.
pub proof fn values_of_steps(
    steps: Seq<Step>,
    i: int,
    path: String,
    contents: String,
    cfg: LoopbackConfig,
    paths: LoopbackPaths,
)
    requires
        0 <= i < steps.len(),
    ensures
        target::steps_view(steps).len() == steps.len(),
        target::steps_view(steps)[i] == steps[i]@,
        steps[i]@.action == steps[i].op@,
        steps[i].context is None ==> steps[i]@.context is None,
        steps[i].context matches Some(context) ==> steps[i]@.context == Some(context@),
        (FsOp::CreateDirAll { path })@ == (FsAction::CreateDirAll { path: path@ }),
        (FsOp::Write { path, contents })@ == (FsAction::Write {
            path: path@,
            contents: contents@,
        }),
        (FsOp::Symlink { original: contents, link: path })@ == (FsAction::Symlink {
            original: contents@,
            link: path@,
        }),
        (FsOp::RemoveFile { path })@ == (FsAction::RemoveFile { path: path@ }),
        (FsOp::RemoveDir { path })@ == (FsAction::RemoveDir { path: path@ }),
        cfg@ == (LoopbackSettings {
            wwn: cfg.wwn@,
            name: cfg.name@,
            read_ahead_kb: cfg.read_ahead_kb,
        }),
        paths@.wwn_dir == paths.wwn_dir@,
        paths@.tpgt_dir == paths.tpgt_dir@,
        paths@.lun_symlink == paths.lun_symlink@,
        paths.scsi_address is None ==> paths@.scsi_address is None,
        paths.scsi_address matches Some(address) ==> paths@.scsi_address == Some(address@),
{
}

} // verus!
