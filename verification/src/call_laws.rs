//! What calls of the library's functions return and change.

use crate::block_device::{BlockDevice, DeviceError};
use crate::bytes::{
    put_be_u16, put_be_u32, put_be_u64, read_be_u16, read_be_u32, read_be_u64,
};
use crate::command;
use crate::device::{
    mode_sense_10_reply, mode_sense_6_reply, mode_sense_page, reply_to_read, reply_to_write,
    TcmuDevice, TcmuDeviceConfig,
};
use crate::event_loop;
use crate::event_loop::{Action, Event, EventLoop, Outcome};
use crate::ram_disk;
use crate::ram_disk::RamDisk;
use crate::response::{check_condition, good, sense_data, truncate_to_alloc_len, TcmuResponse};
use crate::ring::{ByteOrder, Ring, RingError};
use crate::ring_wire_laws;
use crate::scsi::{command_has_data_in, command_has_data_out};
use crate::semantics;
use crate::target;
use crate::target::{
    after_step, delete_scsi_device, derive_wwn, scan_scsi_address, set_max_sectors_kb,
    set_read_ahead_kb, set_scheduler, uio_name_matches, uio_size_file, wait_for_block_device,
    wait_for_uio, BlockDeviceWait, BuildError, InvalidDevicePath, LoopbackPlan, Settings, Step,
    TargetPlan, TargetState, TcmuTarget, TcmuTargetBuilder, UioWait,
};
use crate::target_laws;
use crate::text;
use crate::text::{decimal, file_name, hex_encode, join, padded_hex, parse_hex_size, split, trim};
use crate::text_laws;
use crate::wire_laws;
use vstd::prelude::*;

verus! {

/// Reading big-endian numbers.
pub proof fn calls_that_read_numbers(bytes: &[u8], short: u16, middle: u32, long: u64)
    ensures
        bytes@.len() == 2 && call_ensures(read_be_u16, (bytes,), short) ==> short
            == wire_laws::u16_at(bytes@, 0),
        bytes@.len() == 4 && call_ensures(read_be_u32, (bytes,), middle) ==> middle
            == wire_laws::u32_at(bytes@, 0),
        bytes@.len() == 8 && call_ensures(read_be_u64, (bytes,), long) ==> long
            == wire_laws::u64_at(bytes@, 0),
{
    wire_laws::big_endian_numbers(bytes@, 0);
    assert(bytes@.subrange(0, bytes@.len() as int) =~= bytes@);
}

/// Writing big-endian numbers.
pub proof fn calls_that_write_numbers()
    ensures
        forall|dst: &mut [u8], value: u16|
            #[trigger] call_ensures(put_be_u16, (dst, value), ()) ==> (*final(dst))@.len() == 2
                && wire_laws::u16_at((*final(dst))@, 0) == value,
        forall|dst: &mut [u8], value: u32|
            #[trigger] call_ensures(put_be_u32, (dst, value), ()) ==> (*final(dst))@.len() == 4
                && wire_laws::u32_at((*final(dst))@, 0) == value,
        forall|dst: &mut [u8], value: u64|
            #[trigger] call_ensures(put_be_u64, (dst, value), ()) ==> (*final(dst))@.len() == 8
                && wire_laws::u64_at((*final(dst))@, 0) == value,
{
    assert forall|dst: &mut [u8], value: u16| #[trigger]
        call_ensures(put_be_u16, (dst, value), ()) implies (*final(dst))@.len() == 2
        && wire_laws::u16_at((*final(dst))@, 0) == value by {
        wire_laws::big_endian_forms(value as nat);
    }
    assert forall|dst: &mut [u8], value: u32| #[trigger]
        call_ensures(put_be_u32, (dst, value), ()) implies (*final(dst))@.len() == 4
        && wire_laws::u32_at((*final(dst))@, 0) == value by {
        wire_laws::big_endian_forms(value as nat);
    }
    assert forall|dst: &mut [u8], value: u64| #[trigger]
        call_ensures(put_be_u64, (dst, value), ()) implies (*final(dst))@.len() == 8
        && wire_laws::u64_at((*final(dst))@, 0) == value by {
        wire_laws::big_endian_forms(value as nat);
    }
}

/// Making responses.
pub proof fn calls_that_respond(
    data: Vec<u8>,
    key: u8,
    asc: u8,
    ascq: u8,
    room: usize,
    response: TcmuResponse,
    bytes: Vec<u8>,
)
    ensures
        call_ensures(good, (data,), response) ==> response.status == 0 && response.data@ == data@
            && response.sense@.len() == 0,
        call_ensures(sense_data, (key, asc, ascq), bytes) ==> bytes@ == seq![
            0x70u8,
            0,
            key,
            0,
            0,
            0,
            0,
            10,
            0,
            0,
            0,
            0,
            asc,
            ascq,
            0,
            0,
            0,
            0,
        ],
        call_ensures(check_condition, (key, asc, ascq), response) ==> response.status == 2
            && response.data@.len() == 0 && response.sense@ == seq![
            0x70u8,
            0,
            key,
            0,
            0,
            0,
            0,
            10,
            0,
            0,
            0,
            0,
            asc,
            ascq,
            0,
            0,
            0,
            0,
        ],
        call_ensures(truncate_to_alloc_len, (data, room), bytes) ==> {
            &&& bytes@.len() == if data@.len() < room {
                data@.len() as int
            } else {
                room as int
            }
            &&& forall|i: int| 0 <= i < bytes@.len() ==> #[trigger] bytes@[i] == data@[i]
        },
{
    wire_laws::replies_on_the_wire(data@, room as int, key, asc, ascq);
    if call_ensures(good, (data,), response) {
        assert(response@.status == response.status);
    }
}

/// Telling which commands come with data, and which ask for some.
pub proof fn calls_on_directions(opcode: u8, answer: bool)
    ensures
        call_ensures(command_has_data_out, (opcode,), answer) ==> answer
            == ring_wire_laws::comes_with_data(opcode),
        call_ensures(command_has_data_in, (opcode,), answer) ==> answer == (opcode == 0x08
            || opcode == 0x28 || opcode == 0xa8 || opcode == 0x88),
{
    wire_laws::data_directions(opcode);
}

/// Writing and reading text.
pub proof fn calls_on_text(
    bytes: &[u8],
    n: u64,
    width: u32,
    one: &str,
    other: &str,
    separator: char,
    made: String,
    parts: Vec<String>,
    name: Option<String>,
    size: Option<usize>,
)
    ensures
        call_ensures(hex_encode, (bytes,), made) ==> made@ == text::hex_text(bytes@),
        call_ensures(decimal, (n,), made) ==> target_laws::writes(made@, n as int),
        call_ensures(padded_hex, (n, width), made) ==> text_laws::nibbles_value(made@) == n
            && made@.len() >= width,
        call_ensures(join, (one, other), made) ==> made@ == text::joined(one@, other@),
        call_ensures(trim, (one,), made) ==> made@ == text::trimmed(one@),
        call_ensures(split, (one, separator), parts) ==> parts@.len() == text::parts_of(
            one@,
            separator,
        ).len() && forall|i: int|
            0 <= i < parts@.len() ==> (#[trigger] parts@[i])@ == text::parts_of(one@, separator)[i],
        call_ensures(file_name, (one,), name) ==> match text::file_name_of(one@) {
            Some(expected) => name matches Some(found) && found@ == expected,
            None => name is None,
        },
        call_ensures(parse_hex_size, (one,), size) ==> match text::hex_size(one@) {
            Some(expected) => size matches Some(found) && found == expected,
            None => size is None,
        },
{
    text_laws::decimal_text_reads_back(n as nat);
    text_laws::padded_hex_text_reads_back(n as nat, width as nat);
    if call_ensures(split, (one, separator), parts) {
        assert(text::views(parts@).len() == parts@.len());
        assert forall|i: int| 0 <= i < parts@.len() implies (#[trigger] parts@[i])@
            == text::parts_of(one@, separator)[i] by {
            assert(text::views(parts@)[i] == parts@[i]@);
        }
    }
}

/// Answering what a device returned, and mode pages.
pub proof fn calls_that_answer(
    read: Result<Vec<u8>, DeviceError>,
    written: Result<(), DeviceError>,
    page_code: u8,
    room: usize,
    read_only: bool,
    response: TcmuResponse,
    page: Option<Vec<u8>>,
)
    ensures
        call_ensures(reply_to_read, (read,), response) ==> match read {
            Ok(bytes) => wire_laws::is_good(response@, bytes@),
            Err(_) => wire_laws::is_refusal(response@, 5, 0x21),
        },
        call_ensures(reply_to_write, (written,), response) ==> match written {
            Ok(_) => wire_laws::is_good(response@, Seq::empty()),
            Err(_) => wire_laws::is_refusal(response@, 3, 0x0c),
        },
        call_ensures(mode_sense_page, (page_code,), page) ==> if page_code == 8 || page_code == 63 {
            page matches Some(bytes) && bytes@ == wire_laws::caching_bytes()
        } else {
            page is None
        },
        call_ensures(mode_sense_6_reply, (page_code, room, read_only), response) ==> if page_code
            == 8 || page_code == 63 {
            wire_laws::is_good_up_to(
                response@,
                seq![
                    23u8,
                    0,
                    (if read_only {
                        0x80u8
                    } else {
                        0u8
                    }),
                    0,
                ] + wire_laws::caching_bytes(),
                room as int,
            )
        } else {
            wire_laws::is_refusal(response@, 5, 0x20)
        },
        call_ensures(mode_sense_10_reply, (page_code, room, read_only), response) ==> if page_code
            == 8 || page_code == 63 {
            wire_laws::is_good_up_to(
                response@,
                seq![
                    0u8,
                    26,
                    0,
                    (if read_only {
                        0x80u8
                    } else {
                        0u8
                    }),
                    0,
                    0,
                    0,
                    0,
                ] + wire_laws::caching_bytes(),
                room as int,
            )
        } else {
            wire_laws::is_refusal(response@, 5, 0x20)
        },
{
    wire_laws::device_results_on_the_wire(read);
    wire_laws::mode_data_on_the_wire(read_only);
    wire_laws::replies_on_the_wire(command::mode_data_6(read_only), room as int, 0, 0, 0);
    wire_laws::replies_on_the_wire(command::mode_data_10(read_only), room as int, 0, 0, 0);
}

/// Making a processor and asking it about its device.
pub proof fn calls_of_a_processor<D: BlockDevice>(
    device: D,
    config: TcmuDeviceConfig,
    processor: TcmuDevice<D>,
    page_code: u8,
    size: u32,
    count: u64,
    page: Vec<u8>,
)
    ensures
        call_ensures(TcmuDevice::<D>::new, (device, config), processor) ==> processor.backing()
            == device && processor.identity() == config@,
        call_ensures(TcmuDevice::<D>::logical_block_size, (&processor,), size) ==> size == 512,
        call_ensures(TcmuDevice::<D>::logical_block_count, (&processor,), count) ==> count * 512
            <= processor.backing().size() < (count + 1) * 512,
        call_ensures(TcmuDevice::<D>::vpd_page, (&processor, page_code), page)
            && processor.identity() == config@ ==> wire_laws::is_page(
            config,
            processor.backing().id(),
            page_code,
            page@,
        ),
{
    wire_laws::pages_on_the_wire(config, processor.backing().id(), page_code);
    wire_laws::block_counts(processor.backing().size() as int);
}

/// Executing a command is answered as its device and its identity answer, the identity
/// stays, and where the command has to be handed to the device, the last call of its
/// `write_at` gives both the reply and the device after it.
pub proof fn calls_of_execute<D: BlockDevice>()
    ensures
        forall|processor: &mut TcmuDevice<D>, cdb: &[u8], data_out: &[u8], response: TcmuResponse|
            #[trigger] call_ensures(
                TcmuDevice::<D>::execute,
                (processor, cdb, data_out),
                response,
            ) ==> {
                &&& semantics::answers(
                    (*processor).identity(),
                    (*processor).backing(),
                    cdb@,
                    data_out@,
                    (*final(processor)).backing(),
                    response@,
                )
                &&& (*final(processor)).identity() == (*processor).identity()
                &&& semantics::writing_is_due(
                    (*processor).backing(),
                    cdb@,
                    data_out@,
                    response@,
                ) ==> exists|
                    device: &mut D,
                    offset: u64,
                    slice: &[u8],
                    result: Result<(), DeviceError>,
                |
                    {
                        &&& #[trigger] call_ensures(D::write_at, (device, offset, slice), result)
                        &&& semantics::last_write_made(
                            (*processor).backing(),
                            cdb@,
                            data_out@,
                            *device,
                            offset,
                            slice@,
                            result is Ok,
                            response@,
                        )
                        &&& *final(device) == (*final(processor)).backing()
                    }
            },
{
}

/// Making RAM disks and using them.
pub proof fn calls_of_a_ram_disk(
    data: Vec<u8>,
    disk: RamDisk,
    offset: u64,
    len: usize,
    size: u64,
    read_only: bool,
    id: Vec<u8>,
    read: Result<Vec<u8>, DeviceError>,
)
    ensures
        call_ensures(RamDisk::new, (data,), disk) ==> disk.contents() == data@
            && !disk.is_writable() && disk.id() == ram_disk::id_of(data@),
        call_ensures(RamDisk::new_writable, (data,), disk) ==> disk.contents() == data@
            && disk.is_writable() && disk.id() == ram_disk::id_of(data@),
        call_ensures(RamDisk::size_bytes, (&disk,), size) ==> size == disk.contents().len(),
        call_ensures(RamDisk::is_read_only, (&disk,), read_only) ==> read_only
            == !disk.is_writable(),
        call_ensures(RamDisk::id_bytes, (&disk,), id) ==> id@ == disk.id(),
        call_ensures(RamDisk::read_at, (&disk, offset, len), read) ==> (read matches Ok(bytes)
            && bytes@ == disk.contents().subrange(offset as int, offset + len)),
{
}

/// Writing to a RAM disk succeeds exactly where it can be written and has the bytes; then
/// these are replaced and nothing else, and otherwise nothing is and the error says why.
pub proof fn calls_that_write_a_ram_disk()
    ensures
        forall|disk: &mut RamDisk, offset: u64, data: &[u8], result: Result<(), DeviceError>|
            #[trigger] call_ensures(RamDisk::write_at, (disk, offset, data), result) ==> {
                let before = (*disk).contents();
                let after = (*final(disk)).contents();
                &&& result is Ok <==> (*disk).is_writable() && offset + data@.len() <= (
                *disk).size()
                &&& result is Err ==> *final(disk) == *disk
                &&& result matches Err(error) ==> error.message@ == if (*disk).is_writable() {
                    "write out of range"@
                } else {
                    "the disk is read-only"@
                }
                &&& result is Ok ==> {
                    &&& after.len() == before.len()
                    &&& forall|at: int|
                        0 <= at < after.len() ==> #[trigger] after[at] == if offset <= at < offset
                            + data@.len() {
                            data@[at - offset]
                        } else {
                            before[at]
                        }
                    &&& (*final(disk)).id() == (*disk).id()
                    &&& (*final(disk)).is_writable()
                }
            },
{
}

/// Finding the ring through the mailbox.
pub proof fn calls_of_attach(
    memory: &[u8],
    order: ByteOrder,
    attached: Result<Ring, RingError>,
)
    requires
        call_ensures(Ring::attach, (memory, order), attached),
    ensures
        memory@.len() < 12 ==> attached == Err::<Ring, RingError>(RingError::OutOfBounds),
        memory@.len() >= 12 ==> (attached matches Ok(found) && found.order == order
            && found.cmdr_off == ring_wire_laws::raw_u32(order, memory@, 4) && found.cmdr_size
            == ring_wire_laws::raw_u32(order, memory@, 8)),
{
    ring_wire_laws::numbers_in_memory(order, memory@, 4);
    ring_wire_laws::numbers_in_memory(order, memory@, 8);
}

/// Serving entries: nothing where head and tail meet, and else the entry at the tail.
pub proof fn calls_that_serve<D: BlockDevice>()
    ensures
        forall|
            found: Ring,
            memory: &mut [u8],
            tail: u32,
            processor: &mut TcmuDevice<D>,
            result: Result<u32, RingError>,
        |
            #[trigger] call_ensures(
                Ring::serve_entry::<D>,
                (&found, memory, tail, processor),
                result,
            ) ==> found.served(
                *processor,
                (*memory)@,
                tail,
                *final(processor),
                (*final(memory))@,
                result,
            ),
        forall|
            found: Ring,
            memory: &mut [u8],
            head: u32,
            tail: u32,
            processor: &mut TcmuDevice<D>,
            result: Result<Option<u32>, RingError>,
        |
            #[trigger] call_ensures(
                Ring::serve_next::<D>,
                (&found, memory, head, tail, processor),
                result,
            ) ==> if head == tail {
                &&& *final(processor) == *processor
                &&& (*final(memory))@ == (*memory)@
                &&& result == Ok::<Option<u32>, RingError>(None)
            } else {
                &&& result != Ok::<Option<u32>, RingError>(None)
                &&& found.served(
                    *processor,
                    (*memory)@,
                    tail,
                    *final(processor),
                    (*final(memory))@,
                    match result {
                        Ok(new_tail) => Ok(new_tail->Some_0),
                        Err(error) => Err(error),
                    },
                )
            },
{
}

/// Starting the event loop, and ending it.
pub proof fn calls_around_the_loop(
    awaiting_loopback: bool,
    begun: (EventLoop, Action),
    outcome: Outcome,
    panicked: bool,
    after: Outcome,
    raises: bool,
)
    ensures
        call_ensures(EventLoop::start, (awaiting_loopback,), begun) ==> begun.0.awaiting_loopback
            == awaiting_loopback && (awaiting_loopback ==> begun.1 == Action::CheckLoopback) && (
        !awaiting_loopback ==> begun.1 == Action::Poll),
        call_ensures(Outcome::after_join, (outcome, panicked), after) ==> after == if outcome
            == Outcome::Stopped && panicked {
            Outcome::LoopbackPanicked
        } else {
            outcome
        },
        call_ensures(Outcome::raises_stop, (&outcome,), raises) ==> (!raises <==> outcome
            == Outcome::Stopped || outcome == Outcome::LoopbackPanicked),
{
}

/// Stepping reacts to the event, and forgets the loopback fabric once it is there.
pub proof fn calls_of_step()
    ensures
        forall|state: &mut EventLoop, event: Event, action: Action|
            #[trigger] call_ensures(EventLoop::step, (state, event), action) ==> {
                &&& action == event_loop::reaction((*state).awaiting_loopback, event)
                &&& (*final(state)).awaiting_loopback == ((*state).awaiting_loopback && event
                    != Event::LoopbackReady)
            },
{
}

/// Setting one thing leaves the others.
pub proof fn calls_of_a_builder(
    before: TcmuTargetBuilder,
    after: TcmuTargetBuilder,
    text: String,
    long: u64,
    short: u32,
)
    ensures
        call_ensures(TcmuTarget::builder, (), after) ==> after@ == target::unset(),
        call_ensures(TcmuTargetBuilder::name, (before, text), after) ==> after@ == (Settings {
            name: text@,
            ..before@
        }),
        call_ensures(TcmuTargetBuilder::size_bytes, (before, long), after) ==> after@ == (Settings {
            size_bytes: long,
            ..before@
        }),
        call_ensures(TcmuTargetBuilder::hba_index, (before, short), after) ==> after@ == (Settings {
            hba_index: short,
            ..before@
        }),
        call_ensures(TcmuTargetBuilder::with_loopback, (before,), after) ==> after@ == (Settings {
            loopback: true,
            ..before@
        }),
        call_ensures(TcmuTargetBuilder::wwn, (before, text), after) ==> after@ == (Settings {
            wwn: Some(text@),
            ..before@
        }),
        call_ensures(TcmuTargetBuilder::read_ahead_kb, (before, short), after) ==> after@ == (
        Settings { read_ahead_kb: Some(short), ..before@ }),
        call_ensures(TcmuTargetBuilder::hw_max_sectors, (before, short), after) ==> after@ == (
        Settings { hw_max_sectors: Some(short), ..before@ }),
        call_ensures(TcmuTargetBuilder::cmd_time_out, (before, long), after) ==> after@ == (
        Settings { cmd_time_out: Some(long), ..before@ }),
{
}

/// Building a target from its settings, and what is known of it then.
pub proof fn calls_that_make_a_target(
    builder: TcmuTargetBuilder,
    built: Result<TargetPlan, BuildError>,
    plan: TargetPlan,
    uio_path: String,
    made: TcmuTarget,
    path: &str,
    stopped: bool,
)
    ensures
        call_ensures(TcmuTargetBuilder::build, (builder,), built) ==> {
            let settings = builder@;
            &&& built is Ok <==> settings.name.len() > 0 && settings.size_bytes > 0
                && settings.size_bytes % 512 == 0
            &&& built matches Ok(plan) ==> plan.is_for(settings)
            &&& built == Err::<TargetPlan, BuildError>(BuildError::EmptyName)
                <==> settings.name.len() == 0
            &&& built == Err::<TargetPlan, BuildError>(BuildError::ZeroSize)
                <==> settings.name.len() > 0 && settings.size_bytes == 0
            &&& built == Err::<TargetPlan, BuildError>(BuildError::UnalignedSize)
                <==> settings.name.len() > 0 && settings.size_bytes % 512 != 0
        },
        call_ensures(TargetPlan::created, (plan, uio_path), made) ==> {
            &&& made@.device_dir == plan.device_configfs@
            &&& made@.uio_path == uio_path@
            &&& made@.loopback is None
            &&& !made@.stopped
            &&& match plan.loopback_cfg {
                Some(cfg) => made@.loopback_cfg == Some(cfg@),
                None => made@.loopback_cfg is None,
            }
        },
        call_ensures(TcmuTarget::uio_path, (&made,), path) ==> path@ == made@.uio_path,
        call_ensures(TcmuTarget::is_stopped, (&made,), stopped) ==> stopped == made@.stopped,
{
    target_laws::settings_that_are_refused(builder@);
}

/// Saying in words what is wrong.
pub proof fn calls_for_a_message(error: BuildError, invalid: InvalidDevicePath, text: String)
    ensures
        call_ensures(BuildError::message, (&error,), text) ==> text@ == match error {
            BuildError::EmptyName => "device name must not be empty"@,
            BuildError::ZeroSize => "size_bytes must be > 0"@,
            BuildError::UnalignedSize => "size_bytes must be a multiple of 512"@,
        },
        call_ensures(InvalidDevicePath::message, (&invalid,), text) ==> text@
            == "invalid block device path: "@ + invalid.path@,
{
}

/// Asking a target for its loopback fabric, its tuning and its removal.
pub proof fn calls_on_a_target(
    made: TcmuTarget,
    plan: Option<LoopbackPlan>,
    tuning: Option<(String, u32)>,
    steps: Vec<Step>,
)
    ensures
        call_ensures(TcmuTarget::create_loopback, (&made,), plan) ==> {
            &&& plan is Some <==> made@.loopback_cfg is Some && made@.loopback is None
                && !made@.stopped
            &&& plan matches Some(plan) ==> {
                let cfg = made@.loopback_cfg->Some_0;
                let places = target::places_of(cfg, None);
                &&& target::steps_view(plan.steps@) == target::loopback_steps(
                    cfg,
                    places,
                    made@.device_dir,
                )
                &&& plan.address_file@ == target_laws::under(places.tpgt_dir, "address"@)
            }
        },
        call_ensures(TcmuTarget::read_ahead, (&made,), tuning) ==> match target::read_ahead_of(
            made@,
        ) {
            Some((dir, kb)) => tuning matches Some(found) && found.0@ == dir && found.1 == kb,
            None => tuning is None,
        },
        call_ensures(TcmuTarget::drop_steps, (&made,), steps) ==> target::steps_view(steps@)
            == target::removal_steps(made@.device_dir, made@.loopback),
{
    if let Some(cfg) = made@.loopback_cfg {
        target_laws::joined_names(target::places_of(cfg, None).tpgt_dir);
    }
}

/// Noting that the loopback fabric is there, and shutting a target down.
pub proof fn calls_that_change_a_target()
    ensures
        forall|made: &mut TcmuTarget, address: Option<String>, steps: Vec<Step>|
            #[trigger] call_ensures(TcmuTarget::loopback_created, (made, address), steps) ==> {
                let before = (*made)@;
                let after = (*final(made))@;
                let raw = match address {
                    Some(address) => Some(address@),
                    None => None,
                };
                match before.loopback_cfg {
                    Some(cfg) => {
                        &&& after == (TargetState {
                            loopback: Some(target::places_of(cfg, raw)),
                            ..before
                        })
                        &&& raw is None ==> steps@.len() == 0
                        &&& raw matches Some(raw) ==> target::steps_view(steps@)
                            == target::scan_steps(text::trimmed(raw))
                    },
                    None => after == before && steps@.len() == 0,
                }
            },
        forall|made: &mut TcmuTarget, steps: Vec<Step>|
            #[trigger] call_ensures(TcmuTarget::stop, (made,), steps) ==> {
                &&& (*final(made))@ == (TargetState { loopback: None, stopped: true, ..(*made)@ })
                &&& target::steps_view(steps@) == target::stop_steps((*made)@.loopback)
            },
{
    assert forall|made: &mut TcmuTarget, address: Option<String>, steps: Vec<Step>|
        #[trigger] call_ensures(TcmuTarget::loopback_created, (made, address), steps)
            && address is None implies steps@.len() == 0 by {
        assert(target::steps_view(steps@).len() == steps@.len());
    }
}

/// Deciding after a step and while waiting.
pub proof fn calls_that_decide(
    step: Step,
    failed: bool,
    ends: bool,
    found: Option<String>,
    expired: bool,
    stopped: bool,
    uio: UioWait,
    block: BlockDeviceWait,
    one: &str,
    other: &str,
    same: bool,
    file: Option<String>,
)
    ensures
        call_ensures(after_step, (&step, failed), ends) ==> ends == (failed
            && step.context is Some),
        call_ensures(wait_for_uio, (found, expired), uio) ==> match found {
            Some(entry) => uio matches UioWait::Found(path) && path@ == text::joined(
                "/dev"@,
                entry@,
            ),
            None => if expired {
                uio is GiveUp
            } else {
                uio is Sleep
            },
        },
        call_ensures(wait_for_block_device, (found, expired, stopped), block) ==> if stopped {
            block is GiveUp
        } else {
            match found {
                Some(entry) => block matches BlockDeviceWait::Found(path) && path@ == text::joined(
                    "/dev"@,
                    entry@,
                ),
                None => if expired {
                    block is GiveUp
                } else {
                    block is Sleep
                },
            }
        },
        call_ensures(uio_name_matches, (one, other), same) ==> same == (text::trimmed(one@)
            == other@),
        call_ensures(uio_size_file, (one,), file) ==> match text::file_name_of(one@) {
            Some(name) => file matches Some(path) && path@ == "/sys/class/uio/"@ + name
                + "/maps/map0/size"@,
            None => file is None,
        },
{
}

/// Naming and tuning devices.
pub proof fn calls_that_name_steps(
    device: &str,
    value: &str,
    kb: u32,
    wwn: String,
    step: Step,
    steps: Vec<Step>,
    result: Result<Step, InvalidDevicePath>,
)
    ensures
        call_ensures(derive_wwn, (device,), wwn) ==> wwn@ == target::wwn_of(device@),
        call_ensures(scan_scsi_address, (device,), steps) ==> target::steps_view(steps@)
            == target::scan_steps(device@),
        call_ensures(delete_scsi_device, (device,), step) ==> step@ == target::delete_step(device@),
        call_ensures(set_scheduler, (device, value), result) ==> target::queue_param_set(
            device@,
            "scheduler"@,
            value@,
            result,
        ),
        call_ensures(set_read_ahead_kb, (device, kb), result) ==> exists|digits: Seq<char>|
            #[trigger] target_laws::writes(digits, kb as int) && target::queue_param_set(
                device@,
                "read_ahead_kb"@,
                digits,
                result,
            ),
        call_ensures(set_max_sectors_kb, (device, kb), result) ==> exists|digits: Seq<char>|
            #[trigger] target_laws::writes(digits, kb as int) && target::queue_param_set(
                device@,
                "max_sectors_kb"@,
                digits,
                result,
            ),
{
    text_laws::decimal_text_reads_back(kb as nat);
    assert(target_laws::writes(text::decimal_text(kb as nat), kb as int));
}

} // verus!
