//! What holds of the command processor over all commands and devices.

use crate::block_device;
use crate::block_device::BlockDevice;
use crate::bytes;
use crate::command;
use crate::command::{Identity, Request};
use crate::device::TcmuDeviceConfig;
use crate::response;
use crate::response::Reply;
use crate::scsi;
use crate::scsi::{
    INQUIRY_VPD_DEVICE_ID, INQUIRY_VPD_SUPPORTED_PAGES, INQUIRY_VPD_UNIT_SERIAL, READ_10, READ_12,
    READ_16, READ_6, SAM_STAT_CHECK_CONDITION, SAM_STAT_GOOD, SENSE_FIXED_CURRENT, WRITE_10,
    WRITE_12, WRITE_16, WRITE_6, WRITE_SAME_10, WRITE_SAME_16,
};
use crate::semantics;
use crate::text;
use vstd::prelude::*;

verus! {

/// Whether reading `device` gives the bytes of `contents`.
pub open spec fn read_gives<D: BlockDevice>(
    contents: spec_fn(D) -> Seq<u8>,
    device: D,
    offset: u64,
    len: usize,
    bytes: Vec<u8>,
) -> bool {
    block_device::reads_as(device, offset, len, Ok(bytes)) && offset + len <= device.size()
        ==> bytes@ == contents(device).subrange(offset as int, offset + len)
}

/// Whether a write to `pre` that succeeds replaces bytes of `contents`, and no others.
pub open spec fn write_takes<D: BlockDevice>(
    contents: spec_fn(D) -> Seq<u8>,
    pre: D,
    offset: u64,
    data: Seq<u8>,
    post: D,
) -> bool {
    D::write_succeeds(pre, offset, data, post) && offset + data.len() <= pre.size() ==> contents(
        post,
    ) == bytes::splice(contents(pre), offset as int, data)
}

/// Whether `contents` tells what devices of this type store: as many bytes as the
/// size, which reads return and writes replace.
pub open spec fn stores<D: BlockDevice>(contents: spec_fn(D) -> Seq<u8>) -> bool {
    &&& forall|device: D| #[trigger] contents(device).len() == device.size()
    &&& forall|device: D, offset: u64, len: usize, bytes: Vec<u8>| #[trigger]
        read_gives(contents, device, offset, len, bytes)
    &&& forall|pre: D, offset: u64, data: Seq<u8>, post: D| #[trigger]
        write_takes(contents, pre, offset, data, post)
}

/// The blocks from `lba` on, `blocks` of them, of a device that stores `contents`.
pub open spec fn stored_blocks(contents: Seq<u8>, lba: int, blocks: int) -> Seq<u8> {
    contents.subrange(semantics::byte_len(lba), semantics::byte_len(lba + blocks))
}

/// No command names a negative address or block count.
pub proof fn request_is_natural(cdb: Seq<u8>)
    ensures
        command::requested(cdb) matches Request::Read { lba, blocks } ==> lba >= 0 && blocks >= 0,
        command::requested(cdb) matches Request::Write { lba, blocks } ==> lba >= 0 && blocks >= 0,
        command::requested(cdb) matches Request::WriteSame { lba, blocks } ==> lba >= 0 && blocks
            >= 0,
{
}

/// A read that succeeds returns the blocks that the device stores.
pub proof fn read_returns_stored_blocks<D: BlockDevice>(
    contents: spec_fn(D) -> Seq<u8>,
    identity: Identity,
    device: D,
    cdb: Seq<u8>,
    data_out: Seq<u8>,
    post: D,
    reply: Reply,
    lba: int,
    blocks: int,
)
    requires
        stores(contents),
        command::requested(cdb) == (Request::Read { lba, blocks }),
        semantics::answers(identity, device, cdb, data_out, post, reply),
        reply.status == SAM_STAT_GOOD,
    ensures
        semantics::in_range(lba, blocks, device.size() as int),
        reply.data == stored_blocks(contents(device), lba, blocks),
        post == device,
{
    request_is_natural(cdb);
    let len = semantics::byte_len(blocks);
    let result = choose|result: Result<Vec<u8>, block_device::DeviceError>| #[trigger]
        block_device::reads_as(device, semantics::byte_offset(lba), len as usize, result) && reply
            == semantics::read_reply(result);
    assert(read_gives(
        contents,
        device,
        semantics::byte_offset(lba),
        len as usize,
        result->Ok_0,
    ));
}

/// A write that succeeds replaces the blocks that it names by the data that came with
/// it, and leaves all other bytes as they were.
pub proof fn write_replaces_blocks<D: BlockDevice>(
    contents: spec_fn(D) -> Seq<u8>,
    identity: Identity,
    pre: D,
    cdb: Seq<u8>,
    data_out: Seq<u8>,
    post: D,
    reply: Reply,
    lba: int,
    blocks: int,
)
    requires
        stores(contents),
        command::requested(cdb) == (Request::Write { lba, blocks }),
        semantics::answers(identity, pre, cdb, data_out, post, reply),
        reply.status == SAM_STAT_GOOD,
    ensures
        semantics::in_range(lba, blocks, pre.size() as int),
        data_out.len() >= semantics::byte_len(blocks),
        contents(post) == bytes::splice(
            contents(pre),
            semantics::byte_len(lba),
            data_out.take(semantics::byte_len(blocks)),
        ),
        post.size() == pre.size(),
{
    request_is_natural(cdb);
    let data = data_out.take(semantics::byte_len(blocks));
    assert(write_takes(contents, pre, semantics::byte_offset(lba), data, post));
    assert(contents(post).len() == contents(pre).len());
}

/// What a write stores, a read of the same blocks returns, whichever forms of the two
/// commands are used.
pub proof fn read_returns_what_was_written<D: BlockDevice>(
    contents: spec_fn(D) -> Seq<u8>,
    identity: Identity,
    pre: D,
    write_cdb: Seq<u8>,
    written: Seq<u8>,
    mid: D,
    write_answer: Reply,
    read_cdb: Seq<u8>,
    data_out: Seq<u8>,
    post: D,
    read_answer: Reply,
    lba: int,
    blocks: int,
)
    requires
        stores(contents),
        command::requested(write_cdb) == (Request::Write { lba, blocks }),
        semantics::answers(identity, pre, write_cdb, written, mid, write_answer),
        write_answer.status == SAM_STAT_GOOD,
        command::requested(read_cdb) == (Request::Read { lba, blocks }),
        semantics::answers(identity, mid, read_cdb, data_out, post, read_answer),
        read_answer.status == SAM_STAT_GOOD,
    ensures
        read_answer.data == written.take(semantics::byte_len(blocks)),
{
    request_is_natural(write_cdb);
    write_replaces_blocks(
        contents,
        identity,
        pre,
        write_cdb,
        written,
        mid,
        write_answer,
        lba,
        blocks,
    );
    read_returns_stored_blocks(
        contents,
        identity,
        mid,
        read_cdb,
        data_out,
        post,
        read_answer,
        lba,
        blocks,
    );
    assert(read_answer.data =~= written.take(semantics::byte_len(blocks)));
}

/// A write leaves every block outside its range as it was.
pub proof fn write_leaves_other_blocks<D: BlockDevice>(
    contents: spec_fn(D) -> Seq<u8>,
    identity: Identity,
    pre: D,
    cdb: Seq<u8>,
    data_out: Seq<u8>,
    post: D,
    reply: Reply,
    lba: int,
    blocks: int,
    other: int,
)
    requires
        stores(contents),
        command::requested(cdb) == (Request::Write { lba, blocks }),
        semantics::answers(identity, pre, cdb, data_out, post, reply),
        reply.status == SAM_STAT_GOOD,
        0 <= other < command::block_count(pre.size() as int),
        other < lba || lba + blocks <= other,
    ensures
        stored_blocks(contents(post), other, 1) == stored_blocks(contents(pre), other, 1),
{
    write_replaces_blocks(contents, identity, pre, cdb, data_out, post, reply, lba, blocks);
    assert(stored_blocks(contents(post), other, 1) =~= stored_blocks(contents(pre), other, 1));
}

/// `contents` with each block from `lba` on, `count` of them, replaced by `pattern`.
pub open spec fn overwritten(
    contents: Seq<u8>,
    lba: int,
    count: int,
    pattern: Seq<u8>,
) -> Seq<u8> {
    Seq::new(
        contents.len(),
        |i: int|
            if semantics::byte_len(lba) <= i < semantics::byte_len(lba + count) {
                pattern[i % 512]
            } else {
                contents[i]
            },
    )
}

/// Writing a block repeatedly overwrites as many blocks as there were writes.
proof fn trace_overwrites<D: BlockDevice>(
    contents: spec_fn(D) -> Seq<u8>,
    states: Seq<D>,
    lba: int,
    pattern: Seq<u8>,
    done: int,
)
    requires
        stores(contents),
        semantics::fill_trace(states, lba, pattern),
        0 <= done < states.len(),
        0 <= lba,
        pattern.len() == 512,
        semantics::byte_len(lba + states.len() - 1) <= states[0].size(),
    ensures
        contents(states[done]) == overwritten(contents(states[0]), lba, done, pattern),
        states[done].size() == states[0].size(),
    decreases done,
{
    if done > 0 {
        trace_overwrites(contents, states, lba, pattern, done - 1);
        let at = lba + done - 1;
        assert(semantics::fill_step(states, lba, pattern, done - 1));
        assert(write_takes(
            contents,
            states[done - 1],
            semantics::byte_offset(at),
            pattern,
            states[done],
        ));
        let result = contents(states[done]);
        let expected = overwritten(contents(states[0]), lba, done, pattern);
        assert forall|i: int| 0 <= i < result.len() implies #[trigger] result[i] == expected[i] by {
            if semantics::byte_len(at) <= i < semantics::byte_len(at + 1) {
                assert(i - semantics::byte_len(at) == i % 512);
            }
        }
        assert(result =~= expected);
    } else {
        assert(contents(states[0]) =~= overwritten(contents(states[0]), lba, 0, pattern));
    }
}

/// A WRITE SAME command that succeeds stores its block in every block that it names,
/// and leaves all other bytes as they were. With a block count of zero it names all
/// blocks up to the end of the device.
pub proof fn write_same_fills_blocks<D: BlockDevice>(
    contents: spec_fn(D) -> Seq<u8>,
    identity: Identity,
    pre: D,
    cdb: Seq<u8>,
    data_out: Seq<u8>,
    post: D,
    reply: Reply,
    lba: int,
    blocks: int,
)
    requires
        stores(contents),
        command::requested(cdb) == (Request::WriteSame { lba, blocks }),
        semantics::answers(identity, pre, cdb, data_out, post, reply),
        reply.status == SAM_STAT_GOOD,
    ensures
        ({
            let count = semantics::fill_count(pre.size() as int, lba, blocks);
            &&& lba + count <= command::block_count(pre.size() as int)
            &&& blocks == 0 ==> lba + count == command::block_count(pre.size() as int)
            &&& contents(post) == overwritten(
                contents(pre),
                lba,
                count,
                semantics::fill_pattern(data_out),
            )
            &&& forall|block: int|
                lba <= block < lba + count ==> #[trigger] stored_blocks(contents(post), block, 1)
                    == semantics::fill_pattern(data_out)
        }),
{
    request_is_natural(cdb);
    let count = semantics::fill_count(pre.size() as int, lba, blocks);
    let pattern = semantics::fill_pattern(data_out);
    let states = choose|states: Seq<D>| #[trigger]
        semantics::fill_trace(states, lba, pattern) && states.len() == count + 1 && states.first()
            == pre && states.last() == post;
    trace_overwrites(contents, states, lba, pattern, count);
    assert forall|block: int| lba <= block < lba + count implies #[trigger] stored_blocks(
        contents(post),
        block,
        1,
    ) == pattern by {
        let found = stored_blocks(contents(post), block, 1);
        assert forall|i: int| 0 <= i < 512 implies #[trigger] found[i] == pattern[i] by {
            assert((semantics::byte_len(block) + i) % 512 == i);
        }
        assert(found =~= pattern);
    }
}

/// A WRITE SAME command that the device fails to carry out has stored its block in every
/// block before the one whose write failed, and stops there.
pub proof fn failed_write_same_keeps_filled_blocks<D: BlockDevice>(
    contents: spec_fn(D) -> Seq<u8>,
    identity: Identity,
    pre: D,
    cdb: Seq<u8>,
    data_out: Seq<u8>,
    post: D,
    reply: Reply,
    lba: int,
    blocks: int,
) -> (failed: (int, D))
    requires
        stores(contents),
        command::requested(cdb) == (Request::WriteSame { lba, blocks }),
        semantics::answers(identity, pre, cdb, data_out, post, reply),
        reply == command::write_error(),
    ensures
        ({
            let (done, mid) = failed;
            let pattern = semantics::fill_pattern(data_out);
            &&& 0 <= done < semantics::fill_count(pre.size() as int, lba, blocks)
            &&& contents(mid) == overwritten(contents(pre), lba, done, pattern)
            &&& block_device::write_attempted(
                mid,
                semantics::byte_offset(lba + done),
                pattern,
                post,
                false,
            )
        }),
{
    request_is_natural(cdb);
    let count = semantics::fill_count(pre.size() as int, lba, blocks);
    let pattern = semantics::fill_pattern(data_out);
    assert(command::write_error().sense[2] != command::write_protected().sense[2]
        && command::write_error().sense[2] != command::out_of_range().sense[2]);
    let done = choose|done: int|
        0 <= done < count && #[trigger] semantics::fill_broken(pre, lba, done, pattern, post);
    let mid = choose|mid: D| #[trigger]
        semantics::filled(pre, lba, done, pattern, mid) && block_device::write_attempted(
            mid,
            semantics::byte_offset(lba + done),
            pattern,
            post,
            false,
        );
    let states = choose|states: Seq<D>| #[trigger]
        semantics::fill_trace(states, lba, pattern) && states.len() == done + 1 && states.first()
            == pre && states.last() == mid;
    trace_overwrites(contents, states, lba, pattern, done);
    (done, mid)
}

/// Only commands that write can change the device.
pub proof fn only_writes_change_the_device<D: BlockDevice>(
    identity: Identity,
    pre: D,
    cdb: Seq<u8>,
    data_out: Seq<u8>,
    post: D,
    reply: Reply,
)
    requires
        semantics::answers(identity, pre, cdb, data_out, post, reply),
        command::requested(cdb) !is Write,
        command::requested(cdb) !is WriteSame,
    ensures
        post == pre,
{
}

/// A device that was changed was writable and was sent a WRITE or WRITE SAME command,
/// which was answered by success or by the error of a failed write.
pub proof fn changed_device_was_written<D: BlockDevice>(
    identity: Identity,
    pre: D,
    cdb: Seq<u8>,
    data_out: Seq<u8>,
    post: D,
    reply: Reply,
)
    requires
        semantics::answers(identity, pre, cdb, data_out, post, reply),
        post != pre,
    ensures
        cdb[0] == WRITE_6 || cdb[0] == WRITE_10 || cdb[0] == WRITE_12 || cdb[0] == WRITE_16
            || cdb[0] == WRITE_SAME_10 || cdb[0] == WRITE_SAME_16,
        block_device::reports_read_only(pre, false),
        reply.status == SAM_STAT_GOOD || reply == command::write_error(),
{
    opcodes_of_reads_and_writes(cdb);
}

/// Only the opcodes of READ ask for blocks, and only those of WRITE and WRITE SAME ask
/// to store any.
pub proof fn opcodes_of_reads_and_writes(cdb: Seq<u8>)
    ensures
        command::requested(cdb) is Read ==> scsi::wants_blocks(cdb[0]),
        command::requested(cdb) is Write || command::requested(cdb) is WriteSame ==> {
            ||| cdb[0] == WRITE_6
            ||| cdb[0] == WRITE_10
            ||| cdb[0] == WRITE_12
            ||| cdb[0] == WRITE_16
            ||| cdb[0] == WRITE_SAME_10
            ||| cdb[0] == WRITE_SAME_16
        },
{
}

/// A command that is refused, and not failed by the device, leaves the device as it
/// was.
pub proof fn refusal_leaves_the_device<D: BlockDevice>(
    identity: Identity,
    pre: D,
    cdb: Seq<u8>,
    data_out: Seq<u8>,
    post: D,
    reply: Reply,
)
    requires
        semantics::answers(identity, pre, cdb, data_out, post, reply),
        reply.status != SAM_STAT_GOOD,
        reply != command::write_error(),
    ensures
        post == pre,
{
}

/// A read-only device answers every well-formed write with WRITE PROTECTED.
pub proof fn read_only_device_refuses_writes<D: BlockDevice>(
    identity: Identity,
    pre: D,
    cdb: Seq<u8>,
    data_out: Seq<u8>,
    post: D,
    reply: Reply,
)
    requires
        !block_device::reports_read_only(pre, false),
        semantics::answers(identity, pre, cdb, data_out, post, reply),
    ensures
        post == pre,
        command::requested(cdb) is Write || command::requested(cdb) is WriteSame ==> reply
            == command::write_protected(),
{
}

/// A reply either succeeds without sense data, or fails without payload and with
/// eighteen bytes of fixed-format sense data.
pub proof fn reply_is_success_or_sense<D: BlockDevice>(
    identity: Identity,
    pre: D,
    cdb: Seq<u8>,
    data_out: Seq<u8>,
    post: D,
    reply: Reply,
)
    requires
        semantics::answers(identity, pre, cdb, data_out, post, reply),
    ensures
        reply.status == SAM_STAT_GOOD || reply.status == SAM_STAT_CHECK_CONDITION,
        reply.status == SAM_STAT_GOOD ==> reply.sense.len() == 0,
        reply.status == SAM_STAT_CHECK_CONDITION ==> reply.data.len() == 0 && reply.sense.len()
            == 18 && reply.sense[0] == SENSE_FIXED_CURRENT,
{
}

/// A read that ends beyond the device is answered by LBA OUT OF RANGE.
pub proof fn read_beyond_the_end_is_refused<D: BlockDevice>(
    identity: Identity,
    pre: D,
    cdb: Seq<u8>,
    data_out: Seq<u8>,
    post: D,
    reply: Reply,
    lba: int,
    blocks: int,
)
    requires
        semantics::answers(identity, pre, cdb, data_out, post, reply),
        command::requested(cdb) == (Request::Read { lba, blocks }),
        lba + blocks > command::block_count(pre.size() as int),
    ensures
        reply == command::out_of_range(),
        post == pre,
{
}

/// A write that ends beyond a writable device is answered by LBA OUT OF RANGE, and so is
/// a WRITE SAME command up to the end of the device that starts beyond it.
pub proof fn write_beyond_the_end_is_refused<D: BlockDevice>(
    identity: Identity,
    pre: D,
    cdb: Seq<u8>,
    data_out: Seq<u8>,
    post: D,
    reply: Reply,
    lba: int,
    blocks: int,
)
    requires
        !block_device::reports_read_only(pre, true),
        semantics::answers(identity, pre, cdb, data_out, post, reply),
        command::requested(cdb) == (Request::Write { lba, blocks }) || command::requested(cdb)
            == (Request::WriteSame { lba, blocks }),
        lba + blocks > command::block_count(pre.size() as int),
    ensures
        reply == command::out_of_range(),
        post == pre,
{
}

/// The answer depends on what a command asks for alone, not on which form of the
/// command asks for it.
pub proof fn forms_of_a_command_agree<D: BlockDevice>(
    identity: Identity,
    pre: D,
    one: Seq<u8>,
    other: Seq<u8>,
    data_out: Seq<u8>,
    post: D,
    reply: Reply,
)
    requires
        command::requested(one) == command::requested(other),
    ensures
        semantics::answers(identity, pre, one, data_out, post, reply) <==> semantics::answers(
            identity,
            pre,
            other,
            data_out,
            post,
            reply,
        ),
{
}

/// Both forms of the capacity name the last block of the device and the block size:
/// one more than the address is the block count, for a device that has blocks and, in
/// the short form, no more than its address field can count.
pub proof fn capacity_names_the_last_block(size: u64)
    requires
        command::block_count(size as int) > 0,
    ensures
        bytes::be_value(command::capacity_16(size as int).subrange(0, 8)) + 1
            == command::block_count(size as int),
        bytes::be_value(command::capacity_16(size as int).subrange(8, 12)) == 512,
        command::block_count(size as int) <= 0x1_0000_0000 ==> bytes::be_value(
            command::capacity_10(size as int).subrange(0, 4),
        ) + 1 == command::block_count(size as int),
        command::block_count(size as int) > 0x1_0000_0000 ==> bytes::be_value(
            command::capacity_10(size as int).subrange(0, 4),
        ) == 0xffff_ffff,
        bytes::be_value(command::capacity_10(size as int).subrange(4, 8)) == 512,
{
    let last = command::last_lba(size as int);
    let short = if last < u32::MAX {
        last
    } else {
        u32::MAX as int
    };
    assert(bytes::byte_range(4) == 0x1_0000_0000 && bytes::byte_range(8)
        == 0x1_0000_0000_0000_0000) by {
        reveal_with_fuel(bytes::byte_range, 9);
    }
    bytes::be_value_of_be_bytes(last as nat, 8);
    bytes::be_value_of_be_bytes(short as nat, 4);
    bytes::be_value_of_be_bytes(512, 4);
    assert(command::capacity_16(size as int).subrange(0, 8) =~= bytes::be_bytes(last as nat, 8));
    assert(command::capacity_16(size as int).subrange(8, 12) =~= bytes::be_bytes(512, 4));
    assert(command::capacity_10(size as int).subrange(0, 4) =~= bytes::be_bytes(short as nat, 4));
    assert(command::capacity_10(size as int).subrange(4, 8) =~= bytes::be_bytes(512, 4));
}

/// The blocks below the block count can be read one by one, and no others.
pub proof fn blocks_below_the_count_are_in_range(size: u64, lba: int)
    requires
        lba >= 0,
    ensures
        semantics::in_range(lba, 1, size as int) <==> lba < command::block_count(size as int),
{
}

/// The room for payload that a request names, where it names one.
pub open spec fn allocation(request: Request) -> Option<int> {
    match request {
        Request::Sense { alloc_len } => Some(alloc_len),
        Request::Inquiry { alloc_len } => Some(alloc_len),
        Request::VitalProductData { page_code: _, alloc_len } => Some(alloc_len),
        Request::Capacity16 { alloc_len } => Some(alloc_len),
        Request::Mode6 { page_code: _, alloc_len } => Some(alloc_len),
        Request::Mode10 { page_code: _, alloc_len } => Some(alloc_len),
        _ => None,
    }
}

/// No more bytes are sent than the initiator has room for.
pub proof fn payload_fits_the_allocation<D: BlockDevice>(
    identity: Identity,
    pre: D,
    cdb: Seq<u8>,
    data_out: Seq<u8>,
    post: D,
    reply: Reply,
    room: int,
)
    requires
        semantics::answers(identity, pre, cdb, data_out, post, reply),
        allocation(command::requested(cdb)) == Some(room),
    ensures
        reply.data.len() <= room,
{
}

/// What is sent to an initiator with less room is the beginning of what is sent to one
/// with enough.
pub proof fn less_room_gets_a_prefix(data: Seq<u8>, room: int)
    requires
        room >= 0,
    ensures
        response::clipped(data, room).is_prefix_of(data),
        data.len() <= room ==> response::clipped(data, room) == data,
{
}

/// The mode data shows the write-protect bit exactly if the device reports that it is
/// read-only, in either form, to an initiator with room for it.
pub proof fn mode_data_shows_write_protection<D: BlockDevice>(
    identity: Identity,
    pre: D,
    cdb: Seq<u8>,
    data_out: Seq<u8>,
    post: D,
    reply: Reply,
    read_only: bool,
)
    requires
        semantics::answers(identity, pre, cdb, data_out, post, reply),
        !block_device::reports_read_only(pre, !read_only),
    ensures
        command::requested(cdb) matches Request::Mode6 { page_code, alloc_len }
            ==> command::has_mode_page(page_code) && alloc_len >= 3 ==> reply.data[2]
            == command::write_protect_bit(read_only),
        command::requested(cdb) matches Request::Mode10 { page_code, alloc_len }
            ==> command::has_mode_page(page_code) && alloc_len >= 4 ==> reply.data[3]
            == command::write_protect_bit(read_only),
{
}

/// The standard INQUIRY data holds the configured identity at its places.
pub proof fn inquiry_reports_the_identity(config: TcmuDeviceConfig)
    ensures
        ({
            let data = command::inquiry_data(config@);
            &&& data.len() == 36
            &&& data[4] == data.len() - 5
            &&& data.subrange(8, 16) == config.vendor_id@
            &&& data.subrange(16, 32) == config.product_id@
            &&& data.subrange(32, 36) == config.product_revision@
        }),
{
    let data = command::inquiry_data(config@);
    assert(data.subrange(8, 16) =~= config.vendor_id@);
    assert(data.subrange(16, 32) =~= config.product_id@);
    assert(data.subrange(32, 36) =~= config.product_revision@);
}

/// The serial number page and the device identification page hold the serial number
/// and the designator behind their headers, and the designator is the prefix, a colon
/// and the serial number.
pub proof fn vpd_pages_hold_the_serial(identity: Identity, id: Seq<u8>)
    ensures
        command::vpd_data(identity, id, INQUIRY_VPD_UNIT_SERIAL).skip(4)
            == command::serial_bytes(id),
        command::vpd_data(identity, id, INQUIRY_VPD_DEVICE_ID).skip(8)
            == command::designator_bytes(identity, id),
        command::designator_bytes(identity, id) == vstd::utf8::encode_utf8(
            identity.device_id_prefix,
        ) + seq![0x3au8] + command::serial_bytes(id),
{
    let serial = command::serial_bytes(id);
    let designator = command::designator_bytes(identity, id);
    bytes::be_bytes_len(serial.len(), 2);
    bytes::be_bytes_len(designator.len() + 4, 2);
    bytes::be_bytes_len(designator.len(), 1);
    assert(command::vpd_data(identity, id, INQUIRY_VPD_UNIT_SERIAL).skip(4) =~= serial);
    assert(command::vpd_data(identity, id, INQUIRY_VPD_DEVICE_ID).skip(8) =~= designator);
    text::encoded_in_two_parts(identity.device_id_prefix + seq![':'], text::hex_text(id));
    text::encoded_in_two_parts(identity.device_id_prefix, seq![':']);
    vstd::utf8::is_ascii_chars_encode_utf8(seq![':']);
    assert(vstd::utf8::encode_utf8(seq![':']) =~= seq![0x3au8]);
}

/// Every page names itself, and its header gives the length of what follows, as far as
/// the length fields can: two bytes for the page, and one for the designator.
pub proof fn vpd_headers_give_the_lengths(identity: Identity, id: Seq<u8>, page_code: u8)
    requires
        page_code == INQUIRY_VPD_SUPPORTED_PAGES || page_code == INQUIRY_VPD_UNIT_SERIAL
            || page_code == INQUIRY_VPD_DEVICE_ID,
    ensures
        ({
            let page = command::vpd_data(identity, id, page_code);
            &&& page.len() >= 4
            &&& page[0] == 0
            &&& page[1] == page_code
            &&& page.len() - 4 < 0x1_0000 ==> bytes::be_value(page.subrange(2, 4)) == page.len() - 4
            &&& page_code == INQUIRY_VPD_DEVICE_ID ==> page.len() >= 8 && (page.len() - 8 < 256
                ==> page[7] == page.len() - 8)
        }),
{
    let page = command::vpd_data(identity, id, page_code);
    let serial = command::serial_bytes(id);
    let designator = command::designator_bytes(identity, id);
    assert(bytes::byte_range(1) == 256 && bytes::byte_range(2) == 0x1_0000) by {
        reveal_with_fuel(bytes::byte_range, 3);
    }
    bytes::be_bytes_len(serial.len(), 2);
    bytes::be_bytes_len(designator.len() + 4, 2);
    bytes::be_bytes_len(designator.len(), 1);
    let length = if page_code == INQUIRY_VPD_SUPPORTED_PAGES {
        3
    } else if page_code == INQUIRY_VPD_UNIT_SERIAL {
        serial.len()
    } else {
        designator.len() + 4
    };
    reveal_with_fuel(bytes::be_bytes, 3);
    assert(page.subrange(2, 4) =~= bytes::be_bytes(length, 2));
    if length < 0x1_0000 {
        bytes::be_value_of_be_bytes(length, 2);
    }
    if page_code == INQUIRY_VPD_DEVICE_ID {
        assert(page[7] == bytes::be_bytes(designator.len(), 1)[0]);
    }
}

/// Devices with different identifier bytes have different serial numbers.
pub proof fn serials_are_unique(one: Seq<u8>, other: Seq<u8>)
    requires
        command::serial_bytes(one) == command::serial_bytes(other),
    ensures
        one == other,
{
    vstd::utf8::encode_utf8_decode_utf8(text::hex_text(one));
    vstd::utf8::encode_utf8_decode_utf8(text::hex_text(other));
    text::hex_text_is_injective(one, other);
}

/// The pages that the supported-pages page lists are the pages that are not empty.
pub proof fn listed_pages_are_the_supported_pages(
    identity: Identity,
    id: Seq<u8>,
    page_code: u8,
)
    ensures
        command::vpd_data(identity, id, INQUIRY_VPD_SUPPORTED_PAGES) == seq![
            0u8,
            0u8,
            0u8,
            3u8,
            0x00u8,
            0x80u8,
            0x83u8,
        ],
        command::vpd_data(identity, id, INQUIRY_VPD_SUPPORTED_PAGES).skip(4).contains(page_code)
            <==> command::vpd_data(identity, id, page_code).len() > 0,
{
    let listed = command::vpd_data(identity, id, INQUIRY_VPD_SUPPORTED_PAGES).skip(4);
    assert(listed =~= seq![
        INQUIRY_VPD_SUPPORTED_PAGES,
        INQUIRY_VPD_UNIT_SERIAL,
        INQUIRY_VPD_DEVICE_ID,
    ]);
}

/// A six-byte CDB with the given address and block count, whose field holds zero for 256
/// blocks.
pub open spec fn cdb_6(opcode: u8, lba: nat, blocks: nat) -> Seq<u8> {
    seq![opcode] + bytes::be_bytes(lba, 3) + bytes::be_bytes(blocks, 1) + seq![0u8]
}

/// A ten-byte CDB with the given address and block count.
pub open spec fn cdb_10(opcode: u8, lba: nat, blocks: nat) -> Seq<u8> {
    seq![opcode, 0u8] + bytes::be_bytes(lba, 4) + seq![0u8] + bytes::be_bytes(blocks, 2) + seq![0u8]
}

/// A twelve-byte CDB with the given address and block count.
pub open spec fn cdb_12(opcode: u8, lba: nat, blocks: nat) -> Seq<u8> {
    seq![opcode, 0u8] + bytes::be_bytes(lba, 4) + bytes::be_bytes(blocks, 4) + seq![0u8, 0u8]
}

/// A sixteen-byte CDB with the given address and block count.
pub open spec fn cdb_16(opcode: u8, lba: nat, blocks: nat) -> Seq<u8> {
    seq![opcode, 0u8] + bytes::be_bytes(lba, 8) + bytes::be_bytes(blocks, 4) + seq![0u8, 0u8]
}

/// The fields of a six-byte CDB hold what was put there.
proof fn six_byte_fields(lba: nat, blocks: nat, opcode: u8)
    requires
        lba < 0x20_0000,
        1 <= blocks <= 256,
    ensures
        cdb_6(opcode, lba, blocks).len() == 6,
        cdb_6(opcode, lba, blocks)[0] == opcode,
        command::lba_6(cdb_6(opcode, lba, blocks)) == lba,
        command::blocks_6(cdb_6(opcode, lba, blocks)) == blocks,
{
    let cdb = cdb_6(opcode, lba, blocks);
    reveal_with_fuel(bytes::be_bytes, 4);
    assert(bytes::be_bytes(lba, 3) =~= seq![
        (lba / 0x1_0000 % 256) as u8,
        (lba / 256 % 256) as u8,
        (lba % 256) as u8,
    ]);
    assert(bytes::be_bytes(blocks, 1) =~= seq![(blocks % 256) as u8]);
    assert(cdb[4] == (blocks % 256) as u8);
}

/// Every address and block count that the fields of a form can hold is understood as
/// it was put there.
pub proof fn built_commands_are_understood(lba: nat, blocks: nat)
    requires
        lba <= u64::MAX,
        blocks <= u32::MAX,
    ensures
        lba < 0x20_0000 && 1 <= blocks <= 256 ==> {
            &&& command::requested(cdb_6(READ_6, lba, blocks)) == (Request::Read {
                lba: lba as int,
                blocks: blocks as int,
            })
            &&& command::requested(cdb_6(WRITE_6, lba, blocks)) == (Request::Write {
                lba: lba as int,
                blocks: blocks as int,
            })
        },
        lba <= u32::MAX && blocks <= u16::MAX ==> {
            &&& command::requested(cdb_10(READ_10, lba, blocks)) == (Request::Read {
                lba: lba as int,
                blocks: blocks as int,
            })
            &&& command::requested(cdb_10(WRITE_10, lba, blocks)) == (Request::Write {
                lba: lba as int,
                blocks: blocks as int,
            })
            &&& command::requested(cdb_10(WRITE_SAME_10, lba, blocks)) == (Request::WriteSame {
                lba: lba as int,
                blocks: blocks as int,
            })
        },
        lba <= u32::MAX ==> {
            &&& command::requested(cdb_12(READ_12, lba, blocks)) == (Request::Read {
                lba: lba as int,
                blocks: blocks as int,
            })
            &&& command::requested(cdb_12(WRITE_12, lba, blocks)) == (Request::Write {
                lba: lba as int,
                blocks: blocks as int,
            })
        },
        command::requested(cdb_16(READ_16, lba, blocks)) == (Request::Read {
            lba: lba as int,
            blocks: blocks as int,
        }),
        command::requested(cdb_16(WRITE_16, lba, blocks)) == (Request::Write {
            lba: lba as int,
            blocks: blocks as int,
        }),
        command::requested(cdb_16(WRITE_SAME_16, lba, blocks)) == (Request::WriteSame {
            lba: lba as int,
            blocks: blocks as int,
        }),
{
    assert(bytes::byte_range(2) == 0x1_0000 && bytes::byte_range(4) == 0x1_0000_0000
        && bytes::byte_range(8) == 0x1_0000_0000_0000_0000) by {
        reveal_with_fuel(bytes::byte_range, 9);
    }
    bytes::be_value_of_be_bytes(lba, 8);
    bytes::be_value_of_be_bytes(blocks, 4);
    if lba < 0x20_0000 && 1 <= blocks <= 256 {
        six_byte_fields(lba, blocks, READ_6);
        six_byte_fields(lba, blocks, WRITE_6);
    }
    assert forall|opcode: u8|
        {
            let cdb = #[trigger] cdb_16(opcode, lba, blocks);
            &&& cdb.len() == 16
            &&& cdb[0] == opcode
            &&& command::field(cdb, 2, 10) == lba
            &&& command::field(cdb, 10, 14) == blocks
        } by {
        let cdb = cdb_16(opcode, lba, blocks);
        assert(cdb.subrange(2, 10) =~= bytes::be_bytes(lba, 8));
        assert(cdb.subrange(10, 14) =~= bytes::be_bytes(blocks, 4));
    }
    if lba <= u32::MAX {
        bytes::be_value_of_be_bytes(lba, 4);
        assert forall|opcode: u8|
            {
                let cdb = #[trigger] cdb_12(opcode, lba, blocks);
                &&& cdb.len() == 12
                &&& cdb[0] == opcode
                &&& command::field(cdb, 2, 6) == lba
                &&& command::field(cdb, 6, 10) == blocks
            } by {
            let cdb = cdb_12(opcode, lba, blocks);
            assert(cdb.subrange(2, 6) =~= bytes::be_bytes(lba, 4));
            assert(cdb.subrange(6, 10) =~= bytes::be_bytes(blocks, 4));
        }
        if blocks <= u16::MAX {
            bytes::be_value_of_be_bytes(blocks, 2);
            assert forall|opcode: u8|
                {
                    let cdb = #[trigger] cdb_10(opcode, lba, blocks);
                    &&& cdb.len() == 10
                    &&& cdb[0] == opcode
                    &&& command::field(cdb, 2, 6) == lba
                    &&& command::field(cdb, 7, 9) == blocks
                } by {
                let cdb = cdb_10(opcode, lba, blocks);
                assert(cdb.subrange(2, 6) =~= bytes::be_bytes(lba, 4));
                assert(cdb.subrange(7, 9) =~= bytes::be_bytes(blocks, 2));
            }
        }
    }
}

} // verus!
