//! What executing a command does to a block device, and how it is answered.

use crate::block_device;
use crate::block_device::{BlockDevice, DeviceError};
use crate::command;
use crate::command::{Identity, Request};
use crate::response;
use crate::response::Reply;
use crate::scsi::SENSE_KEY_NO_SENSE;
use vstd::prelude::*;

verus! {

/// How many bytes `blocks` blocks have.
pub open spec fn byte_len(blocks: int) -> int {
    blocks * 512
}

/// The offset in bytes of the block at `lba`.
pub open spec fn byte_offset(lba: int) -> u64 {
    byte_len(lba) as u64
}

/// Whether `blocks` blocks from `lba` on lie within `size` bytes.
pub open spec fn in_range(lba: int, blocks: int, size: int) -> bool {
    byte_len(lba + blocks) <= size
}

/// The reply to a read that the device answered with `result`.
pub open spec fn read_reply(result: Result<Vec<u8>, DeviceError>) -> Reply {
    match result {
        Ok(bytes) => response::success(bytes@),
        Err(_) => command::out_of_range(),
    }
}

/// The reply to a write that the device carried out, or failed to.
pub open spec fn write_reply(ok: bool) -> Reply {
    if ok {
        response::success(Seq::empty())
    } else {
        command::write_error()
    }
}

/// Whether `reply` may answer a read of `blocks` blocks from `lba` on.
///
/// A read of more bytes than memory can hold is out of range too.
pub open spec fn answers_read<D: BlockDevice>(
    device: D,
    lba: int,
    blocks: int,
    reply: Reply,
) -> bool {
    let len = byte_len(blocks);
    if !in_range(lba, blocks, device.size() as int) || len > usize::MAX {
        reply == command::out_of_range()
    } else {
        exists|result: Result<Vec<u8>, DeviceError>| #[trigger]
            block_device::reads_as(device, byte_offset(lba), len as usize, result) && reply
                == read_reply(result)
    }
}

/// Whether a write of `blocks` blocks of `data_out` from `lba` on may turn `pre`
/// into `post` and be answered by `reply`.
pub open spec fn answers_write<D: BlockDevice>(
    pre: D,
    lba: int,
    blocks: int,
    data_out: Seq<u8>,
    post: D,
    reply: Reply,
) -> bool {
    let len = byte_len(blocks);
    ||| block_device::reports_read_only(pre, true) && post == pre && reply
        == command::write_protected()
    ||| block_device::reports_read_only(pre, false) && if !in_range(
        lba,
        blocks,
        pre.size() as int,
    ) {
        post == pre && reply == command::out_of_range()
    } else if data_out.len() < len {
        post == pre && reply == command::missing_data()
    } else {
        exists|ok: bool| #[trigger]
            block_device::write_attempted(pre, byte_offset(lba), data_out.take(len), post, ok)
                && reply == write_reply(ok)
    }
}

/// The block that a WRITE SAME command repeats: the first of `data_out`, or zeros
/// where that is shorter than a block.
pub open spec fn fill_pattern(data_out: Seq<u8>) -> Seq<u8> {
    if data_out.len() >= byte_len(1) {
        data_out.take(byte_len(1))
    } else {
        command::zero_bytes(byte_len(1) as nat)
    }
}

/// How many blocks a WRITE SAME command fills; zero asks for all from `lba` to the
/// end of the device.
pub open spec fn fill_count(size: int, lba: int, blocks: int) -> int {
    if blocks != 0 {
        blocks
    } else if lba < command::block_count(size) {
        command::block_count(size) - lba
    } else {
        0
    }
}

/// Whether writing `pattern` to the block at `lba + i`, with success, may lead from
/// the state `i` to the next.
pub open spec fn fill_step<D: BlockDevice>(
    states: Seq<D>,
    lba: int,
    pattern: Seq<u8>,
    i: int,
) -> bool {
    block_device::write_attempted(
        states[i],
        byte_offset(lba + i),
        pattern,
        states[i + 1],
        true,
    )
}

/// Whether `states` may be what a device passes through while `pattern` is written to
/// the blocks from `lba` on, one after the other and each with success.
pub open spec fn fill_trace<D: BlockDevice>(
    states: Seq<D>,
    lba: int,
    pattern: Seq<u8>,
) -> bool {
    forall|i: int| 0 <= i < states.len() - 1 ==> #[trigger] fill_step(states, lba, pattern, i)
}

/// Whether writing `pattern` to `count` blocks from `lba` on, one after the other and
/// each with success, may turn `pre` into `post`.
pub open spec fn filled<D: BlockDevice>(
    pre: D,
    lba: int,
    count: int,
    pattern: Seq<u8>,
    post: D,
) -> bool {
    exists|states: Seq<D>| #[trigger]
        fill_trace(states, lba, pattern) && states.len() == count + 1 && states.first() == pre
            && states.last() == post
}

/// Whether `pattern` may have been written to `done` blocks from `lba` on, and the
/// next write have failed, so that `pre` became `post`.
pub open spec fn fill_broken<D: BlockDevice>(
    pre: D,
    lba: int,
    done: int,
    pattern: Seq<u8>,
    post: D,
) -> bool {
    exists|mid: D| #[trigger]
        filled(pre, lba, done, pattern, mid) && block_device::write_attempted(
            mid,
            byte_offset(lba + done),
            pattern,
            post,
            false,
        )
}

/// Whether a WRITE SAME command over `count` blocks from `lba` on may turn `pre` into
/// `post` and be answered by `reply`.
pub open spec fn answers_write_same<D: BlockDevice>(
    pre: D,
    lba: int,
    count: int,
    data_out: Seq<u8>,
    post: D,
    reply: Reply,
) -> bool {
    let pattern = fill_pattern(data_out);
    ||| block_device::reports_read_only(pre, true) && post == pre && reply
        == command::write_protected()
    ||| block_device::reports_read_only(pre, false) && if lba + count > command::block_count(
        pre.size() as int,
    ) {
        post == pre && reply == command::out_of_range()
    } else {
        ||| filled(pre, lba, count, pattern, post) && reply == write_reply(true)
        ||| (exists|done: int|
            0 <= done < count && #[trigger] fill_broken(pre, lba, done, pattern, post)) && reply
            == write_reply(false)
    }
}

/// Whether a write that was answered by `reply` must have been handed to the device: it
/// was not refused before.
pub open spec fn write_is_due<D: BlockDevice>(
    pre: D,
    lba: int,
    blocks: int,
    data_out: Seq<u8>,
    reply: Reply,
) -> bool {
    &&& reply != command::write_protected()
    &&& in_range(lba, blocks, pre.size() as int)
    &&& data_out.len() >= byte_len(blocks)
}

/// Whether asking the device, in the state `at`, to write `data` at `offset`, with
/// success or not, is how a write of `blocks` blocks from `lba` on is answered by
/// `reply`.
pub open spec fn write_made<D: BlockDevice>(
    pre: D,
    lba: int,
    blocks: int,
    data_out: Seq<u8>,
    at: D,
    offset: u64,
    data: Seq<u8>,
    ok: bool,
    reply: Reply,
) -> bool {
    &&& at == pre
    &&& offset == byte_offset(lba)
    &&& data == data_out.take(byte_len(blocks))
    &&& reply == write_reply(ok)
}

/// Whether a WRITE SAME command that was answered by `reply` must have been handed to
/// the device: it was not refused before, and there is a block to fill.
pub open spec fn fill_is_due<D: BlockDevice>(pre: D, lba: int, count: int, reply: Reply) -> bool {
    &&& reply != command::write_protected()
    &&& lba + count <= command::block_count(pre.size() as int)
    &&& count > 0
}

/// Whether asking the device, in the state `at`, to write `data` at `offset`, with
/// success or not, is the last thing that a WRITE SAME command over `count` blocks from
/// `lba` on does: all blocks before have been filled, and it goes on after each success.
pub open spec fn last_fill_made<D: BlockDevice>(
    pre: D,
    lba: int,
    count: int,
    data_out: Seq<u8>,
    at: D,
    offset: u64,
    data: Seq<u8>,
    ok: bool,
    reply: Reply,
) -> bool {
    exists|done: int|
        {
            &&& #[trigger] filled(pre, lba, done, fill_pattern(data_out), at)
            &&& 0 <= done < count
            &&& offset == byte_offset(lba + done)
            &&& data == fill_pattern(data_out)
            &&& ok ==> done == count - 1
            &&& reply == write_reply(ok)
        }
}

/// Whether `cdb`, answered by `reply`, must have been handed to the device for writing.
pub open spec fn writing_is_due<D: BlockDevice>(
    pre: D,
    cdb: Seq<u8>,
    data_out: Seq<u8>,
    reply: Reply,
) -> bool {
    match command::requested(cdb) {
        Request::Write { lba, blocks } => write_is_due(pre, lba, blocks, data_out, reply),
        Request::WriteSame { lba, blocks } => fill_is_due(
            pre,
            lba,
            fill_count(pre.size() as int, lba, blocks),
            reply,
        ),
        _ => false,
    }
}

/// Whether asking the device, in the state `at`, to write `data` at `offset`, with
/// success or not, is the last write that `cdb` makes, so that `reply` answers it.
pub open spec fn last_write_made<D: BlockDevice>(
    pre: D,
    cdb: Seq<u8>,
    data_out: Seq<u8>,
    at: D,
    offset: u64,
    data: Seq<u8>,
    ok: bool,
    reply: Reply,
) -> bool {
    match command::requested(cdb) {
        Request::Write { lba, blocks } => write_made(
            pre,
            lba,
            blocks,
            data_out,
            at,
            offset,
            data,
            ok,
            reply,
        ),
        Request::WriteSame { lba, blocks } => last_fill_made(
            pre,
            lba,
            fill_count(pre.size() as int, lba, blocks),
            data_out,
            at,
            offset,
            data,
            ok,
            reply,
        ),
        _ => false,
    }
}

/// Whether executing `cdb` with `data_out` may turn the device `pre` into `post` and
/// be answered by `reply`.
pub open spec fn answers<D: BlockDevice>(
    identity: Identity,
    pre: D,
    cdb: Seq<u8>,
    data_out: Seq<u8>,
    post: D,
    reply: Reply,
) -> bool {
    match command::requested(cdb) {
        Request::Nothing => post == pre && reply == response::success(Seq::empty()),
        Request::Sense { alloc_len } => post == pre && reply == response::success(
            response::clipped(response::fixed_sense(SENSE_KEY_NO_SENSE, 0, 0), alloc_len),
        ),
        Request::Inquiry { alloc_len } => post == pre && reply == response::success(
            response::clipped(command::inquiry_data(identity), alloc_len),
        ),
        Request::VitalProductData { page_code, alloc_len } => post == pre && reply
            == response::success(
            response::clipped(command::vpd_data(identity, pre.id(), page_code), alloc_len),
        ),
        Request::Capacity10 => post == pre && reply == response::success(
            command::capacity_10(pre.size() as int),
        ),
        Request::Capacity16 { alloc_len } => post == pre && reply == response::success(
            response::clipped(command::capacity_16(pre.size() as int), alloc_len),
        ),
        Request::Mode6 { page_code, alloc_len } => post == pre && if command::has_mode_page(
            page_code,
        ) {
            exists|read_only: bool| #[trigger]
                block_device::reports_read_only(pre, read_only) && reply == response::success(
                    response::clipped(command::mode_data_6(read_only), alloc_len),
                )
        } else {
            reply == command::invalid_command()
        },
        Request::Mode10 { page_code, alloc_len } => post == pre && if command::has_mode_page(
            page_code,
        ) {
            exists|read_only: bool| #[trigger]
                block_device::reports_read_only(pre, read_only) && reply == response::success(
                    response::clipped(command::mode_data_10(read_only), alloc_len),
                )
        } else {
            reply == command::invalid_command()
        },
        Request::Read { lba, blocks } => post == pre && answers_read(pre, lba, blocks, reply),
        Request::Write { lba, blocks } => answers_write(pre, lba, blocks, data_out, post, reply),
        Request::WriteSame { lba, blocks } => answers_write_same(
            pre,
            lba,
            fill_count(pre.size() as int, lba, blocks),
            data_out,
            post,
            reply,
        ),
        Request::Unknown => post == pre && reply == command::invalid_command(),
    }
}

} // verus!
