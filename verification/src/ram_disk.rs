//! A flat in-memory block device.

use crate::block_device;
use crate::block_device::{BlockDevice, DeviceError};
use crate::bytes;
use crate::bytes::{copy_into, copy_of};
use crate::command;
use crate::command::{Identity, Request};
use crate::laws;
use crate::response;
use crate::response::Reply;
use crate::semantics;
use crate::wire_laws;
use vstd::prelude::*;

verus! {

/// A flat in-memory block device.
pub struct RamDisk {
    /// Device contents, a whole number of blocks.
    data: Vec<u8>,
    /// Stable identifier, from which the SCSI serial number is derived.
    id: Vec<u8>,
    writable: bool,
}

/// The identifier of a disk that is made with `data`: the first eight bytes, filled up
/// with zeros.
pub open spec fn id_of(data: Seq<u8>) -> Seq<u8> {
    Seq::new(
        8,
        |i: int|
            if i < data.len() {
                data[i]
            } else {
                0u8
            },
    )
}

impl RamDisk {
    /// The bytes that the disk stores.
    pub closed spec fn contents(self) -> Seq<u8> {
        self.data@
    }

    /// Whether the disk can be written.
    pub closed spec fn is_writable(self) -> bool {
        self.writable
    }

    /// A read-only disk with the given contents.
    pub fn new(data: Vec<u8>) -> (disk: Self)
        requires
            data@.len() % 512 == 0,
        ensures
            disk.contents() == data@,
            disk.id() == id_of(data@),
            !disk.is_writable(),
    {
        let id = first_bytes(&data);
        Self { data, id, writable: false }
    }

    /// A disk with the given contents that can be written.
    pub fn new_writable(data: Vec<u8>) -> (disk: Self)
        requires
            data@.len() % 512 == 0,
        ensures
            disk.contents() == data@,
            disk.id() == id_of(data@),
            disk.is_writable(),
    {
        let id = first_bytes(&data);
        Self { data, id, writable: true }
    }
}

/// The first eight bytes of `data`, filled up with zeros.
fn first_bytes(data: &Vec<u8>) -> (id: Vec<u8>)
    ensures
        id@ == id_of(data@),
{
    let mut id: Vec<u8> = Vec::new();
    let mut i: usize = 0;
    while i < 8
        invariant
            i <= 8,
            id@ =~= id_of(data@).take(i as int),
        decreases 8 - i,
    {
        if i < data.len() {
            id.push(data[i]);
        } else {
            id.push(0);
        }
        i = i + 1;
    }
    assert(id@ =~= id_of(data@));
    id
}

impl BlockDevice for RamDisk {
    closed spec fn size(&self) -> u64 {
        self.data@.len() as u64
    }

    closed spec fn id(&self) -> Seq<u8> {
        self.id@
    }

    open spec fn write_succeeds(pre: Self, offset: u64, data: Seq<u8>, post: Self) -> bool {
        &&& pre.is_writable()
        &&& offset + data.len() <= pre.size()
        &&& post.contents() == bytes::splice(pre.contents(), offset as int, data)
        &&& post.id() == pre.id()
        &&& post.is_writable()
    }

    open spec fn write_fails(pre: Self, offset: u64, data: Seq<u8>, post: Self) -> bool {
        false
    }

    fn size_bytes(&self) -> (size: u64)
        ensures
            size == self.contents().len(),
    {
        self.data.len() as u64
    }

    fn read_at(&self, offset: u64, len: usize) -> (result: Result<Vec<u8>, DeviceError>)
        ensures
            result matches Ok(bytes) && bytes@ == self.contents().subrange(
                offset as int,
                offset + len,
            ),
    {
        let data: &[u8] = self.data.as_slice();
        if offset > data.len() as u64 || len > data.len() - offset as usize {
            return Err(DeviceError { message: "read out of range".to_owned() });
        }
        let start: usize = offset as usize;
        Ok(copy_of(&data[start..start + len]))
    }

    fn id_bytes(&self) -> (id: Vec<u8>) {
        copy_of(self.id.as_slice())
    }

    fn is_read_only(&self) -> (read_only: bool)
        ensures
            read_only == !self.is_writable(),
    {
        !self.writable
    }

    fn write_at(&mut self, offset: u64, data: &[u8]) -> (result: Result<(), DeviceError>)
        ensures
            result is Ok <==> old(self).is_writable() && offset + data@.len() <= old(self).size(),
            result matches Err(error) ==> error.message@ == if old(self).is_writable() {
                "write out of range"@
            } else {
                "the disk is read-only"@
            },
    {
        if !self.writable {
            return Err(DeviceError { message: "the disk is read-only".to_owned() });
        }
        if offset > self.data.len() as u64 || data.len() > self.data.len() - offset as usize {
            return Err(DeviceError { message: "write out of range".to_owned() });
        }
        copy_into(self.data.as_mut_slice(), offset as usize, data);
        Ok(())
    }
}

/// A RAM disk stores its contents: reads return them and writes replace them.
pub proof fn ram_disk_stores_its_contents()
    ensures
        laws::stores(|disk: RamDisk| disk.contents()),
{
    let contents = |disk: RamDisk| disk.contents();
    assert forall|disk: RamDisk| #[trigger] contents(disk).len() == disk.size() by {
        assert(disk.data.len() == disk.data@.len());
    }
    assert forall|disk: RamDisk, offset: u64, len: usize, bytes: Vec<u8>| #[trigger]
        laws::read_gives(contents, disk, offset, len, bytes) by {
        if block_device::reads_as(disk, offset, len, Ok(bytes)) && offset + len <= disk.size() {
        }
    }
    assert forall|pre: RamDisk, offset: u64, data: Seq<u8>, post: RamDisk| #[trigger]
        laws::write_takes(contents, pre, offset, data, post) by {}
}

/// A RAM disk answers every read of blocks that it has, with those blocks.
pub proof fn ram_disk_answers_reads(
    identity: Identity,
    disk: RamDisk,
    cdb: Seq<u8>,
    data_out: Seq<u8>,
    post: RamDisk,
    reply: Reply,
    lba: int,
    blocks: int,
)
    requires
        command::requested(cdb) == (Request::Read { lba, blocks }),
        semantics::in_range(lba, blocks, disk.size() as int),
        semantics::answers(identity, disk, cdb, data_out, post, reply),
    ensures
        reply == response::success(laws::stored_blocks(disk.contents(), lba, blocks)),
        post == disk,
{
    laws::request_is_natural(cdb);
    assert(disk.data.len() == disk.data@.len());
}

/// A RAM disk that can be written carries out every write of blocks that it has, if
/// enough data comes with it.
pub proof fn ram_disk_answers_writes(
    identity: Identity,
    disk: RamDisk,
    cdb: Seq<u8>,
    data_out: Seq<u8>,
    post: RamDisk,
    reply: Reply,
    lba: int,
    blocks: int,
)
    requires
        command::requested(cdb) == (Request::Write { lba, blocks }),
        disk.is_writable(),
        semantics::in_range(lba, blocks, disk.size() as int),
        data_out.len() >= semantics::byte_len(blocks),
        semantics::answers(identity, disk, cdb, data_out, post, reply),
    ensures
        reply == response::success(Seq::empty()),
        post.contents() == bytes::splice(
            disk.contents(),
            semantics::byte_len(lba),
            data_out.take(semantics::byte_len(blocks)),
        ),
        post.id() == disk.id(),
        post.is_writable(),
{
    laws::request_is_natural(cdb);
}

/// A RAM disk that can be written keeps its size and stays writable while a block is
/// written to it repeatedly.
proof fn trace_keeps_the_disk(states: Seq<RamDisk>, lba: int, pattern: Seq<u8>, i: int)
    requires
        semantics::fill_trace(states, lba, pattern),
        0 <= i < states.len(),
        states[0].is_writable(),
    ensures
        states[i].is_writable(),
        states[i].size() == states[0].size(),
        states[i].id() == states[0].id(),
    decreases i,
{
    if i > 0 {
        trace_keeps_the_disk(states, lba, pattern, i - 1);
        assert(semantics::fill_step(states, lba, pattern, i - 1));
        assert(states[i].contents().len() == states[i - 1].contents().len());
    }
}

/// A RAM disk that can be written carries out every WRITE SAME command over blocks that
/// it has; with a block count of zero these are all up to its end.
pub proof fn ram_disk_answers_write_same(
    identity: Identity,
    disk: RamDisk,
    cdb: Seq<u8>,
    data_out: Seq<u8>,
    post: RamDisk,
    reply: Reply,
    lba: int,
    blocks: int,
)
    requires
        command::requested(cdb) == (Request::WriteSame { lba, blocks }),
        disk.is_writable(),
        lba + blocks <= command::block_count(disk.size() as int),
        semantics::answers(identity, disk, cdb, data_out, post, reply),
    ensures
        reply == response::success(Seq::empty()),
        post.contents() == laws::overwritten(
            disk.contents(),
            lba,
            semantics::fill_count(disk.size() as int, lba, blocks),
            semantics::fill_pattern(data_out),
        ),
        post.id() == disk.id(),
        post.is_writable(),
{
    laws::request_is_natural(cdb);
    let count = semantics::fill_count(disk.size() as int, lba, blocks);
    let pattern = semantics::fill_pattern(data_out);
    assert forall|done: int| 0 <= done < count implies !#[trigger] semantics::fill_broken(
        disk,
        lba,
        done,
        pattern,
        post,
    ) by {
        if semantics::fill_broken(disk, lba, done, pattern, post) {
            let mid = choose|mid: RamDisk| #[trigger]
                semantics::filled(disk, lba, done, pattern, mid) && block_device::write_attempted(
                    mid,
                    semantics::byte_offset(lba + done),
                    pattern,
                    post,
                    false,
                );
            let states = choose|states: Seq<RamDisk>| #[trigger]
                semantics::fill_trace(states, lba, pattern) && states.len() == done + 1
                    && states.first() == disk && states.last() == mid;
            trace_keeps_the_disk(states, lba, pattern, done);
        }
    }
    ram_disk_stores_its_contents();
    let contents = |disk: RamDisk| disk.contents();
    laws::write_same_fills_blocks(
        contents,
        identity,
        disk,
        cdb,
        data_out,
        post,
        reply,
        lba,
        blocks,
    );
    let states = choose|states: Seq<RamDisk>| #[trigger]
        semantics::fill_trace(states, lba, pattern) && states.len() == count + 1 && states.first()
            == disk && states.last() == post;
    trace_keeps_the_disk(states, lba, pattern, count);
}

/// A RAM disk is read-only exactly if it was not made to be written.
pub proof fn ram_disk_reports_whether_it_is_writable(disk: RamDisk, read_only: bool)
    ensures
        block_device::reports_read_only(disk, read_only) ==> read_only == !disk.is_writable(),
{
}

/// What a RAM disk answers to commands that name blocks, and what it then stores, byte by
/// byte; the identifier and whether it can be written stay.
pub proof fn ram_disk_on_the_wire(
    identity: Identity,
    disk: RamDisk,
    cdb: Seq<u8>,
    data_out: Seq<u8>,
    post: RamDisk,
    reply: Reply,
)
    requires
        semantics::answers(identity, disk, cdb, data_out, post, reply),
    ensures
        disk.size() == disk.contents().len(),
        post.id() == disk.id(),
        post.is_writable() == disk.is_writable(),
        post.contents().len() == disk.contents().len(),
        wire_laws::read_range(cdb) matches Some((lba, blocks)) ==> {
            &&& post == disk
            &&& if (lba + blocks) * 512 > disk.contents().len() {
                wire_laws::is_refusal(reply, 5, 0x21)
            } else {
                wire_laws::is_good(
                    reply,
                    disk.contents().subrange(lba * 512, (lba + blocks) * 512),
                )
            }
        },
        wire_laws::write_range(cdb) matches Some((lba, blocks)) ==> if !disk.is_writable() {
            post == disk && wire_laws::is_refusal(reply, 7, 0x27)
        } else if (lba + blocks) * 512 > disk.contents().len() {
            post == disk && wire_laws::is_refusal(reply, 5, 0x21)
        } else if data_out.len() < blocks * 512 {
            post == disk && wire_laws::is_refusal(reply, 5, 0x24)
        } else {
            &&& wire_laws::is_good(reply, Seq::empty())
            &&& forall|at: int|
                0 <= at < post.contents().len() ==> #[trigger] post.contents()[at] == if lba * 512
                    <= at < (lba + blocks) * 512 {
                    data_out[at - lba * 512]
                } else {
                    disk.contents()[at]
                }
        },
        wire_laws::fill_range(cdb) matches Some((lba, blocks)) ==> {
            let count = wire_laws::blocks_named(disk.contents().len() as int, lba, blocks);
            if !disk.is_writable() {
                post == disk && wire_laws::is_refusal(reply, 7, 0x27)
            } else if (lba + count) * 512 > disk.contents().len() {
                post == disk && wire_laws::is_refusal(reply, 5, 0x21)
            } else {
                &&& wire_laws::is_good(reply, Seq::empty())
                &&& wire_laws::blocks_hold(disk.contents(), post.contents(), lba, count, data_out)
            }
        },
        wire_laws::read_range(cdb) is None && wire_laws::write_range(cdb) is None
            && wire_laws::fill_range(cdb) is None ==> post == disk,
{
    wire_laws::ranges_on_the_wire(cdb);
    wire_laws::replies_on_the_wire(Seq::empty(), 0, 0, 0, 0);
    ram_disk_stores_its_contents();
    let contents = |disk: RamDisk| disk.contents();
    assert(disk.data.len() == disk.data@.len());
    if let Some((lba, blocks)) = wire_laws::read_range(cdb) {
        if (lba + blocks) * 512 <= disk.contents().len() {
            ram_disk_answers_reads(identity, disk, cdb, data_out, post, reply, lba, blocks);
        }
    }
    if let Some((lba, blocks)) = wire_laws::write_range(cdb) {
        if disk.is_writable() && (lba + blocks) * 512 <= disk.contents().len() && data_out.len()
            >= blocks * 512 {
            ram_disk_answers_writes(identity, disk, cdb, data_out, post, reply, lba, blocks);
        }
    }
    if let Some((lba, blocks)) = wire_laws::fill_range(cdb) {
        let count = wire_laws::blocks_named(disk.contents().len() as int, lba, blocks);
        if disk.is_writable() && (lba + count) * 512 <= disk.contents().len() {
            ram_disk_answers_write_same(identity, disk, cdb, data_out, post, reply, lba, blocks);
            wire_laws::fills_on_the_wire(
                contents,
                identity,
                disk,
                cdb,
                data_out,
                post,
                reply,
                lba,
                blocks,
            );
        }
    }
}

/// The identifier of a disk has eight bytes: those that the data starts with, and zeros
/// where it has fewer.
pub proof fn identifiers_of_disks(data: Seq<u8>, i: int)
    requires
        0 <= i < 8,
    ensures
        id_of(data).len() == 8,
        i < data.len() ==> id_of(data)[i] == data[i],
        i >= data.len() ==> id_of(data)[i] == 0,
{
}

} // verus!
