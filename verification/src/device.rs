//! The processor of the SCSI commands for a block device.

use crate::block_device;
use crate::block_device::{BlockDevice, DeviceError};
use crate::bytes;
use crate::bytes::{
    append_bytes, copy_of, put_be_u32, put_be_u64, read_be_u16, read_be_u32, read_be_u64, zeros,
};
use crate::command;
use crate::command::Identity;
use crate::response;
use crate::response::{
    check_condition, good, sense_data, truncate_to_alloc_len, Reply, TcmuResponse,
};
use crate::scsi::{
    ASCQ_NONE, ASC_INVALID_FIELD_IN_CDB, ASC_INVALID_OPCODE, ASC_LBA_OUT_OF_RANGE,
    ASC_WRITE_ERROR, ASC_WRITE_PROTECTED, INQUIRY, INQUIRY_STANDARD, INQUIRY_VPD_DEVICE_ID,
    INQUIRY_VPD_SUPPORTED_PAGES, INQUIRY_VPD_UNIT_SERIAL, LOGICAL_BLOCK_SIZE, MODE_SENSE_10,
    MODE_SENSE_6, MODE_SENSE_PAGE_CODE_ALL, MODE_SENSE_PAGE_CODE_CACHING, READ_10, READ_12,
    READ_16, READ_6, READ_CAPACITY_10, REQUEST_SENSE, SENSE_KEY_DATA_PROTECT,
    SENSE_KEY_ILLEGAL_REQUEST, SENSE_KEY_MEDIUM_ERROR, SENSE_KEY_NO_SENSE, SERVICE_ACTION_IN_16,
    SERVICE_ACTION_READ_CAPACITY_16, SYNCHRONIZE_CACHE_10, SYNCHRONIZE_CACHE_16, TEST_UNIT_READY,
    WRITE_10, WRITE_12, WRITE_16, WRITE_6, WRITE_SAME_10, WRITE_SAME_16,
};
use crate::semantics;
use crate::text;
use crate::text::hex_encode;
use vstd::prelude::*;

verus! {

/// Identity strings reported to the SCSI initiator via INQUIRY responses.
pub struct TcmuDeviceConfig {
    /// 8-byte vendor identification field (padded with spaces).
    pub vendor_id: [u8; 8],
    /// 16-byte product identification field (padded with spaces).
    pub product_id: [u8; 16],
    /// 4-byte product revision level.
    pub product_revision: [u8; 4],
    /// Prefix prepended to the hex serial in the VPD device identification
    /// page, e.g. `"mydevice"` produces `"mydevice:<hex-serial>"`.
    pub device_id_prefix: String,
}

impl View for TcmuDeviceConfig {
    type V = Identity;

    open spec fn view(&self) -> Identity {
        Identity {
            vendor_id: self.vendor_id@,
            product_id: self.product_id@,
            product_revision: self.product_revision@,
            device_id_prefix: self.device_id_prefix@,
        }
    }
}

/// TCMU-facing SCSI command processor backed by a [`BlockDevice`].
pub struct TcmuDevice<D> {
    device: D,
    config: TcmuDeviceConfig,
}

impl<D> TcmuDevice<D> {
    /// The block device that the processor serves.
    pub closed spec fn backing(self) -> D {
        self.device
    }

    /// How the processor identifies the device.
    pub closed spec fn identity(self) -> Identity {
        self.config@
    }

    /// Whether `reply` may answer `cdb`, with the device left as it is.
    pub open spec fn answered(self, cdb: Seq<u8>, reply: Reply) -> bool where D: BlockDevice {
        executed(self, cdb, Seq::empty(), self, reply)
    }
}

/// Whether executing `cdb` with `data_out` may turn `pre` into `post` and be answered
/// by `reply`.
pub open spec fn executed<D: BlockDevice>(
    pre: TcmuDevice<D>,
    cdb: Seq<u8>,
    data_out: Seq<u8>,
    post: TcmuDevice<D>,
    reply: Reply,
) -> bool {
    &&& semantics::answers(pre.identity(), pre.backing(), cdb, data_out, post.backing(), reply)
    &&& post.identity() == pre.identity()
}

/// Answers a read that the device answered with `result`.
pub fn reply_to_read(result: Result<Vec<u8>, DeviceError>) -> (response: TcmuResponse)
    ensures
        response@ == semantics::read_reply(result),
{
    match result {
        Ok(bytes) => good(bytes),
        Err(_) => check_condition(SENSE_KEY_ILLEGAL_REQUEST, ASC_LBA_OUT_OF_RANGE, ASCQ_NONE),
    }
}

/// Answers a write that the device answered with `result`.
pub fn reply_to_write(result: Result<(), DeviceError>) -> (response: TcmuResponse)
    ensures
        response@ == semantics::write_reply(result is Ok),
{
    match result {
        Ok(()) => good(Vec::new()),
        Err(_) => check_condition(SENSE_KEY_MEDIUM_ERROR, ASC_WRITE_ERROR, ASCQ_NONE),
    }
}

/// Answers a command that is not known or not well formed.
fn reject() -> (response: TcmuResponse)
    ensures
        response@ == command::invalid_command(),
{
    check_condition(SENSE_KEY_ILLEGAL_REQUEST, ASC_INVALID_OPCODE, ASCQ_NONE)
}

/// Answers a command that asks for blocks beyond the end of the device.
fn reject_range() -> (response: TcmuResponse)
    ensures
        response@ == command::out_of_range(),
{
    check_condition(SENSE_KEY_ILLEGAL_REQUEST, ASC_LBA_OUT_OF_RANGE, ASCQ_NONE)
}

/// The mode page for `page_code`, if there is one.
pub fn mode_sense_page(page_code: u8) -> (page: Option<Vec<u8>>)
    ensures
        page is Some <==> command::has_mode_page(page_code),
        page matches Some(bytes) ==> bytes@ == command::caching_page(),
{
    if page_code == MODE_SENSE_PAGE_CODE_CACHING || page_code == MODE_SENSE_PAGE_CODE_ALL {
        let mut page = zeros(20);
        page[0] = MODE_SENSE_PAGE_CODE_CACHING;
        page[1] = 18;
        assert(page@ =~= command::caching_page());
        Some(page)
    } else {
        None
    }
}

/// Answers MODE SENSE(6) for a device that reports `read_only`.
pub fn mode_sense_6_reply(page_code: u8, alloc_len: usize, read_only: bool) -> (response:
    TcmuResponse)
    ensures
        response@ == (if command::has_mode_page(page_code) {
            response::success(
                response::clipped(command::mode_data_6(read_only), alloc_len as int),
            )
        } else {
            command::invalid_command()
        }),
{
    let page = match mode_sense_page(page_code) {
        Some(page) => page,
        None => {
            return reject();
        },
    };
    let mut buf = zeros(4);
    buf[0] = 23;
    if read_only {
        buf[2] = 0x80;
    }
    append_bytes(&mut buf, page.as_slice());
    assert(buf@ =~= command::mode_data_6(read_only));
    good(truncate_to_alloc_len(buf, alloc_len))
}

/// Answers MODE SENSE(10) for a device that reports `read_only`.
pub fn mode_sense_10_reply(page_code: u8, alloc_len: usize, read_only: bool) -> (response:
    TcmuResponse)
    ensures
        response@ == (if command::has_mode_page(page_code) {
            response::success(
                response::clipped(command::mode_data_10(read_only), alloc_len as int),
            )
        } else {
            command::invalid_command()
        }),
{
    let page = match mode_sense_page(page_code) {
        Some(page) => page,
        None => {
            return reject();
        },
    };
    let mut buf = zeros(8);
    buf[1] = 26;
    if read_only {
        buf[3] = 0x80;
    }
    append_bytes(&mut buf, page.as_slice());
    assert(buf@ =~= command::mode_data_10(read_only));
    good(truncate_to_alloc_len(buf, alloc_len))
}

/// The low-order byte of `len`.
fn low_byte(len: usize) -> (byte: u8)
    ensures
        seq![byte] == bytes::be_bytes(len as nat, 1),
{
    proof {
        reveal_with_fuel(bytes::be_bytes, 2);
    }
    let byte = (len % 256) as u8;
    assert(seq![byte] =~= bytes::be_bytes(len as nat, 1));
    byte
}

/// Appends the two low-order bytes of `len`, most significant first.
fn push_len(buf: &mut Vec<u8>, len: usize)
    ensures
        final(buf)@ == old(buf)@ + bytes::be_bytes(len as nat, 2),
{
    let ghost before = buf@;
    proof {
        reveal_with_fuel(bytes::be_bytes, 3);
    }
    buf.push((len / 256 % 256) as u8);
    buf.push((len % 256) as u8);
    assert(buf@ =~= before + bytes::be_bytes(len as nat, 2));
}

/// The offset and the length in bytes of `blocks` blocks from `lba` on; `None` where
/// they end beyond what an offset can say.
fn byte_range(lba: u64, blocks: u32) -> (range: Option<(u64, u64)>)
    ensures
        range is Some <==> semantics::byte_len(lba + blocks) <= u64::MAX,
        range matches Some((offset, len)) ==> offset == semantics::byte_len(lba as int) && len
            == semantics::byte_len(blocks as int),
{
    let len: u64 = blocks as u64 * 512;
    let offset: u64 = match lba.checked_mul(512) {
        Some(offset) => offset,
        None => {
            return None;
        },
    };
    match offset.checked_add(len) {
        Some(_) => Some((offset, len)),
        None => None,
    }
}

/// Only the two low-order bytes of a number count for its form in two bytes.
proof fn same_low_bytes(n: nat, m: nat)
    requires
        n % 0x1_0000 == m % 0x1_0000,
    ensures
        bytes::be_bytes(n, 2) == bytes::be_bytes(m, 2),
{
    reveal_with_fuel(bytes::be_bytes, 3);
    assert(n / 256 % 256 == n % 0x1_0000 / 256 && n % 256 == n % 0x1_0000 % 256);
    assert(bytes::be_bytes(n, 2) =~= bytes::be_bytes(m, 2));
}

/// The address in a six-byte CDB.
fn read_lba_6(cdb: &[u8]) -> (lba: u32)
    requires
        cdb@.len() >= 6,
    ensures
        lba == command::lba_6(cdb@),
{
    let first: u8 = cdb[1];
    assert(first & 0x1f == first % 32) by (bit_vector);
    (first & 0x1f) as u32 * 0x1_0000 + cdb[2] as u32 * 0x100 + cdb[3] as u32
}

/// The block count in a six-byte CDB.
fn read_blocks_6(cdb: &[u8]) -> (blocks: u32)
    requires
        cdb@.len() >= 6,
    ensures
        blocks == command::blocks_6(cdb@),
{
    if cdb[4] == 0 {
        256
    } else {
        cdb[4] as u32
    }
}

impl<D: BlockDevice> TcmuDevice<D> {
    /// Wrap a block device with the given SCSI identity configuration.
    pub fn new(device: D, config: TcmuDeviceConfig) -> (processor: Self)
        ensures
            processor.backing() == device,
            processor.identity() == config@,
    {
        Self { device, config }
    }

    /// Execute a single SCSI CDB and return the resulting status, payload, and
    /// sense data.
    ///
    /// `data_out` carries initiator data for WRITE commands.
    pub fn execute(&mut self, cdb: &[u8], data_out: &[u8]) -> (response: TcmuResponse)
        ensures
            executed(*old(self), cdb@, data_out@, *final(self), response@),
            semantics::writing_is_due(old(self).backing(), cdb@, data_out@, response@) ==> exists|
                target: &mut D,
                offset: u64,
                slice: &[u8],
                result: Result<(), DeviceError>,
            |
                {
                    &&& #[trigger] call_ensures(D::write_at, (target, offset, slice), result)
                    &&& semantics::last_write_made(
                        old(self).backing(),
                        cdb@,
                        data_out@,
                        *target,
                        offset,
                        slice@,
                        result is Ok,
                        response@,
                    )
                    &&& *final(target) == final(self).backing()
                },
    {
        if cdb.is_empty() {
            return reject();
        }
        match cdb[0] {
            TEST_UNIT_READY => good(Vec::new()),
            REQUEST_SENSE => self.request_sense(cdb),
            INQUIRY => self.inquiry(cdb),
            READ_CAPACITY_10 => self.read_capacity_10(cdb),
            SERVICE_ACTION_IN_16 => self.service_action_in_16(cdb),
            MODE_SENSE_6 => self.mode_sense_6(cdb),
            MODE_SENSE_10 => self.mode_sense_10(cdb),
            READ_6 => self.read_6(cdb),
            READ_10 => self.read_10(cdb),
            READ_12 => self.read_12(cdb),
            READ_16 => self.read_16(cdb),
            SYNCHRONIZE_CACHE_10 | SYNCHRONIZE_CACHE_16 => good(Vec::new()),
            WRITE_6 => self.write_6(cdb, data_out),
            WRITE_10 => self.write_10(cdb, data_out),
            WRITE_12 => self.write_12(cdb, data_out),
            WRITE_16 => self.write_16(cdb, data_out),
            WRITE_SAME_10 => self.write_same_10(cdb, data_out),
            WRITE_SAME_16 => self.write_same_16(cdb, data_out),
            _ => reject(),
        }
    }

    /// SCSI logical block size reported to TCMU consumers.
    pub fn logical_block_size(&self) -> (size: u32)
        ensures
            size == LOGICAL_BLOCK_SIZE,
    {
        LOGICAL_BLOCK_SIZE
    }

    /// Number of logical blocks reported to TCMU consumers.
    pub fn logical_block_count(&self) -> (count: u64)
        ensures
            count == command::block_count(self.backing().size() as int),
    {
        self.device.size_bytes() / self.logical_block_size() as u64
    }

    /// Answers INQUIRY: the standard data, or a page of vital product data.
    fn inquiry(&self, cdb: &[u8]) -> (response: TcmuResponse)
        requires
            cdb@.len() > 0,
            cdb@[0] == INQUIRY,
        ensures
            self.answered(cdb@, response@),
    {
        if cdb.len() < 6 {
            return reject();
        }
        let flags: u8 = cdb[1];
        assert(flags & 0x01 == flags % 2) by (bit_vector);
        let evpd: bool = flags & 0x01 != 0;
        let page_code: u8 = cdb[2];
        let alloc_len: usize = read_be_u16(&cdb[3..5]) as usize;
        let data = if !evpd {
            if page_code != INQUIRY_STANDARD {
                return reject();
            }
            let mut buf = zeros(8);
            buf[2] = 0x06;
            buf[3] = 0x02;
            buf[4] = 31;
            buf[7] = 0x02;
            append_bytes(&mut buf, self.config.vendor_id.as_slice());
            append_bytes(&mut buf, self.config.product_id.as_slice());
            append_bytes(&mut buf, self.config.product_revision.as_slice());
            assert(buf@ =~= command::inquiry_data(self.identity()));
            buf
        } else {
            self.vpd_page(page_code)
        };
        good(truncate_to_alloc_len(data, alloc_len))
    }

    /// The vital product data page for `page_code`; empty where it is not supported.
    pub fn vpd_page(&self, page_code: u8) -> (page: Vec<u8>)
        ensures
            page@ == command::vpd_data(self.identity(), self.backing().id(), page_code),
    {
        match page_code {
            INQUIRY_VPD_SUPPORTED_PAGES => {
                let buf = vec![
                    0u8,
                    INQUIRY_VPD_SUPPORTED_PAGES,
                    0u8,
                    3u8,
                    INQUIRY_VPD_SUPPORTED_PAGES,
                    INQUIRY_VPD_UNIT_SERIAL,
                    INQUIRY_VPD_DEVICE_ID,
                ];
                assert(buf@ =~= command::vpd_data(
                    self.identity(),
                    self.backing().id(),
                    page_code,
                ));
                buf
            },
            INQUIRY_VPD_UNIT_SERIAL => {
                let serial = self.hex_serial();
                let serial_bytes = serial.as_str().as_bytes();
                let mut buf = vec![0u8, INQUIRY_VPD_UNIT_SERIAL];
                push_len(&mut buf, serial_bytes.len());
                append_bytes(&mut buf, serial_bytes);
                assert(buf@ =~= command::vpd_data(
                    self.identity(),
                    self.backing().id(),
                    page_code,
                ));
                buf
            },
            INQUIRY_VPD_DEVICE_ID => {
                let mut ident = self.config.device_id_prefix.clone();
                proof {
                    reveal_strlit(":");
                    assert(":"@ =~= seq![':']);
                }
                ident.append(":");
                ident.append(self.hex_serial().as_str());
                let ident_bytes = ident.as_str().as_bytes();
                let mut buf = vec![0u8, INQUIRY_VPD_DEVICE_ID];
                proof {
                    let len = ident_bytes@.len();
                    same_low_bytes(len % 0x1_0000 + 4, len + 4);
                }
                push_len(&mut buf, ident_bytes.len() % 0x1_0000 + 4);
                buf.push(0x02);
                buf.push(0x08);
                buf.push(0x00);
                buf.push(low_byte(ident_bytes.len()));
                append_bytes(&mut buf, ident_bytes);
                assert(buf@ =~= command::vpd_data(
                    self.identity(),
                    self.backing().id(),
                    page_code,
                ));
                buf
            },
            _ => Vec::new(),
        }
    }

    /// Answers REQUEST SENSE: there is nothing to report.
    fn request_sense(&self, cdb: &[u8]) -> (response: TcmuResponse)
        requires
            cdb@.len() > 0,
            cdb@[0] == REQUEST_SENSE,
        ensures
            self.answered(cdb@, response@),
    {
        let alloc_len: usize = if cdb.len() > 4 {
            cdb[4] as usize
        } else {
            0
        };
        let sense = sense_data(SENSE_KEY_NO_SENSE, 0, 0);
        good(truncate_to_alloc_len(sense, alloc_len))
    }

    /// Answers READ CAPACITY(10).
    fn read_capacity_10(&self, cdb: &[u8]) -> (response: TcmuResponse)
        requires
            cdb@.len() > 0,
            cdb@[0] == READ_CAPACITY_10,
        ensures
            self.answered(cdb@, response@),
    {
        if cdb.len() < 10 {
            return reject();
        }
        let blocks: u64 = self.logical_block_count();
        let last: u64 = blocks.saturating_sub(1);
        let last_lba: u32 = if last < u32::MAX as u64 {
            last as u32
        } else {
            u32::MAX
        };
        let mut address = zeros(4);
        put_be_u32(address.as_mut_slice(), last_lba);
        let mut block_size = zeros(4);
        put_be_u32(block_size.as_mut_slice(), self.logical_block_size());
        append_bytes(&mut address, block_size.as_slice());
        good(address)
    }

    /// Answers SERVICE ACTION IN(16), of which only READ CAPACITY(16) is known.
    fn service_action_in_16(&self, cdb: &[u8]) -> (response: TcmuResponse)
        requires
            cdb@.len() > 0,
            cdb@[0] == SERVICE_ACTION_IN_16,
        ensures
            self.answered(cdb@, response@),
    {
        if cdb.len() < 16 {
            return reject();
        }
        let action: u8 = cdb[1];
        assert(action & 0x1f == action % 32) by (bit_vector);
        if (action & 0x1f) != SERVICE_ACTION_READ_CAPACITY_16 {
            return reject();
        }
        let alloc_len: usize = read_be_u32(&cdb[10..14]) as usize;
        let mut buf = zeros(8);
        put_be_u64(buf.as_mut_slice(), self.logical_block_count().saturating_sub(1));
        let mut block_size = zeros(4);
        put_be_u32(block_size.as_mut_slice(), self.logical_block_size());
        append_bytes(&mut buf, block_size.as_slice());
        append_bytes(&mut buf, zeros(20).as_slice());
        good(truncate_to_alloc_len(buf, alloc_len))
    }

    /// Answers MODE SENSE(6).
    fn mode_sense_6(&self, cdb: &[u8]) -> (response: TcmuResponse)
        requires
            cdb@.len() > 0,
            cdb@[0] == MODE_SENSE_6,
        ensures
            self.answered(cdb@, response@),
    {
        if cdb.len() < 6 {
            return reject();
        }
        let control: u8 = cdb[2];
        assert(control & 0x3f == control % 64) by (bit_vector);
        let read_only = self.device.is_read_only();
        assert(block_device::reports_read_only(self.backing(), read_only));
        mode_sense_6_reply(control & 0x3f, cdb[4] as usize, read_only)
    }

    /// Answers MODE SENSE(10).
    fn mode_sense_10(&self, cdb: &[u8]) -> (response: TcmuResponse)
        requires
            cdb@.len() > 0,
            cdb@[0] == MODE_SENSE_10,
        ensures
            self.answered(cdb@, response@),
    {
        if cdb.len() < 10 {
            return reject();
        }
        let control: u8 = cdb[2];
        assert(control & 0x3f == control % 64) by (bit_vector);
        let read_only = self.device.is_read_only();
        assert(block_device::reports_read_only(self.backing(), read_only));
        mode_sense_10_reply(control & 0x3f, read_be_u16(&cdb[7..9]) as usize, read_only)
    }

    /// Answers READ(6).
    fn read_6(&self, cdb: &[u8]) -> (response: TcmuResponse)
        requires
            cdb@.len() > 0,
            cdb@[0] == READ_6,
        ensures
            self.answered(cdb@, response@),
    {
        if cdb.len() < 6 {
            return reject();
        }
        self.read_blocks(read_lba_6(cdb) as u64, read_blocks_6(cdb))
    }

    /// Answers READ(10).
    fn read_10(&self, cdb: &[u8]) -> (response: TcmuResponse)
        requires
            cdb@.len() > 0,
            cdb@[0] == READ_10,
        ensures
            self.answered(cdb@, response@),
    {
        if cdb.len() < 10 {
            return reject();
        }
        let lba: u64 = read_be_u32(&cdb[2..6]) as u64;
        let transfer: u32 = read_be_u16(&cdb[7..9]) as u32;
        self.read_blocks(lba, transfer)
    }

    /// Answers READ(12).
    fn read_12(&self, cdb: &[u8]) -> (response: TcmuResponse)
        requires
            cdb@.len() > 0,
            cdb@[0] == READ_12,
        ensures
            self.answered(cdb@, response@),
    {
        if cdb.len() < 12 {
            return reject();
        }
        let lba: u64 = read_be_u32(&cdb[2..6]) as u64;
        let transfer: u32 = read_be_u32(&cdb[6..10]);
        self.read_blocks(lba, transfer)
    }

    /// Answers READ(16).
    fn read_16(&self, cdb: &[u8]) -> (response: TcmuResponse)
        requires
            cdb@.len() > 0,
            cdb@[0] == READ_16,
        ensures
            self.answered(cdb@, response@),
    {
        if cdb.len() < 16 {
            return reject();
        }
        let lba: u64 = read_be_u64(&cdb[2..10]);
        let transfer: u32 = read_be_u32(&cdb[10..14]);
        self.read_blocks(lba, transfer)
    }

    /// Reads `transfer_blocks` blocks from `lba` on.
    fn read_blocks(&self, lba: u64, transfer_blocks: u32) -> (response: TcmuResponse)
        ensures
            semantics::answers_read(
                self.backing(),
                lba as int,
                transfer_blocks as int,
                response@,
            ),
    {
        let (offset, byte_len) = match byte_range(lba, transfer_blocks) {
            Some(range) => range,
            None => {
                return reject_range();
            },
        };
        if offset + byte_len > self.device.size_bytes() || byte_len > usize::MAX as u64 {
            return reject_range();
        }
        let result = self.device.read_at(offset, byte_len as usize);
        assert(offset == semantics::byte_offset(lba as int));
        assert(block_device::reads_as(self.backing(), offset, byte_len as usize, result));
        reply_to_read(result)
    }

    /// Answers WRITE(6).
    fn write_6(&mut self, cdb: &[u8], data_out: &[u8]) -> (response: TcmuResponse)
        requires
            cdb@.len() > 0,
            cdb@[0] == WRITE_6,
        ensures
            executed(*old(self), cdb@, data_out@, *final(self), response@),
            semantics::writing_is_due(old(self).backing(), cdb@, data_out@, response@) ==> exists|
                target: &mut D,
                offset: u64,
                slice: &[u8],
                result: Result<(), DeviceError>,
            |
                {
                    &&& #[trigger] call_ensures(D::write_at, (target, offset, slice), result)
                    &&& semantics::last_write_made(
                        old(self).backing(),
                        cdb@,
                        data_out@,
                        *target,
                        offset,
                        slice@,
                        result is Ok,
                        response@,
                    )
                    &&& *final(target) == final(self).backing()
                },
    {
        if cdb.len() < 6 {
            return reject();
        }
        self.write_blocks(read_lba_6(cdb) as u64, read_blocks_6(cdb), data_out)
    }

    /// Answers WRITE(10).
    fn write_10(&mut self, cdb: &[u8], data_out: &[u8]) -> (response: TcmuResponse)
        requires
            cdb@.len() > 0,
            cdb@[0] == WRITE_10,
        ensures
            executed(*old(self), cdb@, data_out@, *final(self), response@),
            semantics::writing_is_due(old(self).backing(), cdb@, data_out@, response@) ==> exists|
                target: &mut D,
                offset: u64,
                slice: &[u8],
                result: Result<(), DeviceError>,
            |
                {
                    &&& #[trigger] call_ensures(D::write_at, (target, offset, slice), result)
                    &&& semantics::last_write_made(
                        old(self).backing(),
                        cdb@,
                        data_out@,
                        *target,
                        offset,
                        slice@,
                        result is Ok,
                        response@,
                    )
                    &&& *final(target) == final(self).backing()
                },
    {
        if cdb.len() < 10 {
            return reject();
        }
        let lba: u64 = read_be_u32(&cdb[2..6]) as u64;
        let transfer: u32 = read_be_u16(&cdb[7..9]) as u32;
        self.write_blocks(lba, transfer, data_out)
    }

    /// Answers WRITE(12).
    fn write_12(&mut self, cdb: &[u8], data_out: &[u8]) -> (response: TcmuResponse)
        requires
            cdb@.len() > 0,
            cdb@[0] == WRITE_12,
        ensures
            executed(*old(self), cdb@, data_out@, *final(self), response@),
            semantics::writing_is_due(old(self).backing(), cdb@, data_out@, response@) ==> exists|
                target: &mut D,
                offset: u64,
                slice: &[u8],
                result: Result<(), DeviceError>,
            |
                {
                    &&& #[trigger] call_ensures(D::write_at, (target, offset, slice), result)
                    &&& semantics::last_write_made(
                        old(self).backing(),
                        cdb@,
                        data_out@,
                        *target,
                        offset,
                        slice@,
                        result is Ok,
                        response@,
                    )
                    &&& *final(target) == final(self).backing()
                },
    {
        if cdb.len() < 12 {
            return reject();
        }
        let lba: u64 = read_be_u32(&cdb[2..6]) as u64;
        let transfer: u32 = read_be_u32(&cdb[6..10]);
        self.write_blocks(lba, transfer, data_out)
    }

    /// Answers WRITE(16).
    fn write_16(&mut self, cdb: &[u8], data_out: &[u8]) -> (response: TcmuResponse)
        requires
            cdb@.len() > 0,
            cdb@[0] == WRITE_16,
        ensures
            executed(*old(self), cdb@, data_out@, *final(self), response@),
            semantics::writing_is_due(old(self).backing(), cdb@, data_out@, response@) ==> exists|
                target: &mut D,
                offset: u64,
                slice: &[u8],
                result: Result<(), DeviceError>,
            |
                {
                    &&& #[trigger] call_ensures(D::write_at, (target, offset, slice), result)
                    &&& semantics::last_write_made(
                        old(self).backing(),
                        cdb@,
                        data_out@,
                        *target,
                        offset,
                        slice@,
                        result is Ok,
                        response@,
                    )
                    &&& *final(target) == final(self).backing()
                },
    {
        if cdb.len() < 16 {
            return reject();
        }
        let lba: u64 = read_be_u64(&cdb[2..10]);
        let transfer: u32 = read_be_u32(&cdb[10..14]);
        self.write_blocks(lba, transfer, data_out)
    }

    /// Writes `transfer_blocks` blocks of `data_out` from `lba` on.
    fn write_blocks(&mut self, lba: u64, transfer_blocks: u32, data_out: &[u8]) -> (response:
        TcmuResponse)
        ensures
            semantics::answers_write(
                old(self).backing(),
                lba as int,
                transfer_blocks as int,
                data_out@,
                final(self).backing(),
                response@,
            ),
            final(self).identity() == old(self).identity(),
            semantics::write_is_due(
                old(self).backing(),
                lba as int,
                transfer_blocks as int,
                data_out@,
                response@,
            ) ==> exists|
                target: &mut D,
                offset: u64,
                slice: &[u8],
                result: Result<(), DeviceError>,
            |
                {
                    &&& #[trigger] call_ensures(D::write_at, (target, offset, slice), result)
                    &&& semantics::write_made(
                        old(self).backing(),
                        lba as int,
                        transfer_blocks as int,
                        data_out@,
                        *target,
                        offset,
                        slice@,
                        result is Ok,
                        response@,
                    )
                    &&& *final(target) == final(self).backing()
                },
    {
        let read_only = self.device.is_read_only();
        if read_only {
            return check_condition(SENSE_KEY_DATA_PROTECT, ASC_WRITE_PROTECTED, ASCQ_NONE);
        }
        let (offset, byte_len) = match byte_range(lba, transfer_blocks) {
            Some(range) => range,
            None => {
                return reject_range();
            },
        };
        if offset + byte_len > self.device.size_bytes() {
            return reject_range();
        }
        if (data_out.len() as u64) < byte_len {
            return check_condition(SENSE_KEY_ILLEGAL_REQUEST, ASC_INVALID_FIELD_IN_CDB, ASCQ_NONE);
        }
        let data: &[u8] = &data_out[0..byte_len as usize];
        let result = self.device.write_at(offset, data);
        assert(data@ =~= data_out@.take(byte_len as int));
        assert(offset == semantics::byte_offset(lba as int));
        assert(block_device::write_attempted(
            old(self).backing(),
            offset,
            data_out@.take(byte_len as int),
            self.backing(),
            result is Ok,
        ));
        reply_to_write(result)
    }

    /// Answers WRITE SAME(10).
    fn write_same_10(&mut self, cdb: &[u8], data_out: &[u8]) -> (response: TcmuResponse)
        requires
            cdb@.len() > 0,
            cdb@[0] == WRITE_SAME_10,
        ensures
            executed(*old(self), cdb@, data_out@, *final(self), response@),
            semantics::writing_is_due(old(self).backing(), cdb@, data_out@, response@) ==> exists|
                target: &mut D,
                offset: u64,
                slice: &[u8],
                result: Result<(), DeviceError>,
            |
                {
                    &&& #[trigger] call_ensures(D::write_at, (target, offset, slice), result)
                    &&& semantics::last_write_made(
                        old(self).backing(),
                        cdb@,
                        data_out@,
                        *target,
                        offset,
                        slice@,
                        result is Ok,
                        response@,
                    )
                    &&& *final(target) == final(self).backing()
                },
    {
        if cdb.len() < 10 {
            return reject();
        }
        let lba: u64 = read_be_u32(&cdb[2..6]) as u64;
        let blocks: u64 = read_be_u16(&cdb[7..9]) as u64;
        let count: u64 = if blocks == 0 {
            self.logical_block_count().saturating_sub(lba)
        } else {
            blocks
        };
        self.write_same_blocks(lba, count, data_out)
    }

    /// Answers WRITE SAME(16).
    fn write_same_16(&mut self, cdb: &[u8], data_out: &[u8]) -> (response: TcmuResponse)
        requires
            cdb@.len() > 0,
            cdb@[0] == WRITE_SAME_16,
        ensures
            executed(*old(self), cdb@, data_out@, *final(self), response@),
            semantics::writing_is_due(old(self).backing(), cdb@, data_out@, response@) ==> exists|
                target: &mut D,
                offset: u64,
                slice: &[u8],
                result: Result<(), DeviceError>,
            |
                {
                    &&& #[trigger] call_ensures(D::write_at, (target, offset, slice), result)
                    &&& semantics::last_write_made(
                        old(self).backing(),
                        cdb@,
                        data_out@,
                        *target,
                        offset,
                        slice@,
                        result is Ok,
                        response@,
                    )
                    &&& *final(target) == final(self).backing()
                },
    {
        if cdb.len() < 16 {
            return reject();
        }
        let lba: u64 = read_be_u64(&cdb[2..10]);
        let blocks: u64 = read_be_u32(&cdb[10..14]) as u64;
        let count: u64 = if blocks == 0 {
            self.logical_block_count().saturating_sub(lba)
        } else {
            blocks
        };
        self.write_same_blocks(lba, count, data_out)
    }

    /// Writes one block `count` times, to the blocks from `lba` on.
    fn write_same_blocks(&mut self, lba: u64, count: u64, data_out: &[u8]) -> (response:
        TcmuResponse)
        ensures
            semantics::answers_write_same(
                old(self).backing(),
                lba as int,
                count as int,
                data_out@,
                final(self).backing(),
                response@,
            ),
            final(self).identity() == old(self).identity(),
            semantics::fill_is_due(
                old(self).backing(),
                lba as int,
                count as int,
                response@,
            ) ==> exists|
                target: &mut D,
                offset: u64,
                slice: &[u8],
                result: Result<(), DeviceError>,
            |
                {
                    &&& #[trigger] call_ensures(D::write_at, (target, offset, slice), result)
                    &&& semantics::last_fill_made(
                        old(self).backing(),
                        lba as int,
                        count as int,
                        data_out@,
                        *target,
                        offset,
                        slice@,
                        result is Ok,
                        response@,
                    )
                    &&& *final(target) == final(self).backing()
                },
    {
        let read_only = self.device.is_read_only();
        if read_only {
            return check_condition(SENSE_KEY_DATA_PROTECT, ASC_WRITE_PROTECTED, ASCQ_NONE);
        }
        let end: u64 = match lba.checked_add(count) {
            Some(end) => end,
            None => {
                return reject_range();
            },
        };
        let block_count: u64 = self.logical_block_count();
        if end > block_count {
            return reject_range();
        }
        let block_size: usize = 512;
        let pattern: Vec<u8> = if data_out.len() >= block_size {
            copy_of(&data_out[0..block_size])
        } else {
            zeros(block_size)
        };
        assert(pattern@ =~= semantics::fill_pattern(data_out@));
        let ghost pre = self.backing();
        let ghost mut states = seq![pre];
        let mut i: u64 = 0;
        while i < count
            invariant
                i <= count,
                lba + count == end,
                end <= block_count,
                block_count * 512 <= u64::MAX,
                self.identity() == old(self).identity(),
                pre == old(self).backing(),
                pattern@ == semantics::fill_pattern(data_out@),
                semantics::fill_trace(states, lba as int, pattern@),
                states.len() == i + 1,
                states.first() == pre,
                states.last() == self.backing(),
                block_device::reports_read_only(pre, false),
                end <= command::block_count(pre.size() as int),
                i > 0 ==> exists|
                    target: &mut D,
                    offset: u64,
                    slice: &[u8],
                    result: Result<(), DeviceError>,
                |
                    {
                        &&& #[trigger] call_ensures(D::write_at, (target, offset, slice), result)
                        &&& semantics::last_fill_made(
                            pre,
                            lba as int,
                            i as int,
                            data_out@,
                            *target,
                            offset,
                            slice@,
                            result is Ok,
                            semantics::write_reply(true),
                        )
                        &&& *final(target) == self.backing()
                    },
            decreases count - i,
        {
            let offset: u64 = (lba + i) * 512;
            let ghost mid = self.backing();
            assert(semantics::filled(pre, lba as int, i as int, pattern@, mid));
            let result = self.device.write_at(offset, pattern.as_slice());
            if result.is_err() {
                assert(semantics::fill_broken(
                    pre,
                    lba as int,
                    i as int,
                    pattern@,
                    self.backing(),
                ));
                return check_condition(SENSE_KEY_MEDIUM_ERROR, ASC_WRITE_ERROR, ASCQ_NONE);
            }
            proof {
                let longer = states.push(self.backing());
                assert forall|k: int| 0 <= k < longer.len() - 1 implies #[trigger]
                    semantics::fill_step(longer, lba as int, pattern@, k) by {
                    if k < i {
                        assert(semantics::fill_step(states, lba as int, pattern@, k));
                    }
                }
                states = longer;
            }
            i = i + 1;
        }
        good(Vec::new())
    }

    /// The serial number: the identifier bytes in hexadecimal.
    fn hex_serial(&self) -> (serial: String)
        ensures
            serial@ == text::hex_text(self.backing().id()),
    {
        hex_encode(self.device.id_bytes().as_slice())
    }
}

} // verus!
