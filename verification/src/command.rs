//! What each command descriptor block asks for, and what the fixed parts of the
//! answers hold.

use crate::bytes;
use crate::response;
use crate::response::Reply;
use crate::scsi::{
    ASCQ_NONE, ASC_INVALID_FIELD_IN_CDB, ASC_INVALID_OPCODE, ASC_LBA_OUT_OF_RANGE,
    ASC_WRITE_ERROR, ASC_WRITE_PROTECTED, INQUIRY, INQUIRY_STANDARD, INQUIRY_VPD_DEVICE_ID,
    INQUIRY_VPD_SUPPORTED_PAGES, INQUIRY_VPD_UNIT_SERIAL, LOGICAL_BLOCK_SIZE, MODE_SENSE_10,
    MODE_SENSE_6, MODE_SENSE_PAGE_CODE_ALL, MODE_SENSE_PAGE_CODE_CACHING, READ_10, READ_12,
    READ_16, READ_6, READ_CAPACITY_10, REQUEST_SENSE, SENSE_KEY_DATA_PROTECT,
    SENSE_KEY_ILLEGAL_REQUEST, SENSE_KEY_MEDIUM_ERROR, SERVICE_ACTION_IN_16,
    SERVICE_ACTION_READ_CAPACITY_16, SYNCHRONIZE_CACHE_10, SYNCHRONIZE_CACHE_16, TEST_UNIT_READY,
    WRITE_10, WRITE_12, WRITE_16, WRITE_6, WRITE_SAME_10, WRITE_SAME_16,
};
use crate::text;
use vstd::prelude::*;

verus! {

/// What a command descriptor block (CDB) asks for.
pub enum Request {
    /// Nothing that the processor has to do.
    Nothing,
    /// Sense data, though there is nothing to report.
    Sense { alloc_len: int },
    /// The standard INQUIRY data.
    Inquiry { alloc_len: int },
    /// One page of vital product data.
    VitalProductData { page_code: u8, alloc_len: int },
    /// The capacity in the short form.
    Capacity10,
    /// The capacity in the long form.
    Capacity16 { alloc_len: int },
    /// A mode page behind the short header.
    Mode6 { page_code: u8, alloc_len: int },
    /// A mode page behind the long header.
    Mode10 { page_code: u8, alloc_len: int },
    /// `blocks` blocks from `lba` on.
    Read { lba: int, blocks: int },
    /// To store `blocks` blocks from `lba` on.
    Write { lba: int, blocks: int },
    /// To store one block in each of `blocks` blocks from `lba` on; zero blocks
    /// stand for all that follow `lba`.
    WriteSame { lba: int, blocks: int },
    /// Something that the processor does not know.
    Unknown,
}

/// The big-endian number in the bytes of `cdb` from `from` up to `to`.
pub open spec fn field(cdb: Seq<u8>, from: int, to: int) -> int {
    bytes::be_value(cdb.subrange(from, to)) as int
}

/// The address in a six-byte CDB: twenty-one bits from the second byte on.
pub open spec fn lba_6(cdb: Seq<u8>) -> int {
    (cdb[1] as int % 32) * 0x1_0000 + cdb[2] as int * 0x100 + cdb[3] as int
}

/// The block count in a six-byte CDB, where zero stands for 256.
pub open spec fn blocks_6(cdb: Seq<u8>) -> int {
    if cdb[4] == 0 {
        256
    } else {
        cdb[4] as int
    }
}

/// How many bytes a CDB with this opcode must have for its fields to be read.
pub open spec fn needed_len(opcode: u8) -> int {
    if opcode == INQUIRY || opcode == MODE_SENSE_6 || opcode == READ_6 || opcode == WRITE_6 {
        6
    } else if opcode == READ_CAPACITY_10 || opcode == MODE_SENSE_10 || opcode == READ_10 || opcode
        == WRITE_10 || opcode == WRITE_SAME_10 {
        10
    } else if opcode == READ_12 || opcode == WRITE_12 {
        12
    } else if opcode == SERVICE_ACTION_IN_16 || opcode == READ_16 || opcode == WRITE_16 || opcode
        == WRITE_SAME_16 {
        16
    } else {
        1
    }
}

/// What `cdb` asks for.
pub open spec fn requested(cdb: Seq<u8>) -> Request {
    if cdb.len() == 0 || cdb.len() < needed_len(cdb[0]) {
        Request::Unknown
    } else {
        let opcode = cdb[0];
        if opcode == TEST_UNIT_READY || opcode == SYNCHRONIZE_CACHE_10 || opcode
            == SYNCHRONIZE_CACHE_16 {
            Request::Nothing
        } else if opcode == REQUEST_SENSE {
            Request::Sense {
                alloc_len: if cdb.len() > 4 {
                    cdb[4] as int
                } else {
                    0
                },
            }
        } else if opcode == INQUIRY {
            if cdb[1] % 2 == 1 {
                Request::VitalProductData { page_code: cdb[2], alloc_len: field(cdb, 3, 5) }
            } else if cdb[2] == INQUIRY_STANDARD {
                Request::Inquiry { alloc_len: field(cdb, 3, 5) }
            } else {
                Request::Unknown
            }
        } else if opcode == READ_CAPACITY_10 {
            Request::Capacity10
        } else if opcode == SERVICE_ACTION_IN_16 {
            if cdb[1] % 32 == SERVICE_ACTION_READ_CAPACITY_16 {
                Request::Capacity16 { alloc_len: field(cdb, 10, 14) }
            } else {
                Request::Unknown
            }
        } else if opcode == MODE_SENSE_6 {
            Request::Mode6 { page_code: cdb[2] % 64, alloc_len: cdb[4] as int }
        } else if opcode == MODE_SENSE_10 {
            Request::Mode10 { page_code: cdb[2] % 64, alloc_len: field(cdb, 7, 9) }
        } else if opcode == READ_6 {
            Request::Read { lba: lba_6(cdb), blocks: blocks_6(cdb) }
        } else if opcode == READ_10 {
            Request::Read { lba: field(cdb, 2, 6), blocks: field(cdb, 7, 9) }
        } else if opcode == READ_12 {
            Request::Read { lba: field(cdb, 2, 6), blocks: field(cdb, 6, 10) }
        } else if opcode == READ_16 {
            Request::Read { lba: field(cdb, 2, 10), blocks: field(cdb, 10, 14) }
        } else if opcode == WRITE_6 {
            Request::Write { lba: lba_6(cdb), blocks: blocks_6(cdb) }
        } else if opcode == WRITE_10 {
            Request::Write { lba: field(cdb, 2, 6), blocks: field(cdb, 7, 9) }
        } else if opcode == WRITE_12 {
            Request::Write { lba: field(cdb, 2, 6), blocks: field(cdb, 6, 10) }
        } else if opcode == WRITE_16 {
            Request::Write { lba: field(cdb, 2, 10), blocks: field(cdb, 10, 14) }
        } else if opcode == WRITE_SAME_10 {
            Request::WriteSame { lba: field(cdb, 2, 6), blocks: field(cdb, 7, 9) }
        } else if opcode == WRITE_SAME_16 {
            Request::WriteSame { lba: field(cdb, 2, 10), blocks: field(cdb, 10, 14) }
        } else {
            Request::Unknown
        }
    }
}

/// The reply to a command that is not known or not well formed.
pub open spec fn invalid_command() -> Reply {
    response::failure(SENSE_KEY_ILLEGAL_REQUEST, ASC_INVALID_OPCODE, ASCQ_NONE)
}

/// The reply to a command that asks for blocks beyond the end of the device.
pub open spec fn out_of_range() -> Reply {
    response::failure(SENSE_KEY_ILLEGAL_REQUEST, ASC_LBA_OUT_OF_RANGE, ASCQ_NONE)
}

/// The reply to a write command on a read-only device.
pub open spec fn write_protected() -> Reply {
    response::failure(SENSE_KEY_DATA_PROTECT, ASC_WRITE_PROTECTED, ASCQ_NONE)
}

/// The reply to a write command that comes with fewer bytes than it announces.
pub open spec fn missing_data() -> Reply {
    response::failure(SENSE_KEY_ILLEGAL_REQUEST, ASC_INVALID_FIELD_IN_CDB, ASCQ_NONE)
}

/// The reply to a write command that the device failed to carry out.
pub open spec fn write_error() -> Reply {
    response::failure(SENSE_KEY_MEDIUM_ERROR, ASC_WRITE_ERROR, ASCQ_NONE)
}

/// How a device identifies itself to the initiator.
pub struct Identity {
    pub vendor_id: Seq<u8>,
    pub product_id: Seq<u8>,
    pub product_revision: Seq<u8>,
    pub device_id_prefix: Seq<char>,
}

/// `len` zero bytes.
pub open spec fn zero_bytes(len: nat) -> Seq<u8> {
    Seq::new(len, |i: int| 0u8)
}

/// The standard INQUIRY data.
pub open spec fn inquiry_data(identity: Identity) -> Seq<u8> {
    seq![0u8, 0u8, 6u8, 2u8, 31u8, 0u8, 0u8, 2u8] + identity.vendor_id + identity.product_id
        + identity.product_revision
}

/// The serial number of a device with these identifier bytes.
pub open spec fn serial_bytes(id: Seq<u8>) -> Seq<u8> {
    vstd::utf8::encode_utf8(text::hex_text(id))
}

/// The designator that names a device: the prefix, a colon and the serial.
pub open spec fn designator_bytes(identity: Identity, id: Seq<u8>) -> Seq<u8> {
    vstd::utf8::encode_utf8(identity.device_id_prefix + seq![':'] + text::hex_text(id))
}

/// The vital product data page `page_code`; empty for one that is not supported.
///
/// The lengths in the headers are those of what follows, in as many low-order
/// bytes as the field has.
pub open spec fn vpd_data(identity: Identity, id: Seq<u8>, page_code: u8) -> Seq<u8> {
    if page_code == INQUIRY_VPD_SUPPORTED_PAGES {
        seq![
            0u8,
            INQUIRY_VPD_SUPPORTED_PAGES,
            0u8,
            3u8,
            INQUIRY_VPD_SUPPORTED_PAGES,
            INQUIRY_VPD_UNIT_SERIAL,
            INQUIRY_VPD_DEVICE_ID,
        ]
    } else if page_code == INQUIRY_VPD_UNIT_SERIAL {
        let serial = serial_bytes(id);
        seq![0u8, INQUIRY_VPD_UNIT_SERIAL] + bytes::be_bytes(serial.len(), 2) + serial
    } else if page_code == INQUIRY_VPD_DEVICE_ID {
        let designator = designator_bytes(identity, id);
        seq![0u8, INQUIRY_VPD_DEVICE_ID] + bytes::be_bytes(designator.len() + 4, 2)
            + seq![2u8, 8u8, 0u8] + bytes::be_bytes(designator.len(), 1) + designator
    } else {
        Seq::empty()
    }
}

/// Whether there is a mode page for `page_code`.
pub open spec fn has_mode_page(page_code: u8) -> bool {
    page_code == MODE_SENSE_PAGE_CODE_CACHING || page_code == MODE_SENSE_PAGE_CODE_ALL
}

/// The caching mode page.
pub open spec fn caching_page() -> Seq<u8> {
    seq![MODE_SENSE_PAGE_CODE_CACHING, 18u8] + zero_bytes(18)
}

/// The device-specific parameter of a mode header: the write-protect bit.
pub open spec fn write_protect_bit(read_only: bool) -> u8 {
    if read_only {
        0x80
    } else {
        0
    }
}

/// The mode data behind the short header.
pub open spec fn mode_data_6(read_only: bool) -> Seq<u8> {
    seq![23u8, 0u8, write_protect_bit(read_only), 0u8] + caching_page()
}

/// The mode data behind the long header.
pub open spec fn mode_data_10(read_only: bool) -> Seq<u8> {
    seq![0u8, 26u8, 0u8, write_protect_bit(read_only), 0u8, 0u8, 0u8, 0u8] + caching_page()
}

/// The number of whole blocks in `size` bytes.
pub open spec fn block_count(size: int) -> int {
    size / 512
}

/// The address of the last block of a device of `size` bytes; zero where it has none.
pub open spec fn last_lba(size: int) -> int {
    if block_count(size) == 0 {
        0
    } else {
        block_count(size) - 1
    }
}

/// The capacity in the short form, whose last address is at most `u32::MAX`.
pub open spec fn capacity_10(size: int) -> Seq<u8> {
    bytes::be_bytes(
        (if last_lba(size) < u32::MAX {
            last_lba(size)
        } else {
            u32::MAX as int
        }) as nat,
        4,
    ) + bytes::be_bytes(LOGICAL_BLOCK_SIZE as nat, 4)
}

/// The capacity in the long form.
pub open spec fn capacity_16(size: int) -> Seq<u8> {
    bytes::be_bytes(last_lba(size) as nat, 8) + bytes::be_bytes(LOGICAL_BLOCK_SIZE as nat, 4)
        + zero_bytes(20)
}

} // verus!
