//! Numbers of the SCSI command set that the command processor speaks.

use vstd::prelude::*;

verus! {

/// Bytes in one logical block.
pub const LOGICAL_BLOCK_SIZE: u32 = 512;

pub const TEST_UNIT_READY: u8 = 0x00;

pub const REQUEST_SENSE: u8 = 0x03;

pub const READ_6: u8 = 0x08;

pub const WRITE_6: u8 = 0x0a;

pub const INQUIRY: u8 = 0x12;

pub const MODE_SELECT_6: u8 = 0x15;

pub const MODE_SENSE_6: u8 = 0x1a;

pub const READ_CAPACITY_10: u8 = 0x25;

pub const READ_10: u8 = 0x28;

pub const WRITE_10: u8 = 0x2a;

pub const SYNCHRONIZE_CACHE_10: u8 = 0x35;

pub const WRITE_SAME_10: u8 = 0x41;

pub const MODE_SELECT_10: u8 = 0x55;

pub const MODE_SENSE_10: u8 = 0x5a;

pub const READ_16: u8 = 0x88;

pub const WRITE_16: u8 = 0x8a;

pub const SYNCHRONIZE_CACHE_16: u8 = 0x91;

pub const WRITE_SAME_16: u8 = 0x93;

pub const SERVICE_ACTION_IN_16: u8 = 0x9e;

pub const READ_12: u8 = 0xa8;

pub const WRITE_12: u8 = 0xaa;

/// The service action of SERVICE ACTION IN(16) that asks for the capacity.
pub const SERVICE_ACTION_READ_CAPACITY_16: u8 = 0x10;

/// Status of a command that succeeded.
pub const SAM_STAT_GOOD: u8 = 0x00;

/// Status of a command that failed, with the reason in its sense data.
pub const SAM_STAT_CHECK_CONDITION: u8 = 0x02;

/// Page code of the standard INQUIRY data.
pub const INQUIRY_STANDARD: u8 = 0x00;

/// Vital product data page that lists the supported pages.
pub const INQUIRY_VPD_SUPPORTED_PAGES: u8 = 0x00;

/// Vital product data page with the unit serial number.
pub const INQUIRY_VPD_UNIT_SERIAL: u8 = 0x80;

/// Vital product data page with the device identification.
pub const INQUIRY_VPD_DEVICE_ID: u8 = 0x83;

/// Response code of fixed-format sense data about the current command.
pub const SENSE_FIXED_CURRENT: u8 = 0x70;

pub const SENSE_KEY_NO_SENSE: u8 = 0x00;

pub const SENSE_KEY_MEDIUM_ERROR: u8 = 0x03;

pub const SENSE_KEY_ILLEGAL_REQUEST: u8 = 0x05;

pub const SENSE_KEY_DATA_PROTECT: u8 = 0x07;

pub const ASC_WRITE_ERROR: u8 = 0x0c;

pub const ASC_INVALID_OPCODE: u8 = 0x20;

pub const ASC_LBA_OUT_OF_RANGE: u8 = 0x21;

pub const ASC_INVALID_FIELD_IN_CDB: u8 = 0x24;

pub const ASC_WRITE_PROTECTED: u8 = 0x27;

pub const ASCQ_NONE: u8 = 0x00;

/// Mode page that describes caching.
pub const MODE_SENSE_PAGE_CODE_CACHING: u8 = 0x08;

/// Page code that asks for all mode pages.
pub const MODE_SENSE_PAGE_CODE_ALL: u8 = 0x3f;

/// Whether a command with this opcode carries data from the initiator.
pub open spec fn sends_data(opcode: u8) -> bool {
    ||| opcode == MODE_SELECT_6
    ||| opcode == MODE_SELECT_10
    ||| opcode == WRITE_6
    ||| opcode == WRITE_10
    ||| opcode == WRITE_12
    ||| opcode == WRITE_16
    ||| opcode == WRITE_SAME_10
    ||| opcode == WRITE_SAME_16
}

/// Whether a command with this opcode asks for blocks of the device.
pub open spec fn wants_blocks(opcode: u8) -> bool {
    opcode == READ_6 || opcode == READ_10 || opcode == READ_12 || opcode == READ_16
}

/// Whether a command with this opcode carries data from the initiator.
pub fn command_has_data_out(opcode: u8) -> (b: bool)
    ensures
        b == sends_data(opcode),
{
    opcode == MODE_SELECT_6 || opcode == MODE_SELECT_10 || opcode == WRITE_6 || opcode == WRITE_10
        || opcode == WRITE_12 || opcode == WRITE_16 || opcode == WRITE_SAME_10 || opcode
        == WRITE_SAME_16
}

/// Whether a command with this opcode asks for blocks of the device.
pub fn command_has_data_in(opcode: u8) -> (b: bool)
    ensures
        b == wants_blocks(opcode),
{
    opcode == READ_6 || opcode == READ_10 || opcode == READ_12 || opcode == READ_16
}

} // verus!
