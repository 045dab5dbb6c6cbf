//! The command processor on RAM disks and on devices that misbehave.

use tcmu::bytes::{put_be_u16, put_be_u32, put_be_u64, read_be_u16, read_be_u32, read_be_u64};
use tcmu::device::{
    mode_sense_10_reply, mode_sense_6_reply, mode_sense_page, reply_to_read, reply_to_write,
};
use tcmu::ram_disk::RamDisk;
use tcmu::response::{check_condition, good, sense_data, truncate_to_alloc_len};
use tcmu::scsi::{
    command_has_data_in, command_has_data_out, ASC_INVALID_FIELD_IN_CDB, ASC_INVALID_OPCODE,
    ASC_LBA_OUT_OF_RANGE, ASC_WRITE_ERROR, ASC_WRITE_PROTECTED, INQUIRY, MODE_SELECT_10,
    MODE_SELECT_6, MODE_SENSE_10, MODE_SENSE_6, READ_10, READ_12, READ_16, READ_6,
    READ_CAPACITY_10, REQUEST_SENSE, SENSE_KEY_DATA_PROTECT, SENSE_KEY_ILLEGAL_REQUEST,
    SENSE_KEY_MEDIUM_ERROR, SERVICE_ACTION_IN_16, SYNCHRONIZE_CACHE_10, SYNCHRONIZE_CACHE_16,
    TEST_UNIT_READY, WRITE_10, WRITE_12, WRITE_16, WRITE_6, WRITE_SAME_10, WRITE_SAME_16,
};
use tcmu::{BlockDevice, DeviceError, TcmuDevice, TcmuDeviceConfig, TcmuResponse};

fn config() -> TcmuDeviceConfig {
    TcmuDeviceConfig {
        vendor_id: *b"EXAMPLE ",
        product_id: *b"RAM DISK        ",
        product_revision: *b"0001",
        device_id_prefix: "ram-disk".to_string(),
    }
}

/// Four sectors, each filled with its number.
fn numbered() -> Vec<u8> {
    let mut contents = Vec::new();
    for sector in 0u8..4 {
        contents.extend(std::iter::repeat(sector).take(512));
    }
    contents
}

fn read_only_disk() -> TcmuDevice<RamDisk> {
    TcmuDevice::new(RamDisk::new(numbered()), config())
}

fn writable_disk() -> TcmuDevice<RamDisk> {
    TcmuDevice::new(RamDisk::new_writable(numbered()), config())
}

fn cdb_6(opcode: u8, lba: u32, blocks: u8) -> Vec<u8> {
    let address = lba.to_be_bytes();
    vec![opcode, address[1], address[2], address[3], blocks, 0]
}

fn cdb_10(opcode: u8, lba: u32, blocks: u16) -> Vec<u8> {
    let mut cdb = vec![0u8; 10];
    cdb[0] = opcode;
    put_be_u32(&mut cdb[2..6], lba);
    put_be_u16(&mut cdb[7..9], blocks);
    cdb
}

fn cdb_12(opcode: u8, lba: u32, blocks: u32) -> Vec<u8> {
    let mut cdb = vec![0u8; 12];
    cdb[0] = opcode;
    put_be_u32(&mut cdb[2..6], lba);
    put_be_u32(&mut cdb[6..10], blocks);
    cdb
}

fn cdb_16(opcode: u8, lba: u64, blocks: u32) -> Vec<u8> {
    let mut cdb = vec![0u8; 16];
    cdb[0] = opcode;
    put_be_u64(&mut cdb[2..10], lba);
    put_be_u32(&mut cdb[10..14], blocks);
    cdb
}

fn refused(key: u8, asc: u8) -> TcmuResponse {
    let mut sense = vec![0u8; 18];
    sense[0] = 0x70;
    sense[2] = key;
    sense[7] = 10;
    sense[12] = asc;
    TcmuResponse { status: 0x02, data: vec![], sense }
}

fn answered(data: Vec<u8>) -> TcmuResponse {
    TcmuResponse { status: 0x00, data, sense: vec![] }
}

/// A device that says it is writable but keeps the default `write_at`.
struct Forgetful;

impl BlockDevice for Forgetful {
    fn size_bytes(&self) -> u64 {
        2048
    }

    fn read_at(&self, _offset: u64, _len: usize) -> Result<Vec<u8>, DeviceError> {
        Err(DeviceError { message: "no data".to_string() })
    }

    fn id_bytes(&self) -> Vec<u8> {
        vec![]
    }

    fn is_read_only(&self) -> bool {
        false
    }
}

/// A device that accepts a number of writes and then fails.
struct Failing {
    left: usize,
    offsets: Vec<u64>,
}

impl BlockDevice for Failing {
    fn size_bytes(&self) -> u64 {
        u64::MAX
    }

    fn read_at(&self, offset: u64, len: usize) -> Result<Vec<u8>, DeviceError> {
        Ok(vec![offset as u8; len])
    }

    fn id_bytes(&self) -> Vec<u8> {
        let mut id = vec![];
        for offset in &self.offsets {
            id.push((offset / 512) as u8);
        }
        id
    }

    fn is_read_only(&self) -> bool {
        false
    }

    fn write_at(&mut self, offset: u64, data: &[u8]) -> Result<(), DeviceError> {
        if self.left == 0 || data.len() != 512 {
            return Err(DeviceError { message: "broken".to_string() });
        }
        self.left -= 1;
        self.offsets.push(offset);
        Ok(())
    }
}

#[test]
fn ram_disk_session() {
    let mut disk = read_only_disk();
    assert_eq!(disk.logical_block_count(), 4);
    assert_eq!(disk.logical_block_size(), 512);
    let resp = disk.execute(&[0x12, 0x00, 0x00, 0x00, 36, 0x00], &[]);
    assert_eq!(&resp.data[8..16], b"EXAMPLE ");
    assert_eq!(&resp.data[16..32], b"RAM DISK        ");
    assert_eq!(&resp.data[32..36], b"0001");
    let resp = disk.execute(&[0x25, 0, 0, 0, 0, 0, 0, 0, 0, 0], &[]);
    assert_eq!(resp, answered(vec![0, 0, 0, 3, 0, 0, 2, 0]));
    for lba in 0u32..4 {
        let resp = disk.execute(&cdb_10(READ_10, lba, 1), &[]);
        assert_eq!(resp, answered(vec![lba as u8; 512]));
    }
    let resp = disk.execute(&[0x2a, 0, 0, 0, 0, 0, 0, 0, 1, 0], &[]);
    assert_eq!(resp, refused(0x07, 0x27));
}

#[test]
fn standard_inquiry_data() {
    let mut disk = read_only_disk();
    let resp = disk.execute(&[INQUIRY, 0, 0, 0, 255, 0], &[]);
    let mut expected = vec![0, 0, 6, 2, 31, 0, 0, 2];
    expected.extend(b"EXAMPLE RAM DISK        0001");
    assert_eq!(resp, answered(expected.clone()));
    // Less room gets the beginning.
    let resp = disk.execute(&[INQUIRY, 0, 0, 0, 5, 0], &[]);
    assert_eq!(resp, answered(expected[..5].to_vec()));
    let resp = disk.execute(&[INQUIRY, 0, 0, 1, 0, 0], &[]);
    assert_eq!(resp, answered(expected));
    // A page code without the VPD bit is not valid.
    let resp = disk.execute(&[INQUIRY, 0, 0x80, 0, 255, 0], &[]);
    assert_eq!(resp, refused(SENSE_KEY_ILLEGAL_REQUEST, ASC_INVALID_OPCODE));
}

#[test]
fn vital_product_data_pages() {
    let mut data = numbered();
    for i in 0..8 {
        data[i] = 0xf0 + i as u8;
    }
    let mut disk = TcmuDevice::new(RamDisk::new(data), config());
    let resp = disk.execute(&[INQUIRY, 1, 0x00, 0, 255, 0], &[]);
    assert_eq!(resp, answered(vec![0, 0, 0, 3, 0x00, 0x80, 0x83]));
    let resp = disk.execute(&[INQUIRY, 1, 0x80, 0, 255, 0], &[]);
    let mut serial = vec![0, 0x80, 0, 16];
    serial.extend(b"f0f1f2f3f4f5f6f7");
    assert_eq!(resp, answered(serial));
    let resp = disk.execute(&[INQUIRY, 1, 0x83, 0, 255, 0], &[]);
    let mut designator = vec![0, 0x83, 0, 29, 2, 8, 0, 25];
    designator.extend(b"ram-disk:f0f1f2f3f4f5f6f7");
    assert_eq!(resp, answered(designator.clone()));
    let resp = disk.execute(&[INQUIRY, 1, 0x83, 0, 10, 0], &[]);
    assert_eq!(resp, answered(designator[..10].to_vec()));
    // A page that is not listed is empty.
    let resp = disk.execute(&[INQUIRY, 1, 0xb0, 0, 255, 0], &[]);
    assert_eq!(resp, answered(vec![]));
}

#[test]
fn vpd_pages_and_their_headers() {
    let disk = read_only_disk();
    let listed = disk.vpd_page(0x00);
    assert_eq!(listed, vec![0, 0, 0, 3, 0x00, 0x80, 0x83]);
    for page_code in 0..=255u8 {
        let page = disk.vpd_page(page_code);
        assert_eq!(listed[4..].contains(&page_code), !page.is_empty());
        if !page.is_empty() {
            assert_eq!(&page[..2], &[0, page_code]);
            assert_eq!(read_be_u16(&page[2..4]) as usize, page.len() - 4);
        }
    }
    let serial = disk.vpd_page(0x80);
    let designator = disk.vpd_page(0x83);
    assert_eq!(designator[7] as usize, designator.len() - 8);
    assert_eq!(designator[8..], [&b"ram-disk:"[..], &serial[4..]].concat()[..]);
}

#[test]
fn long_identifiers_wrap_in_the_length_fields() {
    let device = Failing { left: 0, offsets: vec![512 * 0xab; 200] };
    let mut processor = TcmuDevice::new(device, config());
    let resp = processor.execute(&[INQUIRY, 1, 0x83, 0xff, 0xff, 0], &[]);
    // "ram-disk:" and 400 digits: 409 bytes, of which one length byte shows 153.
    assert_eq!(resp.data.len(), 8 + 409);
    assert_eq!(&resp.data[..8], &[0, 0x83, 1, 157, 2, 8, 0, 153]);
    let resp = processor.execute(&[INQUIRY, 1, 0x80, 0xff, 0xff, 0], &[]);
    assert_eq!(&resp.data[..8], &[0, 0x80, 1, 144, b'a', b'b', b'a', b'b']);
}

#[test]
fn capacity_in_both_forms() {
    let mut disk = read_only_disk();
    let mut cdb = vec![0u8; 16];
    cdb[0] = SERVICE_ACTION_IN_16;
    cdb[1] = 0x10;
    put_be_u32(&mut cdb[10..14], 64);
    let resp = disk.execute(&cdb, &[]);
    let mut expected = vec![0, 0, 0, 0, 0, 0, 0, 3, 0, 0, 2, 0];
    expected.extend(vec![0u8; 20]);
    assert_eq!(resp, answered(expected.clone()));
    put_be_u32(&mut cdb[10..14], 12);
    assert_eq!(disk.execute(&cdb, &[]), answered(expected[..12].to_vec()));
    // Another service action is not known.
    cdb[1] = 0x11;
    assert_eq!(disk.execute(&cdb, &[]), refused(SENSE_KEY_ILLEGAL_REQUEST, ASC_INVALID_OPCODE));
    // A device with more blocks than the short form can count.
    let mut huge = TcmuDevice::new(Failing { left: 0, offsets: vec![] }, config());
    let resp = huge.execute(&[READ_CAPACITY_10, 0, 0, 0, 0, 0, 0, 0, 0, 0], &[]);
    assert_eq!(resp, answered(vec![0xff, 0xff, 0xff, 0xff, 0, 0, 2, 0]));
    cdb[1] = 0x10;
    let resp = huge.execute(&cdb, &[]);
    assert_eq!(read_be_u64(&resp.data[0..8]), u64::MAX / 512 - 1);
    assert_eq!(read_be_u32(&resp.data[8..12]), 512);
    // An empty device has no last block.
    let mut empty = TcmuDevice::new(RamDisk::new(vec![]), config());
    assert_eq!(empty.logical_block_count(), 0);
    let resp = empty.execute(&[READ_CAPACITY_10, 0, 0, 0, 0, 0, 0, 0, 0, 0], &[]);
    assert_eq!(resp, answered(vec![0, 0, 0, 0, 0, 0, 2, 0]));
}

#[test]
fn mode_pages_in_both_forms() {
    let mut page = vec![0x08, 18];
    page.extend(vec![0u8; 18]);
    assert_eq!(mode_sense_page(0x08), Some(page.clone()));
    assert_eq!(mode_sense_page(0x3f), Some(page.clone()));
    assert_eq!(mode_sense_page(0x0a), None);
    let mut short = vec![23, 0, 0x80, 0];
    short.extend(page.clone());
    let mut long = vec![0, 26, 0, 0x80, 0, 0, 0, 0];
    long.extend(page);
    let mut disk = read_only_disk();
    let resp = disk.execute(&[MODE_SENSE_6, 0, 0x08, 0, 255, 0], &[]);
    assert_eq!(resp, answered(short.clone()));
    // The two high bits of the page code do not count.
    let resp = disk.execute(&[MODE_SENSE_6, 0, 0xc8, 0, 4, 0], &[]);
    assert_eq!(resp, answered(short[..4].to_vec()));
    let resp = disk.execute(&[MODE_SENSE_10, 0, 0x3f, 0, 0, 0, 0, 1, 0, 0], &[]);
    assert_eq!(resp, answered(long.clone()));
    let mut disk = writable_disk();
    long[3] = 0;
    let resp = disk.execute(&[MODE_SENSE_10, 0, 0x3f, 0, 0, 0, 0, 1, 0, 0], &[]);
    assert_eq!(resp, answered(long));
    let unknown = refused(SENSE_KEY_ILLEGAL_REQUEST, ASC_INVALID_OPCODE);
    assert_eq!(disk.execute(&[MODE_SENSE_6, 0, 0x0a, 0, 255, 0], &[]), unknown);
    let resp = disk.execute(&[MODE_SENSE_10, 0, 0x0a, 0, 0, 0, 0, 1, 0, 0], &[]);
    assert_eq!(resp, unknown);
    assert_eq!(mode_sense_6_reply(0x3f, 3, true), answered(vec![23, 0, 0x80]));
    assert_eq!(mode_sense_10_reply(0x3f, 4, false), answered(vec![0, 26, 0, 0]));
}

#[test]
fn commands_without_effect() {
    let mut disk = writable_disk();
    assert_eq!(disk.execute(&[TEST_UNIT_READY], &[]), answered(vec![]));
    assert_eq!(disk.execute(&[SYNCHRONIZE_CACHE_10], &[]), answered(vec![]));
    assert_eq!(disk.execute(&[SYNCHRONIZE_CACHE_16], &[]), answered(vec![]));
    let mut sense = vec![0u8; 18];
    sense[0] = 0x70;
    sense[7] = 10;
    let resp = disk.execute(&[REQUEST_SENSE, 0, 0, 0, 18, 0], &[]);
    assert_eq!(resp, answered(sense.clone()));
    let resp = disk.execute(&[REQUEST_SENSE, 0, 0, 0, 8, 0], &[]);
    assert_eq!(resp, answered(sense[..8].to_vec()));
    assert_eq!(disk.execute(&[REQUEST_SENSE, 0, 0, 0], &[]), answered(vec![]));
}

#[test]
fn unknown_and_short_commands_are_refused() {
    let mut disk = writable_disk();
    let unknown = refused(SENSE_KEY_ILLEGAL_REQUEST, ASC_INVALID_OPCODE);
    assert_eq!(disk.execute(&[], &[]), unknown);
    assert_eq!(disk.execute(&[0xff; 16], &[]), unknown);
    assert_eq!(disk.execute(&[MODE_SELECT_6; 16], &[]), unknown);
    let six = [INQUIRY, MODE_SENSE_6, READ_6, WRITE_6];
    for opcode in six {
        assert_eq!(disk.execute(&[opcode, 0, 0, 0, 0], &[0; 512]), unknown);
    }
    let ten = [READ_CAPACITY_10, MODE_SENSE_10, READ_10, WRITE_10, WRITE_SAME_10];
    for opcode in ten {
        let mut cdb = vec![0u8; 9];
        cdb[0] = opcode;
        assert_eq!(disk.execute(&cdb, &[0; 512]), unknown);
    }
    for opcode in [READ_12, WRITE_12] {
        let mut cdb = vec![0u8; 11];
        cdb[0] = opcode;
        assert_eq!(disk.execute(&cdb, &[0; 512]), unknown);
    }
    for opcode in [SERVICE_ACTION_IN_16, READ_16, WRITE_16, WRITE_SAME_16] {
        let mut cdb = vec![0u8; 15];
        cdb[0] = opcode;
        cdb[1] = 0x10;
        assert_eq!(disk.execute(&cdb, &[0; 512]), unknown);
    }
}

#[test]
fn every_form_of_read_returns_the_same_blocks() {
    let mut disk = read_only_disk();
    let mut expected = vec![1u8; 512];
    expected.extend(vec![2u8; 512]);
    let expected = answered(expected);
    assert_eq!(disk.execute(&cdb_6(READ_6, 1, 2), &[]), expected);
    assert_eq!(disk.execute(&cdb_10(READ_10, 1, 2), &[]), expected);
    assert_eq!(disk.execute(&cdb_12(READ_12, 1, 2), &[]), expected);
    assert_eq!(disk.execute(&cdb_16(READ_16, 1, 2), &[]), expected);
    // The three high bits of the second byte are not part of the address.
    let mut cdb = cdb_6(READ_6, 1, 2);
    cdb[1] = 0xe0;
    assert_eq!(disk.execute(&cdb, &[]), expected);
}

#[test]
fn every_form_of_write_is_read_back() {
    let mut disk = writable_disk();
    let writes = [
        (cdb_6(WRITE_6, 0, 1), cdb_6(READ_6, 0, 1)),
        (cdb_10(WRITE_10, 1, 1), cdb_10(READ_10, 1, 1)),
        (cdb_12(WRITE_12, 2, 1), cdb_12(READ_12, 2, 1)),
        (cdb_16(WRITE_16, 3, 1), cdb_16(READ_16, 3, 1)),
    ];
    let mut fill = 0x10u8;
    for (write, read) in writes {
        // What follows the announced blocks is not written.
        assert_eq!(disk.execute(&write, &vec![fill; 700]), answered(vec![]));
        assert_eq!(disk.execute(&read, &[]), answered(vec![fill; 512]));
        fill += 1;
    }
    for lba in 0u32..4 {
        let resp = disk.execute(&cdb_10(READ_10, lba, 1), &[]);
        assert_eq!(resp, answered(vec![0x10 + lba as u8; 512]));
    }
}

#[test]
fn zero_blocks() {
    let mut disk = writable_disk();
    // In the short form zero stands for 256 blocks.
    let beyond = refused(SENSE_KEY_ILLEGAL_REQUEST, ASC_LBA_OUT_OF_RANGE);
    assert_eq!(disk.execute(&cdb_6(READ_6, 0, 0), &[]), beyond);
    let mut large = TcmuDevice::new(RamDisk::new(vec![7; 256 * 512]), config());
    assert_eq!(large.execute(&cdb_6(READ_6, 0, 0), &[]), answered(vec![7; 256 * 512]));
    // In the other forms it stands for nothing.
    assert_eq!(disk.execute(&cdb_10(READ_10, 4, 0), &[]), answered(vec![]));
    assert_eq!(disk.execute(&cdb_10(READ_10, 5, 0), &[]), beyond);
    assert_eq!(disk.execute(&cdb_10(WRITE_10, 4, 0), &[]), answered(vec![]));
}

#[test]
fn addresses_at_and_beyond_the_end() {
    let mut disk = writable_disk();
    let beyond = refused(SENSE_KEY_ILLEGAL_REQUEST, ASC_LBA_OUT_OF_RANGE);
    assert_eq!(disk.execute(&cdb_10(READ_10, 3, 1), &[]), answered(vec![3; 512]));
    assert_eq!(disk.execute(&cdb_10(READ_10, 3, 2), &[]), beyond);
    assert_eq!(disk.execute(&cdb_16(READ_16, u64::MAX, 1), &[]), beyond);
    assert_eq!(disk.execute(&cdb_16(READ_16, u64::MAX / 512, 1), &[]), beyond);
    // An address whose offset in bytes would wrap around to the first block.
    assert_eq!(disk.execute(&cdb_16(READ_16, 1 << 55, 1), &[]), beyond);
    assert_eq!(disk.execute(&cdb_16(WRITE_16, 1 << 55, 1), &[9; 512]), beyond);
    assert_eq!(disk.execute(&cdb_16(WRITE_SAME_16, u64::MAX, 1), &[9; 512]), beyond);
    assert_eq!(disk.execute(&cdb_16(WRITE_SAME_16, 3, 2), &[9; 512]), beyond);
    assert_eq!(disk.execute(&cdb_10(READ_10, 0, 4), &[]), answered(numbered()));
}

#[test]
fn writes_with_too_little_data_are_refused() {
    let mut disk = writable_disk();
    let missing = refused(SENSE_KEY_ILLEGAL_REQUEST, ASC_INVALID_FIELD_IN_CDB);
    assert_eq!(disk.execute(&cdb_10(WRITE_10, 0, 2), &[9; 1023]), missing);
    assert_eq!(disk.execute(&cdb_10(READ_10, 0, 4), &[]), answered(numbered()));
    // The range is looked at first.
    let beyond = refused(SENSE_KEY_ILLEGAL_REQUEST, ASC_LBA_OUT_OF_RANGE);
    assert_eq!(disk.execute(&cdb_10(WRITE_10, 4, 2), &[]), beyond);
}

#[test]
fn write_same_repeats_one_block() {
    let mut disk = writable_disk();
    let mut pattern = vec![0u8; 600];
    pattern[0] = 1;
    pattern[511] = 2;
    pattern[512] = 3;
    assert_eq!(disk.execute(&cdb_10(WRITE_SAME_10, 1, 2), &pattern), answered(vec![]));
    let mut expected = numbered();
    for block in [1usize, 2] {
        expected[block * 512..(block + 1) * 512].copy_from_slice(&pattern[..512]);
    }
    assert_eq!(disk.execute(&cdb_10(READ_10, 0, 4), &[]), answered(expected.clone()));
    // Zero blocks stand for all up to the end; without a whole block, zeros are written.
    assert_eq!(disk.execute(&cdb_16(WRITE_SAME_16, 2, 0), &[5; 511]), answered(vec![]));
    expected[1024..].fill(0);
    assert_eq!(disk.execute(&cdb_10(READ_10, 0, 4), &[]), answered(expected.clone()));
    // From the end on there is nothing left to fill.
    assert_eq!(disk.execute(&cdb_10(WRITE_SAME_10, 4, 0), &[5; 512]), answered(vec![]));
    let beyond = refused(SENSE_KEY_ILLEGAL_REQUEST, ASC_LBA_OUT_OF_RANGE);
    assert_eq!(disk.execute(&cdb_10(WRITE_SAME_10, 5, 0), &[5; 512]), beyond);
    assert_eq!(disk.execute(&cdb_10(READ_10, 0, 4), &[]), answered(expected));
}

#[test]
fn read_only_devices_refuse_every_write() {
    let mut disk = read_only_disk();
    let protected = refused(SENSE_KEY_DATA_PROTECT, ASC_WRITE_PROTECTED);
    // Even writes beyond the end or with too little data.
    let writes = [
        cdb_6(WRITE_6, 0, 1),
        cdb_10(WRITE_10, 100, 1),
        cdb_12(WRITE_12, 0, 1),
        cdb_16(WRITE_16, u64::MAX, 1),
        cdb_10(WRITE_SAME_10, 0, 0),
        cdb_16(WRITE_SAME_16, 0, 1),
    ];
    for write in writes {
        assert_eq!(disk.execute(&write, &[]), protected);
    }
    assert_eq!(disk.execute(&cdb_10(READ_10, 0, 4), &[]), answered(numbered()));
}

#[test]
fn failures_of_the_device_are_reported() {
    let mut forgetful = TcmuDevice::new(Forgetful, config());
    let broken = refused(SENSE_KEY_MEDIUM_ERROR, ASC_WRITE_ERROR);
    assert_eq!(forgetful.execute(&cdb_10(WRITE_10, 0, 1), &[1; 512]), broken);
    assert_eq!(forgetful.execute(&cdb_10(WRITE_SAME_10, 0, 1), &[1; 512]), broken);
    let unread = refused(SENSE_KEY_ILLEGAL_REQUEST, ASC_LBA_OUT_OF_RANGE);
    assert_eq!(forgetful.execute(&cdb_10(READ_10, 0, 1), &[]), unread);
    // Filling stops at the first block that cannot be written.
    let mut failing = TcmuDevice::new(Failing { left: 3, offsets: vec![] }, config());
    assert_eq!(failing.execute(&cdb_10(WRITE_SAME_10, 5, 9), &[1; 512]), broken);
    let resp = failing.execute(&[INQUIRY, 1, 0x80, 0, 255, 0], &[]);
    assert_eq!(&resp.data[4..], b"050607");
    let default = Forgetful.write_at(0, &[]).unwrap_err();
    assert_eq!(
        default.message,
        "write_at called on a device that did not override is_read_only"
    );
}

#[test]
fn replies_to_device_results() {
    let failed = || DeviceError { message: "broken".to_string() };
    assert_eq!(reply_to_read(Ok(vec![1, 2])), answered(vec![1, 2]));
    let unread = refused(SENSE_KEY_ILLEGAL_REQUEST, ASC_LBA_OUT_OF_RANGE);
    assert_eq!(reply_to_read(Err(failed())), unread);
    assert_eq!(reply_to_write(Ok(())), answered(vec![]));
    let broken = refused(SENSE_KEY_MEDIUM_ERROR, ASC_WRITE_ERROR);
    assert_eq!(reply_to_write(Err(failed())), broken);
}

#[test]
fn responses() {
    assert_eq!(good(vec![1]), answered(vec![1]));
    let sense = sense_data(5, 0x24, 3);
    assert_eq!(sense, vec![0x70, 0, 5, 0, 0, 0, 0, 10, 0, 0, 0, 0, 0x24, 3, 0, 0, 0, 0]);
    let refusal = check_condition(5, 0x24, 3);
    assert_eq!(refusal, TcmuResponse { status: 2, data: vec![], sense });
    assert_eq!(truncate_to_alloc_len(vec![1, 2, 3], 2), vec![1, 2]);
    assert_eq!(truncate_to_alloc_len(vec![1, 2, 3], 4), vec![1, 2, 3]);
}

#[test]
fn big_endian_numbers() {
    let mut buf = [0u8; 8];
    put_be_u16(&mut buf[0..2], 0x0102);
    put_be_u32(&mut buf[2..6], 0x03040506);
    assert_eq!(buf, [1, 2, 3, 4, 5, 6, 0, 0]);
    assert_eq!(read_be_u16(&buf[1..3]), 0x0203);
    assert_eq!(read_be_u32(&buf[0..4]), 0x01020304);
    put_be_u64(&mut buf, 0xfedcba9876543210);
    assert_eq!(buf, [0xfe, 0xdc, 0xba, 0x98, 0x76, 0x54, 0x32, 0x10]);
    assert_eq!(read_be_u64(&buf), 0xfedcba9876543210);
}

#[test]
fn data_directions() {
    for opcode in [
        MODE_SELECT_6,
        MODE_SELECT_10,
        WRITE_6,
        WRITE_10,
        WRITE_12,
        WRITE_16,
        WRITE_SAME_10,
        WRITE_SAME_16,
    ] {
        assert!(command_has_data_out(opcode));
        assert!(!command_has_data_in(opcode));
    }
    for opcode in [READ_6, READ_10, READ_12, READ_16] {
        assert!(command_has_data_in(opcode));
        assert!(!command_has_data_out(opcode));
    }
    for opcode in [INQUIRY, TEST_UNIT_READY, READ_CAPACITY_10, 0xff] {
        assert!(!command_has_data_in(opcode) && !command_has_data_out(opcode));
    }
}

#[test]
fn ram_disk_by_itself() {
    let mut disk = RamDisk::new_writable(vec![3; 512]);
    assert!(!disk.is_read_only());
    assert_eq!(disk.size_bytes(), 512);
    assert_eq!(disk.id_bytes(), vec![3; 8]);
    assert!(disk.write_at(510, &[7, 8]).is_ok());
    assert_eq!(disk.read_at(509, 3).unwrap(), vec![3, 7, 8]);
    assert_eq!(disk.read_at(510, 3).unwrap_err().message, "read out of range");
    assert!(disk.read_at(u64::MAX, 1).is_err());
    assert!(disk.write_at(511, &[7, 8]).is_err());
    assert!(disk.write_at(u64::MAX, &[]).is_err());
    // The identifier stays when the first bytes change.
    assert!(disk.write_at(0, &[9]).is_ok());
    assert_eq!(disk.id_bytes(), vec![3; 8]);
    let mut fixed = RamDisk::new(vec![]);
    assert!(fixed.is_read_only());
    assert_eq!(fixed.id_bytes(), vec![0; 8]);
    assert!(fixed.write_at(0, &[]).is_err());
}
