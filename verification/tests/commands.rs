//! Commands against a read-only and a writable device.

use tcmu::bytes::{put_be_u16, put_be_u32, read_be_u32};
use tcmu::scsi::{
    ASC_LBA_OUT_OF_RANGE, ASC_WRITE_PROTECTED, INQUIRY, LOGICAL_BLOCK_SIZE, MODE_SENSE_6,
    MODE_SENSE_PAGE_CODE_ALL, READ_10, READ_CAPACITY_10, SAM_STAT_CHECK_CONDITION, SAM_STAT_GOOD,
    SENSE_KEY_DATA_PROTECT, SENSE_KEY_ILLEGAL_REQUEST, WRITE_10, WRITE_SAME_10,
};
use tcmu::{BlockDevice, DeviceError, TcmuDevice, TcmuDeviceConfig};

// ── Read-only device ──────────────────────────────────────────────────────

struct RoDevice {
    data: Vec<u8>,
    id: [u8; 4],
}

impl RoDevice {
    fn new(data: Vec<u8>) -> Self {
        let id = (data.len() as u32).to_be_bytes();
        Self { data, id }
    }
}

impl BlockDevice for RoDevice {
    fn size_bytes(&self) -> u64 {
        self.data.len() as u64
    }

    fn read_at(&self, offset: u64, len: usize) -> Result<Vec<u8>, DeviceError> {
        Ok(self.data[offset as usize..offset as usize + len].to_vec())
    }

    fn id_bytes(&self) -> Vec<u8> {
        self.id.to_vec()
    }
    // is_read_only() defaults to true
}

// ── Read-write device ─────────────────────────────────────────────────────

struct RwDevice {
    data: Vec<u8>,
    id: [u8; 4],
}

impl RwDevice {
    fn new(size_blocks: usize) -> Self {
        let data = vec![0u8; size_blocks * LOGICAL_BLOCK_SIZE as usize];
        let id = (size_blocks as u32).to_be_bytes();
        Self { data, id }
    }
}

impl BlockDevice for RwDevice {
    fn size_bytes(&self) -> u64 {
        self.data.len() as u64
    }

    fn read_at(&self, offset: u64, len: usize) -> Result<Vec<u8>, DeviceError> {
        Ok(self.data[offset as usize..offset as usize + len].to_vec())
    }

    fn id_bytes(&self) -> Vec<u8> {
        self.id.to_vec()
    }

    fn is_read_only(&self) -> bool {
        false
    }

    fn write_at(&mut self, offset: u64, data: &[u8]) -> Result<(), DeviceError> {
        let off = offset as usize;
        self.data[off..off + data.len()].copy_from_slice(data);
        Ok(())
    }
}

// ── Helpers ───────────────────────────────────────────────────────────────

fn ro_config() -> TcmuDeviceConfig {
    TcmuDeviceConfig {
        vendor_id: *b"TESTVEN ",
        product_id: *b"TESTPROD        ",
        product_revision: *b"0001",
        device_id_prefix: "test-device".to_string(),
    }
}

fn ro_device(size_blocks: usize) -> TcmuDevice<RoDevice> {
    let data = vec![0xAB_u8; size_blocks * LOGICAL_BLOCK_SIZE as usize];
    TcmuDevice::new(RoDevice::new(data), ro_config())
}

fn rw_device(size_blocks: usize) -> TcmuDevice<RwDevice> {
    TcmuDevice::new(RwDevice::new(size_blocks), ro_config())
}

// ── Read-only tests ───────────────────────────────────────────────────────

#[test]
fn inquiry_reports_configured_vendor_and_product() {
    let mut dev = ro_device(4);
    let resp = dev.execute(&[INQUIRY, 0, 0, 0, 36, 0], &[]);
    assert_eq!(resp.status, SAM_STAT_GOOD);
    assert_eq!(&resp.data[8..16], b"TESTVEN ");
    assert_eq!(&resp.data[16..32], b"TESTPROD        ");
}

#[test]
fn read_capacity_matches_block_count() {
    let mut dev = ro_device(8);
    let resp = dev.execute(&[READ_CAPACITY_10, 0, 0, 0, 0, 0, 0, 0, 0, 0], &[]);
    assert_eq!(resp.status, SAM_STAT_GOOD);
    let last_lba = read_be_u32(&resp.data[0..4]) as u64;
    let block_size = read_be_u32(&resp.data[4..8]);
    assert_eq!(block_size, LOGICAL_BLOCK_SIZE);
    assert_eq!(last_lba + 1, dev.logical_block_count());
}

#[test]
fn read_10_returns_correct_data() {
    let mut dev = ro_device(4);
    let mut cdb = [0_u8; 10];
    cdb[0] = READ_10;
    put_be_u32(&mut cdb[2..6], 0);
    put_be_u16(&mut cdb[7..9], 1);
    let resp = dev.execute(&cdb, &[]);
    assert_eq!(resp.status, SAM_STAT_GOOD);
    assert_eq!(resp.data.len(), LOGICAL_BLOCK_SIZE as usize);
    assert!(resp.data.iter().all(|&b| b == 0xAB));
}

#[test]
fn write_rejected_on_read_only_device() {
    let mut dev = ro_device(4);
    let resp = dev.execute(&[WRITE_10, 0, 0, 0, 0, 0, 0, 0, 1, 0], &[0u8; 512]);
    assert_eq!(resp.status, SAM_STAT_CHECK_CONDITION);
    assert_eq!(resp.sense[2], SENSE_KEY_DATA_PROTECT);
    assert_eq!(resp.sense[12], ASC_WRITE_PROTECTED);
}

#[test]
fn mode_sense_sets_wp_bit_for_read_only_device() {
    let mut dev = ro_device(4);
    let resp = dev.execute(&[MODE_SENSE_6, 0, MODE_SENSE_PAGE_CODE_ALL, 0, 255, 0], &[]);
    assert_eq!(resp.status, SAM_STAT_GOOD);
    assert_eq!(resp.data[2] & 0x80, 0x80, "WP bit should be set");
}

#[test]
fn out_of_range_read_returns_check_condition() {
    let mut dev = ro_device(2);
    let mut cdb = [0_u8; 10];
    cdb[0] = READ_10;
    put_be_u32(&mut cdb[2..6], 100);
    put_be_u16(&mut cdb[7..9], 1);
    let resp = dev.execute(&cdb, &[]);
    assert_eq!(resp.status, SAM_STAT_CHECK_CONDITION);
    assert_eq!(resp.sense[2], SENSE_KEY_ILLEGAL_REQUEST);
    assert_eq!(resp.sense[12], ASC_LBA_OUT_OF_RANGE);
}

// ── Read-write tests ──────────────────────────────────────────────────────

#[test]
fn write_10_and_read_back() {
    let mut dev = rw_device(4);
    let payload = vec![0xBE_u8; LOGICAL_BLOCK_SIZE as usize];
    let mut cdb = [0_u8; 10];
    cdb[0] = WRITE_10;
    put_be_u32(&mut cdb[2..6], 2); // LBA 2
    put_be_u16(&mut cdb[7..9], 1);
    let resp = dev.execute(&cdb, &payload);
    assert_eq!(resp.status, SAM_STAT_GOOD);

    cdb[0] = READ_10;
    let resp = dev.execute(&cdb, &[]);
    assert_eq!(resp.status, SAM_STAT_GOOD);
    assert!(resp.data.iter().all(|&b| b == 0xBE));
}

#[test]
fn write_same_fills_blocks() {
    let mut dev = rw_device(4);
    let pattern = vec![0xCC_u8; LOGICAL_BLOCK_SIZE as usize];
    let mut cdb = [0_u8; 10];
    cdb[0] = WRITE_SAME_10;
    put_be_u32(&mut cdb[2..6], 0);
    put_be_u16(&mut cdb[7..9], 4); // all 4 blocks
    let resp = dev.execute(&cdb, &pattern);
    assert_eq!(resp.status, SAM_STAT_GOOD);

    // Verify every block has the pattern.
    for lba in 0u32..4 {
        cdb[0] = READ_10;
        put_be_u32(&mut cdb[2..6], lba);
        put_be_u16(&mut cdb[7..9], 1);
        let resp = dev.execute(&cdb, &[]);
        assert_eq!(resp.status, SAM_STAT_GOOD);
        assert!(resp.data.iter().all(|&b| b == 0xCC), "LBA {lba} mismatch");
    }
}

#[test]
fn mode_sense_clears_wp_bit_for_writable_device() {
    let mut dev = rw_device(4);
    let resp = dev.execute(&[MODE_SENSE_6, 0, MODE_SENSE_PAGE_CODE_ALL, 0, 255, 0], &[]);
    assert_eq!(resp.status, SAM_STAT_GOOD);
    assert_eq!(resp.data[2] & 0x80, 0x00, "WP bit should be clear");
}

#[test]
fn out_of_range_write_returns_check_condition() {
    let mut dev = rw_device(2);
    let mut cdb = [0_u8; 10];
    cdb[0] = WRITE_10;
    put_be_u32(&mut cdb[2..6], 100);
    put_be_u16(&mut cdb[7..9], 1);
    let resp = dev.execute(&cdb, &vec![0u8; 512]);
    assert_eq!(resp.status, SAM_STAT_CHECK_CONDITION);
    assert_eq!(resp.sense[2], SENSE_KEY_ILLEGAL_REQUEST);
    assert_eq!(resp.sense[12], ASC_LBA_OUT_OF_RANGE);
}

/// Mounting a file system through the kernel needs root and kernel modules.
#[test]
fn ext4_roundtrip_not_supported() {}
