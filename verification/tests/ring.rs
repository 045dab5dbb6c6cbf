//! Serving entries of the command ring.

use tcmu::ram_disk::RamDisk;
use tcmu::ring::{ByteOrder, Ring, RingError};
use tcmu::{TcmuDevice, TcmuDeviceConfig};

/// Where the tests put things in the shared memory.
const RING: usize = 128;
const RING_SIZE: usize = 256;
const CDB: usize = 512;
const DATA: usize = 1024;
const SIZE: usize = 4096;

struct Shared {
    memory: Vec<u8>,
    order: ByteOrder,
}

impl Shared {
    fn new(order: ByteOrder) -> Self {
        let mut shared = Shared { memory: vec![0u8; SIZE], order };
        shared.put_u32(4, RING as u32);
        shared.put_u32(8, RING_SIZE as u32);
        shared
    }

    fn put_u32(&mut self, at: usize, value: u32) {
        let bytes = match self.order {
            ByteOrder::Little => value.to_le_bytes(),
            ByteOrder::Big => value.to_be_bytes(),
        };
        self.memory[at..at + 4].copy_from_slice(&bytes);
    }

    fn put_u64(&mut self, at: usize, value: u64) {
        let bytes = match self.order {
            ByteOrder::Little => value.to_le_bytes(),
            ByteOrder::Big => value.to_be_bytes(),
        };
        self.memory[at..at + 8].copy_from_slice(&bytes);
    }

    /// Puts a command with the given buffers at `tail`.
    fn put_command(&mut self, tail: usize, len: u32, cdb: &[u8], buffers: &[(u64, u64)]) {
        let entry = RING + tail;
        self.put_u32(entry, len | 1);
        self.put_u32(entry + 8, buffers.len() as u32);
        self.put_u64(entry + 24, CDB as u64);
        let mut at = entry + 48;
        for (offset, len) in buffers {
            self.put_u64(at, *offset);
            self.put_u64(at + 8, *len);
            at += 16;
        }
        self.memory[CDB..CDB + cdb.len()].copy_from_slice(cdb);
    }

    fn ring(&self) -> Ring {
        Ring::attach(&self.memory, self.order).unwrap()
    }
}

fn disk() -> TcmuDevice<RamDisk> {
    let mut data = vec![];
    for i in 0..2048usize {
        data.push((i % 251) as u8);
    }
    let config = TcmuDeviceConfig {
        vendor_id: *b"EXAMPLE ",
        product_id: *b"RAM DISK        ",
        product_revision: *b"0001",
        device_id_prefix: "ram-disk".to_string(),
    };
    TcmuDevice::new(RamDisk::new_writable(data), config)
}

const READ: [u8; 10] = [0x28, 0, 0, 0, 0, 1, 0, 0, 1, 0];
const WRITE: [u8; 10] = [0x2a, 0, 0, 0, 0, 1, 0, 0, 1, 0];

#[test]
fn ring_is_found_through_the_mailbox() {
    for order in [ByteOrder::Little, ByteOrder::Big] {
        let shared = Shared::new(order);
        let ring = shared.ring();
        assert_eq!(ring.cmdr_off, RING as u32);
        assert_eq!(ring.cmdr_size, RING_SIZE as u32);
        assert_eq!(ring.order, order);
    }
    assert_eq!(Ring::attach(&[0; 11], ByteOrder::Little), Err(RingError::OutOfBounds));
    assert!(Ring::attach(&[0; 12], ByteOrder::Little).is_ok());
}

#[test]
fn reads_are_scattered() {
    for order in [ByteOrder::Little, ByteOrder::Big] {
        let mut shared = Shared::new(order);
        let buffers = [(DATA as u64, 100), (DATA as u64 + 600, 0), (DATA as u64 + 700, 1000)];
        shared.put_command(0, 96, &READ, &buffers);
        let before = shared.memory.clone();
        let ring = shared.ring();
        let mut device = disk();
        let result = ring.serve_next(&mut shared.memory, 96, 0, &mut device);
        assert_eq!(result, Ok(Some(96)));
        let mut expected = before;
        for i in 0..512usize {
            let at = if i < 100 { DATA + i } else { DATA + 700 + i - 100 };
            expected[at] = ((512 + i) % 251) as u8;
        }
        // The status, where the buffer count was.
        expected[RING + 8] = 0;
        assert_eq!(shared.memory, expected);
    }
}

#[test]
fn writes_are_gathered_and_read_back() {
    for order in [ByteOrder::Little, ByteOrder::Big] {
        let mut shared = Shared::new(order);
        for i in 0..512usize {
            shared.memory[DATA + i] = 0x40;
            shared.memory[DATA + 1000 + i] = 0x50;
        }
        let buffers = [(DATA as u64 + 1000, 200), (DATA as u64, 312)];
        shared.put_command(0, 80, &WRITE, &buffers);
        let ring = shared.ring();
        let mut device = disk();
        assert_eq!(ring.serve_next(&mut shared.memory, 80, 0, &mut device), Ok(Some(80)));
        let mut written = vec![0x50u8; 200];
        written.extend(vec![0x40u8; 312]);
        assert_eq!(device.execute(&READ, &[]).data, written);
        // Reading into other buffers gives the same bytes.
        let target = DATA as u64 + 2000;
        shared.put_command(80, 80, &READ, &[(target, 1), (target + 1, 511)]);
        assert_eq!(ring.serve_next(&mut shared.memory, 160, 80, &mut device), Ok(Some(160)));
        assert_eq!(&shared.memory[DATA + 2000..DATA + 2512], &written[..]);
    }
}

#[test]
fn reads_do_not_look_at_what_the_buffers_hold() {
    // A read has no data to send, so a buffer without room does not matter.
    let mut shared = Shared::new(ByteOrder::Little);
    shared.put_command(0, 64, &READ, &[(DATA as u64, 10)]);
    let ring = shared.ring();
    let mut device = disk();
    assert_eq!(ring.serve_next(&mut shared.memory, 64, 0, &mut device), Ok(Some(64)));
    // What the buffers have no room for is dropped.
    assert_eq!(shared.memory[DATA + 9], ((512 + 9) % 251) as u8);
    assert_eq!(shared.memory[DATA + 10], 0);
}

#[test]
fn refusals_leave_sense_data() {
    let mut shared = Shared::new(ByteOrder::Little);
    shared.put_command(0, 64, &[0x28, 0, 0, 0, 0, 4, 0, 0, 1, 0], &[(DATA as u64, 512)]);
    let ring = shared.ring();
    let mut device = disk();
    assert_eq!(ring.serve_next(&mut shared.memory, 64, 0, &mut device), Ok(Some(64)));
    assert_eq!(shared.memory[RING + 8], 0x02);
    let sense = &shared.memory[RING + 16..RING + 34];
    assert_eq!(sense, &[0x70, 0, 5, 0, 0, 0, 0, 10, 0, 0, 0, 0, 0x21, 0, 0, 0, 0, 0]);
    assert!(shared.memory[DATA..DATA + 512].iter().all(|&b| b == 0));
}

#[test]
fn empty_padding_and_unknown_entries() {
    let mut shared = Shared::new(ByteOrder::Little);
    let ring = shared.ring();
    let mut device = disk();
    let before = shared.memory.clone();
    // Nothing is there.
    assert_eq!(ring.serve_next(&mut shared.memory, 40, 40, &mut device), Ok(None));
    // A padding entry, whatever its length.
    assert_eq!(ring.serve_next(&mut shared.memory, 0, 200, &mut device), Ok(Some(0)));
    assert_eq!(shared.memory, before);
    // An opcode that is not known.
    shared.put_u32(RING, 48 | 2);
    assert_eq!(ring.serve_next(&mut shared.memory, 48, 0, &mut device), Ok(Some(48)));
    // Entries without a length move the tail by the alignment.
    shared.put_u32(RING, 1);
    assert_eq!(ring.serve_next(&mut shared.memory, 48, 0, &mut device), Ok(Some(8)));
    shared.put_u32(RING, 3);
    assert_eq!(ring.serve_next(&mut shared.memory, 48, 0, &mut device), Ok(Some(8)));
}

#[test]
fn tail_wraps_around() {
    let mut shared = Shared::new(ByteOrder::Little);
    shared.put_command(192, 64, &[0; 6], &[]);
    let ring = shared.ring();
    let mut device = disk();
    assert_eq!(ring.serve_entry(&mut shared.memory, 192, &mut device), Ok(0));
    shared.put_command(192, 96, &[0; 6], &[]);
    assert_eq!(ring.serve_entry(&mut shared.memory, 192, &mut device), Ok(32));
}

#[test]
fn entries_that_reach_outside_the_memory_are_refused() {
    let outside = Err(RingError::OutOfBounds);
    let mut device = disk();
    // The entry itself.
    let mut shared = Shared::new(ByteOrder::Little);
    let ring = shared.ring();
    assert_eq!(ring.serve_entry(&mut shared.memory, SIZE as u32, &mut device), outside);
    assert_eq!(ring.serve_entry(&mut shared.memory, u32::MAX, &mut device), outside);
    // The CDB.
    shared.put_command(0, 64, &[0; 6], &[]);
    shared.put_u64(RING + 24, SIZE as u64 - 15);
    assert_eq!(ring.serve_entry(&mut shared.memory, 0, &mut device), outside);
    shared.put_u64(RING + 24, u64::MAX);
    assert_eq!(ring.serve_entry(&mut shared.memory, 0, &mut device), outside);
    // A buffer with data, or without room for it.
    for cdb in [WRITE, READ] {
        shared.put_command(0, 64, &cdb, &[(SIZE as u64 - 511, 512)]);
        assert_eq!(ring.serve_entry(&mut shared.memory, 0, &mut device), outside);
        shared.put_command(0, 64, &cdb, &[(u64::MAX, 512)]);
        assert_eq!(ring.serve_entry(&mut shared.memory, 0, &mut device), outside);
    }
    assert_eq!(device.execute(&READ, &[]).data[0], (512 % 251) as u8);
    // The list of buffers.
    shared.put_command(0, 64, &WRITE, &[(DATA as u64, 1)]);
    shared.put_u32(RING + 8, u32::MAX);
    assert_eq!(ring.serve_entry(&mut shared.memory, 0, &mut device), outside);
}

#[test]
fn ring_without_room_cannot_be_served() {
    let mut shared = Shared::new(ByteOrder::Little);
    shared.put_u32(8, 0);
    shared.put_command(0, 64, &[0; 6], &[]);
    let ring = shared.ring();
    let mut device = disk();
    let result = ring.serve_next(&mut shared.memory, 64, 0, &mut device);
    assert_eq!(result, Err(RingError::EmptyRing));
}
