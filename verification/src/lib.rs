//! Generic SCSI/TCMU command processor for user-space block devices.
//!
//! Implement [`BlockDevice`] for your backing store, then wrap it in
//! [`TcmuDevice`] to get a SCSI command executor suitable for use with TCMU.
//!
//! Devices are **read-only by default**: the default implementations of
//! [`BlockDevice::is_read_only`] and [`BlockDevice::write_at`] make the processor
//! report WRITE PROTECTED to the SCSI initiator. Override both to enable writes.
//!
//! * [`device`] executes commands; [`command`] and [`semantics`] say what each command
//!   asks for and how it may be answered, and [`laws`] what follows from that.
//! * [`ring`] serves the commands that the kernel puts into shared memory, with its laws
//!   in [`ring_laws`]; [`event_loop`] decides when.
//! * [`target`] plans how a target is set up in configfs and taken down again, with its
//!   laws in [`target_laws`].
//! * [`ram_disk`] is a block device in memory.
//! * [`wire_laws`], [`ring_wire_laws`] and [`text_laws`] say the same once more byte by byte
//!   and character by character, without the functions that the contracts are written in;
//!   [`call_laws`] says it of the calls themselves.

pub mod block_device;
pub mod bytes;
pub mod call_laws;
pub mod command;
pub mod device;
pub mod event_loop;
pub mod laws;
pub mod ram_disk;
pub mod response;
pub mod ring;
pub mod ring_laws;
pub mod ring_wire_laws;
pub mod scsi;
pub mod semantics;
pub mod target;
pub mod target_laws;
pub mod text;
pub mod text_laws;
pub mod wire_laws;

pub use block_device::{BlockDevice, DeviceError};
pub use device::{TcmuDevice, TcmuDeviceConfig};
pub use response::TcmuResponse;
