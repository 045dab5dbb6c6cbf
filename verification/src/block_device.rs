//! The block device behind a target.

use vstd::prelude::*;

verus! {

/// Why a block device did not carry out a read or a write.
#[derive(Clone, Debug, PartialEq, Eq)]
pub struct DeviceError {
    pub message: String,
}

/// A user-space block device that can be exposed via TCMU.
///
/// Devices are read-only unless they override both [`is_read_only`](Self::is_read_only)
/// and [`write_at`](Self::write_at).
///
/// What a device is in contracts, its spec functions say. They have defaults, so that
/// code that is not verified needs to implement the methods alone. The defaults say
/// nothing of writes, and of the size and the identifier only that each is one fixed
/// value, which is not known; a device whose methods are verified overrides them.
pub trait BlockDevice: Sized {
    /// The size that the device reports.
    open spec fn size(&self) -> u64 {
        arbitrary()
    }

    /// The identifier bytes that the device reports.
    open spec fn id(&self) -> Seq<u8> {
        arbitrary()
    }

    /// Whether writing `data` at `offset`, with success, may turn `pre` into `post`.
    open spec fn write_succeeds(pre: Self, offset: u64, data: Seq<u8>, post: Self) -> bool {
        true
    }

    /// Whether writing `data` at `offset`, with an error, may turn `pre` into `post`,
    /// beside leaving it as it is.
    open spec fn write_fails(pre: Self, offset: u64, data: Seq<u8>, post: Self) -> bool {
        true
    }

    /// Total size of the device in bytes.
    fn size_bytes(&self) -> (size: u64)
        ensures
            size == self.size(),
    ;

    /// Read `len` bytes starting at `offset`.
    ///
    /// Called only for bytes that lie within the device.
    fn read_at(&self, offset: u64, len: usize) -> (result: Result<Vec<u8>, DeviceError>)
        requires
            offset + len <= self.size(),
    ;

    /// Opaque identifier bytes used to derive the SCSI serial number and
    /// device identification VPD page. Hex-encoded to produce the serial
    /// string.
    fn id_bytes(&self) -> (id: Vec<u8>)
        ensures
            id@ == self.id(),
    ;

    /// Returns `true` if the device is read-only.
    ///
    /// When `true`, all WRITE commands return WRITE PROTECTED without calling
    /// [`write_at`](Self::write_at). Override alongside `write_at` to enable
    /// writes. Default: `true`.
    fn is_read_only(&self) -> (read_only: bool)
        default_ensures
            read_only,
    {
        true
    }

    /// Write `data` to the device at byte `offset`.
    ///
    /// Called only when [`is_read_only`](Self::is_read_only) returns `false`.
    /// A failed write returns a MEDIUM ERROR sense to the initiator. The
    /// default refuses every write: always override this together with
    /// `is_read_only`.
    fn write_at(&mut self, offset: u64, data: &[u8]) -> (result: Result<(), DeviceError>)
        ensures
            result is Ok ==> Self::write_succeeds(*old(self), offset, data@, *final(self)),
            result is Err ==> *final(self) == *old(self) || Self::write_fails(
                *old(self),
                offset,
                data@,
                *final(self),
            ),
        default_ensures
            result matches Err(error) && error.message@
                == "write_at called on a device that did not override is_read_only"@,
            *final(self) == *old(self),
    {
        Err(
            DeviceError {
                message: "write_at called on a device that did not override is_read_only".to_owned(),
            },
        )
    }
}

/// Whether `device` may report `read_only` when asked.
pub open spec fn reports_read_only<D: BlockDevice>(device: D, read_only: bool) -> bool {
    call_ensures(D::is_read_only, (&device,), read_only)
}

/// Whether reading `len` bytes at `offset` of `device` may give `result`.
pub open spec fn reads_as<D: BlockDevice>(
    device: D,
    offset: u64,
    len: usize,
    result: Result<Vec<u8>, DeviceError>,
) -> bool {
    call_ensures(D::read_at, (&device, offset, len), result)
}

/// Whether `device`, asked to write `data` at `offset`, may answer with success, or
/// with an error where `ok` is false.
pub open spec fn writes_as<D: BlockDevice>(
    device: D,
    offset: u64,
    data: Seq<u8>,
    ok: bool,
) -> bool {
    exists|target: &mut D, slice: &[u8], result: Result<(), DeviceError>|
        {
            &&& #[trigger] call_ensures(D::write_at, (target, offset, slice), result)
            &&& *target == device
            &&& slice@ == data
            &&& result is Ok == ok
        }
}

/// Whether an attempt to write `data` at `offset` may turn `pre` into `post`, with
/// success or not.
pub open spec fn write_attempted<D: BlockDevice>(
    pre: D,
    offset: u64,
    data: Seq<u8>,
    post: D,
    ok: bool,
) -> bool {
    &&& writes_as(pre, offset, data, ok)
    &&& if ok {
        D::write_succeeds(pre, offset, data, post)
    } else {
        post == pre || D::write_fails(pre, offset, data, post)
    }
}

} // verus!
