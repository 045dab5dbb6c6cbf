//! What a command is answered: status, payload and sense data.

use crate::bytes::zeros;
use crate::scsi::{SAM_STAT_CHECK_CONDITION, SAM_STAT_GOOD, SENSE_FIXED_CURRENT};
use vstd::prelude::*;

verus! {

/// Result of executing one SCSI command.
#[derive(Clone, Debug, Eq, PartialEq)]
pub struct TcmuResponse {
    pub status: u8,
    pub data: Vec<u8>,
    pub sense: Vec<u8>,
}

/// The mathematical value of a [`TcmuResponse`].
#[verifier::ext_equal]
pub struct Reply {
    pub status: u8,
    pub data: Seq<u8>,
    pub sense: Seq<u8>,
}

impl View for TcmuResponse {
    type V = Reply;

    open spec fn view(&self) -> Reply {
        Reply { status: self.status, data: self.data@, sense: self.sense@ }
    }
}

/// Fixed-format sense data: eighteen bytes that are zero but for the response
/// code, the sense key, the additional length and the two code bytes.
pub open spec fn fixed_sense(sense_key: u8, asc: u8, ascq: u8) -> Seq<u8> {
    Seq::new(
        18,
        |i: int|
            if i == 0 {
                SENSE_FIXED_CURRENT
            } else if i == 2 {
                sense_key
            } else if i == 7 {
                10u8
            } else if i == 12 {
                asc
            } else if i == 13 {
                ascq
            } else {
                0u8
            },
    )
}

/// The reply of a command that succeeded with `data`.
pub open spec fn success(data: Seq<u8>) -> Reply {
    Reply { status: SAM_STAT_GOOD, data, sense: Seq::empty() }
}

/// The reply of a command that failed.
pub open spec fn failure(sense_key: u8, asc: u8, ascq: u8) -> Reply {
    Reply {
        status: SAM_STAT_CHECK_CONDITION,
        data: Seq::empty(),
        sense: fixed_sense(sense_key, asc, ascq),
    }
}

/// The part of `data` that an initiator with room for `alloc_len` bytes gets.
pub open spec fn clipped(data: Seq<u8>, alloc_len: int) -> Seq<u8> {
    if alloc_len < data.len() {
        data.take(alloc_len)
    } else {
        data
    }
}

/// Answers a command with success and `data`.
pub fn good(data: Vec<u8>) -> (response: TcmuResponse)
    ensures
        response@ == success(data@),
{
    TcmuResponse { status: SAM_STAT_GOOD, data, sense: Vec::new() }
}

/// Answers a command with a failure for the given reason.
pub fn check_condition(sense_key: u8, asc: u8, ascq: u8) -> (response: TcmuResponse)
    ensures
        response@ == failure(sense_key, asc, ascq),
{
    TcmuResponse {
        status: SAM_STAT_CHECK_CONDITION,
        data: Vec::new(),
        sense: sense_data(sense_key, asc, ascq),
    }
}

/// Fixed-format sense data with the given key and codes.
pub fn sense_data(sense_key: u8, asc: u8, ascq: u8) -> (sense: Vec<u8>)
    ensures
        sense@ == fixed_sense(sense_key, asc, ascq),
{
    let mut sense = zeros(18);
    sense[0] = SENSE_FIXED_CURRENT;
    sense[2] = sense_key;
    sense[7] = 10;
    sense[12] = asc;
    sense[13] = ascq;
    assert(sense@ =~= fixed_sense(sense_key, asc, ascq));
    sense
}

/// Cuts `data` down to what fits in `alloc_len` bytes.
pub fn truncate_to_alloc_len(data: Vec<u8>, alloc_len: usize) -> (cut: Vec<u8>)
    ensures
        cut@ == clipped(data@, alloc_len as int),
{
    let mut cut = data;
    cut.truncate(alloc_len);
    cut
}

} // verus!
