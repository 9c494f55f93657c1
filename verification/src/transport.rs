//! The decisions of the USB exchange: what to do with each reply that was
//! read (hand it over, wait and read again, or fail), and how bulk writes are
//! cut into pieces. The caller performs the transfers and the waits.
use vstd::prelude::*;
use vstd::slice::slice_to_vec;
use crate::error::NetMDError;
use crate::types::{protocol_reply_spec, ProtocolReply, INTERIM_RETRY_INTERVAL_MS, MAX_INTERIM_ATTEMPTS};

verus! {

/// What to do with a reply that was read.
pub enum ReplyStep {
    /// Hand the reply to the caller.
    Accept,
    /// Wait this many milliseconds, then read the reply again.
    Retry(u64),
    /// Stop with this error.
    Fail(NetMDError),
}

/// Two to the power `n`.
pub open spec fn pow2_spec(n: nat) -> nat
    decreases n,
{
    if n == 0 {
        1
    } else {
        2 * pow2_spec((n - 1) as nat)
    }
}

/// The wait before reading again after the `attempt`-th interim reply:
/// `INTERIM_RETRY_INTERVAL_MS * (2^attempt - 1)` milliseconds.
pub open spec fn interim_delay_spec(attempt: nat) -> nat {
    (INTERIM_RETRY_INTERVAL_MS * (pow2_spec(attempt) - 1)) as nat
}

/// Whether `s` is the decision on the reply `data` read at attempt
/// `attempt` (see [`reply_step`]).
pub open spec fn reply_step_spec(s: ReplyStep, data: Seq<u8>, accept_interim: bool, attempt: nat) -> bool {
    if data.len() == 0 {
        s matches ReplyStep::Fail(e) && e == NetMDError::UnknownStatus(0)
    } else {
        match protocol_reply_spec(data[0]) {
            ProtocolReply::NotImplemented => s matches ReplyStep::Fail(e) && e == NetMDError::NotImplemented,
            ProtocolReply::Rejected => s matches ReplyStep::Fail(NetMDError::Rejected(raw)) && raw@ == data,
            ProtocolReply::Interim => if accept_interim {
                s is Accept
            } else {
                s == ReplyStep::Retry(interim_delay_spec(attempt) as u64)
            },
            ProtocolReply::Accepted | ProtocolReply::Implemented | ProtocolReply::Changed => s is Accept,
            _ => s matches ReplyStep::Fail(e) && e == NetMDError::UnknownStatus(data[0]),
        }
    }
}

fn interim_delay(attempt: u32) -> (d: u64)
    requires
        attempt < MAX_INTERIM_ATTEMPTS,
    ensures
        d == interim_delay_spec(attempt as nat),
{
    proof {
        reveal_with_fuel(pow2_spec, 4);
    }
    let factor: u64 = if attempt == 0 {
        0
    } else if attempt == 1 {
        1
    } else if attempt == 2 {
        3
    } else {
        7
    };
    INTERIM_RETRY_INTERVAL_MS * factor
}

/// Decides on a reply read at attempt `attempt`: its first byte is the
/// status. "Not implemented" and "rejected" fail (the latter with the whole
/// reply); "interim" is accepted only when asked for, else it is read again
/// after a growing wait; "accepted", "implemented" and "changed" are handed
/// over; anything else, and an empty reply, fails as an unknown status.
pub fn reply_step(data: &[u8], accept_interim: bool, attempt: u32) -> (s: ReplyStep)
    requires
        attempt < MAX_INTERIM_ATTEMPTS,
    ensures
        reply_step_spec(s, data@, accept_interim, attempt as nat),
{
    if data.len() == 0 {
        return ReplyStep::Fail(NetMDError::UnknownStatus(0));
    }
    let status = ProtocolReply::from_byte(data[0]);
    match status {
        ProtocolReply::NotImplemented => ReplyStep::Fail(NetMDError::NotImplemented),
        ProtocolReply::Rejected => ReplyStep::Fail(NetMDError::Rejected(slice_to_vec(data))),
        ProtocolReply::Interim => {
            if accept_interim {
                ReplyStep::Accept
            } else {
                ReplyStep::Retry(interim_delay(attempt))
            }
        },
        ProtocolReply::Accepted | ProtocolReply::Implemented | ProtocolReply::Changed => ReplyStep::Accept,
        _ => ReplyStep::Fail(NetMDError::UnknownStatus(data[0])),
    }
}

/// The reading of one reply: how many interim replies have been answered.
pub struct ReplyPoll {
    pub attempt: u32,
}

impl ReplyPoll {
    /// Before the first read.
    pub fn new() -> (p: ReplyPoll)
        ensures
            p.attempt == 0,
    {
        ReplyPoll { attempt: 0 }
    }

    /// Whether another read may be made; once it may not, the reply fails
    /// with [`NetMDError::MaxInterimAttempts`].
    pub fn may_read(&self) -> (b: bool)
        ensures
            b == (self.attempt < MAX_INTERIM_ATTEMPTS),
    {
        self.attempt < MAX_INTERIM_ATTEMPTS
    }

    /// The decision on the reply just read; a retry counts one attempt.
    pub fn on_reply(&mut self, data: &[u8], accept_interim: bool) -> (s: ReplyStep)
        requires
            old(self).attempt < MAX_INTERIM_ATTEMPTS,
        ensures
            reply_step_spec(s, data@, accept_interim, old(self).attempt as nat),
            final(self).attempt == old(self).attempt + (if s is Retry { 1int } else { 0int }),
    {
        let s = reply_step(data, accept_interim, self.attempt);
        if let ReplyStep::Retry(_) = s {
            self.attempt = self.attempt + 1;
        }
        s
    }
}

/// Largest piece of a bulk write handed to the USB stack at once.
pub const BULK_WRITE_CHUNK: usize = 0x10000;

/// The end of the bulk-write piece that starts at `written` in a payload of
/// `len` bytes.
pub fn bulk_chunk_end(written: usize, len: usize) -> (end: usize)
    requires
        written < len,
    ensures
        end == (if written + BULK_WRITE_CHUNK < len { written + BULK_WRITE_CHUNK } else { len as int }),
        written < end <= len,
{
    if len - written > BULK_WRITE_CHUNK {
        written + BULK_WRITE_CHUNK
    } else {
        len
    }
}

/// How many times the reply length is polled after a bulk transfer.
pub const MAX_BULK_REPLY_POLLS: u32 = 200;

/// The wait between those polls, in milliseconds.
pub const BULK_REPLY_POLL_MS: u64 = 200;

/// After `polls` polls that found no reply yet: the wait before the next
/// one, or `None` when the budget is spent (a timeout).
pub fn bulk_reply_poll(polls: u32) -> (r: Option<u64>)
    ensures
        polls >= MAX_BULK_REPLY_POLLS ==> r is None,
        polls < MAX_BULK_REPLY_POLLS ==> r == Some(BULK_REPLY_POLL_MS),
{
    if polls >= MAX_BULK_REPLY_POLLS {
        None
    } else {
        Some(BULK_REPLY_POLL_MS)
    }
}

} // verus!
