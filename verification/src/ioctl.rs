//! What is decided around the calls to the realm services device.
//!
//! The device fills a buffer of the caller and reports how many bytes it wrote, or that the
//! buffer was too small and how large it must be. The functions here say what follows from such
//! an answer; opening the device and making the call is left to the caller.

use vstd::prelude::*;

verus! {

/// The length of the challenge that an attestation token answers.
pub const CHALLENGE_LEN: usize = 64;

/// The size of the buffer of the first request for an attestation token.
pub const INITIAL_TOKEN_SIZE: usize = 64;

/// The two parts of the version of the device's interface: the major part, which the bits
/// from 16 on hold, as far as 32 bits take them, and the minor part, the 16 lowest bits.
pub fn abi_version_parts(version: u64) -> (res: (u32, u32))
    ensures
        res.0 == (version / 0x1_0000) % 0x1_0000_0000,
        res.1 == version % 0x1_0000,
{
    let major: u64 = (version >> 16) & 0xffff_ffff;
    let minor: u64 = version & 0xffff;
    assert(major == (version / 0x1_0000) % 0x1_0000_0000 && major <= 0xffff_ffff) by (bit_vector)
        requires
            major == (version >> 16) & 0xffff_ffff,
    ;
    assert(minor == version % 0x1_0000 && minor <= 0xffff) by (bit_vector)
        requires
            minor == version & 0xffff,
    ;
    (major as u32, minor as u32)
}

/// How a call to the device ended.
#[derive(Debug, Clone, Copy, PartialEq, Eq, Structural)]
pub enum CallOutcome {
    /// The device filled the buffer.
    Done,
    /// The buffer was too small; the device reported the size it needs.
    OutOfRange,
    /// The call failed for another reason.
    Failed,
}

/// What to do after a request for an attestation token.
#[derive(Debug, Clone, Copy, PartialEq, Eq, Structural)]
pub enum TokenAction {
    /// Hand out what the device wrote.
    Deliver,
    /// Ask again, once, with a buffer of this size.
    Retry(usize),
    /// Give up with the error of the call.
    Fail,
}

/// What follows from the answer to a request for an attestation token.
///
/// A buffer that was too small is replaced by one of the reported size, but only after the
/// first request: the second request's answer is final.
pub open spec fn token_action(retried: bool, outcome: CallOutcome, reported: u64) -> TokenAction {
    match outcome {
        CallOutcome::Done => TokenAction::Deliver,
        CallOutcome::OutOfRange => if !retried && reported <= usize::MAX {
            TokenAction::Retry(reported as usize)
        } else {
            TokenAction::Fail
        },
        CallOutcome::Failed => TokenAction::Fail,
    }
}

/// Decides what to do after a request for an attestation token: `retried` says whether this
/// was the second request, `reported` is the length that the device reported.
pub fn after_token_call(retried: bool, outcome: CallOutcome, reported: u64) -> (action: TokenAction)
    ensures
        action == token_action(retried, outcome, reported),
{
    match outcome {
        CallOutcome::Done => TokenAction::Deliver,
        CallOutcome::OutOfRange => {
            if !retried && reported <= usize::MAX as u64 {
                TokenAction::Retry(reported as usize)
            } else {
                TokenAction::Fail
            }
        },
        CallOutcome::Failed => TokenAction::Fail,
    }
}

/// The bytes that the device wrote: the first `reported` bytes of the buffer, where the buffer
/// holds that many.
pub fn written(buffer: &[u8], reported: u64) -> (res: Option<Vec<u8>>)
    ensures
        match res {
            Some(bytes) => reported <= buffer@.len() && bytes@ == buffer@.take(reported as int),
            None => reported > buffer@.len(),
        },
{
    if reported > buffer.len() as u64 {
        return None;
    }
    let count: usize = reported as usize;
    let mut bytes: Vec<u8> = Vec::new();
    let mut at: usize = 0;
    while at < count
        invariant
            at <= count <= buffer@.len(),
            bytes@ == buffer@.take(at as int),
        decreases count - at,
    {
        bytes.push(buffer[at]);
        at += 1;
        assert(bytes@ =~= buffer@.take(at as int));
    }
    Some(bytes)
}

} // verus!
