//! Validation of the messages the kernel sends back after a batch.
//!
//! The receive buffer holds a run of netlink messages.  Each one must
//! carry the expected sequence number and the socket's port id; an error
//! message with a non-zero code fails the whole exchange, an error with
//! code zero is the acknowledgement and ends it.

use vstd::prelude::*;

use crate::bytes::{read_u16_le, read_u32_le, u16_of_le, u32_of_le};

verus! {

pub const NLMSG_NOOP: u16 = 0x1;
pub const NLMSG_ERROR: u16 = 0x2;
pub const NLMSG_DONE: u16 = 0x3;
pub const NLM_F_DUMP_INTR: u16 = 0x10;

/// Why an exchange with the kernel was rejected.
#[derive(Debug, Copy, Clone, PartialEq, Eq, Structural)]
pub enum NlError {
    /// A message claimed a sender other than our socket.
    PortMismatch,
    /// A message carried a sequence number other than the expected one.
    SeqMismatch,
    /// A dump was interrupted kernel-side.
    Interrupted,
    /// An error message too short to carry its code.
    BadMessage,
    /// The kernel reported a non-zero error code (a negated errno value
    /// in two's complement).
    Kernel(u32),
}

/// The outcome of walking the response buffer, message by message.
///
/// A message whose header does not fit or overruns the buffer ends the
/// walk; port id and sequence checks are skipped when either side is
/// zero; an error message must be long enough to carry the code and the
/// offending header; code zero acknowledges and stops, anything else
/// fails; any other message type is skipped.
pub open spec fn spec_validate(buf: Seq<u8>, expected_seq: u32, portid: u32) -> Result<
    (),
    NlError,
>
    decreases buf.len(),
{
    if buf.len() < 16 {
        Ok(())
    } else {
        let len = u32_of_le(buf[0], buf[1], buf[2], buf[3]) as int;
        if len < 16 || len > buf.len() {
            Ok(())
        } else {
            let ty = u16_of_le(buf[4], buf[5]);
            let flags = u16_of_le(buf[6], buf[7]);
            let seq = u32_of_le(buf[8], buf[9], buf[10], buf[11]);
            let pid = u32_of_le(buf[12], buf[13], buf[14], buf[15]);
            if pid != 0 && portid != 0 && pid != portid {
                Err(NlError::PortMismatch)
            } else if seq != 0 && expected_seq != 0 && seq != expected_seq {
                Err(NlError::SeqMismatch)
            } else if flags & NLM_F_DUMP_INTR != 0 {
                Err(NlError::Interrupted)
            } else if ty == NLMSG_ERROR {
                if len < 36 {
                    Err(NlError::BadMessage)
                } else {
                    let code = u32_of_le(buf[16], buf[17], buf[18], buf[19]);
                    if code == 0 {
                        Ok(())
                    } else {
                        Err(NlError::Kernel(code))
                    }
                }
            } else if ty == NLMSG_DONE {
                Ok(())
            } else {
                let aligned = len + crate::nftnl::pad4(len);
                let adv = if aligned <= buf.len() {
                    aligned
                } else {
                    buf.len() as int
                };
                spec_validate(buf.skip(adv), expected_seq, portid)
            }
        }
    }
}

/// Walks the kernel's response and reports the first failure, exactly as
/// `spec_validate` describes.
pub fn validate_acks(buf: &[u8], expected_seq: u32, portid: u32) -> (r: Result<(), NlError>)
    ensures
        r == spec_validate(buf@, expected_seq, portid),
{
    let n: usize = buf.len();
    let mut off: usize = 0;
    proof {
        assert(buf@.skip(0) =~= buf@);
    }
    loop
        invariant
            off <= n,
            n == buf@.len(),
            spec_validate(buf@, expected_seq, portid) == spec_validate(
                buf@.skip(off as int),
                expected_seq,
                portid,
            ),
        decreases n - off,
    {
        let rem: usize = n - off;
        let ghost sfx = buf@.skip(off as int);
        proof {
            assert(sfx.len() == rem);
            assert forall|k: int| 0 <= k < sfx.len() implies sfx[k] == buf@[off + k] by {}
        }
        if rem < 16 {
            return Ok(());
        }
        let len32 = read_u32_le(buf, off);
        let len: usize = len32 as usize;
        if len < 16 || len > rem {
            return Ok(());
        }
        let ty = read_u16_le(buf, off + 4);
        let flags = read_u16_le(buf, off + 6);
        let seq = read_u32_le(buf, off + 8);
        let pid = read_u32_le(buf, off + 12);
        if pid != 0 && portid != 0 && pid != portid {
            return Err(NlError::PortMismatch);
        }
        if seq != 0 && expected_seq != 0 && seq != expected_seq {
            return Err(NlError::SeqMismatch);
        }
        if flags & NLM_F_DUMP_INTR != 0 {
            return Err(NlError::Interrupted);
        }
        if ty == NLMSG_ERROR {
            if len < 36 {
                return Err(NlError::BadMessage);
            }
            let code = read_u32_le(buf, off + 16);
            if code == 0 {
                return Ok(());
            }
            return Err(NlError::Kernel(code));
        }
        if ty == NLMSG_DONE {
            return Ok(());
        }
        let pad: usize = if len % 4 == 0 {
            0
        } else {
            4 - len % 4
        };
        let adv: usize = if rem - len >= pad {
            len + pad
        } else {
            rem
        };
        proof {
            assert(buf@.skip(off as int).skip(adv as int) =~= buf@.skip(off + adv));
        }
        off = off + adv;
    }
}

} // verus!
