//! What travels between a ring and the operating system: the requests that a
//! ring makes of its sockets and the ancillary data that comes back.

use crate::ring::ProtocolError;
use vstd::prelude::*;

verus! {

/// The byte that accompanies every stashed descriptor. Only its presence
/// matters: a message needs a payload to carry ancillary data.
pub const PAYLOAD: u8 = 0x21;

/// How many descriptors the buffer for received ancillary data has room for.
pub const RIGHTS_SPACE: usize = 15;

/// One message to send: `payload` as its only byte and `descriptor` as its
/// only ancillary right, on `socket`.
#[derive(Copy, Clone, Debug, PartialEq, Eq, Structural)]
pub struct SendRequest {
    pub socket: i32,
    pub payload: u8,
    pub descriptor: i32,
}

/// One message to receive from `socket`, with no flags set.
#[derive(Copy, Clone, Debug, PartialEq, Eq, Structural)]
pub struct ReceiveRequest {
    pub socket: i32,
    /// Bytes of payload to make room for.
    pub payload_space: usize,
    /// Descriptors to make room for in the ancillary buffer.
    pub rights_space: usize,
}

/// The send buffer size to set on `socket`.
#[derive(Copy, Clone, Debug, PartialEq, Eq, Structural)]
pub struct BufferRequest {
    pub socket: i32,
    pub size: usize,
}

/// One control message of a received message.
#[derive(Debug)]
pub enum Ancillary {
    /// Descriptors passed along with the message.
    Rights(Vec<i32>),
    /// Any other kind of control message.
    Other,
}

impl Ancillary {
    /// The descriptors that this control message carries.
    pub open spec fn carried(self) -> Seq<i32> {
        match self {
            Ancillary::Rights(fds) => fds@,
            Ancillary::Other => Seq::empty(),
        }
    }
}

/// All descriptors that a message carries, in the order of its control
/// messages.
pub open spec fn descriptors(messages: Seq<Ancillary>) -> Seq<i32>
    decreases messages.len(),
{
    if messages.len() == 0 {
        Seq::empty()
    } else {
        descriptors(messages.drop_last()) + messages.last().carried()
    }
}

/// The one descriptor that a well-formed message carries, or what is wrong
/// with the message.
pub open spec fn sole_descriptor(messages: Seq<Ancillary>) -> Result<i32, ProtocolError> {
    let fds = descriptors(messages);
    if fds.len() == 0 {
        Err(ProtocolError::NoFDReceived)
    } else if fds.len() == 1 {
        Ok(fds[0])
    } else {
        Err(ProtocolError::TooManyFDsReceived)
    }
}

/// Collects the descriptors that a received message carries.
pub fn collect_descriptors(messages: &Vec<Ancillary>) -> (fds: Vec<i32>)
    ensures
        fds@ == descriptors(messages@),
{
    let mut fds: Vec<i32> = Vec::new();
    let mut i: usize = 0;
    while i < messages.len()
        invariant
            i <= messages@.len(),
            fds@ == descriptors(messages@.take(i as int)),
        decreases messages@.len() - i,
    {
        let ghost before = fds@;
        match &messages[i] {
            Ancillary::Rights(rights) => {
                let mut j: usize = 0;
                while j < rights.len()
                    invariant
                        j <= rights@.len(),
                        fds@ == before + rights@.take(j as int),
                    decreases rights@.len() - j,
                {
                    fds.push(rights[j]);
                    proof {
                        assert(rights@.take(j + 1) == rights@.take(j as int).push(rights@[j as int]));
                    }
                    j += 1;
                }
                proof {
                    assert(rights@.take(j as int) == rights@);
                }
            },
            Ancillary::Other => {
                proof {
                    assert(before + Seq::<i32>::empty() == before);
                }
            },
        }
        proof {
            assert(messages@.take(i + 1).drop_last() == messages@.take(i as int));
        }
        i += 1;
    }
    proof {
        assert(messages@.take(i as int) == messages@);
    }
    fds
}

/// Applies the ring's rule to a received message: it must carry exactly one
/// descriptor.
pub fn expect_one_descriptor(messages: &Vec<Ancillary>) -> (r: Result<i32, ProtocolError>)
    ensures
        r == sole_descriptor(messages@),
{
    let fds = collect_descriptors(messages);
    if fds.len() == 0 {
        Err(ProtocolError::NoFDReceived)
    } else if fds.len() == 1 {
        Ok(fds[0])
    } else {
        Err(ProtocolError::TooManyFDsReceived)
    }
}

} // verus!
