//! Descriptor rings: open file descriptors parked in the buffer of a connected
//! pair of UNIX-domain sockets instead of being held open by the process.
//!
//! The crate holds the ring's protocol and bookkeeping. It performs no system
//! call itself: each operation says what to ask of the operating system and
//! then takes what the system answered.

pub mod laws;
pub mod pair;
pub mod platform;
pub mod ring;
pub mod text;
pub mod wire;

use crate::pair::{Action, PairStash, Stage, NO_DESCRIPTOR};
use crate::ring::Ring;
use nix::sys::socket::UnixAddr;
use vstd::prelude::*;
use vstd::string::{StrSliceExecFns, StringExecFns};

verus! {

/// The directory that socket files live in.
pub const BASE_PATH: &'static str = "/tmp/filedes_fun/";

/// Where the socket file named `path` lives: `path` itself where it starts
/// at the root, else `path` inside the base directory.
pub open spec fn socket_path(path: Seq<char>) -> Seq<char> {
    if path.len() > 0 && path[0] == '/' {
        path
    } else {
        BASE_PATH@ + path
    }
}

/// The path of the socket file named `path`.
pub fn sockpath(path: &str) -> (full: String)
    ensures
        full@ == socket_path(path@),
{
    if path.unicode_len() > 0 && path.get_char(0) == '/' {
        String::from_str(path)
    } else {
        String::from_str(BASE_PATH).concat(path)
    }
}

/// `nix::sys::socket::UnixAddr`, the address of a UNIX-domain socket. A
/// value is carried through as it is: nothing of what it holds is stated.
#[verifier::external_type_specification]
#[verifier::external_body]
pub struct ExUnixAddr(UnixAddr);

/// How `nix::sys::socket::UnixAddr::new` answers `path`: `None` where it
/// makes an address, else the error number that it refuses the path with.
/// The answer depends on the path alone. How long an address may be, and
/// the error numbers, are fixed when the library is built.
pub uninterp spec fn unix_addr_refusal(path: Seq<char>) -> Option<i32>;

/// The error number in the outcome of making an address, if there is one.
pub open spec fn refusal(outcome: Result<UnixAddr, i32>) -> Option<i32> {
    match outcome {
        Ok(_) => None,
        Err(errno) => Some(errno),
    }
}

/// `nix::sys::socket::UnixAddr::new` on a string, with the error as its
/// number. Whether an address is made is what the call decides for this
/// path. The call turns the path into a C string first, so a path that
/// holds a NUL character is refused. Which lengths are accepted depends on
/// the host and is not stated, nor what the address holds.
#[verifier::external_body]
fn unix_addr(path: &str) -> (r: Result<UnixAddr, i32>)
    ensures
        refusal(r) == unix_addr_refusal(path@),
        path@.contains('\0') ==> r is Err,
{
    UnixAddr::new(path).map_err(|errno| errno as i32)
}

/// The socket address of the socket file named `path`, or the error number
/// where its path cannot be an address.
///
/// The address is made of the socket path, not of `path` as it is given: the
/// outcome is the one that the socket path has. A name with a NUL character
/// in it is always refused.
pub fn make_socket_addr(path: &str) -> (r: Result<UnixAddr, i32>)
    ensures
        refusal(r) == unix_addr_refusal(socket_path(path@)),
        socket_path(path@).contains('\0') ==> r is Err,
{
    let full = sockpath(path);
    unix_addr(full.as_str())
}

/// Begins stashing both ends of a fresh socket pair in `ring`, given what
/// creating the pair gave: its two ends, or the error number. Returns the
/// work and its first action. Where no pair was created the work is over at
/// once, with the classified error.
///
/// Carried through, the work stashes the first end and closes it, then the
/// second, and finishes with the number of descriptors stashed. A ring that
/// is full for the first end has both ends closed and the limit as the
/// result; one that is full for the second has it closed and one as the
/// result.
pub fn add_two_sockets_to_ring(ring: &Ring, pair: Result<(i32, i32), i32>) -> (begun: (
    PairStash,
    Action,
))
    ensures
        begun.0 == PairStash::begun(ring@, pair),
        begun.1 == begun.0.action(ring@),
{
    let work = match pair {
        Ok((one, two)) => PairStash { one, two, stage: Stage::StashingFirst },
        Err(errno) => PairStash {
            one: NO_DESCRIPTOR,
            two: NO_DESCRIPTOR,
            stage: Stage::Finished(Err(ring.classify(errno))),
        },
    };
    let action = work.current(ring);
    (work, action)
}

} // verus!
