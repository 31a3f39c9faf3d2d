//! What a ring has to know about the host it runs on.

use crate::ring::Error;
use vstd::prelude::*;

verus! {

/// The host's error numbers for the conditions that a ring treats as an
/// expected ceiling, and the send buffer size to ask for.
///
/// The ceilings are: the process may not open another descriptor, the
/// system-wide file table is full, a non-blocking call would have to wait.
/// Their error numbers differ between operating systems, so they are data
/// here and not constants.
#[derive(Debug)]
pub struct Platform {
    /// The error numbers that report a ceiling.
    pub limits: Vec<i32>,
    /// Bytes to ask for as the send buffer of a ring's write endpoint.
    pub send_buffer: usize,
}

/// A host profile, mathematically.
pub struct PlatformModel {
    pub limits: Seq<i32>,
    pub send_buffer: usize,
}

impl View for Platform {
    type V = PlatformModel;

    open spec fn view(&self) -> PlatformModel {
        PlatformModel { limits: self.limits@, send_buffer: self.send_buffer }
    }
}

impl PlatformModel {
    /// Whether `errno` reports a resource ceiling rather than a fault.
    pub open spec fn is_limit(self, errno: i32) -> bool {
        self.limits.contains(errno)
    }

    /// The error that a failed system call with error number `errno` becomes.
    pub open spec fn classified(self, errno: i32) -> Error {
        if self.is_limit(errno) {
            Error::Limit(errno)
        } else {
            Error::Bad(errno)
        }
    }
}

impl Platform {
    /// Classifies the error number of a failed system call.
    pub fn classify(&self, errno: i32) -> (error: Error)
        ensures
            error == self@.classified(errno),
    {
        let mut i: usize = 0;
        while i < self.limits.len()
            invariant
                i <= self.limits@.len(),
                forall|j: int| 0 <= j < i ==> self.limits@[j] != errno,
            decreases self.limits@.len() - i,
        {
            if self.limits[i] == errno {
                return Error::Limit(errno);
            }
            i += 1;
        }
        Error::Bad(errno)
    }

    /// The same profile once more.
    pub fn duplicate(&self) -> (copy: Platform)
        ensures
            copy@ == self@,
    {
        let mut limits: Vec<i32> = Vec::new();
        let mut i: usize = 0;
        while i < self.limits.len()
            invariant
                i <= self.limits@.len(),
                limits@ == self.limits@.take(i as int),
            decreases self.limits@.len() - i,
        {
            limits.push(self.limits[i]);
            proof {
                assert(self.limits@.take(i + 1) == self.limits@.take(i as int).push(
                    self.limits@[i as int],
                ));
            }
            i += 1;
        }
        proof {
            assert(self.limits@.take(i as int) == self.limits@);
        }
        Platform { limits, send_buffer: self.send_buffer }
    }
}

} // verus!
