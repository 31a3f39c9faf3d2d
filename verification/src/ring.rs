//! The descriptor ring.
//!
//! A ring owns the two ends of a connected socket pair. Stashing an item
//! sends one message that carries one descriptor on the write end; the kernel
//! keeps that descriptor in the socket's buffer until a message is read from
//! the read end. The ring remembers, in order, what kind of item each
//! resident message stands for, so that a retrieved descriptor comes back as
//! the kind of item that was stashed.

use crate::platform::{Platform, PlatformModel};
use crate::text::{append_decimal, decimal};
use crate::wire::{
    expect_one_descriptor, sole_descriptor, Ancillary, BufferRequest, ReceiveRequest, SendRequest,
    PAYLOAD, RIGHTS_SPACE,
};
use std::collections::VecDeque;
use vstd::prelude::*;
use vstd::string::StringExecFns;
use vstd::std_specs::vecdeque::VecDequeAdditionalSpecFns;

verus! {

/// A malformed message on the ring's socket.
#[derive(Copy, Clone, Debug, PartialEq, Eq, Structural)]
pub enum ProtocolError {
    /// Expected to receive a descriptor, but did not get one.
    NoFDReceived,
    /// Expected one descriptor, got more.
    TooManyFDsReceived,
}

/// Why a ring operation failed. `Bad` and `Limit` hold the error number that
/// the operating system reported.
#[derive(Copy, Clone, Debug, PartialEq, Eq, Structural)]
pub enum Error {
    /// A real error that prevents the ring from working.
    Bad(i32),
    /// Some limit was reached. This is sometimes expected: the ring or the
    /// host is full.
    Limit(i32),
    /// A message on the socket did not have the right format.
    Protocol(ProtocolError),
}

/// What a ring is, mathematically: its two endpoints, the host profile it
/// was made with, and what it holds, oldest first.
pub struct RingModel {
    pub read: i32,
    pub write: i32,
    /// Whether the read endpoint is this ring's to close. A ring that was
    /// retrieved from another reads from the endpoint of the ring that was
    /// stashed, which stays with that ring.
    pub owns_read: bool,
    pub platform: PlatformModel,
    pub slots: Seq<SlotModel>,
}

/// What one resident message stands for.
pub enum SlotModel {
    /// A plain descriptor.
    One,
    /// The write endpoint of a ring that had this state when it was stashed.
    Pair(RingModel),
}

/// What a retrieved item is, mathematically.
pub enum StashedModel {
    One(i32),
    Pair(RingModel),
}

impl SlotModel {
    /// The item that this slot becomes when its message is read and carries
    /// `fd`. A ring comes back with `fd` as its write endpoint, which is its
    /// own, and with the read endpoint of the ring that was stashed, which is
    /// not.
    pub open spec fn revive(self, fd: i32) -> StashedModel {
        match self {
            SlotModel::One => StashedModel::One(fd),
            SlotModel::Pair(ring) => StashedModel::Pair(ring.retrieved(fd)),
        }
    }
}

impl StashedModel {
    /// The slot that this item takes when it is stashed again.
    pub open spec fn slot(self) -> SlotModel {
        match self {
            StashedModel::One(_) => SlotModel::One,
            StashedModel::Pair(ring) => SlotModel::Pair(ring),
        }
    }

    /// The descriptor that stands for this item on the wire.
    pub open spec fn descriptor(self) -> i32 {
        match self {
            StashedModel::One(fd) => fd,
            StashedModel::Pair(ring) => ring.write,
        }
    }
}

impl RingModel {
    /// How a ring is described in text: by the number of items it holds.
    pub open spec fn description(self) -> Seq<char> {
        "#<Ring containing "@ + decimal(self.count()) + " fds>"@
    }

    /// A ring on the pair `read`, `write` that holds nothing.
    pub open spec fn empty(platform: PlatformModel, read: i32, write: i32) -> RingModel {
        RingModel { read, write, owns_read: true, platform, slots: Seq::empty() }
    }

    /// This ring as it comes out of another, its message carrying `fd`.
    pub open spec fn retrieved(self, fd: i32) -> RingModel {
        RingModel { write: fd, owns_read: false, ..self }
    }

    /// The descriptors to close when the ring is given up, the write
    /// endpoint first: the endpoints that are the ring's own, and nothing
    /// of what it holds.
    pub open spec fn endpoints(self) -> (i32, Option<i32>) {
        (
            self.write,
            if self.owns_read {
                Some(self.read)
            } else {
                None
            },
        )
    }

    /// The number of items that the ring holds.
    pub open spec fn count(self) -> nat {
        self.slots.len()
    }

    /// The ring with one more item, behind all others.
    pub open spec fn stash(self, slot: SlotModel) -> RingModel {
        RingModel { slots: self.slots.push(slot), ..self }
    }

    /// What stashing gives, from what sending the message gave: success, or
    /// the classified error.
    pub open spec fn add_result(self, sent: Result<(), i32>) -> Result<(), Error> {
        match sent {
            Ok(_) => Ok(()),
            Err(errno) => Err(self.platform.classified(errno)),
        }
    }

    /// The ring after stashing: with `slot` as its newest item where the
    /// message was sent, unchanged where it was not.
    pub open spec fn after_add(self, slot: SlotModel, sent: Result<(), i32>) -> RingModel {
        if sent is Ok {
            self.stash(slot)
        } else {
            self
        }
    }

    /// The message that carries `descriptor` into the ring.
    pub open spec fn send_request(self, descriptor: i32) -> SendRequest {
        SendRequest { socket: self.write, payload: PAYLOAD, descriptor }
    }

    /// The read that takes one message out of the ring.
    pub open spec fn receive_request(self) -> ReceiveRequest {
        ReceiveRequest { socket: self.read, payload_space: 1, rights_space: RIGHTS_SPACE }
    }

    /// What the oldest message stands for. A message that the ring knows
    /// nothing of stands for a plain descriptor.
    pub open spec fn front(self) -> SlotModel {
        if self.slots.len() > 0 {
            self.slots[0]
        } else {
            SlotModel::One
        }
    }

    /// The ring without its oldest item.
    pub open spec fn unstash(self) -> RingModel {
        if self.slots.len() > 0 {
            RingModel { slots: self.slots.drop_first(), ..self }
        } else {
            self
        }
    }

    /// What reading one message gives: the classified error where the system
    /// call failed, a protocol error where the message does not carry
    /// exactly one descriptor, else the oldest item.
    pub open spec fn pop_result(self, received: Result<Vec<Ancillary>, i32>) -> Result<
        StashedModel,
        Error,
    > {
        match received {
            Err(errno) => Err(self.platform.classified(errno)),
            Ok(messages) => match sole_descriptor(messages@) {
                Err(fault) => Err(Error::Protocol(fault)),
                Ok(fd) => Ok(self.front().revive(fd)),
            },
        }
    }

    /// The ring after reading one message: without its oldest item where the
    /// read gave an item, unchanged where it gave an error.
    pub open spec fn after_pop(self, received: Result<Vec<Ancillary>, i32>) -> RingModel {
        if self.pop_result(received) is Ok {
            self.unstash()
        } else {
            self
        }
    }
}

enum Slot {
    One,
    Pair(Ring),
}

/// A ring buffer of file descriptors, kept in a socket pair's buffer.
pub struct Ring {
    read: i32,
    write: i32,
    owns_read: bool,
    platform: Platform,
    slots: VecDeque<Slot>,
}

/// Something that can be stashed in a ring.
pub enum StashableThing<'a> {
    /// A descriptor.
    One(i32),
    /// Another ring. What travels is the descriptor of its write endpoint.
    Pair(&'a Ring),
}

/// Something that came out of a ring.
pub enum StashedThing {
    /// A descriptor.
    One(i32),
    /// A ring, as it was when it was stashed, with the retrieved descriptor
    /// as its write endpoint.
    Pair(Ring),
}

impl Slot {
    spec fn model(self) -> SlotModel
        decreases self,
    {
        match self {
            Slot::One => SlotModel::One,
            Slot::Pair(ring) => SlotModel::Pair(ring.model()),
        }
    }
}

impl View for Ring {
    type V = RingModel;

    closed spec fn view(&self) -> RingModel {
        self.model()
    }
}

impl<'a> StashableThing<'a> {
    /// The slot that this item takes in a ring.
    pub open spec fn slot(self) -> SlotModel {
        match self {
            StashableThing::One(_) => SlotModel::One,
            StashableThing::Pair(ring) => SlotModel::Pair(ring@),
        }
    }

    /// The descriptor that stands for this item on the wire.
    pub open spec fn descriptor(self) -> i32 {
        match self {
            StashableThing::One(fd) => fd,
            StashableThing::Pair(ring) => ring@.write,
        }
    }
}

impl<'a> From<i32> for StashableThing<'a> {
    fn from(fd: i32) -> (thing: StashableThing<'a>) {
        StashableThing::One(fd)
    }
}

impl<'a> vstd::std_specs::convert::FromSpecImpl<i32> for StashableThing<'a> {
    open spec fn obeys_from_spec() -> bool {
        true
    }

    open spec fn from_spec(fd: i32) -> StashableThing<'a> {
        StashableThing::One(fd)
    }
}

impl<'a> From<&'a Ring> for StashableThing<'a> {
    fn from(ring: &'a Ring) -> (thing: StashableThing<'a>) {
        StashableThing::Pair(ring)
    }
}

impl<'a> vstd::std_specs::convert::FromSpecImpl<&'a Ring> for StashableThing<'a> {
    open spec fn obeys_from_spec() -> bool {
        true
    }

    open spec fn from_spec(ring: &'a Ring) -> StashableThing<'a> {
        StashableThing::Pair(ring)
    }
}

impl View for StashedThing {
    type V = StashedModel;

    open spec fn view(&self) -> StashedModel {
        match *self {
            StashedThing::One(fd) => StashedModel::One(fd),
            StashedThing::Pair(ring) => StashedModel::Pair(ring@),
        }
    }
}

impl Ring {
    spec fn model(self) -> RingModel
        decreases self,
    {
        RingModel {
            read: self.read,
            write: self.write,
            owns_read: self.owns_read,
            platform: self.platform@,
            slots: Seq::new(
                self.slots@.len(),
                |i: int|
                    if 0 <= i < self.slots@.len() {
                        self.slots[i].model()
                    } else {
                        SlotModel::One
                    },
            ),
        }
    }

    /// A second record of the same ring.
    fn duplicate(&self) -> (copy: Ring)
        ensures
            copy@ == self@,
        decreases self,
    {
        let mut slots: VecDeque<Slot> = VecDeque::new();
        let mut i: usize = 0;
        while i < self.slots.len()
            invariant
                i <= self.slots@.len(),
                slots@.len() == i,
                forall|j: int|
                    0 <= j < i ==> (#[trigger] slots@[j]).model() == self.slots@[j].model(),
            decreases self.slots@.len() - i,
        {
            let slot = match &self.slots[i] {
                Slot::One => Slot::One,
                Slot::Pair(inner) => Slot::Pair(inner.duplicate()),
            };
            slots.push_back(slot);
            i += 1;
        }
        let copy = Ring {
            read: self.read,
            write: self.write,
            owns_read: self.owns_read,
            platform: self.platform.duplicate(),
            slots,
        };
        assert(copy.model().slots =~= self.model().slots);
        copy
    }

    /// The number of items in the ring.
    pub fn count(&self) -> (n: u64)
        ensures
            n == self@.count(),
    {
        self.slots.len() as u64
    }

    /// The ring in text, for messages.
    pub fn describe(&self) -> (text: String)
        ensures
            text@ == self@.description(),
    {
        let mut text = String::from_str("#<Ring containing ");
        append_decimal(&mut text, self.count());
        text.append(" fds>");
        text
    }

    /// Classifies the error number of a failed system call by the host
    /// profile that the ring was made with.
    pub fn classify(&self, errno: i32) -> (error: Error)
        ensures
            error == self@.platform.classified(errno),
    {
        self.platform.classify(errno)
    }

    /// The message that stashes `thing` in this ring.
    pub fn send_request(&self, thing: &StashableThing) -> (request: SendRequest)
        ensures
            request == self@.send_request(thing.descriptor()),
    {
        let descriptor = match thing {
            StashableThing::One(fd) => *fd,
            StashableThing::Pair(ring) => ring.write,
        };
        SendRequest { socket: self.write, payload: PAYLOAD, descriptor }
    }

    /// Stashes `thing`, given what sending its message gave: success, or the
    /// error number.
    ///
    /// A message that was sent makes `thing` the newest item of the ring. A
    /// failure is classified and leaves the ring as it was. Closing the
    /// descriptor is left to the caller either way.
    pub fn add(&mut self, thing: &StashableThing, sent: Result<(), i32>) -> (r: Result<
        (),
        Error,
    >)
        ensures
            r == old(self)@.add_result(sent),
            final(self)@ == old(self)@.after_add(thing.slot(), sent),
    {
        match sent {
            Ok(_) => {
                let slot = match thing {
                    StashableThing::One(_) => Slot::One,
                    StashableThing::Pair(ring) => Slot::Pair(ring.duplicate()),
                };
                self.slots.push_back(slot);
                assert(self.model().slots =~= old(self).model().slots.push(thing.slot()));
                Ok(())
            },
            Err(errno) => Err(self.platform.classify(errno)),
        }
    }

    /// The read that retrieves the oldest item of this ring.
    pub fn receive_request(&self) -> (request: ReceiveRequest)
        ensures
            request == self@.receive_request(),
    {
        ReceiveRequest { socket: self.read, payload_space: 1, rights_space: RIGHTS_SPACE }
    }

    /// Removes the oldest item, given what reading one message gave: its
    /// control messages, or the error number.
    ///
    /// A message with exactly one descriptor gives the oldest item, revived
    /// with that descriptor, and the ring no longer holds it. Anything else
    /// is an error and leaves the ring as it was.
    pub fn pop(&mut self, received: Result<Vec<Ancillary>, i32>) -> (r: Result<
        StashedThing,
        Error,
    >)
        ensures
            match r {
                Ok(item) => old(self)@.pop_result(received) == Ok::<StashedModel, Error>(item@),
                Err(error) => old(self)@.pop_result(received) == Err::<StashedModel, Error>(
                    error,
                ),
            },
            final(self)@ == old(self)@.after_pop(received),
    {
        match received {
            Err(errno) => Err(self.platform.classify(errno)),
            Ok(messages) => match expect_one_descriptor(&messages) {
                Err(fault) => Err(Error::Protocol(fault)),
                Ok(fd) => {
                    match self.slots.pop_front() {
                        None => {
                            assert(self.model().slots =~= old(self).model().slots);
                            Ok(StashedThing::One(fd))
                        },
                        Some(Slot::One) => {
                            assert(self.model().slots =~= old(self).model().slots.drop_first());
                            Ok(StashedThing::One(fd))
                        },
                        Some(Slot::Pair(mut ring)) => {
                            assert(self.model().slots =~= old(self).model().slots.drop_first());
                            let ghost before = ring.model();
                            ring.write = fd;
                            ring.owns_read = false;
                            assert(ring.model().slots =~= before.slots);
                            Ok(StashedThing::Pair(ring))
                        },
                    }
                },
            },
        }
    }

    /// Starts a pass over the items that the ring holds now. The pass hands
    /// out each item and leaves it in the ring.
    pub fn iter(&self) -> (pass: RingIter)
        ensures
            pass.remaining() == self@.count(),
    {
        RingIter { remaining: self.count() }
    }

    /// Gives up the ring: the descriptors to close, the write endpoint
    /// first. They are the ring's own endpoints whatever it still holds; the
    /// kernel discards what is resident when the sockets close. Giving the
    /// ring up consumes it, so no endpoint is handed out twice.
    pub fn release(self) -> (endpoints: (i32, Option<i32>))
        ensures
            endpoints == self@.endpoints(),
    {
        if self.owns_read {
            (self.write, Some(self.read))
        } else {
            (self.write, None)
        }
    }
}

/// A pass over a ring's items that rotates the ring: each step reads the
/// oldest item and stashes it again as the newest, so that a whole pass leaves
/// the ring with what it had. The pass has as many steps as the ring held
/// items when the pass began, and ends early at the first error.
pub struct RingIter {
    remaining: u64,
}

/// An item that a pass has read and not yet stashed again.
pub struct Rotation {
    item: StashedThing,
}

impl View for Rotation {
    type V = StashedModel;

    closed spec fn view(&self) -> StashedModel {
        self.item@
    }
}

impl Rotation {
    /// The message that stashes the item again in `ring`.
    pub fn send_request(&self, ring: &Ring) -> (request: SendRequest)
        ensures
            request == ring@.send_request(self@.descriptor()),
    {
        let descriptor = match &self.item {
            StashedThing::One(fd) => *fd,
            StashedThing::Pair(inner) => inner.write,
        };
        SendRequest { socket: ring.write, payload: PAYLOAD, descriptor }
    }
}

impl RingIter {
    /// The number of steps that the pass has left.
    pub closed spec fn remaining(&self) -> nat {
        self.remaining as nat
    }

    /// The read that begins the next step, or `None` when the pass is over.
    pub fn receive_request(&self, ring: &Ring) -> (request: Option<ReceiveRequest>)
        ensures
            request == if self.remaining() > 0 {
                Some(ring@.receive_request())
            } else {
                None::<ReceiveRequest>
            },
    {
        if self.remaining > 0 {
            Some(ring.receive_request())
        } else {
            None
        }
    }

    /// The first half of a step, given what the read gave. The ring loses
    /// its oldest item exactly as in `pop`; the item waits in the `Rotation`
    /// to be stashed again. An error ends the pass.
    pub fn received(&mut self, ring: &mut Ring, received: Result<Vec<Ancillary>, i32>) -> (r:
        Result<Rotation, Error>)
        ensures
            match r {
                Ok(rotation) => {
                    &&& old(ring)@.pop_result(received) == Ok::<StashedModel, Error>(rotation@)
                    &&& final(self).remaining() == if old(self).remaining() > 0 {
                        old(self).remaining() - 1
                    } else {
                        0
                    }
                },
                Err(error) => {
                    &&& old(ring)@.pop_result(received) == Err::<StashedModel, Error>(error)
                    &&& final(self).remaining() == 0
                },
            },
            final(ring)@ == old(ring)@.after_pop(received),
    {
        match ring.pop(received) {
            Ok(item) => {
                if self.remaining > 0 {
                    self.remaining = self.remaining - 1;
                }
                Ok(Rotation { item })
            },
            Err(error) => {
                self.remaining = 0;
                Err(error)
            },
        }
    }

    /// The second half of a step, given what sending the item's message
    /// gave. Where it was sent, the item is the ring's newest and is handed
    /// out. Where it was not, the item has left the ring, the classified
    /// error is returned and the pass ends.
    pub fn requeued(&mut self, ring: &mut Ring, rotation: Rotation, sent: Result<(), i32>) -> (r:
        Result<StashedThing, Error>)
        ensures
            match r {
                Ok(item) => {
                    &&& sent is Ok
                    &&& item@ == rotation@
                    &&& final(self).remaining() == old(self).remaining()
                },
                Err(error) => {
                    &&& old(ring)@.add_result(sent) == Err::<(), Error>(error)
                    &&& final(self).remaining() == 0
                },
            },
            final(ring)@ == old(ring)@.after_add(rotation@.slot(), sent),
    {
        let added = match &rotation.item {
            StashedThing::One(fd) => ring.add(&StashableThing::One(*fd), sent),
            StashedThing::Pair(inner) => ring.add(&StashableThing::Pair(inner), sent),
        };
        match added {
            Ok(_) => Ok(rotation.item),
            Err(error) => {
                self.remaining = 0;
                Err(error)
            },
        }
    }
}

/// The request that sizes the send buffer of a new socket pair's write end.
pub fn buffer_request(platform: &Platform, pair: (i32, i32)) -> (request: BufferRequest)
    ensures
        request == (BufferRequest { socket: pair.1, size: platform@.send_buffer }),
{
    BufferRequest { socket: pair.1, size: platform.send_buffer }
}

/// Makes a ring, given what creating the socket pair gave (the read and the
/// write end, or the error number) and what sizing the write end's send
/// buffer gave. Where no pair was created, `tuned` is not looked at.
///
/// The ring is empty. A failure of either call is classified.
pub fn new(platform: Platform, pair: Result<(i32, i32), i32>, tuned: Result<(), i32>) -> (r: Result<
    Ring,
    Error,
>)
    ensures
        match pair {
            Err(errno) => r matches Err(error) && error == platform@.classified(errno),
            Ok((read, write)) => match tuned {
                Err(errno) => r matches Err(error) && error == platform@.classified(errno),
                Ok(_) => r matches Ok(ring) && ring@ == RingModel::empty(platform@, read, write),
            },
        },
{
    match pair {
        Err(errno) => Err(platform.classify(errno)),
        Ok((read, write)) => match tuned {
            Err(errno) => Err(platform.classify(errno)),
            Ok(_) => {
                let ring = Ring { read, write, owns_read: true, platform, slots: VecDeque::new() };
                assert(ring.model().slots =~= Seq::<SlotModel>::empty());
                Ok(ring)
            },
        },
    }
}

} // verus!
