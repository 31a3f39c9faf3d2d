//! What holds of rings over whole runs of calls, proved from the model that
//! the contracts of `add`, `pop` and the rotating pass are stated in.

use crate::platform::PlatformModel;
use crate::ring::{Error, ProtocolError, RingModel, SlotModel, StashedModel};
use crate::wire::{descriptors, sole_descriptor, Ancillary};
use vstd::prelude::*;

verus! {

/// What reading one message gave: its control messages, or an error number.
pub type Reception = Result<Vec<Ancillary>, i32>;

/// Whether a read gave a message that carries exactly one descriptor.
pub open spec fn delivers(received: Reception) -> bool {
    received matches Ok(messages) && sole_descriptor(messages@) is Ok
}

/// The descriptor of a message that carries exactly one.
pub open spec fn delivered(received: Reception) -> i32 {
    match received {
        Ok(messages) => match sole_descriptor(messages@) {
            Ok(fd) => fd,
            Err(_) => 0,
        },
        Err(_) => 0,
    }
}

/// One call on a ring together with what the operating system answered.
pub enum Call {
    /// `add` of an item that takes the given slot, with what sending gave.
    Add(SlotModel, Result<(), i32>),
    /// `pop`, with what reading gave.
    Pop(Reception),
}

impl RingModel {
    /// The ring after stashing `slots` one after another, each message sent.
    pub open spec fn stash_each(self, slots: Seq<SlotModel>) -> RingModel
        decreases slots.len(),
    {
        if slots.len() == 0 {
            self
        } else {
            self.stash_each(slots.drop_last()).stash(slots.last())
        }
    }

    /// The ring after one `pop` for each element of `received`.
    pub open spec fn pop_each(self, received: Seq<Reception>) -> RingModel
        decreases received.len(),
    {
        if received.len() == 0 {
            self
        } else {
            self.pop_each(received.drop_last()).after_pop(received.last())
        }
    }

    /// The ring after `call`.
    pub open spec fn after(self, call: Call) -> RingModel {
        match call {
            Call::Add(slot, sent) => self.after_add(slot, sent),
            Call::Pop(received) => self.after_pop(received),
        }
    }

    /// The ring after `calls`, made in order.
    pub open spec fn after_all(self, calls: Seq<Call>) -> RingModel
        decreases calls.len(),
    {
        if calls.len() == 0 {
            self
        } else {
            self.after_all(calls.drop_last()).after(calls.last())
        }
    }

    /// How many of `calls` are an `add` that succeeds.
    pub open spec fn adds(self, calls: Seq<Call>) -> nat
        decreases calls.len(),
    {
        if calls.len() == 0 {
            0
        } else {
            let before = self.after_all(calls.drop_last());
            let this: nat = match calls.last() {
                Call::Add(_, sent) => if before.add_result(sent) is Ok {
                    1
                } else {
                    0
                },
                Call::Pop(_) => 0,
            };
            self.adds(calls.drop_last()) + this
        }
    }

    /// How many of `calls` are a `pop` that succeeds.
    pub open spec fn pops(self, calls: Seq<Call>) -> nat
        decreases calls.len(),
    {
        if calls.len() == 0 {
            0
        } else {
            let before = self.after_all(calls.drop_last());
            let this: nat = match calls.last() {
                Call::Add(_, _) => 0,
                Call::Pop(received) => if before.pop_result(received) is Ok {
                    1
                } else {
                    0
                },
            };
            self.pops(calls.drop_last()) + this
        }
    }

    /// Whether every `pop` among `calls` that is handed a descriptor finds
    /// an item in the ring.
    pub open spec fn never_overdrawn(self, calls: Seq<Call>) -> bool {
        forall|i: int|
            0 <= i < calls.len() ==> match #[trigger] calls[i] {
                Call::Add(_, _) => true,
                Call::Pop(received) => delivers(received) ==> self.after_all(
                    calls.take(i),
                ).count() > 0,
            }
    }

    /// The ring after one step of a rotating pass: the oldest item read
    /// and, where that gave an item, stashed again.
    pub open spec fn after_rotation(self, received: Reception, sent: Result<(), i32>) -> RingModel {
        match self.pop_result(received) {
            Ok(item) => self.after_pop(received).after_add(item.slot(), sent),
            Err(_) => self,
        }
    }

    /// The ring after one step of a rotating pass for each element of
    /// `received`, every item stashed again.
    pub open spec fn rotate_each(self, received: Seq<Reception>) -> RingModel
        decreases received.len(),
    {
        if received.len() == 0 {
            self
        } else {
            self.rotate_each(received.drop_last()).after_rotation(
                received.last(),
                Ok(()),
            )
        }
    }
}

/// Stashing one item after another appends them, in that order, behind what
/// the ring held, and changes nothing else.
pub proof fn lemma_stash_each(ring: RingModel, slots: Seq<SlotModel>)
    ensures
        ring.stash_each(slots) == (RingModel { slots: ring.slots + slots, ..ring }),
    decreases slots.len(),
{
    if slots.len() == 0 {
        assert(ring.slots + slots =~= ring.slots);
    } else {
        lemma_stash_each(ring, slots.drop_last());
        assert((ring.slots + slots.drop_last()).push(slots.last()) =~= ring.slots + slots);
    }
}

/// Reading messages that each carry one descriptor removes as many of the
/// oldest items, and changes nothing else.
pub proof fn lemma_pop_each(ring: RingModel, received: Seq<Reception>)
    requires
        received.len() <= ring.count(),
        forall|k: int| 0 <= k < received.len() ==> delivers(#[trigger] received[k]),
    ensures
        ring.pop_each(received) == (RingModel {
            slots: ring.slots.skip(received.len() as int),
            ..ring
        }),
    decreases received.len(),
{
    if received.len() == 0 {
        assert(ring.slots.skip(0) =~= ring.slots);
    } else {
        let earlier = received.drop_last();
        assert forall|k: int| 0 <= k < earlier.len() implies delivers(#[trigger] earlier[k]) by {
            assert(earlier[k] == received[k]);
        }
        lemma_pop_each(ring, earlier);
        assert(delivers(received[received.len() - 1]));
        assert(ring.slots.skip(earlier.len() as int).drop_first() =~= ring.slots.skip(
            received.len() as int,
        ));
    }
}

/// First in, first out: items that are stashed leave after all that the
/// ring held before, in the order in which they were stashed. Once the
/// ring's earlier items are read, the `i`-th `pop` gives the `i`-th of the
/// new items, revived with the descriptor that its message carried, and
/// after as many reads as there were items the ring is empty.
pub proof fn lemma_first_in_first_out(
    ring: RingModel,
    slots: Seq<SlotModel>,
    received: Seq<Reception>,
    i: int,
)
    requires
        received.len() == ring.count() + slots.len(),
        forall|k: int| 0 <= k < received.len() ==> delivers(#[trigger] received[k]),
        0 <= i < slots.len(),
    ensures
        ring.stash_each(slots).pop_each(received.take(ring.count() + i)).pop_result(
            received[ring.count() + i],
        ) == Ok::<StashedModel, Error>(slots[i].revive(delivered(received[ring.count() + i]))),
        ring.stash_each(slots).pop_each(received).count() == 0,
{
    let full = ring.stash_each(slots);
    lemma_stash_each(ring, slots);
    let turn = ring.count() + i;
    let earlier = received.take(turn);
    assert forall|k: int| 0 <= k < earlier.len() implies delivers(#[trigger] earlier[k]) by {
        assert(earlier[k] == received[k]);
    }
    lemma_pop_each(full, earlier);
    lemma_pop_each(full, received);
    assert(delivers(received[turn]));
    assert(full.slots.skip(turn)[0] == slots[i]);
}

/// After any run of `add` and `pop` calls in which no `pop` finds the ring
/// empty, the count is what it was, plus the adds that succeeded, minus the
/// pops that succeeded.
pub proof fn lemma_count(ring: RingModel, calls: Seq<Call>)
    requires
        ring.never_overdrawn(calls),
    ensures
        ring.after_all(calls).count() == ring.count() + ring.adds(calls) - ring.pops(calls),
    decreases calls.len(),
{
    if calls.len() > 0 {
        let earlier = calls.drop_last();
        let last = calls.len() - 1;
        assert forall|i: int| 0 <= i < earlier.len() implies match #[trigger] earlier[i] {
            Call::Add(_, _) => true,
            Call::Pop(received) => delivers(received) ==> ring.after_all(earlier.take(i)).count()
                > 0,
        } by {
            assert(earlier[i] == calls[i]);
            assert(earlier.take(i) =~= calls.take(i));
        }
        lemma_count(ring, earlier);
        assert(calls.take(last) =~= earlier);
        let before = ring.after_all(earlier);
        match calls[last] {
            Call::Add(_, _) => {},
            Call::Pop(received) => {
                if before.pop_result(received) is Ok {
                    assert(delivers(received));
                    assert(before.count() > 0);
                }
            },
        }
    }
}

/// A failed send that reports one of the host's limits makes `add` fail with
/// `Limit`, not `Bad`, and the ring holds what it held.
pub proof fn lemma_limit_on_add(
    ring: RingModel,
    slot: SlotModel,
    errno: i32,
)
    requires
        ring.platform.is_limit(errno),
    ensures
        ring.add_result(Err(errno)) == Err::<(), Error>(Error::Limit(errno)),
        ring.after_add(slot, Err(errno)) == ring,
{
}

/// A message without a descriptor gives `NoFDReceived`, one with more than
/// one gives `TooManyFDsReceived`, in `pop` and in a step of a pass alike,
/// and the ring holds what it held.
pub proof fn lemma_protocol_integrity(
    ring: RingModel,
    messages: Vec<Ancillary>,
    sent: Result<(), i32>,
)
    requires
        descriptors(messages@).len() != 1,
    ensures
        ring.pop_result(Ok(messages)) == Err::<StashedModel, Error>(
            Error::Protocol(
                if descriptors(messages@).len() == 0 {
                    ProtocolError::NoFDReceived
                } else {
                    ProtocolError::TooManyFDsReceived
                },
            ),
        ),
        ring.after_pop(Ok(messages)) == ring,
        ring.after_rotation(Ok(messages), sent) == ring,
{
}

/// One step of a pass in which the item is read and sent again moves the
/// oldest item behind all others, revived, and so keeps the count.
pub proof fn lemma_rotation(ring: RingModel, received: Reception, sent: Result<(), i32>)
    requires
        ring.count() > 0,
        delivers(received),
        sent is Ok,
    ensures
        ring.after_rotation(received, sent).slots == ring.slots.drop_first().push(
            ring.slots[0].revive(delivered(received)).slot(),
        ),
        ring.after_rotation(received, sent).count() == ring.count(),
{
}

/// A pass run to its end, every step succeeding, leaves the ring with the
/// count it had: after `n` steps the `n` oldest items stand behind the
/// others, in their order, each revived with the descriptor that its
/// message carried.
pub proof fn lemma_pass(ring: RingModel, received: Seq<Reception>)
    requires
        received.len() <= ring.count(),
        forall|k: int| 0 <= k < received.len() ==> delivers(#[trigger] received[k]),
    ensures
        ring.rotate_each(received).count() == ring.count(),
        ring.rotate_each(received).slots == ring.slots.skip(received.len() as int) + Seq::new(
            received.len(),
            |k: int| ring.slots[k].revive(delivered(received[k])).slot(),
        ),
    decreases received.len(),
{
    let n = received.len();
    let turned = Seq::new(n, |k: int| ring.slots[k].revive(delivered(received[k])).slot());
    if n == 0 {
        assert(ring.slots.skip(0) + turned =~= ring.slots);
    } else {
        let earlier = received.drop_last();
        assert forall|k: int| 0 <= k < earlier.len() implies delivers(#[trigger] earlier[k]) by {
            assert(earlier[k] == received[k]);
        }
        lemma_pass(ring, earlier);
        let before = ring.rotate_each(earlier);
        assert(delivers(received[n - 1]));
        assert(before.slots[0] == ring.slots[n - 1]);
        lemma_rotation(before, received.last(), Ok(()));
        assert(ring.rotate_each(received).slots =~= ring.slots.skip(n as int) + turned);
    }
}

/// A ring that holds `k` plain descriptors and is stashed in another ring
/// comes out of it as a ring with the retrieved descriptor as its write
/// endpoint, and `k` reads drain it: each gives a plain descriptor, the one
/// that its message carried, and then the ring is empty.
pub proof fn lemma_nesting_round_trip(
    outer: RingModel,
    inner: RingModel,
    carrier: Reception,
    drained: Seq<Reception>,
    i: int,
)
    requires
        outer.count() == 0,
        forall|k: int| 0 <= k < inner.slots.len() ==> #[trigger] inner.slots[k] is One,
        delivers(carrier),
        drained.len() == inner.count(),
        forall|k: int| 0 <= k < drained.len() ==> delivers(#[trigger] drained[k]),
        0 <= i < drained.len(),
    ensures
        ({
            let retrieved = inner.retrieved(delivered(carrier));
            &&& outer.stash(SlotModel::Pair(inner)).pop_result(carrier) == Ok::<
                StashedModel,
                Error,
            >(StashedModel::Pair(retrieved))
            &&& retrieved.count() == inner.count()
            &&& retrieved.pop_each(drained.take(i)).pop_result(drained[i]) == Ok::<
                StashedModel,
                Error,
            >(StashedModel::One(delivered(drained[i])))
            &&& retrieved.pop_each(drained).count() == 0
        }),
{
    let retrieved = inner.retrieved(delivered(carrier));
    let earlier = drained.take(i);
    assert forall|k: int| 0 <= k < earlier.len() implies delivers(#[trigger] earlier[k]) by {
        assert(earlier[k] == drained[k]);
    }
    lemma_pop_each(retrieved, earlier);
    lemma_pop_each(retrieved, drained);
    assert(delivers(drained[i]));
    assert(retrieved.slots.skip(i)[0] == inner.slots[i]);
}

/// Giving up a ring that was made on a socket pair closes its two
/// endpoints, whatever it holds; giving up a ring that came out of another
/// closes the retrieved descriptor only and leaves the read endpoint to the
/// ring that was stashed.
pub proof fn lemma_release(
    platform: PlatformModel,
    read: i32,
    write: i32,
    slots: Seq<SlotModel>,
    fd: i32,
)
    ensures
        RingModel::empty(platform, read, write).stash_each(slots).endpoints() == (
            write,
            Some(read),
        ),
        RingModel::empty(platform, read, write).stash_each(slots).retrieved(fd).endpoints() == (
            fd,
            None::<i32>,
        ),
{
    lemma_stash_each(RingModel::empty(platform, read, write), slots);
}

} // verus!
