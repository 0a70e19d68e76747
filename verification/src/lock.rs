//! The locks that keep each `(group, consumer)` to one live instance,
//! held in memory.
//!
//! A locker hands a lock to the first that asks for a slot and refuses
//! every other until the lock is released. Each change it makes carries
//! a revision higher than any before, and the fencing tokens of a lock
//! are such revisions. A lock that was released gives no token any more.

use crate::types::{ConsumerGroupId, ConsumerId, Revision};
use vstd::prelude::*;

verus! {

/// Why a lock, or a token, was not given.
#[derive(Clone, Copy, Debug, PartialEq, Eq, Structural)]
pub enum LockError {
    /// The slot is held by another instance.
    AlreadyHeld,
    /// The lock was released or its lease lost: it is no longer held.
    LeaseLost,
    /// No higher revision exists.
    RevisionsExhausted,
}

/// The hold of one slot. The lease is the revision at which it was taken.
#[derive(Debug, PartialEq, Eq)]
pub struct ConsumerLock {
    pub consumer_group_id: ConsumerGroupId,
    pub consumer_id: ConsumerId,
    pub lease: Revision,
}

/// A lock as contracts see it.
pub struct LockView {
    pub consumer_group_id: ConsumerGroupId,
    pub consumer_id: Seq<char>,
    pub lease: Revision,
}

impl View for ConsumerLock {
    type V = LockView;

    open spec fn view(&self) -> LockView {
        LockView {
            consumer_group_id: self.consumer_group_id,
            consumer_id: self.consumer_id@,
            lease: self.lease,
        }
    }
}

/// A locker as contracts see it.
#[verifier::ext_equal]
pub struct LockerView {
    /// The locks that are held.
    pub locks: Seq<LockView>,
    /// The revision of the last change.
    pub revision: Revision,
}

impl LockerView {
    /// Some instance holds the slot.
    pub open spec fn is_held(self, consumer_group_id: ConsumerGroupId, consumer_id: Seq<char>) -> bool {
        exists|i: int|
            0 <= i < self.locks.len() && (#[trigger] self.locks[i]).consumer_group_id
                == consumer_group_id && self.locks[i].consumer_id == consumer_id
    }

    /// This very lock is held.
    pub open spec fn holds(self, lock: LockView) -> bool {
        exists|i: int| 0 <= i < self.locks.len() && #[trigger] self.locks[i] == lock
    }

    /// No slot is held twice, and every lease was taken at a revision
    /// that is past.
    pub open spec fn wf(self) -> bool {
        &&& forall|i: int, j: int|
            0 <= i < j < self.locks.len() ==> !((#[trigger] self.locks[i]).consumer_group_id == (
            #[trigger] self.locks[j]).consumer_group_id && self.locks[i].consumer_id
                == self.locks[j].consumer_id)
        &&& forall|i: int| 0 <= i < self.locks.len() ==> (#[trigger] self.locks[i]).lease <= self.revision
    }

    /// The locker after the slot was asked for, and what the asker got.
    pub open spec fn try_lock_instance_id(
        self,
        consumer_group_id: ConsumerGroupId,
        consumer_id: Seq<char>,
    ) -> (LockerView, Result<LockView, LockError>) {
        if self.is_held(consumer_group_id, consumer_id) {
            (self, Err(LockError::AlreadyHeld))
        } else if self.revision == i64::MAX {
            (self, Err(LockError::RevisionsExhausted))
        } else {
            let lock = LockView {
                consumer_group_id,
                consumer_id,
                lease: (self.revision + 1) as Revision,
            };
            (
                LockerView { locks: self.locks.push(lock), revision: (self.revision + 1) as Revision },
                Ok(lock),
            )
        }
    }

    /// The locker after a token was asked for under a lock, and the
    /// token.
    pub open spec fn generate_fencing_token(self, lock: LockView) -> (
        LockerView,
        Result<Revision, LockError>,
    ) {
        if !self.holds(lock) {
            (self, Err(LockError::LeaseLost))
        } else if self.revision == i64::MAX {
            (self, Err(LockError::RevisionsExhausted))
        } else {
            (
                LockerView { revision: (self.revision + 1) as Revision, ..self },
                Ok((self.revision + 1) as Revision),
            )
        }
    }
}

/// The slots of a group and their holders, in memory.
pub struct ConsumerLocker {
    locks: Vec<ConsumerLock>,
    revision: Revision,
}

impl View for ConsumerLocker {
    type V = LockerView;

    closed spec fn view(&self) -> LockerView {
        LockerView {
            locks: Seq::new(self.locks@.len(), |i: int| self.locks@[i]@),
            revision: self.revision,
        }
    }
}

impl ConsumerLocker {
    /// A locker that holds nothing, at revision zero.
    pub fn new() -> (locker: Self)
        ensures
            locker@ == (LockerView { locks: Seq::empty(), revision: 0 }),
            locker@.wf(),
    {
        let locker = ConsumerLocker { locks: Vec::new(), revision: 0 };
        assert(locker@.locks =~= Seq::empty());
        locker
    }

    /// The revision of the last change.
    pub fn revision(&self) -> (revision: Revision)
        ensures
            revision == self@.revision,
    {
        self.revision
    }

    /// Index of the lock that holds the slot, if one does.
    fn find(&self, consumer_group_id: ConsumerGroupId, consumer_id: &ConsumerId) -> (found: Option<
        usize,
    >)
        ensures
            found is Some <==> self@.is_held(consumer_group_id, consumer_id@),
            found matches Some(i) ==> i < self.locks@.len() && self.locks@[i as int].consumer_group_id
                == consumer_group_id && self.locks@[i as int].consumer_id@ == consumer_id@,
    {
        let mut i: usize = 0;
        while i < self.locks.len()
            invariant
                0 <= i <= self.locks@.len(),
                forall|j: int|
                    0 <= j < i ==> !((#[trigger] self@.locks[j]).consumer_group_id
                        == consumer_group_id && self@.locks[j].consumer_id == consumer_id@),
            decreases self.locks@.len() - i,
        {
            let held = &self.locks[i];
            if held.consumer_group_id == consumer_group_id && held.consumer_id == *consumer_id {
                assert(self@.locks[i as int] == self.locks@[i as int]@);
                return Some(i);
            }
            assert(self@.locks[i as int] == self.locks@[i as int]@);
            i += 1;
        }
        None
    }

    /// Whether some instance holds the slot.
    pub fn is_locked(&self, consumer_group_id: ConsumerGroupId, consumer_id: &ConsumerId) -> (held:
        bool)
        ensures
            held == self@.is_held(consumer_group_id, consumer_id@),
    {
        self.find(consumer_group_id, consumer_id).is_some()
    }

    /// Takes the slot if no instance holds it. The lock's lease is the
    /// revision of this change.
    pub fn try_lock_instance_id(
        &mut self,
        consumer_group_id: ConsumerGroupId,
        consumer_id: &ConsumerId,
    ) -> (outcome: Result<ConsumerLock, LockError>)
        requires
            old(self)@.wf(),
        ensures
            final(self)@.wf(),
            final(self)@ == old(self)@.try_lock_instance_id(consumer_group_id, consumer_id@).0,
            match outcome {
                Ok(lock) => Ok::<LockView, LockError>(lock@),
                Err(error) => Err(error),
            } == old(self)@.try_lock_instance_id(consumer_group_id, consumer_id@).1,
    {
        if self.find(consumer_group_id, consumer_id).is_some() {
            return Err(LockError::AlreadyHeld);
        }
        if self.revision == i64::MAX {
            return Err(LockError::RevisionsExhausted);
        }
        let ghost before = self@;
        self.revision = self.revision + 1;
        self.locks.push(
            ConsumerLock { consumer_group_id, consumer_id: consumer_id.clone(), lease: self.revision },
        );
        proof {
            let lock = LockView {
                consumer_group_id,
                consumer_id: consumer_id@,
                lease: self.revision,
            };
            assert(self@.locks =~= before.locks.push(lock));
            assert forall|i: int, j: int| 0 <= i < j < self@.locks.len() implies !((
            #[trigger] self@.locks[i]).consumer_group_id == (
            #[trigger] self@.locks[j]).consumer_group_id && self@.locks[i].consumer_id
                == self@.locks[j].consumer_id) by {
                if j == before.locks.len() {
                    assert(self@.locks[i] == before.locks[i]);
                } else {
                    assert(self@.locks[i] == before.locks[i]);
                    assert(self@.locks[j] == before.locks[j]);
                }
            }
            assert forall|i: int| 0 <= i < self@.locks.len() implies (
            #[trigger] self@.locks[i]).lease <= self@.revision by {
                if i < before.locks.len() {
                    assert(self@.locks[i] == before.locks[i]);
                }
            }
        }
        Ok(ConsumerLock { consumer_group_id, consumer_id: consumer_id.clone(), lease: self.revision })
    }

    /// Index of this very lock among those held.
    fn find_lock(&self, lock: &ConsumerLock) -> (found: Option<usize>)
        ensures
            found is Some <==> self@.holds(lock@),
            found matches Some(i) ==> i < self.locks@.len() && self.locks@[i as int]@ == lock@,
    {
        let mut i: usize = 0;
        while i < self.locks.len()
            invariant
                0 <= i <= self.locks@.len(),
                forall|j: int| 0 <= j < i ==> #[trigger] self@.locks[j] != lock@,
            decreases self.locks@.len() - i,
        {
            let held = &self.locks[i];
            assert(self@.locks[i as int] == self.locks@[i as int]@);
            if held.consumer_group_id == lock.consumer_group_id && held.lease == lock.lease
                && held.consumer_id == lock.consumer_id {
                assert(held@.consumer_id =~= lock@.consumer_id);
                return Some(i);
            }
            i += 1;
        }
        None
    }

    /// Gives the next fencing token of a lock: a revision higher than any
    /// before. A lock that is no longer held gets none.
    pub fn generate_fencing_token(&mut self, lock: &ConsumerLock) -> (outcome: Result<
        Revision,
        LockError,
    >)
        requires
            old(self)@.wf(),
        ensures
            final(self)@.wf(),
            final(self)@ == old(self)@.generate_fencing_token(lock@).0,
            outcome == old(self)@.generate_fencing_token(lock@).1,
            outcome matches Ok(token) ==> token > old(self)@.revision && token
                == final(self)@.revision,
    {
        if self.find_lock(lock).is_none() {
            return Err(LockError::LeaseLost);
        }
        if self.revision == i64::MAX {
            return Err(LockError::RevisionsExhausted);
        }
        let ghost before = self@;
        self.revision = self.revision + 1;
        assert(self@.locks =~= before.locks);
        Ok(self.revision)
    }

    /// Releases a lock, as the end of its lease does: its slot is free
    /// again and the lock gives no token any more. Every other lock
    /// stays.
    pub fn release(&mut self, lock: &ConsumerLock)
        requires
            old(self)@.wf(),
        ensures
            final(self)@.wf(),
            final(self)@.revision == old(self)@.revision,
            !final(self)@.holds(lock@),
            forall|other: LockView|
                other != lock@ ==> (#[trigger] final(self)@.holds(other) <==> old(self)@.holds(other)),
    {
        match self.find_lock(lock) {
            None => {},
            Some(i) => {
                let ghost before = self@;
                self.locks.remove(i);
                proof {
                    assert(self@.locks =~= before.locks.remove(i as int));
                    assert forall|a: int, b: int| 0 <= a < b < self@.locks.len() implies !((
                    #[trigger] self@.locks[a]).consumer_group_id == (
                    #[trigger] self@.locks[b]).consumer_group_id && self@.locks[a].consumer_id
                        == self@.locks[b].consumer_id) by {
                        let a0 = if a < i { a } else { a + 1 };
                        let b0 = if b < i { b } else { b + 1 };
                        assert(self@.locks[a] == before.locks[a0]);
                        assert(self@.locks[b] == before.locks[b0]);
                    }
                    assert forall|a: int| 0 <= a < self@.locks.len() implies (
                    #[trigger] self@.locks[a]).lease <= self@.revision by {
                        let a0 = if a < i { a } else { a + 1 };
                        assert(self@.locks[a] == before.locks[a0]);
                    }
                    assert(!self@.holds(lock@)) by {
                        if self@.holds(lock@) {
                            let a = choose|a: int|
                                0 <= a < self@.locks.len() && #[trigger] self@.locks[a] == lock@;
                            let a0 = if a < i { a } else { a + 1 };
                            assert(self@.locks[a] == before.locks[a0]);
                            assert(before.locks[i as int] == lock@);
                            if a0 < i {
                                assert(before.locks[a0].consumer_group_id == before.locks[i as int].consumer_group_id);
                            } else {
                                assert(before.locks[i as int].consumer_group_id == before.locks[a0].consumer_group_id);
                            }
                        }
                    }
                    assert forall|other: LockView| other != lock@ implies (
                    #[trigger] self@.holds(other) <==> before.holds(other)) by {
                        if self@.holds(other) {
                            let a = choose|a: int|
                                0 <= a < self@.locks.len() && #[trigger] self@.locks[a] == other;
                            let a0 = if a < i { a } else { a + 1 };
                            assert(before.locks[a0] == other);
                        }
                        if before.holds(other) {
                            let a0 = choose|a: int|
                                0 <= a < before.locks.len() && #[trigger] before.locks[a] == other;
                            let a = if a0 < i { a0 } else { a0 - 1 };
                            assert(self@.locks[a] == other);
                        }
                    }
                }
            },
        }
    }
}

/// Of all that ask for one slot while it is held, none gets it: after a
/// lock was given, every further attempt on its slot fails as already
/// held and changes nothing, whatever other slots were taken in between.
pub proof fn law_one_holder_per_slot(
    locker: LockerView,
    consumer_group_id: ConsumerGroupId,
    consumer_id: Seq<char>,
    other_group: ConsumerGroupId,
    other_consumer: Seq<char>,
)
    requires
        locker.try_lock_instance_id(consumer_group_id, consumer_id).1 is Ok,
    ensures
        ({
            let held = locker.try_lock_instance_id(consumer_group_id, consumer_id).0;
            let later = held.try_lock_instance_id(other_group, other_consumer).0;
            &&& held.try_lock_instance_id(consumer_group_id, consumer_id) == (
                held,
                Err::<LockView, LockError>(LockError::AlreadyHeld),
            )
            &&& later.try_lock_instance_id(consumer_group_id, consumer_id) == (
                later,
                Err::<LockView, LockError>(LockError::AlreadyHeld),
            )
        }),
{
    let held = locker.try_lock_instance_id(consumer_group_id, consumer_id).0;
    let last = held.locks.len() - 1;
    assert(held.locks[last].consumer_group_id == consumer_group_id);
    assert(held.is_held(consumer_group_id, consumer_id));
    let later = held.try_lock_instance_id(other_group, other_consumer).0;
    assert(later.locks[last] == held.locks[last]);
    assert(later.is_held(consumer_group_id, consumer_id));
}

/// A slot that is free is given to the first that asks, unless no higher
/// revision exists.
pub proof fn law_free_slot_is_given(
    locker: LockerView,
    consumer_group_id: ConsumerGroupId,
    consumer_id: Seq<char>,
)
    requires
        !locker.is_held(consumer_group_id, consumer_id),
        locker.revision < i64::MAX,
    ensures
        locker.try_lock_instance_id(consumer_group_id, consumer_id).1 is Ok,
        locker.try_lock_instance_id(consumer_group_id, consumer_id).0.is_held(
            consumer_group_id,
            consumer_id,
        ),
{
    let held = locker.try_lock_instance_id(consumer_group_id, consumer_id).0;
    let last = held.locks.len() - 1;
    assert(held.locks[last].consumer_group_id == consumer_group_id);
}

/// Tokens rise strictly: a token is higher than the revision before it,
/// so higher than every token and every lease given before; and a lock
/// that is taken later than a token has a lease, and tokens, above it.
pub proof fn law_tokens_rise(
    locker: LockerView,
    first: LockView,
    second: LockView,
    consumer_group_id: ConsumerGroupId,
    consumer_id: Seq<char>,
)
    ensures
        ({
            let one = locker.generate_fencing_token(first);
            let two = one.0.generate_fencing_token(second);
            let taken = one.0.try_lock_instance_id(consumer_group_id, consumer_id);
            &&& one.1 matches Ok(token) ==> token > locker.revision && one.0.revision == token
            &&& one.0.revision >= locker.revision
            &&& one.1 is Ok && two.1 is Ok ==> one.1->Ok_0 < two.1->Ok_0
            &&& one.1 is Ok && taken.1 is Ok ==> one.1->Ok_0 < taken.1->Ok_0.lease
        }),
{
}

} // verus!
