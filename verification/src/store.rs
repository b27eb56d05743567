//! Message stores: where the session keeps its sequence numbers and the
//! messages it has sent, for resending.
use vstd::prelude::*;

pub mod file_format;
pub mod in_memory;

verus! {

/// Why a store operation failed.
#[derive(Debug, Clone, PartialEq, Eq)]
pub enum StoreError {
    /// The message with this sequence number could not be persisted.
    PersistMessage { sequence_number: u64, reason: String },
    /// Stored messages could not be read back.
    Retrieve(String),
    /// A sequence number could not be updated.
    SequenceNumber(String),
    /// The store could not be reset.
    Reset(String),
    /// The store's creation time could not be read.
    CreationTime(String),
}


/// Where a session keeps its sequence numbers, its creation time and the
/// messages it has sent. Sequence numbers count from 1; `next_*` is the number
/// the next message in that direction carries.
///
/// What the methods ensure binds a store whose `spec_obeys` is true: a verified
/// implementation defines the spec functions and sets it. An implementation
/// written outside verified code keeps the defaults, under which no method
/// promises anything, and the session's guarantees do not extend to it.
pub trait MessageStore {
    /// Whether this store keeps the contract the methods state.
    open spec fn spec_obeys(&self) -> bool {
        false
    }

    open spec fn spec_next_sender(&self) -> u64 {
        0
    }

    open spec fn spec_next_target(&self) -> u64 {
        0
    }

    /// Seconds since the epoch at which the store was created or last reset.
    open spec fn spec_creation_time(&self) -> i64 {
        0
    }

    /// Whether every operation of the store succeeds, as those of a store held
    /// in memory do.
    open spec fn spec_never_fails(&self) -> bool {
        false
    }

    /// The stored messages whose sequence numbers lie in `begin..=end`, in order.
    open spec fn spec_slice(&self, begin: u64, end: u64) -> Seq<Seq<u8>> {
        Seq::empty()
    }

    /// Stores the message sent with `sequence_number`: every later read of a range
    /// that holds the number gives it back, after what was stored before.
    fn add(&mut self, sequence_number: u64, message: &[u8]) -> (r: Result<(), StoreError>)
        ensures
            final(self).spec_obeys() == old(self).spec_obeys(),
            old(self).spec_obeys() ==> {
                &&& old(self).spec_never_fails() ==> r is Ok
                &&& final(self).spec_never_fails() == old(self).spec_never_fails()
                &&& r is Ok ==> forall|b: u64, e: u64|
                    #[trigger] final(self).spec_slice(b, e) == if b <= sequence_number <= e {
                        old(self).spec_slice(b, e).push(message@)
                    } else {
                        old(self).spec_slice(b, e)
                    }
                &&& final(self).spec_next_sender() == old(self).spec_next_sender()
                &&& final(self).spec_next_target() == old(self).spec_next_target()
                &&& final(self).spec_creation_time() == old(self).spec_creation_time()
            },
    ;

    fn get_slice(&self, begin: u64, end: u64) -> (r: Result<Vec<Vec<u8>>, StoreError>)
        ensures
            self.spec_obeys() ==> {
                &&& self.spec_never_fails() ==> r is Ok
                &&& r matches Ok(v) ==> v.deep_view() == self.spec_slice(begin, end)
            },
    ;

    fn next_sender_seq_number(&self) -> (r: u64)
        ensures
            self.spec_obeys() ==> r == self.spec_next_sender(),
    ;

    fn next_target_seq_number(&self) -> (r: u64)
        ensures
            self.spec_obeys() ==> r == self.spec_next_target(),
    ;

    fn increment_sender_seq_number(&mut self) -> (r: Result<(), StoreError>)
        requires
            old(self).spec_obeys() ==> old(self).spec_next_sender() < u64::MAX,
        ensures
            final(self).spec_obeys() == old(self).spec_obeys(),
            old(self).spec_obeys() ==> {
                &&& old(self).spec_never_fails() ==> r is Ok
                &&& final(self).spec_never_fails() == old(self).spec_never_fails()
                &&& r is Ok ==> final(self).spec_next_sender() == old(self).spec_next_sender() + 1
                &&& final(self).spec_next_target() == old(self).spec_next_target()
                &&& final(self).spec_creation_time() == old(self).spec_creation_time()
                &&& forall|b: u64, e: u64| #[trigger] final(self).spec_slice(b, e) == old(self).spec_slice(b, e)
            },
    ;

    fn increment_target_seq_number(&mut self) -> (r: Result<(), StoreError>)
        requires
            old(self).spec_obeys() ==> old(self).spec_next_target() < u64::MAX,
        ensures
            final(self).spec_obeys() == old(self).spec_obeys(),
            old(self).spec_obeys() ==> {
                &&& old(self).spec_never_fails() ==> r is Ok
                &&& final(self).spec_never_fails() == old(self).spec_never_fails()
                &&& r is Ok ==> final(self).spec_next_target() == old(self).spec_next_target() + 1
                &&& final(self).spec_next_sender() == old(self).spec_next_sender()
                &&& final(self).spec_creation_time() == old(self).spec_creation_time()
                &&& forall|b: u64, e: u64| #[trigger] final(self).spec_slice(b, e) == old(self).spec_slice(b, e)
            },
    ;

    /// Records `seq_number` as the last sequence number received.
    fn set_target_seq_number(&mut self, seq_number: u64) -> (r: Result<(), StoreError>)
        requires
            seq_number < u64::MAX,
        ensures
            final(self).spec_obeys() == old(self).spec_obeys(),
            old(self).spec_obeys() ==> {
                &&& old(self).spec_never_fails() ==> r is Ok
                &&& final(self).spec_never_fails() == old(self).spec_never_fails()
                &&& r is Ok ==> final(self).spec_next_target() == seq_number + 1
                &&& final(self).spec_next_sender() == old(self).spec_next_sender()
                &&& final(self).spec_creation_time() == old(self).spec_creation_time()
                &&& forall|b: u64, e: u64| #[trigger] final(self).spec_slice(b, e) == old(self).spec_slice(b, e)
            },
    ;

    /// Forgets all messages and restarts both sequence numbers at 1, with `now`
    /// (seconds since the epoch) as the new creation time.
    fn reset(&mut self, now: i64) -> (r: Result<(), StoreError>)
        ensures
            final(self).spec_obeys() == old(self).spec_obeys(),
            old(self).spec_obeys() ==> {
                &&& old(self).spec_never_fails() ==> r is Ok
                &&& final(self).spec_never_fails() == old(self).spec_never_fails()
                &&& r is Ok ==> final(self).spec_next_sender() == 1 && final(self).spec_next_target() == 1
                    && final(self).spec_creation_time() == now
                &&& r is Ok ==> forall|b: u64, e: u64| #[trigger] final(self).spec_slice(b, e) == Seq::<Seq<u8>>::empty()
            },
    ;

    fn creation_time(&self) -> (r: i64)
        ensures
            self.spec_obeys() ==> r == self.spec_creation_time(),
    ;
}

} // verus!
