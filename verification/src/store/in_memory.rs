//! An in-memory message store that loses its state on restart.
use vstd::prelude::*;

use crate::decimal::copy_bytes;
use crate::store::{MessageStore, StoreError};

verus! {

/// The messages of `entries` whose sequence numbers lie in `begin..=end`, in order.
pub open spec fn entries_in_range(entries: Seq<(u64, Seq<u8>)>, begin: u64, end: u64) -> Seq<Seq<u8>>
    decreases entries.len(),
{
    if entries.len() == 0 {
        seq![]
    } else {
        let rest = entries_in_range(entries.drop_last(), begin, end);
        let (seq_num, msg) = entries.last();
        if begin <= seq_num && seq_num <= end {
            rest.push(msg)
        } else {
            rest
        }
    }
}

/// One stored message.
pub struct StoredMessage {
    pub sequence_number: u64,
    pub message: Vec<u8>,
}

/// A message store held in memory: for tests, and for sessions that need not
/// survive a restart.
pub struct InMemoryMessageStore {
    sender_seq_number: u64,
    target_seq_number: u64,
    creation_time: i64,
    messages: Vec<StoredMessage>,
}

impl InMemoryMessageStore {
    /// The stored messages, in the order they were added, with their sequence numbers.
    pub closed spec fn entries(&self) -> Seq<(u64, Seq<u8>)> {
        self.messages@.map_values(|m: StoredMessage| (m.sequence_number, m.message@))
    }

    /// Sequence numbers stay below the largest `u64`.
    #[verifier::type_invariant]
    spec fn wf(&self) -> bool {
        self.sender_seq_number < u64::MAX && self.target_seq_number < u64::MAX
    }

    /// An empty store created at `now` (seconds since the epoch).
    pub fn new(now: i64) -> (r: Self)
        ensures
            r.spec_next_sender() == 1,
            r.spec_next_target() == 1,
            r.spec_creation_time() == now,
            r.entries().len() == 0,
    {
        let r = InMemoryMessageStore {
            sender_seq_number: 0,
            target_seq_number: 0,
            creation_time: now,
            messages: Vec::new(),
        };
        assert(r.entries() =~= Seq::<(u64, Seq<u8>)>::empty());
        r
    }

    /// An empty store created now.
    pub fn default() -> (r: Self)
        ensures
            r.spec_next_sender() == 1,
            r.spec_next_target() == 1,
            r.entries().len() == 0,
    {
        let now = crate::clock::utc_now_millis() / 1000;
        Self::new(now)
    }
}

impl MessageStore for InMemoryMessageStore {
    /// A store held in memory keeps the contract.
    open spec fn spec_obeys(&self) -> bool {
        true
    }

    closed spec fn spec_next_sender(&self) -> u64 {
        (self.sender_seq_number + 1) as u64
    }

    closed spec fn spec_next_target(&self) -> u64 {
        (self.target_seq_number + 1) as u64
    }

    closed spec fn spec_creation_time(&self) -> i64 {
        self.creation_time
    }

    /// Every operation of a store held in memory succeeds.
    open spec fn spec_never_fails(&self) -> bool {
        true
    }

    closed spec fn spec_slice(&self, begin: u64, end: u64) -> Seq<Seq<u8>> {
        entries_in_range(self.entries(), begin, end)
    }

    fn add(&mut self, sequence_number: u64, message: &[u8]) -> (r: Result<(), StoreError>) {
        proof {
            use_type_invariant(&*self);
        }
        let ghost old_entries = self.entries();
        let mut messages: Vec<StoredMessage> = Vec::new();
        std::mem::swap(&mut messages, &mut self.messages);
        messages.push(StoredMessage { sequence_number, message: copy_bytes(message) });
        self.messages = messages;
        proof {
            assert(self.entries() =~= old_entries.push((sequence_number, message@)));
            assert(self.entries().drop_last() =~= old_entries);
            assert forall|b: u64, e: u64|
                #[trigger] entries_in_range(self.entries(), b, e) == if b <= sequence_number <= e {
                    entries_in_range(old_entries, b, e).push(message@)
                } else {
                    entries_in_range(old_entries, b, e)
                } by {
                assert(self.entries().last() == (sequence_number, message@));
            }
        }
        Ok(())
    }

    fn get_slice(&self, begin: u64, end: u64) -> (r: Result<Vec<Vec<u8>>, StoreError>) {
        let mut out: Vec<Vec<u8>> = Vec::new();
        let mut i: usize = 0;
        let ghost entries = self.entries();
        while i < self.messages.len()
            invariant
                0 <= i <= self.messages.len(),
                entries == self.entries(),
                entries.len() == self.messages@.len(),
                out.deep_view() == entries_in_range(entries.subrange(0, i as int), begin, end),
            decreases self.messages.len() - i,
        {
            let m = &self.messages[i];
            proof {
                let p = entries.subrange(0, i as int + 1);
                assert(p.drop_last() =~= entries.subrange(0, i as int));
                assert(p.last() == entries[i as int]);
            }
            if begin <= m.sequence_number && m.sequence_number <= end {
                let ghost before = out.deep_view();
                let c = copy_bytes(m.message.as_slice());
                assert(c.deep_view() =~= c@);
                out.push(c);
                assert(out.deep_view() =~= before.push(m.message@));
            }
            i = i + 1;
        }
        assert(entries.subrange(0, self.messages.len() as int) =~= entries);
        Ok(out)
    }

    fn next_sender_seq_number(&self) -> (r: u64) {
        proof {
            use_type_invariant(self);
        }
        self.sender_seq_number + 1
    }

    fn next_target_seq_number(&self) -> (r: u64) {
        proof {
            use_type_invariant(self);
        }
        self.target_seq_number + 1
    }

    fn increment_sender_seq_number(&mut self) -> (r: Result<(), StoreError>) {
        proof {
            use_type_invariant(&*self);
        }
        self.sender_seq_number = self.sender_seq_number + 1;
        Ok(())
    }

    fn increment_target_seq_number(&mut self) -> (r: Result<(), StoreError>) {
        proof {
            use_type_invariant(&*self);
        }
        self.target_seq_number = self.target_seq_number + 1;
        Ok(())
    }

    fn set_target_seq_number(&mut self, seq_number: u64) -> (r: Result<(), StoreError>) {
        proof {
            use_type_invariant(&*self);
        }
        self.target_seq_number = seq_number;
        Ok(())
    }

    fn reset(&mut self, now: i64) -> (r: Result<(), StoreError>) {
        proof {
            use_type_invariant(&*self);
        }
        self.sender_seq_number = 0;
        self.target_seq_number = 0;
        self.messages = Vec::new();
        self.creation_time = now;
        assert(self.entries() =~= Seq::<(u64, Seq<u8>)>::empty());
        Ok(())
    }

    fn creation_time(&self) -> (r: i64) {
        self.creation_time
    }
}

} // verus!
