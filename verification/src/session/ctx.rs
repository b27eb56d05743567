//! What the session's handlers share: the configuration, the store and the
//! application, and the preparation of outbound messages.
use vstd::prelude::*;

use crate::timestamp::fix_timestamp_text;
use crate::config::SessionConfig;
use crate::message::{generate_message_at, spec_build, spec_encode, OutboundMessage};
use crate::session::error::InternalSendError;
use crate::store::{MessageStore, StoreError};
use crate::transport::{actions, lemma_actions_push, WriterAction, WriterMessage};

verus! {

/// A reading of the two clocks the session works with.
#[derive(Clone, Copy, Debug, PartialEq, Eq, Structural)]
pub struct Moment {
    /// Milliseconds since the Unix epoch, UTC: for SendingTime, the schedule
    /// and the store's creation time.
    pub utc_millis: i64,
    /// Milliseconds on the monotonic clock the session's deadlines are kept on.
    pub monotonic_millis: u64,
}

/// The configuration, the store and the application of a session.
pub struct SessionCtx<A, S> {
    pub config: SessionConfig,
    pub store: S,
    pub application: A,
}

/// A message ready for the writer: its sequence number and its encoding.
pub struct PreparedMessage {
    pub seq_num: u64,
    pub raw: Vec<u8>,
}

/// The bytes of `message` sent with sequence number `seq_num` at `utc_now`
/// (milliseconds since the epoch) under `config`.
pub open spec fn spec_outbound_bytes<M: OutboundMessage>(
    config: SessionConfig,
    seq_num: u64,
    utc_now: i64,
    message: M,
) -> Seq<u8> {
    spec_encode(
        spec_build(
            config.begin_string@,
            config.sender_comp_id@,
            config.target_comp_id@,
            seq_num,
            fix_timestamp_text(utc_now)->0,
            message,
        ),
    )
}

/// `after` is `before` with `raw` stored under `seq_num`.
pub open spec fn stored_after<S: MessageStore>(before: S, after: S, seq_num: u64, raw: Seq<u8>) -> bool {
    forall|b: u64, e: u64|
        #[trigger] after.spec_slice(b, e) == if b <= seq_num <= e {
            before.spec_slice(b, e).push(raw)
        } else {
            before.spec_slice(b, e)
        }
}

/// What preparing `message` at `utc_now` does when it succeeds with `p`: the
/// message takes the next sender sequence number, is encoded with the current
/// time as SendingTime, is stored under that number, and the number advances.
pub open spec fn prepared<S: MessageStore, M: OutboundMessage>(
    before: S,
    after: S,
    config: SessionConfig,
    message: M,
    utc_now: i64,
    seq_num: u64,
    raw: Seq<u8>,
) -> bool {
    &&& seq_num == before.spec_next_sender()
    &&& fix_timestamp_text(utc_now) is Some
    &&& raw == spec_outbound_bytes(config, seq_num, utc_now, message)
    &&& after.spec_next_sender() == seq_num + 1
    &&& after.spec_next_target() == before.spec_next_target()
    &&& after.spec_creation_time() == before.spec_creation_time()
    &&& stored_after(before, after, seq_num, raw)
}

/// Whether a send at `utc_now` fails before it touches the store: the time has no
/// FIX text, or the sender sequence numbers are used up.
pub open spec fn send_blocked<S: MessageStore>(store: S, utc_now: i64) -> bool {
    fix_timestamp_text(utc_now) is None || store.spec_next_sender() == u64::MAX
}

impl<A, S: MessageStore> SessionCtx<A, S> {
    /// Gives `message` the next sender sequence number, encodes it with `utc_now`
    /// as SendingTime, advances the sender sequence number and stores the message.
    pub fn prepare_message<M: OutboundMessage>(&mut self, message: &M, utc_now: i64) -> (r: Result<
        PreparedMessage,
        InternalSendError,
    >)
        requires
            message.spec_obeys(),
            old(self).store.spec_obeys(),
        ensures
            final(self).config == old(self).config,
            final(self).application == old(self).application,
            final(self).store.spec_next_target() == old(self).store.spec_next_target(),
            final(self).store.spec_creation_time() == old(self).store.spec_creation_time(),
            fix_timestamp_text(utc_now) is None ==> (r matches Err(
                InternalSendError::Persist(StoreError::PersistMessage { sequence_number: n, .. }),
            ) && n == old(self).store.spec_next_sender()),
            fix_timestamp_text(utc_now) is Some && old(self).store.spec_next_sender() == u64::MAX
                ==> r matches Err(InternalSendError::SequenceNumber(_)),
            send_blocked(old(self).store, utc_now) ==> final(self).store == old(self).store,
            old(self).store.spec_never_fails() && !send_blocked(old(self).store, utc_now) ==> r is Ok,
            final(self).store.spec_never_fails() == old(self).store.spec_never_fails(),
            final(self).store.spec_obeys() == old(self).store.spec_obeys(),
            r matches Err(InternalSendError::SequenceNumber(_)) ==> forall|b: u64, e: u64|
                #[trigger] final(self).store.spec_slice(b, e) == old(self).store.spec_slice(b, e),
            r matches Err(InternalSendError::Persist(_)) && fix_timestamp_text(utc_now) is Some
                ==> final(self).store.spec_next_sender() == old(self).store.spec_next_sender() + 1,
            r matches Ok(p) ==> prepared(
                old(self).store,
                final(self).store,
                old(self).config,
                *message,
                utc_now,
                p.seq_num,
                p.raw@,
            ),
    {
        let seq_num = self.store.next_sender_seq_number();
        let sending_time = match crate::timestamp::format_timestamp_millis(utc_now) {
            Some(t) => t,
            None => return Err(
                InternalSendError::Persist(
                    StoreError::PersistMessage {
                        sequence_number: seq_num,
                        reason: String::from_str("the sending time has no FIX timestamp"),
                    },
                ),
            ),
        };
        if seq_num == u64::MAX {
            return Err(
                InternalSendError::SequenceNumber(
                    StoreError::SequenceNumber(
                        String::from_str("sender sequence numbers are exhausted"),
                    ),
                ),
            );
        }
        let raw = generate_message_at(
            self.config.begin_string.as_str(),
            self.config.sender_comp_id.as_str(),
            self.config.target_comp_id.as_str(),
            seq_num,
            sending_time,
            message,
        );
        let ghost before = self.store;
        match self.store.increment_sender_seq_number() {
            Err(e) => return Err(InternalSendError::SequenceNumber(e)),
            Ok(()) => {},
        }
        let ghost middle = self.store;
        match self.store.add(seq_num, raw.as_slice()) {
            Err(e) => return Err(InternalSendError::Persist(e)),
            Ok(()) => {},
        }
        assert(stored_after(before, self.store, seq_num, raw@)) by {
            assert forall|b: u64, e: u64|
                #[trigger] self.store.spec_slice(b, e) == if b <= seq_num <= e {
                    before.spec_slice(b, e).push(raw@)
                } else {
                    before.spec_slice(b, e)
                } by {
                assert(middle.spec_slice(b, e) == before.spec_slice(b, e));
            }
        }
        Ok(PreparedMessage { seq_num, raw })
    }

    /// Prepares `message` and hands it straight to the writer.
    pub fn send_message<M: OutboundMessage>(
        &mut self,
        outbox: &mut Vec<WriterMessage>,
        message: &M,
        utc_now: i64,
    ) -> (r: Result<u64, InternalSendError>)
        requires
            message.spec_obeys(),
            old(self).store.spec_obeys(),
        ensures
            final(self).config == old(self).config,
            final(self).application == old(self).application,
            final(self).store.spec_next_target() == old(self).store.spec_next_target(),
            final(self).store.spec_creation_time() == old(self).store.spec_creation_time(),
            fix_timestamp_text(utc_now) is None ==> (r matches Err(
                InternalSendError::Persist(StoreError::PersistMessage { sequence_number: n, .. }),
            ) && n == old(self).store.spec_next_sender()),
            send_blocked(old(self).store, utc_now) ==> final(self).store == old(self).store && r is Err,
            old(self).store.spec_never_fails() && !send_blocked(old(self).store, utc_now) ==> r is Ok,
            final(self).store.spec_never_fails() == old(self).store.spec_never_fails(),
            final(self).store.spec_obeys() == old(self).store.spec_obeys(),
            r matches Err(InternalSendError::SequenceNumber(_)) ==> forall|b: u64, e: u64|
                #[trigger] final(self).store.spec_slice(b, e) == old(self).store.spec_slice(b, e),
            r matches Err(InternalSendError::Persist(_)) && fix_timestamp_text(utc_now) is Some
                ==> final(self).store.spec_next_sender() == old(self).store.spec_next_sender() + 1,
            match r {
                Ok(n) => prepared(
                    old(self).store,
                    final(self).store,
                    old(self).config,
                    *message,
                    utc_now,
                    n,
                    spec_outbound_bytes(old(self).config, n, utc_now, *message),
                ) && actions(final(outbox)@) == actions(old(outbox)@).push(
                    WriterAction::Send(spec_outbound_bytes(old(self).config, n, utc_now, *message)),
                ),
                Err(_) => final(outbox)@ == old(outbox)@,
            },
    {
        match self.prepare_message(message, utc_now) {
            Ok(p) => {
                let PreparedMessage { seq_num, raw } = p;
                proof {
                    lemma_actions_push(outbox@, WriterMessage::SendMessage(raw));
                }
                outbox.push(WriterMessage::SendMessage(raw));
                Ok(seq_num)
            },
            Err(e) => Err(e),
        }
    }
}

} // verus!
