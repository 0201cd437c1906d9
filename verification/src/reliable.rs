//! The reliable-messaging sublayer: sequence-numbered messages, acks,
//! and a receiver that delivers in order, buffering what arrives early
//! and acknowledging duplicates without re-delivering them.

use vstd::prelude::*;
use std::collections::HashMap;

verus! {

broadcast use vstd::std_specs::hash::group_hash_axioms;

#[derive(Debug, Clone)]
pub struct ReliableMessage {
    pub id: String,
    pub sequence: u64,
    pub payload: String,
    pub timestamp: u64,
}

#[derive(Debug, Clone)]
pub struct MessageAck {
    pub message_id: String,
}

/// A sent message awaiting its ack.
#[derive(Debug)]
pub struct PendingMessage {
    pub message: ReliableMessage,
    pub send_time: u64,
    pub retry_count: u32,
}

/// Wraps a payload for reliable delivery under the given identity,
/// sequence number and timestamp.
pub fn create_reliable_message(payload: String, id: String, sequence: u64, timestamp: u64) -> (r:
    ReliableMessage)
    ensures
        r.payload == payload,
        r.id == id,
        r.sequence == sequence,
        r.timestamp == timestamp,
{
    ReliableMessage { id, sequence, payload, timestamp }
}

/// Tracks the next expected sequence number and buffers messages that
/// arrive ahead of it.
#[derive(Debug)]
pub struct MessageReceiver {
    expected_sequence: u64,
    message_buffer: HashMap<u64, ReliableMessage>,
}

impl MessageReceiver {
    /// The next sequence number to deliver.
    pub closed spec fn expected(&self) -> u64 {
        self.expected_sequence
    }

    /// The buffered out-of-order messages, by sequence number.
    pub closed spec fn buffer(&self) -> Map<u64, ReliableMessage> {
        self.message_buffer@
    }

    /// Only future, representable sequence numbers sit in the buffer.
    pub closed spec fn wf(&self) -> bool {
        forall|k: u64| #[trigger] self.message_buffer@.dom().contains(k) ==> k
            > self.expected_sequence && k < u64::MAX
    }

    pub fn new() -> (r: MessageReceiver)
        ensures
            r.expected() == 1,
            r.buffer() == Map::<u64, ReliableMessage>::empty(),
            r.wf(),
    {
        MessageReceiver { expected_sequence: 1, message_buffer: HashMap::new() }
    }

    /// Takes one arriving message. Every arrival is acknowledged under
    /// its own id. An old sequence is dropped; the expected sequence is
    /// delivered together with every consecutively buffered successor;
    /// a future sequence is buffered for later.
    pub fn receive_message(&mut self, message: ReliableMessage) -> (r: (
        MessageAck,
        Vec<ReliableMessage>,
    ))
        requires
            old(self).wf(),
            message.sequence < u64::MAX,
        ensures
            final(self).wf(),
            r.0.message_id == message.id,
            message.sequence < old(self).expected() ==> *final(self) == *old(self) && r.1@.len()
                == 0,
            message.sequence == old(self).expected() ==> {
                &&& r.1@.len() >= 1
                &&& r.1@[0] == message
                &&& final(self).expected() == old(self).expected() + r.1@.len()
                &&& forall|i: int|
                    #![trigger r.1@[i]]
                    #![trigger (old(self).expected() + i) as u64]
                    1 <= i < r.1@.len() ==> old(self).buffer().dom().contains(
                        (old(self).expected() + i) as u64,
                    ) && r.1@[i] == old(self).buffer()[(old(self).expected() + i) as u64]
                &&& !final(self).buffer().dom().contains(final(self).expected())
                &&& forall|k: u64| #[trigger] final(self).buffer().dom().contains(k) ==> old(
                    self,
                ).buffer().dom().contains(k) && final(self).buffer()[k] == old(self).buffer()[k]
            },
            message.sequence > old(self).expected() ==> {
                &&& final(self).expected() == old(self).expected()
                &&& final(self).buffer() == old(self).buffer().insert(message.sequence, message)
                &&& r.1@.len() == 0
            },
    {
        let ack = MessageAck { message_id: message.id.clone() };
        if message.sequence < self.expected_sequence {
            return (ack, Vec::new());
        }
        if message.sequence == self.expected_sequence {
            let ghost first_message = message;
            let mut to_process: Vec<ReliableMessage> = Vec::new();
            to_process.push(message);
            self.expected_sequence = self.expected_sequence + 1;
            let mut draining = true;
            while draining
                invariant
                    old(self).wf(),
                    to_process@.len() >= 1,
                    to_process@[0] == first_message,
                    first_message.sequence == old(self).expected(),
                    self.expected_sequence == old(self).expected() + to_process@.len(),
                    self.expected_sequence <= u64::MAX,
                    forall|k: u64| #[trigger] self.message_buffer@.dom().contains(k) ==> k
                        >= self.expected_sequence,
                    forall|i: int|
                        #![trigger to_process@[i]]
                        #![trigger (old(self).expected() + i) as u64]
                        1 <= i < to_process@.len() ==> old(self).buffer().dom().contains(
                            (old(self).expected() + i) as u64,
                        ) && to_process@[i] == old(self).buffer()[(old(self).expected()
                            + i) as u64],
                    forall|k: u64| #[trigger] self.message_buffer@.dom().contains(k) ==> old(
                        self,
                    ).buffer().dom().contains(k) && self.message_buffer@[k] == old(self).buffer()[k]
                        && k > old(self).expected(),
                    forall|k: u64|
                        #[trigger] old(self).buffer().dom().contains(k) && k
                            >= self.expected_sequence ==> self.message_buffer@.dom().contains(k),
                    !draining ==> !self.message_buffer@.dom().contains(self.expected_sequence),
                decreases
                        old(self).buffer().dom().len() + 1 - to_process@.len(),
                        (if draining {
                            1int
                        } else {
                            0int
                        }),
            {
                proof {
                    assert(old(self).buffer().dom().finite());
                    assert forall|i: int|
                        1 <= i < to_process@.len() implies old(self).buffer().dom().contains(
                            #[trigger] ((old(self).expected() + i) as u64),
                        ) by {
                        assert(to_process@[i] == old(self).buffer()[(old(self).expected()
                            + i) as u64]);
                    }
                    lemma_buffer_len_bound(
                        old(self).buffer(),
                        old(self).expected(),
                        to_process@.len() as int,
                    );
                }
                let ghost pre_expected = self.expected_sequence;
                let ghost pre_len = to_process@.len();
                match self.message_buffer.remove(&self.expected_sequence) {
                    Some(buffered) => {
                        to_process.push(buffered);
                        proof {
                            assert(to_process@[pre_len as int] == buffered);
                            assert((old(self).expected() + pre_len) as u64 == pre_expected);
                            assert(old(self).buffer().dom().contains(pre_expected));
                            assert(buffered == old(self).buffer()[pre_expected]);
                            assert forall|i: int|
                                1 <= i < to_process@.len() implies old(
                                self,
                            ).buffer().dom().contains(
                                #[trigger] ((old(self).expected() + i) as u64),
                            ) by {
                                assert(to_process@[i] == old(self).buffer()[(old(self).expected()
                                    + i) as u64]);
                            }
                            lemma_buffer_len_bound(
                                old(self).buffer(),
                                old(self).expected(),
                                to_process@.len() as int,
                            );
                        }
                        self.expected_sequence = self.expected_sequence + 1;
                    },
                    None => {
                        draining = false;
                    },
                }
            }
            return (ack, to_process);
        }
        self.message_buffer.insert(message.sequence, message);
        (ack, Vec::new())
    }
}

/// If the sequence numbers `expected+1 .. expected+taken-1` all sit in a
/// finite buffer, `taken` cannot exceed the buffer's size by more than
/// one.
proof fn lemma_buffer_len_bound(buffer: Map<u64, ReliableMessage>, expected: u64, taken: int)
    requires
        buffer.dom().finite(),
        taken >= 1,
        expected + taken <= u64::MAX,
        forall|i: int|
            1 <= i < taken ==> buffer.dom().contains(#[trigger] ((expected + i) as u64)),
    ensures
        taken <= buffer.dom().len() + 1,
{
    let taken_keys = Set::new(|k: u64| expected < k < expected + taken);
    assert(taken_keys.subset_of(buffer.dom())) by {
        assert forall|k: u64| #[trigger] taken_keys.contains(k) implies buffer.dom().contains(
            k,
        ) by {
            let i = k - expected;
            assert(buffer.dom().contains((expected + i) as u64));
        }
    }
    lemma_interval_len(expected, taken);
    vstd::set_lib::lemma_len_subset(taken_keys, buffer.dom());
}

/// The set of `u64` values strictly between `expected` and
/// `expected + taken` has `taken - 1` elements.
proof fn lemma_interval_len(expected: u64, taken: int)
    requires
        taken >= 1,
        expected + taken <= u64::MAX,
    ensures
        Set::new(|k: u64| expected < k < expected + taken).finite(),
        Set::new(|k: u64| expected < k < expected + taken).len() == taken - 1,
    decreases taken,
{
    if taken == 1 {
        assert(Set::new(|k: u64| expected < k < expected + 1) =~= Set::<u64>::empty());
    } else {
        lemma_interval_len(expected, taken - 1);
        assert(Set::new(|k: u64| expected < k < expected + taken) =~= Set::new(
            |k: u64| expected < k < expected + taken - 1,
        ).insert((expected + taken - 1) as u64));
    }
}

} // verus!
