//! The publish path: callers hand a typed event in; it is serialized, its
//! topic resolved, and the envelope queued on an in-process first-in
//! first-out buffer. A background sender (outside this library) drains the
//! buffer toward the broker, so the caller never waits on broker latency and
//! never learns whether delivery succeeded.
use vstd::prelude::*;
use crate::events::{DomainEvent, Envelope, EnvelopeV, KafkaTopic, topic_of};
use crate::codec::{enc_event, encode_event};

verus! {

/// The envelope an event is published as.
pub open spec fn envelope_of(e: crate::events::EventV) -> EnvelopeV {
    EnvelopeV { topic: topic_of(e), payload: enc_event(e) }
}

/// The in-process buffer between publishers and the background sender.
pub struct PublishBuffer {
    queue: Vec<Envelope>,
}

impl View for PublishBuffer {
    type V = Seq<EnvelopeV>;

    closed spec fn view(&self) -> Seq<EnvelopeV> {
        self.queue@.map_values(|e: Envelope| e@)
    }
}

impl PublishBuffer {
    /// An empty buffer.
    pub fn new() -> (r: PublishBuffer)
        ensures
            r@ == Seq::<EnvelopeV>::empty(),
    {
        let r = PublishBuffer { queue: Vec::new() };
        proof {
            assert(r@ =~= Seq::<EnvelopeV>::empty());
        }
        r
    }

    /// How many envelopes are waiting.
    pub fn len(&self) -> (r: usize)
        ensures
            r == self@.len(),
    {
        self.queue.len()
    }

    /// Appends an envelope at the back.
    pub fn enqueue(&mut self, env: Envelope)
        ensures
            final(self)@ == old(self)@.push(env@),
    {
        let ghost before = self.queue@;
        self.queue.push(env);
        proof {
            assert(self@ =~= before.map_values(|e: Envelope| e@).push(env@));
        }
    }

    /// Removes and returns the oldest envelope; `None` leaves an empty
    /// buffer unchanged. Together with `enqueue` this makes the buffer a
    /// queue: envelopes leave in the order they entered.
    pub fn take_next(&mut self) -> (r: Option<Envelope>)
        ensures
            old(self)@.len() == 0 ==> r is None && final(self)@ == old(self)@,
            old(self)@.len() > 0 ==> (r matches Some(env) && env@ == old(self)@[0] && final(self)@
                == old(self)@.skip(1)),
    {
        if self.queue.len() == 0 {
            None
        } else {
            let ghost before = self.queue@;
            let env = self.queue.remove(0);
            proof {
                assert(self@ =~= before.map_values(|e: Envelope| e@).skip(1));
            }
            Some(env)
        }
    }
}

/// Serializes the event, resolves its topic, and enqueues the envelope.
/// This is the whole synchronous half of publishing: it always succeeds and
/// says nothing about delivery.
pub fn push_to_broker(buffer: &mut PublishBuffer, event: &DomainEvent)
    ensures
        final(buffer)@ == old(buffer)@.push(envelope_of(event@)),
{
    let payload = encode_event(event);
    let topic = event.topic_name();
    buffer.enqueue(Envelope { topic, payload });
}

} // verus!
