//! Typed broadcast registry with a closed set of channels.
//!
//! Rather than a runtime-type-keyed map of erased subscriber lists, the
//! registry keeps one explicit topic per message channel.  Subscribers are
//! known by a `ReceiverIdentity`; delivering a message means asking the
//! registry, through the message's own channel, which receivers to hand it
//! to — the transport that does the handing lives with the application
//! shell.

use vstd::prelude::*;

use crate::frame::MpptFrame;

verus! {

/// Opaque handle a subscriber is known by.
#[derive(Clone, Copy, Debug, PartialEq, Eq, Structural)]
pub struct ReceiverIdentity(pub usize);

/// The closed set of broadcast channels.
#[derive(Clone, Copy, Debug, PartialEq, Eq, Structural)]
pub enum Channel {
    /// Solar telemetry frames.
    Solar,
    /// Wall-clock ticks.
    Datetime,
}

/// A message kind that the registry can route: each carries one fixed
/// channel.
pub trait BroadcastMessage {
    /// The channel this message kind travels on.
    spec fn spec_channel() -> Channel;

    /// Executable accessor for the channel.
    fn channel() -> (c: Channel)
        ensures
            c == Self::spec_channel(),
    ;
}

impl BroadcastMessage for MpptFrame {
    open spec fn spec_channel() -> Channel {
        Channel::Solar
    }

    fn channel() -> (c: Channel)
        ensures
            c == Self::spec_channel(),
    {
        Channel::Solar
    }
}

/// A wall-clock tick, in milliseconds since the epoch.
#[derive(Clone, Copy, Debug, PartialEq, Eq, Structural)]
pub struct DatetimeTick(pub u64);

impl BroadcastMessage for DatetimeTick {
    open spec fn spec_channel() -> Channel {
        Channel::Datetime
    }

    fn channel() -> (c: Channel)
        ensures
            c == Self::spec_channel(),
    {
        Channel::Datetime
    }
}

/// The subscribers of one channel, in joining order.
pub struct Topic {
    recipients: Vec<ReceiverIdentity>,
}

impl View for Topic {
    type V = Seq<ReceiverIdentity>;

    closed spec fn view(&self) -> Seq<ReceiverIdentity> {
        self.recipients@
    }
}

impl Topic {
    /// A topic nobody has joined yet.
    pub fn new() -> (t: Topic)
        ensures
            t@ == Seq::<ReceiverIdentity>::empty(),
    {
        Topic { recipients: Vec::new() }
    }

    /// Adds a subscriber at the end.
    pub fn join(&mut self, recipient: ReceiverIdentity)
        ensures
            final(self)@ == old(self)@.push(recipient),
    {
        self.recipients.push(recipient);
    }

    /// Removes every occurrence of a subscriber, keeping the others in
    /// order.
    #[verifier::loop_isolation(false)]
    pub fn leave(&mut self, recipient: ReceiverIdentity)
        ensures
            final(self)@ == old(self)@.filter(|x: ReceiverIdentity| x != recipient),
    {
        let ghost orig = self.recipients@;
        let ghost pred = |x: ReceiverIdentity| x != recipient;
        let mut kept: Vec<ReceiverIdentity> = Vec::new();
        let mut i: usize = 0;
        proof {
            reveal_with_fuel(Seq::<_>::filter, 3);
            assert(orig.take(0) =~= Seq::<ReceiverIdentity>::empty());
            assert(Seq::<ReceiverIdentity>::empty().filter(pred)
                =~= Seq::<ReceiverIdentity>::empty());
        }
        while i < self.recipients.len()
            invariant
                i <= orig.len(),
                self.recipients@ == orig,
                kept@ == orig.take(i as int).filter(pred),
            decreases orig.len() - i,
        {
            let x = self.recipients[i];
            if !(x == recipient) {
                kept.push(x);
            }
            proof {
                reveal_with_fuel(Seq::<_>::filter, 3);
                let one = seq![orig[i as int]];
                assert(orig.take(i + 1) =~= orig.take(i as int) + one);
                Seq::<ReceiverIdentity>::filter_distributes_over_add(
                    orig.take(i as int),
                    one,
                    pred,
                );
                assert(one.drop_last() =~= Seq::<ReceiverIdentity>::empty());
                assert(Seq::<ReceiverIdentity>::empty().filter(pred)
                    =~= Seq::<ReceiverIdentity>::empty());
                let base = orig.take(i as int).filter(pred);
                assert(orig.take(i + 1).filter(pred) == base + one.filter(pred));
                if pred(orig[i as int]) {
                    assert(one.filter(pred) =~= seq![orig[i as int]]);
                    assert(base + one.filter(pred) =~= base.push(orig[i as int]));
                } else {
                    assert(one.filter(pred) =~= Seq::<ReceiverIdentity>::empty());
                    assert(base + one.filter(pred) =~= base);
                }
            }
            i = i + 1;
        }
        proof {
            assert(orig.take(orig.len() as int) =~= orig);
        }
        self.recipients = kept;
    }

    /// The subscribers a message on this topic goes to.
    pub fn recipients(&self) -> (r: &Vec<ReceiverIdentity>)
        ensures
            r@ == self@,
    {
        &self.recipients
    }
}

impl Default for Topic {
    /// Same as `Topic::new`.
    fn default() -> (t: Topic)
        ensures
            t@ == Seq::<ReceiverIdentity>::empty(),
    {
        Topic::new()
    }
}

/// The registry: one topic per channel of the closed set.
pub struct Broadcast {
    pub solar: Topic,
    pub datetime: Topic,
}

impl Broadcast {
    /// The topic a channel's messages travel on.
    pub open spec fn spec_topic(&self, c: Channel) -> Seq<ReceiverIdentity> {
        match c {
            Channel::Solar => self.solar@,
            Channel::Datetime => self.datetime@,
        }
    }

    /// A registry with no subscribers anywhere.
    pub fn new() -> (b: Broadcast)
        ensures
            b.spec_topic(Channel::Solar) == Seq::<ReceiverIdentity>::empty(),
            b.spec_topic(Channel::Datetime) == Seq::<ReceiverIdentity>::empty(),
    {
        Broadcast { solar: Topic::new(), datetime: Topic::new() }
    }

    /// Subscribes `recipient` to the channel messages of kind `M` travel
    /// on; other channels are untouched.
    pub fn join<M: BroadcastMessage>(&mut self, recipient: ReceiverIdentity)
        ensures
            final(self).spec_topic(M::spec_channel()) == old(self).spec_topic(
                M::spec_channel(),
            ).push(recipient),
            forall|c: Channel|
                c != M::spec_channel() ==> #[trigger] final(self).spec_topic(c) == old(
                    self,
                ).spec_topic(c),
    {
        match M::channel() {
            Channel::Solar => self.solar.join(recipient),
            Channel::Datetime => self.datetime.join(recipient),
        }
    }

    /// Unsubscribes `recipient` from the channel messages of kind `M`
    /// travel on; other channels are untouched.
    pub fn leave<M: BroadcastMessage>(&mut self, recipient: ReceiverIdentity)
        ensures
            final(self).spec_topic(M::spec_channel()) == old(self).spec_topic(
                M::spec_channel(),
            ).filter(|x: ReceiverIdentity| x != recipient),
            forall|c: Channel|
                c != M::spec_channel() ==> #[trigger] final(self).spec_topic(c) == old(
                    self,
                ).spec_topic(c),
    {
        match M::channel() {
            Channel::Solar => self.solar.leave(recipient),
            Channel::Datetime => self.datetime.leave(recipient),
        }
    }

    /// The subscribers a message must be delivered to, in joining order.
    /// The caller hands `msg` to each of them.
    pub fn send<M: BroadcastMessage>(&self, msg: &M) -> (r: &Vec<ReceiverIdentity>)
        ensures
            r@ == self.spec_topic(M::spec_channel()),
    {
        let _ = msg;
        match M::channel() {
            Channel::Solar => self.solar.recipients(),
            Channel::Datetime => self.datetime.recipients(),
        }
    }
}

impl Default for Broadcast {
    /// Same as `Broadcast::new`.
    fn default() -> (b: Broadcast)
        ensures
            b.spec_topic(Channel::Solar) == Seq::<ReceiverIdentity>::empty(),
            b.spec_topic(Channel::Datetime) == Seq::<ReceiverIdentity>::empty(),
    {
        Broadcast::new()
    }
}

} // verus!
