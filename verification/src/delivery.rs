//! The two ways the publisher hands updates out: the watch channel and the
//! subscribers. Each keeps the record of every call made through it; the record
//! can only grow by such a call, because the outside object is private to its type.

use vstd::prelude::*;
use std::sync::Arc;

use tokio::sync::watch::Sender;

use crate::config::Config;
use crate::traits::ConfigUpdateSubscriber;

verus! {

/// Whether `update(env, config)` is being called by `SubscriberList::tell`. Verified
/// code never is, so it holds of no call that Verus checks; `tell`, whose body is
/// trusted, is the only caller of `update`.
pub closed spec fn told_through_list(env: Seq<char>, config: Arc<Config>) -> bool {
    false
}

/// The sending half of the watch channel, with the record of every pair sent on it.
pub struct WatchChannel {
    sender: Sender<(String, Arc<Config>)>,
    sent: Ghost<Seq<(Seq<char>, Arc<Config>)>>,
}

impl WatchChannel {
    /// Every pair sent on the channel through this value, oldest first.
    pub closed spec fn sent(&self) -> Seq<(Seq<char>, Arc<Config>)> {
        self.sent@
    }

    /// Takes over the sending half of a channel; nothing has been sent through it yet.
    pub fn new(sender: Sender<(String, Arc<Config>)>) -> (c: WatchChannel)
        ensures
            c.sent() == Seq::<(Seq<char>, Arc<Config>)>::empty(),
    {
        WatchChannel { sender, sent: Ghost(Seq::empty()) }
    }

    /// Calls `tokio::sync::watch::Sender::send` with `(env, config)` and drops its
    /// result, and adds the pair to the record. Whether a receiver is still alive to
    /// see it is up to the rest of the program, so nothing is claimed about that.
    /// `send` does not panic.
    #[verifier::external_body]
    pub(crate) fn send(&mut self, env: String, config: Arc<Config>)
        ensures
            final(self).sent() == old(self).sent().push((env@, config)),
    {
        self.sent = Ghost(self.sent@.push((env@, config)));
        let _ = self.sender.send((env, config));
    }
}

/// The subscribers in the order they subscribed, with the record of every call of
/// their `update` made through this list.
pub struct SubscriberList<S: ?Sized + ConfigUpdateSubscriber> {
    subscribers: Vec<Arc<S>>,
    told: Ghost<Seq<(nat, Seq<char>, Arc<Config>)>>,
}

impl<S: ?Sized + ConfigUpdateSubscriber> SubscriberList<S> {
    /// The subscribers, in subscription order.
    pub closed spec fn members(&self) -> Seq<Arc<S>> {
        self.subscribers@
    }

    /// Every `update` call made through the list, oldest first: the position of the
    /// subscriber called, and the environment and configuration it was handed.
    pub closed spec fn told(&self) -> Seq<(nat, Seq<char>, Arc<Config>)> {
        self.told@
    }

    /// A list without subscribers, through which nothing has been told.
    pub fn new() -> (l: Self)
        ensures
            l.members() == Seq::<Arc<S>>::empty(),
            l.told() == Seq::<(nat, Seq<char>, Arc<Config>)>::empty(),
    {
        SubscriberList { subscribers: Vec::new(), told: Ghost(Seq::empty()) }
    }

    /// Adds a subscriber at the end; nobody is told anything.
    pub fn add(&mut self, subscriber: Arc<S>)
        ensures
            final(self).members() == old(self).members().push(subscriber),
            final(self).told() == old(self).told(),
    {
        self.subscribers.push(subscriber);
    }

    /// The number of subscribers.
    pub fn len(&self) -> (n: usize)
        ensures
            n == self.members().len(),
    {
        self.subscribers.len()
    }

    /// Calls `update(env, config)` on the subscriber at position `index` and adds the
    /// call to the record. What the subscriber does with it is its own affair.
    #[verifier::external_body]
    pub(crate) fn tell(&mut self, index: usize, env: String, config: Arc<Config>)
        requires
            index < old(self).members().len(),
        ensures
            final(self).members() == old(self).members(),
            final(self).told() == old(self).told().push((index as nat, env@, config)),
    {
        self.told = Ghost(self.told@.push((index as nat, env@, config)));
        self.subscribers[index].update(env, config);
    }
}

} // verus!
