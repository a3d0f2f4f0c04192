//! The publisher: versioned configuration histories per environment, and the
//! notification of subscribers and of the watch channel on every update.

use vstd::prelude::*;
use std::sync::Arc;

use tokio::sync::watch::Sender;

use crate::clock::Clock;
use crate::config::{Config, ConfigError, EnvConfigs};
use crate::delivery::{SubscriberList, WatchChannel};
use crate::external::{clock_now, duration_since_epoch, share_config, subsecond_nanos, whole_seconds};
use crate::keyed::{
    entries_map, keys_distinct, lemma_absent_key, lemma_entry_in_map, lemma_push_new_key,
    lemma_same_keys, lemma_update_entry,
};
use crate::text::{decimal, decimal_string};
use crate::traits::ConfigUpdateSubscriber;

verus! {

/// A point in time: whole seconds since the Unix epoch and the nanoseconds after them.
#[derive(Debug, Clone, Copy, PartialEq, Eq)]
pub struct Timestamp {
    pub secs: u64,
    pub nanos: u32,
}

impl Timestamp {
    /// The time a version is stamped with, from a clock reading: the reading itself,
    /// or the epoch when the clock reads a time before 1970.
    pub fn from_clock_reading(reading: Option<Timestamp>) -> (t: Timestamp)
        ensures
            match reading {
                Some(r) => t == r,
                None => t == (Timestamp { secs: 0, nanos: 0 }),
            },
    {
        match reading {
            Some(r) => r,
            None => Timestamp { secs: 0, nanos: 0 },
        }
    }

    /// The current time, read from the system clock; the epoch when it reads before 1970.
    pub fn now() -> (t: Timestamp)
        ensures
            t.nanos < 1_000_000_000,
    {
        let reading = match duration_since_epoch(&clock_now()) {
            Some(d) => Some(Timestamp { secs: whole_seconds(&d), nanos: subsecond_nanos(&d) }),
            None => None,
        };
        Timestamp::from_clock_reading(reading)
    }
}

/// One version of an environment's configuration.
#[derive(Debug)]
pub struct ConfigVersion {
    pub config: Arc<Config>,
    /// Versions of an environment are numbered 1, 2, 3, ... in the order they were added.
    pub version: usize,
    /// When the version was added.
    pub timestamp: Timestamp,
}

impl Clone for ConfigVersion {
    fn clone(&self) -> (c: Self)
        ensures
            c == *self,
    {
        ConfigVersion {
            config: share_config(&self.config),
            version: self.version,
            timestamp: self.timestamp,
        }
    }
}

/// A message carrying a whole configuration.
#[derive(Debug, Clone)]
pub struct ConfigUpdateMessage {
    pub config: Config,
}

struct EnvHistory {
    env: String,
    versions: Vec<ConfigVersion>,
}

/// Versions are numbered from 1 without gaps, and there is at least one.
pub open spec fn well_numbered(h: Seq<ConfigVersion>) -> bool {
    &&& h.len() >= 1
    &&& forall|i: int| 0 <= i < h.len() ==> (#[trigger] h[i]).version == i + 1
}

/// The newest configuration of a history, if it has one.
pub open spec fn newest(h: Seq<ConfigVersion>) -> Option<Arc<Config>> {
    if h.len() == 0 {
        None
    } else {
        Some(h.last().config)
    }
}

/// The newest configuration of `env`, if it has a history.
pub open spec fn latest_config(histories: Map<Seq<char>, Seq<ConfigVersion>>, env: Seq<char>) -> Option<
    Arc<Config>,
> {
    if histories.contains_key(env) {
        newest(histories[env])
    } else {
        None
    }
}

/// The versions of `env`, empty when it has no history.
pub open spec fn versions_of(histories: Map<Seq<char>, Seq<ConfigVersion>>, env: Seq<char>) -> Seq<
    ConfigVersion,
> {
    if histories.contains_key(env) {
        histories[env]
    } else {
        Seq::empty()
    }
}

/// The number that the next version of `env` gets.
pub open spec fn next_version(histories: Map<Seq<char>, Seq<ConfigVersion>>, env: Seq<char>) -> nat {
    versions_of(histories, env).len() + 1
}

/// The histories after `v` is added to `env`.
pub open spec fn appended(
    histories: Map<Seq<char>, Seq<ConfigVersion>>,
    env: Seq<char>,
    v: ConfigVersion,
) -> Map<Seq<char>, Seq<ConfigVersion>> {
    histories.insert(env, versions_of(histories, env).push(v))
}

/// The `update` calls that one update of `env` to `config` makes: every subscriber,
/// by its position, in subscription order.
pub open spec fn update_calls(subscriber_count: nat, env: Seq<char>, config: Arc<Config>) -> Seq<
    (nat, Seq<char>, Arc<Config>),
> {
    Seq::new(subscriber_count, |i: int| (i as nat, env, config))
}

/// What one update of `env` to `config` sends on the channel: the pair, when `env`
/// is the current environment, and nothing otherwise.
pub open spec fn update_sends(current_env: Seq<char>, env: Seq<char>, config: Arc<Config>) -> Seq<
    (Seq<char>, Arc<Config>),
> {
    if env == current_env {
        seq![(env, config)]
    } else {
        Seq::empty()
    }
}

/// Every version in the histories carries a timestamp that is one of the readings.
pub open spec fn stamped_by(histories: Map<Seq<char>, Seq<ConfigVersion>>, readings: Seq<Timestamp>) -> bool {
    forall|env: Seq<char>, i: int|
        histories.contains_key(env) && 0 <= i < histories[env].len() ==> readings.contains(
            #[trigger] histories[env][i].timestamp,
        )
}

/// A reading added to the record is in it, and so is every earlier one.
proof fn lemma_pushed_reading(readings: Seq<Timestamp>, t: Timestamp)
    ensures
        readings.push(t).contains(t),
        forall|x: Timestamp| readings.contains(x) ==> #[trigger] readings.push(t).contains(x),
{
    assert(readings.push(t)[readings.len() as int] == t);
    assert forall|x: Timestamp| readings.contains(x) implies #[trigger] readings.push(t).contains(x) by {
        let k = choose|k: int| 0 <= k < readings.len() && readings[k] == x;
        assert(readings.push(t)[k] == x);
    }
}

/// Keeps the history of every environment's configuration, tells subscribers about
/// updates, and sends updates of the current environment on a watch channel.
pub struct Publisher<S: ?Sized + ConfigUpdateSubscriber = dyn ConfigUpdateSubscriber> {
    channel: WatchChannel,
    histories: Vec<EnvHistory>,
    current_environment: String,
    subscribers: SubscriberList<S>,
    clock: Clock,
}

impl<S: ?Sized + ConfigUpdateSubscriber> Publisher<S> {
    spec fn history_seq(&self) -> Seq<(Seq<char>, Seq<ConfigVersion>)> {
        self.histories@.map_values(|h: EnvHistory| (h.env@, h.versions@))
    }

    /// Each environment's versions, oldest first.
    pub closed spec fn history(&self) -> Map<Seq<char>, Seq<ConfigVersion>> {
        entries_map(self.history_seq())
    }

    /// The environment whose updates go out on the watch channel.
    pub closed spec fn current_env(&self) -> Seq<char> {
        self.current_environment@
    }

    /// The subscribers, in the order they subscribed.
    pub closed spec fn subscriber_list(&self) -> Seq<Arc<S>> {
        self.subscribers.members()
    }

    /// Every `update` call made on a subscriber so far, oldest first: the
    /// subscriber's position, and the environment and configuration it was handed.
    pub closed spec fn told(&self) -> Seq<(nat, Seq<char>, Arc<Config>)> {
        self.subscribers.told()
    }

    /// Every pair sent on the watch channel so far, oldest first.
    pub closed spec fn sent_on_channel(&self) -> Seq<(Seq<char>, Arc<Config>)> {
        self.channel.sent()
    }

    /// Every reading of the clock taken by this publisher, oldest first.
    pub closed spec fn clock_readings(&self) -> Seq<Timestamp> {
        self.clock.readings()
    }

    /// In a well formed publisher every stored history has at least one version,
    /// numbered from 1 without gaps.
    pub proof fn lemma_histories_nonempty(&self)
        requires
            self.wf(),
        ensures
            forall|env: Seq<char>| #[trigger]
                self.history().contains_key(env) ==> self.history()[env].len() >= 1 && well_numbered(
                    self.history()[env],
                ),
            forall|env: Seq<char>, i: int|
                self.history().contains_key(env) && 0 <= i < self.history()[env].len() ==> (
                #[trigger] self.history()[env][i]).version == i + 1,
    {
        assert forall|env: Seq<char>, i: int|
            self.history().contains_key(env) && 0 <= i < self.history()[env].len() implies (
            #[trigger] self.history()[env][i]).version == i + 1 by {
            assert(well_numbered(self.history()[env]));
        }
    }

    /// Every environment appears once, and its versions are numbered from 1.
    pub closed spec fn wf(&self) -> bool {
        &&& keys_distinct(self.history_seq())
        &&& forall|env: Seq<char>| #[trigger]
            self.history().contains_key(env) ==> well_numbered(self.history()[env])
        &&& stamped_by(self.history(), self.clock.readings())
    }

    /// The index of `env`'s history, if it has one.
    fn position(&self, env: &String) -> (pos: Option<usize>)
        requires
            self.wf(),
        ensures
            match pos {
                Some(i) => i < self.histories@.len() && self.history_seq()[i as int].0 == env@
                    && self.history().contains_key(env@) && self.history()[env@]
                    == self.histories@[i as int].versions@,
                None => !self.history().contains_key(env@),
            },
    {
        let n = self.histories.len();
        let mut i: usize = 0;
        while i < n
            invariant
                n == self.histories@.len(),
                i <= n,
                keys_distinct(self.history_seq()),
                forall|j: int| 0 <= j < i ==> #[trigger] self.history_seq()[j].0 != env@,
            decreases n - i,
        {
            if self.histories[i].env == *env {
                proof {
                    lemma_entry_in_map(self.history_seq(), i as int);
                }
                return Some(i);
            }
            i = i + 1;
        }
        proof {
            lemma_absent_key(self.history_seq(), env@);
        }
        None
    }

    /// Starts a publisher with version 1 of every initial configuration, and sends
    /// the initial environment's configuration (or an empty one, when it has none)
    /// on the channel.
    pub fn new(
        sender: Sender<(String, Arc<Config>)>,
        initial_configs: EnvConfigs,
        initial_environment: String,
    ) -> (p: Self)
        requires
            initial_configs.wf(),
        ensures
            p.wf(),
            p.history().dom() == initial_configs@.dom(),
            forall|env: Seq<char>| #[trigger]
                p.history().contains_key(env) ==> p.history()[env].len() == 1
                    && p.history()[env][0].version == 1 && p.history()[env][0].config
                    == initial_configs@[env] && p.history()[env][0].timestamp.nanos < 1_000_000_000
                    && p.clock_readings().contains(p.history()[env][0].timestamp),
            p.clock_readings().len() == initial_configs@.len(),
            p.current_env() == initial_environment@,
            p.subscriber_list() == Seq::<Arc<S>>::empty(),
            p.told() == Seq::<(nat, Seq<char>, Arc<Config>)>::empty(),
            p.sent_on_channel().len() == 1,
            p.sent_on_channel()[0].0 == initial_environment@,
            if initial_configs@.contains_key(initial_environment@) {
                p.sent_on_channel()[0].1 == initial_configs@[initial_environment@]
            } else {
                p.sent_on_channel()[0].1.settings@ == Map::<String, serde_yaml::Value>::empty()
            },
    {
        let n = initial_configs.len();
        let mut histories: Vec<EnvHistory> = Vec::new();
        let mut clock = Clock::new();
        let ghost entries = initial_configs.entry_seq();
        proof {
            initial_configs.lemma_view_is_entries();
        }
        let mut i: usize = 0;
        while i < n
            invariant
                n == initial_configs@.len(),
                n == entries.len(),
                entries == initial_configs.entry_seq(),
                i <= n,
                histories@.len() == i,
                clock.readings().len() == i,
                forall|j: int|
                    0 <= j < i ==> (#[trigger] histories@[j]).env@ == entries[j].0
                        && histories@[j].versions@.len() == 1
                        && histories@[j].versions@[0].version == 1
                        && histories@[j].versions@[0].config == entries[j].1
                        && histories@[j].versions@[0].timestamp.nanos < 1_000_000_000
                        && histories@[j].versions@[0].timestamp == clock.readings()[j],
            decreases n - i,
        {
            proof {
                initial_configs.lemma_view_is_entries();
            }
            let (env, config) = initial_configs.entry(i);
            let stamp = clock.read();
            let mut versions: Vec<ConfigVersion> = Vec::new();
            versions.push(ConfigVersion { config: share_config(config), version: 1, timestamp: stamp });
            histories.push(EnvHistory { env: env.clone(), versions });
            i = i + 1;
        }
        let p = Publisher {
            channel: WatchChannel::new(sender),
            histories,
            current_environment: initial_environment,
            subscribers: SubscriberList::new(),
            clock,
        };
        proof {
            let hs = p.history_seq();
            assert forall|j: int| 0 <= j < entries.len() implies #[trigger] entries[j].0 == hs[j].0 by {}
            lemma_same_keys(entries, hs);
            assert forall|env: Seq<char>| #[trigger] p.history().contains_key(env) implies p.history()[env].len()
                == 1 && p.history()[env][0].version == 1 && p.history()[env][0].config
                == initial_configs@[env] && p.history()[env][0].timestamp.nanos < 1_000_000_000
                && well_numbered(p.history()[env]) && p.clock_readings().contains(
                p.history()[env][0].timestamp,
            ) by {
                let j = choose|j: int| 0 <= j < hs.len() && #[trigger] hs[j].0 == env;
                assert(entries[j].0 == env);
                assert(p.clock_readings()[j] == p.history()[env][0].timestamp);
            }
            assert forall|env: Seq<char>, k: int|
                p.history().contains_key(env) && 0 <= k < p.history()[env].len() implies p.clock.readings().contains(
                #[trigger] p.history()[env][k].timestamp,
            ) by {
                assert(k == 0);
            }
        }
        let mut p = p;
        let initial_config = match p.position(&p.current_environment) {
            Some(j) => {
                proof {
                    assert(p.history()[p.current_environment@].len() == 1);
                }
                share_config(&p.histories[j].versions[0].config)
            },
            None => Arc::new(Config::empty()),
        };
        let env = p.current_environment.clone();
        p.channel.send(env, share_config(&initial_config));
        p
    }

    /// Adds a subscriber; it hears of the updates from now on, and of nothing before.
    pub fn subscribe(&mut self, subscriber: Arc<S>)
        requires
            old(self).wf(),
        ensures
            final(self).wf(),
            final(self).history() == old(self).history(),
            final(self).current_env() == old(self).current_env(),
            final(self).subscriber_list() == old(self).subscriber_list().push(subscriber),
            final(self).told() == old(self).told(),
            final(self).sent_on_channel() == old(self).sent_on_channel(),
            final(self).clock_readings() == old(self).clock_readings(),
    {
        self.subscribers.add(subscriber);
        proof {
            assert(self.histories@ == old(self).histories@);
            assert(self.history_seq() =~= old(self).history_seq());
            assert(self.history() == old(self).history());
        }
    }

    /// The number of versions of `env`: 0 when it has no history.
    pub fn version_count(&self, env: &str) -> (n: usize)
        requires
            self.wf(),
        ensures
            n == versions_of(self.history(), env@).len(),
            n == (if self.history().contains_key(env@) {
                self.history()[env@].len()
            } else {
                0
            }),
    {
        let key = env.to_owned();
        match self.position(&key) {
            Some(i) => self.histories[i].versions.len(),
            None => 0,
        }
    }

    /// Adds `new_config` as the next version of `env`, tells every subscriber, and
    /// sends it on the channel when `env` is the current environment.
    pub fn update_config_for_env(&mut self, env: String, new_config: Arc<Config>)
        requires
            old(self).wf(),
            versions_of(old(self).history(), env@).len() < usize::MAX,
        ensures
            final(self).wf(),
            final(self).history().contains_key(env@),
            final(self).history() == appended(
                old(self).history(),
                env@,
                final(self).history()[env@].last(),
            ),
            final(self).history()[env@].last().config == new_config,
            final(self).history()[env@].last().version == next_version(old(self).history(), env@),
            final(self).history()[env@].last().timestamp.nanos < 1_000_000_000,
            old(self).history().contains_key(env@) ==> final(self).history()[env@] == old(
                self,
            ).history()[env@].push(final(self).history()[env@].last()),
            !old(self).history().contains_key(env@) ==> final(self).history()[env@] == seq![
                final(self).history()[env@].last(),
            ],
            final(self).history()[env@].last().version == final(self).history()[env@].len(),
            forall|other: Seq<char>|
                other != env@ ==> (#[trigger] final(self).history().contains_key(other) == old(
                    self,
                ).history().contains_key(other) && (old(self).history().contains_key(other)
                    ==> final(self).history()[other] == old(self).history()[other])),
            final(self).clock_readings() == old(self).clock_readings().push(
                final(self).history()[env@].last().timestamp,
            ),
            final(self).current_env() == old(self).current_env(),
            final(self).subscriber_list() == old(self).subscriber_list(),
            final(self).told() == old(self).told() + update_calls(
                old(self).subscriber_list().len(),
                env@,
                new_config,
            ),
            final(self).sent_on_channel() == old(self).sent_on_channel() + update_sends(
                old(self).current_env(),
                env@,
                new_config,
            ),
    {
        let ghost old_history = self.history();
        let ghost old_seq = self.history_seq();
        match self.position(&env) {
            Some(i) => {
                let version = self.histories[i].versions.len() + 1;
                let stamp = self.clock.read();
                let v = ConfigVersion { config: share_config(&new_config), version, timestamp: stamp };
                let ghost gv = v;
                let ghost old_versions = self.histories@[i as int].versions@;
                self.histories[i].versions.push(v);
                proof {
                    assert(self.history_seq() =~= old_seq.update(
                        i as int,
                        (old_seq[i as int].0, old_versions.push(gv)),
                    ));
                    lemma_update_entry(old_seq, i as int, old_versions.push(gv));
                    assert(self.history()[env@] == old_versions.push(gv));
                    assert forall|e: Seq<char>| #[trigger]
                        self.history().contains_key(e) implies well_numbered(self.history()[e]) by {
                        if e != env@ {
                            assert(old_history.contains_key(e));
                        }
                    }
                    assert forall|e: Seq<char>, j: int|
                        self.history().contains_key(e) && 0 <= j < self.history()[e].len() implies self.clock.readings().contains(
                        #[trigger] self.history()[e][j].timestamp,
                    ) by {
                        lemma_pushed_reading(old(self).clock.readings(), stamp);
                        if e == env@ && j == self.history()[e].len() - 1 {
                        } else {
                            assert(old_history.contains_key(e) && 0 <= j < old_history[e].len()
                                && old_history[e][j] == self.history()[e][j]);
                            assert(old(self).clock.readings().contains(old_history[e][j].timestamp));
                        }
                    }
                }
            },
            None => {
                let stamp = self.clock.read();
                let v = ConfigVersion { config: share_config(&new_config), version: 1, timestamp: stamp };
                let ghost gv = v;
                let mut versions: Vec<ConfigVersion> = Vec::new();
                versions.push(v);
                self.histories.push(EnvHistory { env: env.clone(), versions });
                proof {
                    assert(self.history_seq() =~= old_seq.push((env@, seq![gv])));
                    lemma_push_new_key(old_seq, env@, seq![gv]);
                    assert(seq![gv] =~= versions_of(old_history, env@).push(gv));
                    assert forall|e: Seq<char>| #[trigger]
                        self.history().contains_key(e) implies well_numbered(self.history()[e]) by {
                        if e != env@ {
                            assert(old_history.contains_key(e));
                        }
                    }
                    assert forall|e: Seq<char>, j: int|
                        self.history().contains_key(e) && 0 <= j < self.history()[e].len() implies self.clock.readings().contains(
                        #[trigger] self.history()[e][j].timestamp,
                    ) by {
                        lemma_pushed_reading(old(self).clock.readings(), stamp);
                        if e == env@ && j == self.history()[e].len() - 1 {
                        } else {
                            assert(old_history.contains_key(e) && 0 <= j < old_history[e].len()
                                && old_history[e][j] == self.history()[e][j]);
                            assert(old(self).clock.readings().contains(old_history[e][j].timestamp));
                        }
                    }
                }
            },
        }
        assert(stamped_by(self.history(), self.clock.readings()));
        assert(self.wf());
        let ghost mid = self.histories@;
        let ghost mid_clock = self.clock;
        let ghost start = self.subscribers.told();
        let n = self.subscribers.len();
        let mut k: usize = 0;
        while k < n
            invariant
                n == self.subscribers.members().len(),
                k <= n,
                self.histories@ == mid,
                self.subscribers.members() == old(self).subscribers.members(),
                self.current_environment == old(self).current_environment,
                self.channel == old(self).channel,
                self.clock == mid_clock,
                self.subscribers.told() == start + update_calls(k as nat, env@, new_config),
            decreases n - k,
        {
            self.subscribers.tell(k, env.clone(), share_config(&new_config));
            proof {
                assert(self.subscribers.told() =~= start + update_calls((k + 1) as nat, env@, new_config));
            }
            k = k + 1;
        }
        let ghost e = env@;
        if self.current_environment == env {
            self.channel.send(env, new_config);
            proof {
                assert(self.channel.sent() =~= old(self).channel.sent() + update_sends(
                    self.current_environment@,
                    e,
                    new_config,
                ));
            }
        } else {
            proof {
                assert(self.channel.sent() =~= old(self).channel.sent() + update_sends(
                    self.current_environment@,
                    e,
                    new_config,
                ));
            }
        }
    }

    /// The newest configuration of `env`, if it has a history.
    pub fn get_config_for_env(&self, env: &str) -> (c: Option<Arc<Config>>)
        requires
            self.wf(),
        ensures
            c == latest_config(self.history(), env@),
    {
        let key = env.to_owned();
        match self.position(&key) {
            Some(i) => {
                let n = self.histories[i].versions.len();
                if n == 0 {
                    None
                } else {
                    Some(share_config(&self.histories[i].versions[n - 1].config))
                }
            },
            None => None,
        }
    }

    /// All versions of `env`, oldest first; `NotFound` when it has no history.
    pub fn get_config_history_for_env(&self, env: &str) -> (r: Result<Vec<ConfigVersion>, ConfigError>)
        requires
            self.wf(),
        ensures
            match r {
                Ok(versions) => self.history().contains_key(env@) && versions@ == self.history()[env@],
                Err(ConfigError::NotFound(msg)) => !self.history().contains_key(env@) && msg@
                    == "No configuration history found for environment: "@ + env@,
                Err(_) => false,
            },
    {
        let key = env.to_owned();
        match self.position(&key) {
            Some(i) => {
                let source = &self.histories[i].versions;
                let mut out: Vec<ConfigVersion> = Vec::new();
                let n = source.len();
                let mut j: usize = 0;
                while j < n
                    invariant
                        n == source@.len(),
                        j <= n,
                        out@ == source@.subrange(0, j as int),
                    decreases n - j,
                {
                    out.push(source[j].clone());
                    proof {
                        assert(out@ =~= source@.subrange(0, j + 1));
                    }
                    j = j + 1;
                }
                proof {
                    assert(out@ =~= source@);
                }
                Ok(out)
            },
            None => {
                let mut msg = String::from_str("No configuration history found for environment: ");
                msg.append(env);
                Err(ConfigError::NotFound(msg))
            },
        }
    }

    /// The configuration of version `version` of `env`: `NotFound` when `env` has
    /// no history, `OutOfBounds` when it has no such version (version 0 included).
    pub fn get_specific_config_version_for_env(&self, env: &str, version: usize) -> (r: Result<
        Arc<Config>,
        ConfigError,
    >)
        requires
            self.wf(),
        ensures
            match r {
                Ok(c) => self.history().contains_key(env@) && 1 <= version <= self.history()[env@].len()
                    && c == self.history()[env@][version - 1].config,
                Err(ConfigError::NotFound(msg)) => !self.history().contains_key(env@) && msg@
                    == "Environment not found: "@ + env@,
                Err(ConfigError::OutOfBounds(msg)) => self.history().contains_key(env@) && (version == 0
                    || version > self.history()[env@].len()) && msg@ == "Version "@ + decimal(version as nat)
                    + " not found for environment: "@ + env@,
                Err(_) => false,
            },
    {
        let key = env.to_owned();
        match self.position(&key) {
            Some(i) => {
                if version >= 1 && version - 1 < self.histories[i].versions.len() {
                    Ok(share_config(&self.histories[i].versions[version - 1].config))
                } else {
                    let mut msg = String::from_str("Version ");
                    let number = decimal_string(version);
                    msg.append(number.as_str());
                    msg.append(" not found for environment: ");
                    msg.append(env);
                    Err(ConfigError::OutOfBounds(msg))
                }
            },
            None => {
                let mut msg = String::from_str("Environment not found: ");
                msg.append(env);
                Err(ConfigError::NotFound(msg))
            },
        }
    }
}

/// What `versions_of` means: the history of the environment, or nothing when it has none.
pub proof fn law_versions_of(histories: Map<Seq<char>, Seq<ConfigVersion>>, env: Seq<char>)
    ensures
        histories.contains_key(env) ==> versions_of(histories, env) == histories[env],
        !histories.contains_key(env) ==> versions_of(histories, env) == Seq::<ConfigVersion>::empty(),
        next_version(histories, env) == (if histories.contains_key(env) {
            histories[env].len()
        } else {
            0
        }) + 1,
{
}

/// What `latest_config` means: the configuration of the last version of the
/// environment's history, and nothing when it has no history or an empty one.
pub proof fn law_latest_config(histories: Map<Seq<char>, Seq<ConfigVersion>>, env: Seq<char>)
    ensures
        histories.contains_key(env) && histories[env].len() > 0 ==> latest_config(histories, env)
            == Some(histories[env].last().config),
        !histories.contains_key(env) ==> latest_config(histories, env) is None,
{
}

/// Adding a version keeps every earlier version of the environment, in order, and
/// puts the new one after them, whatever the length of the history.
pub proof fn law_update_keeps_earlier_versions(
    histories: Map<Seq<char>, Seq<ConfigVersion>>,
    env: Seq<char>,
    v: ConfigVersion,
)
    ensures
        appended(histories, env, v).contains_key(env),
        histories.contains_key(env) ==> appended(histories, env, v)[env].len() == histories[env].len()
            + 1 && appended(histories, env, v)[env].subrange(0, histories[env].len() as int)
            == histories[env] && appended(histories, env, v)[env].last() == v,
        !histories.contains_key(env) ==> appended(histories, env, v)[env] == seq![v],
{
    if histories.contains_key(env) {
        assert(appended(histories, env, v)[env].subrange(0, histories[env].len() as int)
            =~= histories[env]);
    } else {
        assert(appended(histories, env, v)[env] =~= seq![v]);
    }
}

/// Every version a publisher holds is stamped with a reading of its clock.
pub proof fn law_timestamps_are_clock_readings<S: ?Sized + ConfigUpdateSubscriber>(p: &Publisher<S>)
    requires
        p.wf(),
    ensures
        forall|env: Seq<char>, i: int|
            p.history().contains_key(env) && 0 <= i < p.history()[env].len() ==> p.clock_readings().contains(
                #[trigger] p.history()[env][i].timestamp,
            ),
{
}

/// Reading an environment right after an update gives the configuration just written.
pub proof fn law_read_after_update(
    histories: Map<Seq<char>, Seq<ConfigVersion>>,
    env: Seq<char>,
    v: ConfigVersion,
)
    ensures
        latest_config(appended(histories, env, v), env) == Some(v.config),
{
}

/// An update adds the new version at the end of the environment's history and
/// keeps every older version as it was.
pub proof fn law_history_grows_at_end(
    histories: Map<Seq<char>, Seq<ConfigVersion>>,
    env: Seq<char>,
    v: ConfigVersion,
)
    ensures
        appended(histories, env, v)[env].len() == versions_of(histories, env).len() + 1,
        appended(histories, env, v)[env].last() == v,
        forall|i: int|
            0 <= i < versions_of(histories, env).len() ==> #[trigger] appended(histories, env, v)[env][i]
                == versions_of(histories, env)[i],
{
}

/// An update of one environment leaves every other environment as it was.
pub proof fn law_update_isolated(
    histories: Map<Seq<char>, Seq<ConfigVersion>>,
    env: Seq<char>,
    other: Seq<char>,
    v: ConfigVersion,
)
    requires
        other != env,
    ensures
        appended(histories, env, v).contains_key(other) == histories.contains_key(other),
        histories.contains_key(other) ==> appended(histories, env, v)[other] == histories[other],
        latest_config(appended(histories, env, v), other) == latest_config(histories, other),
{
}

/// Numbering versions 1, 2, 3, ... survives an update that gives the new version the next number.
pub proof fn law_numbering_preserved(
    histories: Map<Seq<char>, Seq<ConfigVersion>>,
    env: Seq<char>,
    v: ConfigVersion,
)
    requires
        forall|k: Seq<char>| #[trigger] histories.contains_key(k) ==> well_numbered(histories[k]),
        v.version == next_version(histories, env),
    ensures
        forall|k: Seq<char>| #[trigger]
            appended(histories, env, v).contains_key(k) ==> well_numbered(
                appended(histories, env, v)[k],
            ),
{
    let h2 = appended(histories, env, v);
    assert forall|k: Seq<char>| #[trigger] h2.contains_key(k) implies well_numbered(h2[k]) by {
        if k != env {
            assert(histories.contains_key(k));
        } else {
            let old_h = versions_of(histories, env);
            assert forall|i: int| 0 <= i < h2[k].len() implies (#[trigger] h2[k][i]).version == i + 1 by {
                if i < old_h.len() {
                    assert(histories.contains_key(env));
                    assert(h2[k][i] == old_h[i]);
                }
            }
        }
    }
}

/// In a publisher, version number `version` of an environment is the one at
/// position `version - 1` of its history: asking for a version by number finds it.
pub proof fn law_version_number_is_position<S: ?Sized + ConfigUpdateSubscriber>(
    p: &Publisher<S>,
    env: Seq<char>,
    version: int,
)
    requires
        p.wf(),
        p.history().contains_key(env),
        1 <= version <= p.history()[env].len(),
    ensures
        p.history()[env][version - 1].version == version,
{
    assert(well_numbered(p.history()[env]));
}

/// Every update calls each subscriber exactly once, in subscription order, with
/// the environment and the new configuration.
pub proof fn law_every_subscriber_told(subscriber_count: nat, env: Seq<char>, config: Arc<Config>)
    ensures
        update_calls(subscriber_count, env, config).len() == subscriber_count,
        forall|i: int|
            0 <= i < subscriber_count ==> #[trigger] update_calls(subscriber_count, env, config)[i]
                == (i as nat, env, config),
        forall|i: int, j: int|
            0 <= i < subscriber_count && 0 <= j < subscriber_count && #[trigger] update_calls(
                subscriber_count,
                env,
                config,
            )[i].0 == #[trigger] update_calls(subscriber_count, env, config)[j].0 ==> i == j,
{
}

/// The channel hears of an update exactly when the updated environment is the
/// current one, and then it hears the environment and the new configuration, once.
pub proof fn law_broadcast_iff_current(current_env: Seq<char>, env: Seq<char>, config: Arc<Config>)
    ensures
        update_sends(current_env, env, config).len() == (if env == current_env {
            1int
        } else {
            0int
        }),
        env == current_env ==> update_sends(current_env, env, config)[0] == (env, config),
{
}

/// Posting again the settings that an update just stored finds them as the
/// environment's newest configuration, so the redundancy check
/// (`replies::update_is_redundant`, which skips whenever the found settings equal
/// the new ones) skips the second post and no version is added.
pub proof fn law_repost_finds_same_settings(
    histories: Map<Seq<char>, Seq<ConfigVersion>>,
    env: Seq<char>,
    v: ConfigVersion,
    reposted: Config,
)
    requires
        v.config.settings@ == reposted.settings@,
    ensures
        latest_config(appended(histories, env, v), env) matches Some(c) && c.settings@
            == reposted.settings@,
{
}

} // verus!
