//! Configurations, their errors, and the set of configurations loaded per environment.

use vstd::prelude::*;
use std::collections::BTreeMap;
use std::sync::Arc;

use crate::external::{io_error_not_found, io_error_text, is_not_found, parse_yaml_settings, yaml_settings};
use crate::keyed::{
    entries_map, keys_distinct, lemma_absent_key, lemma_empty_entries, lemma_entry_in_map,
    lemma_push_new_key, lemma_update_entry,
};

verus! {

/// The settings of one environment, as read from its YAML file.
#[derive(Debug, Clone, PartialEq)]
pub struct Config {
    pub settings: BTreeMap<String, serde_yaml::Value>,
}

/// A request to replace the settings of an environment.
#[derive(Debug, Clone)]
pub struct ConfigUpdate {
    pub env: String,
    pub settings: BTreeMap<String, serde_yaml::Value>,
}

/// What can go wrong while loading or looking up configurations.
#[derive(Debug)]
pub enum ConfigError {
    IoError(std::io::Error),
    YamlError(serde_yaml::Error),
    DirectoryReadError(std::io::Error),
    /// A configuration, an environment or a version was not found.
    NotFound(String),
    /// A requested version number lies outside an environment's history.
    OutOfBounds(String),
}

impl Config {
    /// A configuration without any setting.
    pub fn empty() -> (c: Config)
        ensures
            c.settings@ == Map::<String, serde_yaml::Value>::empty(),
    {
        Config { settings: BTreeMap::new() }
    }
}

impl ConfigError {
    /// The error for a failed I/O operation: `NotFound` with the error's text when
    /// the error is of kind `NotFound`, otherwise `IoError` holding the error.
    pub fn from_io_error(err: std::io::Error) -> (e: ConfigError)
        ensures
            e is NotFound <==> io_error_not_found(err),
            !io_error_not_found(err) ==> e == ConfigError::IoError(err),
    {
        if is_not_found(&err) {
            ConfigError::NotFound(io_error_text(&err))
        } else {
            ConfigError::IoError(err)
        }
    }

    /// The error for a configuration directory that could not be listed: `NotFound`
    /// with the error's text when the error is of kind `NotFound`, otherwise
    /// `DirectoryReadError` holding the error.
    pub fn from_read_dir_error(err: std::io::Error) -> (e: ConfigError)
        ensures
            e is NotFound <==> io_error_not_found(err),
            !io_error_not_found(err) ==> e == ConfigError::DirectoryReadError(err),
    {
        if is_not_found(&err) {
            ConfigError::NotFound(io_error_text(&err))
        } else {
            ConfigError::DirectoryReadError(err)
        }
    }
}

impl From<serde_yaml::Error> for ConfigError {
    fn from(err: serde_yaml::Error) -> (e: ConfigError) {
        ConfigError::YamlError(err)
    }
}

impl vstd::std_specs::convert::FromSpecImpl<serde_yaml::Error> for ConfigError {
    open spec fn obeys_from_spec() -> bool {
        true
    }

    open spec fn from_spec(err: serde_yaml::Error) -> ConfigError {
        ConfigError::YamlError(err)
    }
}

/// The configurations found for each environment, at most one per environment.
pub struct EnvConfigs {
    entries: Vec<(String, Arc<Config>)>,
}

impl View for EnvConfigs {
    type V = Map<Seq<char>, Arc<Config>>;

    closed spec fn view(&self) -> Map<Seq<char>, Arc<Config>> {
        entries_map(self.entry_seq())
    }
}

impl EnvConfigs {
    /// The entries in the order in which they are kept, each with its name as characters.
    pub closed spec fn entry_seq(&self) -> Seq<(Seq<char>, Arc<Config>)> {
        self.entries@.map_values(|e: (String, Arc<Config>)| (e.0@, e.1))
    }

    /// No environment appears twice.
    pub closed spec fn wf(&self) -> bool {
        keys_distinct(self.entry_seq())
    }

    /// The view is the map that the entries describe, and being well formed means
    /// that their keys are distinct.
    pub proof fn lemma_view_is_entries(&self)
        ensures
            self@ == entries_map(self.entry_seq()),
            self.entry_seq().len() == self.len_spec(),
            self.wf() == keys_distinct(self.entry_seq()),
            self.wf() ==> self@.len() == self.len_spec(),
    {
        if self.wf() {
            self.lemma_len_is_dom_len();
        }
    }

    pub closed spec fn len_spec(&self) -> nat {
        self.entries@.len()
    }

    /// An empty set of configurations.
    pub fn new() -> (s: EnvConfigs)
        ensures
            s.wf(),
            s@ == Map::<Seq<char>, Arc<Config>>::empty(),
    {
        let s = EnvConfigs { entries: Vec::new() };
        proof {
            assert(s.entry_seq() =~= Seq::<(Seq<char>, Arc<Config>)>::empty());
            lemma_empty_entries::<Arc<Config>>();
        }
        s
    }

    /// The index of the entry for `env`, if there is one.
    fn position(&self, env: &String) -> (pos: Option<usize>)
        ensures
            match pos {
                Some(i) => i < self.entries@.len() && self.entry_seq()[i as int].0 == env@,
                None => forall|i: int|
                    0 <= i < self.entry_seq().len() ==> #[trigger] self.entry_seq()[i].0 != env@,
            },
    {
        let n = self.entries.len();
        let mut i: usize = 0;
        while i < n
            invariant
                n == self.entries@.len(),
                i <= n,
                forall|j: int| 0 <= j < i ==> #[trigger] self.entry_seq()[j].0 != env@,
            decreases n - i,
        {
            if self.entries[i].0 == *env {
                return Some(i);
            }
            i = i + 1;
        }
        None
    }

    /// The number of environments.
    pub fn len(&self) -> (n: usize)
        requires
            self.wf(),
        ensures
            n == self@.len(),
    {
        proof {
            self.lemma_len_is_dom_len();
        }
        self.entries.len()
    }

    /// Whether no environment has a configuration.
    pub fn is_empty(&self) -> (b: bool)
        requires
            self.wf(),
        ensures
            b == (self@.len() == 0),
    {
        self.len() == 0
    }

    /// Whether `env` has a configuration.
    pub fn contains_key(&self, env: &str) -> (b: bool)
        requires
            self.wf(),
        ensures
            b == self@.contains_key(env@),
    {
        let key = env.to_owned();
        match self.position(&key) {
            Some(i) => {
                proof {
                    lemma_entry_in_map(self.entry_seq(), i as int);
                }
                true
            },
            None => {
                proof {
                    lemma_absent_key(self.entry_seq(), env@);
                }
                false
            },
        }
    }

    /// The configuration of `env`, if it has one.
    pub fn get(&self, env: &str) -> (c: Option<&Arc<Config>>)
        requires
            self.wf(),
        ensures
            match c {
                Some(c) => self@.contains_key(env@) && *c == self@[env@],
                None => !self@.contains_key(env@),
            },
    {
        let key = env.to_owned();
        match self.position(&key) {
            Some(i) => {
                proof {
                    lemma_entry_in_map(self.entry_seq(), i as int);
                }
                Some(&self.entries[i].1)
            },
            None => {
                proof {
                    lemma_absent_key(self.entry_seq(), env@);
                }
                None
            },
        }
    }

    /// Sets the configuration of `env`, and hands back the one it replaces.
    pub fn insert(&mut self, env: String, config: Arc<Config>) -> (previous: Option<Arc<Config>>)
        requires
            old(self).wf(),
        ensures
            final(self).wf(),
            final(self)@ == old(self)@.insert(env@, config),
            match previous {
                Some(p) => old(self)@.contains_key(env@) && p == old(self)@[env@],
                None => !old(self)@.contains_key(env@),
            },
    {
        match self.position(&env) {
            Some(i) => {
                proof {
                    lemma_entry_in_map(self.entry_seq(), i as int);
                    lemma_update_entry(self.entry_seq(), i as int, config);
                }
                let ghost before = self.entry_seq();
                let old_entry = self.entries.remove(i);
                self.entries.insert(i, (env, config));
                proof {
                    assert(self.entry_seq() =~= before.update(i as int, (before[i as int].0, config)));
                }
                Some(old_entry.1)
            },
            None => {
                proof {
                    lemma_absent_key(self.entry_seq(), env@);
                    lemma_push_new_key(self.entry_seq(), env@, config);
                }
                let ghost before = self.entry_seq();
                let ghost key = env@;
                self.entries.push((env, config));
                proof {
                    assert(self.entry_seq() =~= before.push((key, config)));
                }
                None
            },
        }
    }

    /// Reads `text` as a YAML map of settings and makes it the configuration of
    /// `env`; on a YAML error nothing changes and the error is handed back.
    pub fn add_config_text(&mut self, env: String, text: &str) -> (r: Result<(), ConfigError>)
        requires
            old(self).wf(),
        ensures
            final(self).wf(),
            r is Ok <==> yaml_settings(text@) is Some,
            r is Ok ==> final(self)@.contains_key(env@) && final(self)@[env@].settings@ == yaml_settings(
                text@,
            )->0 && forall|other: Seq<char>|
                other != env@ ==> (#[trigger] final(self)@.contains_key(other) == old(self)@.contains_key(
                    other,
                ) && (old(self)@.contains_key(other) ==> final(self)@[other] == old(self)@[other])),
            r is Err ==> (r matches Err(ConfigError::YamlError(_)) && final(self)@ == old(self)@),
    {
        match parse_yaml_settings(text) {
            Ok(config) => {
                self.insert(env, Arc::new(config));
                Ok(())
            },
            Err(e) => Err(e),
        }
    }

    /// The entry at position `i`, for walking through all environments.
    pub fn entry(&self, i: usize) -> (e: (&String, &Arc<Config>))
        requires
            i < self.len_spec(),
        ensures
            e.0@ == self.entry_seq()[i as int].0,
            *e.1 == self.entry_seq()[i as int].1,
    {
        (&self.entries[i as usize].0, &self.entries[i as usize].1)
    }

    /// The number of entries equals the number of environments.
    proof fn lemma_len_is_dom_len(&self)
        requires
            self.wf(),
        ensures
            self@.len() == self.entries@.len(),
    {
        lemma_distinct_len(self.entry_seq());
    }
}

/// A sequence of entries with distinct keys describes a map with as many keys as entries.
pub proof fn lemma_distinct_len<V>(entries: Seq<(Seq<char>, V)>)
    requires
        keys_distinct(entries),
    ensures
        entries_map(entries).dom().finite(),
        entries_map(entries).len() == entries.len(),
    decreases entries.len(),
{
    if entries.len() == 0 {
        lemma_empty_entries::<V>();
        assert(entries =~= Seq::<(Seq<char>, V)>::empty());
    } else {
        let init = entries.drop_last();
        let last = entries.last();
        assert(keys_distinct(init));
        lemma_distinct_len(init);
        assert forall|i: int| 0 <= i < init.len() implies #[trigger] init[i].0 != last.0 by {
            assert(entries[i].0 != entries[entries.len() - 1].0);
        }
        lemma_absent_key(init, last.0);
        lemma_push_new_key(init, last.0, last.1);
        assert(init.push((last.0, last.1)) =~= entries);
        assert(entries_map(entries) == entries_map(init).insert(last.0, last.1));
        assert(entries_map(entries).dom() == entries_map(init).dom().insert(last.0));
    }
}

} // verus!
