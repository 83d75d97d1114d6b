//! A cache as built by `CacheBuilder`: its name, settings, hasher and closures.

use vstd::prelude::*;
use std::collections::hash_map::RandomState;
use std::marker::PhantomData;
use crate::notification::Configuration;
use crate::policy::Policy;
use crate::time::Duration;

verus! {

/// Stands for the weigher of a cache that was given none.
#[derive(Clone, Copy, Debug, PartialEq, Eq, Structural)]
pub struct NoWeigher;

/// Stands for the eviction listener of a cache that was given none.
#[derive(Clone, Copy, Debug, PartialEq, Eq, Structural)]
pub struct NoListener;

/// The settings of a cache that are plain values.
#[derive(Clone, Copy, Debug, PartialEq, Eq, Structural)]
pub struct CacheSettings {
    /// Maximum capacity, in entries or in the weigher's units.
    pub max_capacity: Option<u64>,
    /// Number of entries that room is made for at the start.
    pub initial_capacity: Option<usize>,
    /// Configuration of the eviction listener.
    pub eviction_listener_conf: Option<Configuration>,
    /// How long an entry lives after it was inserted.
    pub time_to_live: Option<Duration>,
    /// How long an entry lives after it was last read or inserted.
    pub time_to_idle: Option<Duration>,
    /// Whether invalidation by closures is supported.
    pub invalidator_enabled: bool,
}

/// The settings of a cache with nothing configured.
pub open spec fn unset_settings() -> CacheSettings {
    CacheSettings {
        max_capacity: None,
        initial_capacity: None,
        eviction_listener_conf: None,
        time_to_live: None,
        time_to_idle: None,
        invalidator_enabled: false,
    }
}

/// A cache holding values of type `V` under keys of type `K`, hashed by `S`,
/// with weigher `W` and eviction listener `L`.
pub struct Cache<K, V, S = RandomState, W = NoWeigher, L = NoListener> {
    name: Option<String>,
    settings: CacheSettings,
    build_hasher: S,
    weigher: Option<W>,
    eviction_listener: Option<L>,
    entry_type: PhantomData<(K, V)>,
}

impl<K, V, S, W, L> Cache<K, V, S, W, L> {
    /// The name of the cache, if any.
    pub closed spec fn spec_name(&self) -> Option<String> {
        self.name
    }

    /// The settings of the cache.
    pub closed spec fn spec_settings(&self) -> CacheSettings {
        self.settings
    }

    /// The hasher of the cache.
    pub closed spec fn spec_build_hasher(&self) -> S {
        self.build_hasher
    }

    /// The weigher of the cache, if any.
    pub closed spec fn spec_weigher(&self) -> Option<W> {
        self.weigher
    }

    /// The eviction listener of the cache, if any.
    pub closed spec fn spec_eviction_listener(&self) -> Option<L> {
        self.eviction_listener
    }

    /// A cache with the given name, settings, hasher and closures.
    pub fn with_everything(
        name: Option<String>,
        max_capacity: Option<u64>,
        initial_capacity: Option<usize>,
        build_hasher: S,
        weigher: Option<W>,
        eviction_listener: Option<L>,
        eviction_listener_conf: Option<Configuration>,
        time_to_live: Option<Duration>,
        time_to_idle: Option<Duration>,
        invalidator_enabled: bool,
    ) -> (c: Self)
        ensures
            c.spec_name() == name,
            c.spec_settings() == (CacheSettings {
                max_capacity,
                initial_capacity,
                eviction_listener_conf,
                time_to_live,
                time_to_idle,
                invalidator_enabled,
            }),
            c.spec_build_hasher() == build_hasher,
            c.spec_weigher() == weigher,
            c.spec_eviction_listener() == eviction_listener,
    {
        Cache {
            name,
            settings: CacheSettings {
                max_capacity,
                initial_capacity,
                eviction_listener_conf,
                time_to_live,
                time_to_idle,
                invalidator_enabled,
            },
            build_hasher,
            weigher,
            eviction_listener,
            entry_type: PhantomData,
        }
    }

    /// The name of the cache, if any.
    pub fn name(&self) -> (r: Option<&str>)
        ensures
            r is Some <==> self.spec_name() is Some,
            r matches Some(s) ==> s@ == self.spec_name()->0@,
    {
        match &self.name {
            Some(n) => Some(n.as_str()),
            None => None,
        }
    }

    /// The capacity, number of segments and expirations of the cache; this
    /// cache has one segment.
    pub fn policy(&self) -> (p: Policy)
        ensures
            p.spec_max_capacity() == self.spec_settings().max_capacity,
            p.spec_num_segments() == 1,
            p.spec_time_to_live() == self.spec_settings().time_to_live,
            p.spec_time_to_idle() == self.spec_settings().time_to_idle,
    {
        Policy::new(self.settings.max_capacity, 1, self.settings.time_to_live, self.settings.time_to_idle)
    }

    /// Whether the cache supports invalidation by closures.
    pub fn is_invalidator_enabled(&self) -> (r: bool)
        ensures
            r == self.spec_settings().invalidator_enabled,
    {
        self.settings.invalidator_enabled
    }
}

} // verus!
