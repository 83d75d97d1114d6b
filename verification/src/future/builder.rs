//! Builds a `Cache` with various configuration knobs.

use vstd::prelude::*;
use vstd::string::*;
use std::collections::hash_map::RandomState;
use std::hash::{BuildHasher, Hash};
use std::marker::PhantomData;
use std::sync::Arc;
use crate::common::builder_utils::{check_expirations, expirations_ok, spec_check_expirations, BuildError};
use crate::future::cache::{unset_settings, Cache, CacheSettings, NoListener, NoWeigher};
use crate::notification::{Configuration, DeliveryMode, RemovalCause};
use crate::time::Duration;

verus! {

/// A fresh hasher builder, seeded at random.
#[verifier::external_body]
fn random_state() -> RandomState {
    RandomState::new()
}

/// Builds a `Cache` with various configuration knobs: a name, a maximum
/// capacity, an initial capacity, a weigher `W`, an eviction listener `L`,
/// a time to live and a time to idle, and support for invalidation closures.
#[must_use]
pub struct CacheBuilder<K, V, C, W = NoWeigher, L = NoListener> {
    name: Option<String>,
    settings: CacheSettings,
    weigher: Option<W>,
    eviction_listener: Option<L>,
    cache_type: PhantomData<C>,
    entry_type: PhantomData<(K, V)>,
}

impl<K, V> Default for CacheBuilder<K, V, Cache<K, V, RandomState>> where
    K: Eq + Hash + Send + Sync + 'static,
    V: Clone + Send + Sync + 'static,
 {
    fn default() -> (b: Self)
        ensures
            b.spec_name() is None,
            b.spec_settings() == unset_settings(),
            b.spec_weigher() is None,
            b.spec_eviction_listener() is None,
    {
        CacheBuilder {
            name: None,
            settings: CacheSettings {
                max_capacity: None,
                initial_capacity: None,
                eviction_listener_conf: None,
                time_to_live: None,
                time_to_idle: None,
                invalidator_enabled: false,
            },
            weigher: None,
            eviction_listener: None,
            cache_type: PhantomData,
            entry_type: PhantomData,
        }
    }
}

impl<K, V> CacheBuilder<K, V, Cache<K, V, RandomState>> where
    K: Eq + Hash + Send + Sync + 'static,
    V: Clone + Send + Sync + 'static,
 {
    /// A builder of a cache holding up to `max_capacity` entries, with nothing
    /// else configured.
    pub fn new(max_capacity: u64) -> (b: Self)
        ensures
            b.spec_name() is None,
            b.spec_settings() == (CacheSettings { max_capacity: Some(max_capacity), ..unset_settings() }),
            b.spec_weigher() is None,
            b.spec_eviction_listener() is None,
    {
        let b = Self::default();
        CacheBuilder { settings: CacheSettings { max_capacity: Some(max_capacity), ..b.settings }, ..b }
    }
}

impl<K, V, W, L> CacheBuilder<K, V, Cache<K, V, RandomState>, W, L> where
    K: Eq + Hash + Send + Sync + 'static,
    V: Clone + Send + Sync + 'static,
 {
    /// Builds the cache, with a hasher seeded at random. Neither expiration may
    /// be longer than 1000 years.
    pub fn build(self) -> (c: Cache<K, V, RandomState, W, L>)
        requires
            expirations_ok(self.spec_settings().time_to_live, self.spec_settings().time_to_idle),
        ensures
            c.spec_name() == self.spec_name(),
            c.spec_settings() == self.spec_settings(),
            c.spec_weigher() == self.spec_weigher(),
            c.spec_eviction_listener() == self.spec_eviction_listener(),
    {
        let build_hasher = random_state();
        Cache::with_everything(
            self.name,
            self.settings.max_capacity,
            self.settings.initial_capacity,
            build_hasher,
            self.weigher,
            self.eviction_listener,
            self.settings.eviction_listener_conf,
            self.settings.time_to_live,
            self.settings.time_to_idle,
            self.settings.invalidator_enabled,
        )
    }

    /// Builds the cache with the given hasher. Neither expiration may be longer
    /// than 1000 years.
    pub fn build_with_hasher<S>(self, hasher: S) -> (c: Cache<K, V, S, W, L>) where
        S: BuildHasher + Clone + Send + Sync + 'static,
        requires
            expirations_ok(self.spec_settings().time_to_live, self.spec_settings().time_to_idle),
        ensures
            c.spec_name() == self.spec_name(),
            c.spec_settings() == self.spec_settings(),
            c.spec_build_hasher() == hasher,
            c.spec_weigher() == self.spec_weigher(),
            c.spec_eviction_listener() == self.spec_eviction_listener(),
    {
        Cache::with_everything(
            self.name,
            self.settings.max_capacity,
            self.settings.initial_capacity,
            hasher,
            self.weigher,
            self.eviction_listener,
            self.settings.eviction_listener_conf,
            self.settings.time_to_live,
            self.settings.time_to_idle,
            self.settings.invalidator_enabled,
        )
    }
}

impl<K, V, C, W, L> CacheBuilder<K, V, C, W, L> {
    /// The name that the cache will have, if any.
    pub closed spec fn spec_name(&self) -> Option<String> {
        self.name
    }

    /// The settings that the cache will have.
    pub closed spec fn spec_settings(&self) -> CacheSettings {
        self.settings
    }

    /// The weigher that the cache will have, if any.
    pub closed spec fn spec_weigher(&self) -> Option<W> {
        self.weigher
    }

    /// The eviction listener that the cache will have, if any.
    pub closed spec fn spec_eviction_listener(&self) -> Option<L> {
        self.eviction_listener
    }

    /// Checks that neither expiration is longer than 1000 years, which `build`
    /// and `build_with_hasher` need; where both are, the time to live is
    /// reported.
    pub fn validate(&self) -> (r: Result<(), BuildError>)
        ensures
            r == spec_check_expirations(self.spec_settings().time_to_live, self.spec_settings().time_to_idle),
            r is Ok <==> expirations_ok(self.spec_settings().time_to_live, self.spec_settings().time_to_idle),
    {
        check_expirations(self.settings.time_to_live, self.settings.time_to_idle)
    }

    /// Sets the name of the cache, which identifies it in log messages.
    pub fn name(self, name: &str) -> (b: Self)
        ensures
            b.spec_name() matches Some(n) && n@ == name@,
            b.spec_settings() == self.spec_settings(),
            b.spec_weigher() == self.spec_weigher(),
            b.spec_eviction_listener() == self.spec_eviction_listener(),
    {
        CacheBuilder { name: Some(String::from_str(name)), ..self }
    }

    /// Sets the maximum capacity of the cache.
    pub fn max_capacity(self, max_capacity: u64) -> (b: Self)
        ensures
            b.spec_name() == self.spec_name(),
            b.spec_settings() == (CacheSettings { max_capacity: Some(max_capacity), ..self.spec_settings() }),
            b.spec_weigher() == self.spec_weigher(),
            b.spec_eviction_listener() == self.spec_eviction_listener(),
    {
        CacheBuilder { settings: CacheSettings { max_capacity: Some(max_capacity), ..self.settings }, ..self }
    }

    /// Sets the initial capacity (number of entries) of the cache.
    pub fn initial_capacity(self, number_of_entries: usize) -> (b: Self)
        ensures
            b.spec_name() == self.spec_name(),
            b.spec_settings() == (CacheSettings {
                initial_capacity: Some(number_of_entries),
                ..self.spec_settings()
            }),
            b.spec_weigher() == self.spec_weigher(),
            b.spec_eviction_listener() == self.spec_eviction_listener(),
    {
        CacheBuilder {
            settings: CacheSettings { initial_capacity: Some(number_of_entries), ..self.settings },
            ..self
        }
    }

    /// Sets the weigher of the cache: a closure that takes a key and a value and
    /// returns the relative size of the entry.
    pub fn weigher<W2>(self, weigher: W2) -> (b: CacheBuilder<K, V, C, W2, L>) where
        W2: Fn(&K, &V) -> u32 + Send + Sync + 'static,
        ensures
            b.spec_name() == self.spec_name(),
            b.spec_settings() == self.spec_settings(),
            b.spec_weigher() == Some(weigher),
            b.spec_eviction_listener() == self.spec_eviction_listener(),
    {
        CacheBuilder {
            name: self.name,
            settings: self.settings,
            weigher: Some(weigher),
            eviction_listener: self.eviction_listener,
            cache_type: PhantomData,
            entry_type: PhantomData,
        }
    }

    /// Sets the eviction listener of the cache: a closure that takes the key, the
    /// value and the cause of a removal. Removals are delivered to it in the
    /// queued mode.
    pub fn eviction_listener_with_queued_delivery_mode<L2>(self, listener: L2) -> (b: CacheBuilder<K, V, C, W, L2>) where
        L2: Fn(Arc<K>, V, RemovalCause) + Send + Sync + 'static,
        ensures
            b.spec_name() == self.spec_name(),
            b.spec_settings() == (CacheSettings {
                eviction_listener_conf: Some(b.spec_settings().eviction_listener_conf->0),
                ..self.spec_settings()
            }),
            b.spec_settings().eviction_listener_conf matches Some(conf)
                && conf.spec_delivery_mode() == DeliveryMode::Queued,
            b.spec_weigher() == self.spec_weigher(),
            b.spec_eviction_listener() == Some(listener),
    {
        let conf = Configuration::builder().delivery_mode(DeliveryMode::Queued).build();
        CacheBuilder {
            name: self.name,
            settings: CacheSettings { eviction_listener_conf: Some(conf), ..self.settings },
            weigher: self.weigher,
            eviction_listener: Some(listener),
            cache_type: PhantomData,
            entry_type: PhantomData,
        }
    }

    /// Sets the time to live: an entry expires once this span has passed since
    /// its insert. `build` refuses a span longer than 1000 years.
    pub fn time_to_live(self, duration: Duration) -> (b: Self)
        ensures
            b.spec_name() == self.spec_name(),
            b.spec_settings() == (CacheSettings { time_to_live: Some(duration), ..self.spec_settings() }),
            b.spec_weigher() == self.spec_weigher(),
            b.spec_eviction_listener() == self.spec_eviction_listener(),
    {
        CacheBuilder { settings: CacheSettings { time_to_live: Some(duration), ..self.settings }, ..self }
    }

    /// Sets the time to idle: an entry expires once this span has passed since
    /// its last read or insert. `build` refuses a span longer than 1000 years.
    pub fn time_to_idle(self, duration: Duration) -> (b: Self)
        ensures
            b.spec_name() == self.spec_name(),
            b.spec_settings() == (CacheSettings { time_to_idle: Some(duration), ..self.spec_settings() }),
            b.spec_weigher() == self.spec_weigher(),
            b.spec_eviction_listener() == self.spec_eviction_listener(),
    {
        CacheBuilder { settings: CacheSettings { time_to_idle: Some(duration), ..self.settings }, ..self }
    }

    /// Enables support for invalidating entries by closures; the cache then keeps
    /// the data structures that this needs.
    pub fn support_invalidation_closures(self) -> (b: Self)
        ensures
            b.spec_name() == self.spec_name(),
            b.spec_settings() == (CacheSettings { invalidator_enabled: true, ..self.spec_settings() }),
            b.spec_weigher() == self.spec_weigher(),
            b.spec_eviction_listener() == self.spec_eviction_listener(),
    {
        CacheBuilder { settings: CacheSettings { invalidator_enabled: true, ..self.settings }, ..self }
    }
}

} // verus!
