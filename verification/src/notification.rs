//! How the removal of cached entries is reported to an eviction listener.

use vstd::prelude::*;

verus! {

/// Why an entry was removed from the cache.
#[derive(Clone, Copy, Debug, PartialEq, Eq, Structural, Hash)]
pub enum RemovalCause {
    /// The entry's expiration time passed.
    Expired,
    /// The entry was invalidated or removed by hand.
    Explicit,
    /// The entry's value was replaced by an insert.
    Replaced,
    /// The entry was evicted to keep the cache within its capacity.
    Size,
}

/// When the eviction listener is called.
#[derive(Clone, Copy, Debug, PartialEq, Eq, Structural)]
pub enum DeliveryMode {
    /// The listener is called at once, while the entry is being removed.
    Immediate,
    /// Removals are queued and the listener is called later from the queue.
    Queued,
}

impl Default for DeliveryMode {
    fn default() -> (m: Self)
        ensures
            m == DeliveryMode::Immediate,
    {
        DeliveryMode::Immediate
    }
}

/// The configuration of an eviction listener.
#[derive(Clone, Copy, Debug, PartialEq, Eq, Structural)]
pub struct Configuration {
    mode: DeliveryMode,
}

impl Configuration {
    /// The delivery mode of the listener.
    pub closed spec fn spec_delivery_mode(&self) -> DeliveryMode {
        self.mode
    }

    /// A builder of a configuration, with the default delivery mode.
    pub fn builder() -> (b: ConfigurationBuilder)
        ensures
            b.spec_delivery_mode() == DeliveryMode::Immediate,
    {
        ConfigurationBuilder { mode: DeliveryMode::Immediate }
    }

    /// The delivery mode of the listener.
    #[verifier::when_used_as_spec(spec_delivery_mode)]
    pub fn delivery_mode(&self) -> (m: DeliveryMode)
        ensures
            m == self.spec_delivery_mode(),
    {
        self.mode
    }
}

impl Default for Configuration {
    fn default() -> (c: Self)
        ensures
            c.spec_delivery_mode() == DeliveryMode::Immediate,
    {
        Configuration { mode: DeliveryMode::Immediate }
    }
}

/// Builds a `Configuration`.
#[derive(Clone, Copy, Debug)]
pub struct ConfigurationBuilder {
    mode: DeliveryMode,
}

impl ConfigurationBuilder {
    /// The delivery mode that the built configuration will have.
    pub closed spec fn spec_delivery_mode(&self) -> DeliveryMode {
        self.mode
    }

    /// The configuration with the chosen delivery mode.
    pub fn build(self) -> (c: Configuration)
        ensures
            c.spec_delivery_mode() == self.spec_delivery_mode(),
    {
        Configuration { mode: self.mode }
    }

    /// Chooses the delivery mode.
    pub fn delivery_mode(self, mode: DeliveryMode) -> (b: Self)
        ensures
            b.spec_delivery_mode() == mode,
    {
        ConfigurationBuilder { mode }
    }
}

impl Default for ConfigurationBuilder {
    fn default() -> (b: Self)
        ensures
            b.spec_delivery_mode() == DeliveryMode::Immediate,
    {
        ConfigurationBuilder { mode: DeliveryMode::Immediate }
    }
}

} // verus!
