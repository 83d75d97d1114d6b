# lib

Verified pieces of a concurrent in-memory cache.

- `future::builder::CacheBuilder` collects a cache's configuration (name,
  capacities, weigher, eviction listener, time to live, time to idle,
  invalidation support) and builds a `future::cache::Cache`; building needs
  both expirations to be at most 1000 years, which `validate` checks.
- `common::deque::Deque` is a queue of cache entries kept as nodes linked by
  slot index, so that an entry is unlinked or moved to the back through its
  handle in constant time; `common::deques::Deques` holds the three
  access-order queues and the write-order queue of a cache.
- `time::Duration` is the span of time that the configuration uses.

`app/` holds the conversions to and from `std::time::Duration` and the
building functions that panic, as callers of the standard API expect.
