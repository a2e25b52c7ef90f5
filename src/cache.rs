//! Keys and errors of the key-value cache that keeps login states. The cache
//! itself is reached over the network by the application; here are the parts
//! that decide what is asked of it.

use vstd::prelude::*;

verus! {

/// Ways in which a cache operation can fail.
#[derive(Debug, Clone, PartialEq, Eq)]
pub enum StateCacheError {
    SerializeError(String),
    ConnectionError(String),
    DeserializeError(String),
    CacheGetError(String),
    CacheSetError(String),
    CacheInvalidate(String),
}

/// A cache reached through a connection pool `P`, whose keys all carry one prefix.
#[derive(Debug, Clone)]
pub struct RedisCache<P> {
    pub redis_pool: P,
    pub key_prefix: String,
}

impl<P> RedisCache<P> {
    pub fn new(redis_pool: P, key_prefix: &str) -> (r: Self)
        ensures
            r.redis_pool == redis_pool,
            r.key_prefix@ == key_prefix@,
    {
        Self { redis_pool, key_prefix: key_prefix.to_owned() }
    }

    /// The cache key under which `key_suffix` is kept: the prefix, then the suffix.
    pub fn generate_key(&self, key_suffix: &str) -> (r: String)
        ensures
            r@ == self.key_prefix@ + key_suffix@,
    {
        let mut key = self.key_prefix.clone();
        key.append(key_suffix);
        key
    }
}

} // verus!
