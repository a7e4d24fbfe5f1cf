//! What the service is configured with.

use vstd::prelude::*;

verus! {

/// Where the backend is, and how many connections to it are kept.
#[derive(Debug, Clone, PartialEq, Eq)]
pub struct Config {
    pub redis_uri: String,
    pub redis_pool_size: usize,
}

/// The configuration, as mathematics sees it.
pub ghost struct ConfigView {
    pub redis_uri: Seq<char>,
    pub redis_pool_size: usize,
}

impl View for Config {
    type V = ConfigView;

    open spec fn view(&self) -> ConfigView {
        ConfigView { redis_uri: self.redis_uri@, redis_pool_size: self.redis_pool_size }
    }
}

} // verus!
