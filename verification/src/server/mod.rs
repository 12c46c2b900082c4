//! What the client knows of the media server: the shape of its answers, the
//! addresses it is asked at, and the caches in front of the network.

pub mod client;
pub mod image_cache;
pub mod model;
pub mod network_cache;
