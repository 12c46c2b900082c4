//! Core logic of the Playarr desktop client: the data that the media server
//! returns, the caches that sit between the interface and the network, the
//! page navigation state, and the text that the interface shows.

pub mod text;
pub mod ui;
pub mod utils;
pub mod pages;
pub mod server;
pub mod sort;
pub mod store;
