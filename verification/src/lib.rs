//! Protocol logic for locating a network-transfer console, listing what it
//! offers and copying an item from it in byte ranges, together with the rules
//! a stand-in console follows when it serves the same requests.
//!
//! Nothing here touches the network: requests are built and answers are read
//! as plain values, and the caller sends and receives.

pub mod client;
pub mod discovery;
pub mod error;
pub mod identity;
pub mod interfaces;
pub mod models;
pub mod range;
pub mod server;
pub mod text;
pub mod transfer;

pub use crate::client::Client;
pub use crate::discovery::{Console, NetworkTransferProtocol};
pub use crate::identity::generate_random_console_id;
pub use crate::range::Range;
