//! Streams fed by a channel, with one message always received in advance.
//!
//! [`overeager_receivers::OvereagerReceiver`] turns the receiving half of a
//! channel into a pull-based stream: reading the current message never waits,
//! and only advancing to the next message blocks on the channel.

pub mod overeager_receivers;
pub mod transport;
