//! Verified core of the VCP daemon: the incremental receiver that frames
//! VCP messages out of a byte stream, the jitter buffer that collects media
//! packets per connection, and the decisions the daemon's network loops take
//! on completed messages.
pub mod bytes;
pub mod text;
pub mod receiver;
pub mod receiver_laws;
pub mod jitter;
pub mod daemon;
