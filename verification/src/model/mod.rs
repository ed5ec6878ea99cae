//! What the protocol of heads and tails guarantees.
//!
//! The operations of a channel act on state that threads share, so their
//! contracts bound what a call can return and leave open what it finds. The
//! modules here say what the protocol makes of that state.
//!
//! - [`indices`] follows the heads and the tails through the steps in which
//!   participants move them, in any order, and shows that the ring is never
//!   oversubscribed.
//! - [`interleaved`] follows the values through the steps of producers and
//!   consumers that hold claims at the same time, and shows that the value
//!   read from a slot is the value that was sent into it, that none is read
//!   twice and none is lost.
//! - [`participants`] follows the count of producers and consumers through
//!   their joining and leaving, and shows that a side that has closed stays
//!   closed and that the ring is ended once.
//! - [`relaxed`] follows the claims of a side with a relaxed tail, and shows
//!   that the tail is moved exactly when no claim is out and never past a
//!   slot that is not written.
//! - [`sequential`] follows the values through sends and receives that run one
//!   after the other, and shows that the ring is a queue: what is received is
//!   what was sent, in the order in which it was sent, and a send or a receive
//!   fails exactly when the ring is full, empty or closed.
pub mod indices;
pub mod interleaved;
pub mod participants;
pub mod relaxed;
pub mod sequential;
