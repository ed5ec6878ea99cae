//! A bounded channel over a power-of-two ring of slots that never blocks.
//!
//! Producers and consumers each keep a head (how far slots have been reserved)
//! and a tail (how far reserved slots have been given back). The way the two
//! indices of one side are synchronised is chosen per side, see [`modes`].
//!
//! A channel is made with `bounded` of [`spsc`], [`spmc`], [`mpsc`], [`mpmc`]
//! or [`custom`]. Every operation returns at once: with a value, or with the
//! reason why there is none.
//!
//! What a call returns depends on what other threads have done to the ring.
//! The contracts of the operations say what holds of every outcome; the
//! decisions that an operation takes on what it has read from the ring are
//! functions of their own with exact contracts ([`modes::calculate_available`],
//! [`modes::reserve`], [`ring::active::Active`]). What the protocol guarantees
//! of the ring as a whole is proved in [`model`].
use vstd::prelude::*;

pub mod atomic;
pub mod consumer;
pub mod custom;
pub mod hint;
pub mod index;
pub mod mem;
pub mod model;
pub mod modes;
pub mod mpmc;
pub mod mpsc;
pub mod producer;
pub mod ring;
pub mod spmc;
pub mod spsc;

verus! {

/// The ways in which a channel operation can fail.
#[derive(Debug, PartialEq, Eq, Structural, Clone, Copy)]
pub enum Error {
    /// The other side of the channel has gone away.
    Closed,
    /// There is nothing to receive right now.
    Empty,
    /// There is no room to send right now.
    Full,
    /// Exactly `n` items were asked for, fewer are waiting.
    NotEnoughItems,
    /// Exactly `n` items were asked for, fewer are waiting and no more will come.
    NotEnoughItemsAndClosed,
    /// Exactly `n` items were to be sent, there is room for fewer.
    NotEnoughSpace,
    /// A participant panicked while it held access to the channel.
    Poisoned,
    /// The limit of `u16::MAX - 1` consumers has been reached.
    TooManyConsumers,
    /// The limit of `u16::MAX - 1` producers has been reached.
    TooManyProducers,
}

impl Error {
    /// What the error says in words.
    pub open spec fn spec_description(self) -> Seq<char> {
        match self {
            Error::Closed => "Channel is closed"@,
            Error::Empty => "Channel is empty"@,
            Error::Full => "Channel is full"@,
            Error::NotEnoughItems => "Channel had items, but not as many as requested"@,
            Error::NotEnoughItemsAndClosed => "Channel is closed but still had items, but not as many as requested"@,
            Error::NotEnoughSpace => "Channel had room, but not enough room for all the items"@,
            Error::Poisoned => "Channel is poisoned"@,
            Error::TooManyConsumers => "Maximum amount of consumers in channel has been reached"@,
            Error::TooManyProducers => "Maximum amount of producers in channel has been reached"@,
        }
    }

    /// What the error says in words.
    pub fn description(&self) -> (text: &'static str)
        ensures
            text@ == self.spec_description(),
    {
        match self {
            Error::Closed => "Channel is closed",
            Error::Empty => "Channel is empty",
            Error::Full => "Channel is full",
            Error::NotEnoughItems => "Channel had items, but not as many as requested",
            Error::NotEnoughItemsAndClosed => "Channel is closed but still had items, but not as many as requested",
            Error::NotEnoughSpace => "Channel had room, but not enough room for all the items",
            Error::Poisoned => "Channel is poisoned",
            Error::TooManyConsumers => "Maximum amount of consumers in channel has been reached",
            Error::TooManyProducers => "Maximum amount of producers in channel has been reached",
        }
    }
}

} // verus!
