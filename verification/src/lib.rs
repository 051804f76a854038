//! A first-in-first-out queue and the iteration capabilities a container can offer.

pub mod collections;
