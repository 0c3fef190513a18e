//! Bilateral, privacy-preserving order matching.
//!
//! Two parties learn whether any of their orders cross (equal price, opposite
//! side) while the orders that do not cross stay hidden. One party encrypts
//! its batch under a key pair made for the round and sends the ciphertexts
//! with the evaluation key. The other compares them, still encrypted, with
//! its own plaintext book and returns a matrix of encrypted answers, which
//! only the first party can open.
//!
//! - `common`: orders, the terms and errors of a round, and the bounded
//!   encoding of single ciphertexts.
//! - `matching`: what crossing means in plaintext, and its laws.
//! - `session`: the parameters and the keys of a round.
//! - `encoder`, `evaluator`, `resolver`: the three steps of a round.
//! - `transport`: the two messages of a round.
//! - `round`: the steps in their order, for each party and for both at once.
//! - `test_data`: ready-made order books.
//! - `provider`: what is taken on trust from the homomorphic scheme.
//! - `scan`: the first position at which a check fails.

pub mod common;
pub mod encoder;
pub mod evaluator;
pub mod matching;
pub mod provider;
pub mod resolver;
pub mod round;
pub mod scan;
mod sealed;
pub mod session;
pub mod test_data;
pub mod transport;
