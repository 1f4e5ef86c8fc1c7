//! A central limit order book for one spot market, verified with Verus.
//!
//! Orders are matched in price-time priority against the resting orders of
//! the other side ([`placement`], on the pass that [`matching`] makes over a
//! [`book_side`]). A match is applied to the taker at once; what it owes the
//! maker waits as an event in a bounded queue ([`event_queue`]) until a
//! consumption applies it ([`settlement`]). Amounts are integers in native
//! units or in lots ([`lots`]); fee rates are in millionths and every
//! rounding is in the market's favour ([`market`]).
//!
//! [`state`] and [`processor`] hold the accounts of one exchange and run its
//! instructions on them; [`context`] adds the traders and referrers of a
//! test bench, whose addresses come from the host chain ([`keys`]) and whose
//! oracle prices are fixed-point decimals ([`oracle`]).
//!
//! What holds of every pass and every placement is proved in
//! [`matching_laws`] and [`placement_laws`].

pub mod address;
pub mod book_side;
pub mod cancel;
pub mod context;
pub mod event_queue;
pub mod instruction;
pub mod keys;
pub mod lots;
pub mod market;
pub mod matching;
pub mod matching_laws;
pub mod oracle;
pub mod order;
pub mod placement;
pub mod placement_laws;
pub mod position;
pub mod processor;
pub mod settlement;
pub mod state;
pub mod tokens;
pub mod types;
