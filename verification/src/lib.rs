//! A ledger for head-to-head wagers.
//!
//! A match-up pits two athletes against each other and collects the bets that
//! users place on either of them. Once a winner is declared, the ledger
//! settles the bets: those who backed the winner share the pot of those who
//! did not, each in proportion to the stake, and the others lose their
//! stakes. The repository keeps the match-ups of one store in order and
//! keeps count of whether the backing file still has to be written.
//!
//! A stake has the type that the caller chose for money. The ledger computes
//! with the operators of that type and states what it does in their terms.

pub mod data;
mod filters;
pub mod payout;
pub mod position;
pub mod repository;
pub mod settlement;
pub mod stake;
