//! Transaction-lifecycle engine of an ERC-20 payment driver.
//!
//! The engine turns ledger obligations ("this account owes this payment")
//! into on-chain transfers and reconciles the resulting transactions back
//! into settled or failed state:
//!
//! - [`ledger`] is the store of obligations and transactions, [`state`] its
//!   mathematical value with the invariant and the effect of every
//!   operation, [`model`] the records;
//! - [`nonce`] allocates an account's sequence numbers;
//! - [`submitter`] builds transactions for pending obligations and hands
//!   unsent transactions to the chain;
//! - [`poller`] takes in what the chain reports of submitted transactions,
//!   and [`settlement`] makes the notices for the settlement bus;
//! - [`scheduler`] puts the stages of a pass in their order;
//! - [`laws`] states what holds of every ledger and every course of events.
//!
//! The chain client, the signer and the settlement bus stay outside: their
//! answers reach the engine as plain values or through functions that the
//! caller passes in, and every decision that the engine takes on them is
//! stated in a contract. [`amount`], [`clock`], [`text`] and [`txhash`] hold
//! the values that the records are made of, [`seqs`] the lemmas on sequences
//! that the proofs share; [`banner`] computes the frames of the start-up
//! banner.

pub mod amount;
pub mod banner;
pub mod clock;
pub mod laws;
pub mod ledger;
pub mod model;
pub mod nonce;
pub mod poller;
pub mod scheduler;
pub mod seqs;
pub mod settlement;
pub mod state;
pub mod submitter;
pub mod text;
pub mod txhash;
