//! Core of a Tendermint-style light client: a verifier that decides whether a
//! candidate header may be trusted given an already-trusted header, a bisection
//! driver that advances trust to a target height, a fork detector that
//! cross-checks the primary against witnesses, and the light store that holds
//! verified blocks.

pub mod bisection;
pub mod client;
pub mod contracts;
pub mod errors;
pub mod hashing;
pub mod io;
pub mod scheduler;
pub mod store;
pub mod supervisor;
pub mod types;
pub mod verification;
