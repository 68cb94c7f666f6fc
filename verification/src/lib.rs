//! Decision logic of a market-data collector for the B3 exchange.
//!
//! The collector keeps a line-oriented text session to a quote server,
//! answers the server's login prompts, subscribes to a long list of
//! instruments in paced chunks, stamps every line it receives and spreads
//! the lines in batches over a fixed set of writer shards.
//!
//! Nothing in this crate touches a socket, a file or a timer; all it asks
//! of the machine is the time of day. Each long-running task is a state
//! machine: the caller performs the action a step asks for and reports
//! what happened.
pub mod archive;
pub mod assets;
pub mod batcher;
pub mod clock;
pub mod collector;
pub mod config;
pub mod control;
pub mod counters;
pub mod daily;
pub mod futures;
pub mod handshake;
pub mod lines;
pub mod params;
pub mod retry;
pub mod routing;
pub mod settings;
pub mod shard;
pub mod subscriber;
pub mod text;
