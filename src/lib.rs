//! Building and driving chains of host commands.
//!
//! A [`chain::CommandChain`] is an ordered list of steps. Driving it hands out
//! one command line at a time; whoever runs the command reports its outcome
//! back, and the chain decides what comes next.
pub mod command;
pub mod text;
pub mod chain;
pub mod configure;
pub mod digitalocean;
