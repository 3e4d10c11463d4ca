//! Logic of a community chat bot: a quarantine service that restricts a
//! member for a bounded term and releases them again, and the small
//! commands around it (dice, primes, a toy-language interpreter).

pub mod ai;
pub mod bf;
pub mod commands;
pub mod counter;
pub mod dice;
pub mod dispatch;
pub mod help;
pub mod history;
pub mod mention;
pub mod notice;
pub mod parser;
pub mod pattern;
pub mod prime;
pub mod quarantine;
pub mod registry;
pub mod term;
pub mod text;
pub mod words;
