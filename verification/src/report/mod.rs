//! Reports for people: the terminal summary of an audit.

pub mod terminal;
