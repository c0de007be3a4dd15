pub mod audit;
pub mod cli;
pub mod config;
pub mod crawler;
pub mod diff;
pub mod error;
pub mod fetcher;
pub mod model;
pub mod paint;
pub mod report;
pub mod parser;
pub mod pipeline;
pub mod score;
pub mod server;
pub mod robots;
pub mod text;
pub mod weburl;
