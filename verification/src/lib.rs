//! A mode-driven streaming agent runtime, as verified decisions.

pub mod accumulator;
pub mod agent;
pub mod dataset_group;
pub mod generate;
pub mod json;
pub mod laws;
pub mod message;
pub mod metrics;
pub mod multi_agent;
pub mod paths;
pub mod request;
pub mod response;
pub mod run;
pub mod search;
pub mod setup;
pub mod state;
pub mod text;
pub mod tools;
pub mod trace;
