pub mod activation;
pub mod builds;
pub mod bytes;
pub mod cli;
pub mod command;
pub mod copy;
pub mod data;
pub mod deploy;
pub mod deployment;
pub mod json;
pub mod names;
pub mod profile;
pub mod prompt;
pub mod push;
pub mod remote_protocol;
pub mod requests;
pub mod results;
pub mod rollout;
pub mod selection;
pub mod session;
pub mod sudo;
pub mod targets;
pub mod text;
