//! One code quality tool to rule them all: the decisions behind `precious`,
//! which runs the linters and tidiers of a project.

pub mod chars;
pub mod cli;
pub mod duration;
pub mod error;
pub mod exit;
pub mod logger;
pub mod path;
pub mod precious;
pub mod report;
pub mod run;
pub mod search;
pub mod text;
