//! Verified core of the retrospective service: retrospect validation,
//! storage and reports, sign-in rules, the monitoring pipeline's decisions,
//! webhook checks and commands, safety rules for automated fixes, and the
//! text helpers they share.
pub mod text;
pub mod replace;
pub mod safety;
pub mod json;
pub mod event;
pub mod string_set;
pub mod parse;
pub mod trigger;
pub mod error;
pub mod discord;
pub mod crypto;
pub mod github;
pub mod retro_dto;
pub mod retrospect;
pub mod calendar;
pub mod og;
pub mod health;
pub mod ai;
pub mod queue;
pub mod colors;
pub mod alert;
pub mod log_watcher;
pub mod processor;
pub mod auth;
pub mod storage;
pub mod report;
pub mod token;
pub mod config;
pub mod stable;
