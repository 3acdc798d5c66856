//! The controllers that run over one authenticated connection.
pub mod answer;
pub mod capture;
pub mod capture_laws;
pub mod cleanup;
pub mod cleanup_laws;
pub mod command;
pub mod commit;
pub mod controller;
pub mod controller_laws;
pub mod flow;
pub mod herdr;
pub mod plan;
pub mod query;
pub mod reply_laws;
pub mod run;
pub mod runtime;
pub mod select_flow;
pub mod select_laws;
pub mod selection;
pub mod session_laws;
pub mod state;
pub mod sync;
pub mod sync_laws;
pub mod topology;
pub mod zoom_laws;
