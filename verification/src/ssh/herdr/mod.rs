//! The Herdr controller: Herdr's public API and one direct terminal over an
//! authenticated connection.
pub mod choice_laws;
pub mod command;
pub mod exchange;
pub mod flow_laws;
pub mod handles;
pub mod input;
pub mod json;
pub mod metadata;
pub mod placing;
pub mod project;
pub mod project_laws;
pub mod records;
pub mod recovery;
pub mod request;
pub mod run;
pub mod runtime_laws;
pub mod select;
pub mod session;
pub mod settle;
pub mod terminal;
pub mod wire;
