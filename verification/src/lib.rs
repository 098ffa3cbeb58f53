//! Verified core of the Nucleus content management tool: project layout,
//! configuration model, server assembly, template rendering and the text
//! handling that the command-line front end relies on.

pub mod commands;
pub mod frameworks;
pub mod path;
pub mod project;
pub mod server;
pub mod text;
