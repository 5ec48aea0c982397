//! Verified core of a Project Zomboid mod development tool: naming, templates,
//! metadata and Workshop validation, PNG previews, installed-copy discovery,
//! live-install planning, and structured output rendering.

pub mod text;
pub mod diagnostic;
pub mod error;
pub mod png;
pub mod naming;
pub mod templates;
pub mod process;
pub mod workshop_meta;
pub mod copies;
pub mod paths;
pub mod live;
pub mod sync;
pub mod output;
pub mod preview;
pub mod description;
pub mod metadata;
pub mod validation;
pub mod config;
pub mod layout;
pub mod cli;
pub mod staging;
pub mod replace;
pub mod artifact;
pub mod scaffold;
pub mod environment;
pub mod changelog;
