//! Scaffolding of course documents from template packages: course-type
//! resolution, template catalog queries, validation and rendering.

pub mod assignments;
pub mod config;
pub mod discovery;
pub mod package;
pub mod search_engine;
pub mod template_engine;
pub mod template_validation;
pub mod text;
pub mod validation;
