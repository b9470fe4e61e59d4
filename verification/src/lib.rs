//! Verified core of the Cluddy desktop assistant: what it reads from editor
//! windows and source text, how it fingerprints the screen, how it keeps its
//! wiki, edits files and talks to its language model.
pub mod text;
pub mod paths;
pub mod code_context;
pub mod screenshot;
pub mod wiki;
pub mod file_edit;
pub mod claude;
pub mod web_search;
pub mod memory;
pub mod api;
pub mod assistant;
