//! Pieces of a coding agent's command line: images and paths pasted into the
//! terminal, feedback reports, a broker that keeps credentials out of child
//! processes, the catalog of a model provider, and the wire names of tools.
pub mod broker;
pub mod feedback;
pub mod minimax;
pub mod outside;
pub mod paste;
pub mod path;
pub mod path_laws;
pub mod text;
pub mod text_laws;
pub mod text_map;
pub mod tool_name;
