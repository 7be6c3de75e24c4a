pub mod laws;
pub mod pagination;
pub mod registry;
pub mod text;
pub mod web4;
