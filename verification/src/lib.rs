pub mod arguments;
pub mod cli;
pub mod errors;
pub mod glob;
pub mod listing;
pub mod partial_file;
pub mod seen_directories;
pub mod transfer;
pub mod uri;
