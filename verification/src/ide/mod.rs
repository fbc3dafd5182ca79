pub mod agent;
pub mod filesystem;
