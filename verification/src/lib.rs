pub mod actions;
pub mod args;
pub mod config;
pub mod keys;
pub mod laws;
pub mod listing;
pub mod order;
pub mod paths;
pub mod prompts;
pub mod render;
pub mod session;
pub mod sort;
pub mod state;
pub mod text;
pub mod version;
pub mod size;

pub use config::Action;
pub use listing::{Entry, SortMode};
pub use state::{State, run};
