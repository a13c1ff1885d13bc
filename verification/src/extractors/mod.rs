pub mod security;
pub mod state;
