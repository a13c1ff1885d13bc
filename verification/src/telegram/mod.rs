pub mod command;
pub mod data_check;
pub mod validate;
