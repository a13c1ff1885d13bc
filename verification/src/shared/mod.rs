pub mod handle_gas_timing;
pub mod hmac256;
pub mod read_env;
