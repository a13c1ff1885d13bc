pub mod gas_channel;
