pub mod buffer;
pub mod command_interpreter;
pub mod data_type;
pub mod decoder;
pub mod encoder;
pub mod laws;
pub mod errors;
pub mod store;
pub mod wire;
