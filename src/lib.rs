pub mod codec;
pub mod shadow;
pub mod types;
pub mod witness;
