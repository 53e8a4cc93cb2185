pub mod bytes;
pub mod keys;
pub mod wire;
pub mod records;
pub mod store;
pub mod resource;
pub mod guild;
pub mod permissions;
pub mod ancillary;
pub mod laws;
pub mod mentions;
pub mod interactions;
