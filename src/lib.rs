pub mod address;
pub mod error;
pub mod layout;
pub mod record;
pub mod registry;
