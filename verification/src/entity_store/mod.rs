pub mod laws;
pub mod log;
pub mod model;
pub mod registration;
pub mod removal;
pub mod store;
