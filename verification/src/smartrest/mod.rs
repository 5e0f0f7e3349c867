pub mod csv;
pub mod error;
pub mod payload;
pub mod message_ids;
pub mod topic;
pub mod inventory;
pub mod operations;
pub mod alarm;
