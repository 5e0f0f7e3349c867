pub mod error;
pub mod message;
pub mod topic;
