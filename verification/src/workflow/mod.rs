pub mod definition;
pub mod engine;
pub mod loader;
pub mod script;
pub mod state;
pub mod sub_operation;
pub mod supervisor;
pub mod template;
