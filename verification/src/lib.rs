pub mod actors;
pub mod c8y_http_proxy;
pub mod cli;
pub mod compatibility_adapter;
pub mod entity_store;
pub mod firmware;
pub mod json;
pub mod json_codec;
pub mod mapper;
pub mod mqtt;
pub mod mqtt_topics;
pub mod order;
pub mod retry;
pub mod smartrest;
pub mod state_repository;
pub mod string_map;
pub mod text;
pub mod workflow;
