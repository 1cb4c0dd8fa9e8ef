//! The verified core of a home-automation gateway: the add-on supervisor, the
//! per-add-on session state machine, the device catalog, the fan-out hub and
//! the front-door request classifier, each as a deterministic state machine
//! whose effects are returned to the caller as plain values.

pub mod adapter;
pub mod addon;
pub mod addon_configuration;
pub mod addon_instance;
pub mod addon_manager;
pub mod addon_socket;
pub mod api_gateway;
pub mod config;
pub mod db;
pub mod device;
pub mod error;
pub mod json;
pub mod jwt;
pub mod macros;
pub mod model;
pub mod models;
pub mod process_manager;
pub mod registry;
pub mod router;
pub mod text;
pub mod things_socket;
pub mod user_config;
