//! System services: the configuration file.
pub mod config_service;
