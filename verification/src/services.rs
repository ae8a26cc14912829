pub mod metadata_parser;
pub mod app_state;
pub mod signal_monitor;
pub mod station_registry;
