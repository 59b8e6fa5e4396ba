pub mod connect_network;
pub mod errors;
pub mod get_interfaces;
pub mod get_networks;
pub mod network_data;
pub mod network_stats;
pub mod sys;
pub mod text;
