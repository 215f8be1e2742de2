//! Verified core of a mod manager: pack discovery, load-order resolution,
//! runner provisioning decisions and launch orchestration.

pub mod error;
pub mod text;
pub mod paths;
pub mod search;
pub mod json;
pub mod sort;
pub mod pack;
pub mod store;
pub mod dto;
pub mod profiles;
pub mod load_order;
pub mod presets;
pub mod settings;
pub mod provision;
pub mod launch;
