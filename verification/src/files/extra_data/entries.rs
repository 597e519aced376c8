//! The kinds of extra data entry.

pub mod display_configuration;
pub mod display_configurations_order;
pub mod flag_list_order;
pub mod simulation_paused;
pub mod simulation_speed;
pub mod world_type_data;
