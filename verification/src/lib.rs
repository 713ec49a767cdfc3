//! The operating logic of DM420, an FT8/FT4 station console.

pub mod bus_laws;
pub mod bus_view;
pub mod choices;
pub mod config_laws;
pub mod config_toml;
pub mod console;
pub mod flag;
pub mod format;
pub mod lane_finder;
pub mod lane_laws;
pub mod logging;
pub mod map_laws;
pub mod numbers;
pub mod panel_data;
pub mod panels;
pub mod relief;
pub mod ring;
pub mod section_laws;
pub mod send;
pub mod send_laws;
pub mod settings;
pub mod settings_laws;
pub mod startup_laws;
pub mod text;
pub mod text_laws;
pub mod theme;
pub mod types;
pub mod waterslide_panel;
