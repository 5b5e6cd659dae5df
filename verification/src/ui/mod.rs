//! What the window shows and what its controls decide.
pub mod actions;
pub mod category;
pub mod category_map;
pub mod default_extensions;
pub mod delete;
pub mod format;
pub mod options;
pub mod platform;
pub mod projection;
pub mod save_settings;
pub mod sort;
pub mod state;
pub mod table;

pub use category::Category;
pub use crate::ui::format::{format_bytes, format_eta, format_speed};
pub use save_settings::SaveSettings;
pub use state::AppState;
pub use table::TableItem;
