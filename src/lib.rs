pub mod hand_score;
pub mod json;
pub mod text;
pub mod json_file_updater;
pub mod translations;
pub mod user_settings;
pub mod user_state;
pub mod user_state_updaters;
pub mod telegram_bot;
pub mod version;
