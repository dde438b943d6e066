pub mod engine;
pub mod index;
pub mod info;
pub mod models;
pub mod mora;
pub mod resource_manager;
pub mod result;
pub mod speakers;
pub mod synthesis;
pub mod user_dict;
pub mod utils;
pub mod vvm_manager;
