pub mod cursor;
pub mod ids;
pub mod json;
pub mod models;
pub mod orchestrator;
pub mod reply;
pub mod routing;
pub mod store;
pub mod text;
pub mod turns;
