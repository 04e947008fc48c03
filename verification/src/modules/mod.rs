pub mod help;
pub mod user_defined;
pub mod builtin;
pub mod shakespeare;
pub mod another_viewer;
pub mod crates;
pub mod twitch;
