pub mod parsed;
pub mod variant;
pub mod engine;
pub mod verify;
