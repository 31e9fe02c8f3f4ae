pub mod text;
pub mod clock;
pub mod model;
pub mod dispatch;
pub mod app;
pub mod screen;
pub mod laws;
pub mod effects;
