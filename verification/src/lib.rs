pub mod bounded;
pub mod button;
pub mod display;
pub mod lcd;
pub mod renderer;
pub mod text;
pub mod wire;
