pub mod character;
pub mod lora;
pub mod project;
pub mod sprite;
