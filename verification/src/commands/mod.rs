pub mod bevy_export;
pub mod character_commands;
pub mod comfyui;
pub mod comfyui_model;
pub mod generation;
pub mod image_processing;
pub mod model_download;
pub mod spritesheet;
