pub mod cloud_api_backend;
pub mod cloud_api_client;
pub mod comfyui_client;
pub mod filename_parser;
pub mod frame_interpolation;
pub mod generation_backend;
pub mod path_utils;
