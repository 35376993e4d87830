pub mod sanitize;
pub mod template;
pub mod parameter;
pub mod cache;
pub mod header;
pub mod access_control;
