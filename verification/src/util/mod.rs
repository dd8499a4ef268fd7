pub mod dynamic_config;
pub mod string_tool;
