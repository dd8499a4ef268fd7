pub mod data;
pub mod result;
