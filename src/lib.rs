pub mod document;
pub mod render;
pub mod text;
pub mod textgrid;
