pub mod archive;
pub mod chunk_content;
pub mod slice_image;
