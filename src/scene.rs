pub mod chunk;
