//! A scanner and recursive-descent parser for a small C-like language,
//! with the token and parser state modelled by views and every operation
//! specified over those views.

pub mod token;
pub mod character_stream;
pub mod text;
pub mod scanner;
pub mod parse_error;
pub mod parse_model;
pub mod parser;
pub mod parse_laws;
pub mod render;
pub mod scan_safety;
pub mod parse_safety;
