//! Decoding of catalogue book records from JSON, with text that borrows from
//! the input where the input allows it.

pub mod adapter;
pub mod decode;
pub mod encode;
pub mod error;
pub mod fields;
pub mod inline;
pub mod json;
pub mod laws;
pub mod mapping;
pub mod record;
pub mod response;
pub mod text;
pub mod vecmap;
