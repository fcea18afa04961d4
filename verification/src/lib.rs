pub mod convert;
pub mod envelope;
pub mod indexer;
pub mod json;
pub mod laws;
pub mod outside;
pub mod request;
pub mod schema;
pub mod text;
