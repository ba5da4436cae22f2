//! Retrieval storage for a conversational agent: records and their vector
//! embeddings kept side by side in SQLite, with the schema, statement and
//! encoding logic verified.

pub mod character;
pub mod chunk;
pub mod db;
pub mod embedding;
pub mod github;
pub mod knowledge;
pub mod mcp;
pub mod schema;
pub mod store;
pub mod table;
pub mod text;
pub mod types;
