//! Documents: what extraction recovers, and how pages are told apart.
pub mod decode;
pub mod drawing;
pub mod error;
pub mod extractor;
pub mod layout;
pub mod lopdf_items;
pub mod models;
pub mod page_tree;
pub mod plain;
pub mod reconstruct;
pub mod rows;
pub mod sections;
pub mod shown;
