pub mod digest;
pub mod document;
pub mod lookup;
pub mod measure;
pub mod number;
pub mod order;
pub mod pieces;
pub mod scan;
pub mod text;
pub mod transcript;
