//! Document parsing and line chunking with verified contracts.

pub mod text;
pub mod splitline;
pub mod splitline_laws;
pub mod validation;
pub mod error;
pub mod document;
pub mod image;
pub mod parser;
pub mod parser_pdf;
pub mod parser_excel;
pub mod parser_docx;
pub mod model;
pub mod token;
pub mod preview;
pub mod provider;
pub mod chunk;
pub mod cache;
pub mod embedding;
pub mod external;
pub mod collection;
pub mod vector;
pub mod embedders;
pub mod workflow;
