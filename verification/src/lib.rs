//! Text processing for the jOS emoji keyboard resources and release scripts.
pub mod text;
pub mod groups;
pub mod emoji_test;
pub mod xml_array;
pub mod array_tables;
pub mod kaomoji;
pub mod categories;
pub mod cli;
pub mod manage;
pub mod fork;
pub mod ci;
