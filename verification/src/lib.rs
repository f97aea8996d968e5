//! An in-memory, tree-structured virtual filesystem that a text-driven client
//! navigates and mutates through path expressions.

pub mod text;
pub mod error;
pub mod path;
pub mod token;
pub mod filesystem;
pub mod player;
pub mod programs;
pub mod world;
pub mod shop;
pub mod command;
pub mod session;
