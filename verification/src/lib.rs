//! A small interpreter for an array-oriented expression language.

pub mod shape;
pub mod text;
pub mod array;
pub mod tokenizer;
pub mod node;
pub mod evaluator;
pub mod semantic_analyzer;
pub mod display;
pub mod parser;
pub mod lalr_parser;
pub mod visualizer;
pub mod interpreter;
pub mod messages;
pub mod repl;
pub mod laws;
pub mod web;
