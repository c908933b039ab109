//! Request-handling core of an image/text embedding server: the bounded
//! concurrency gate, the streaming upload assembler, the integer part of the
//! image normalizer and the text tokenizer adapter.

pub mod geometry;
pub mod image_prep;
pub mod assembler;
pub mod gate;
pub mod tokenize;
pub mod config;
pub mod service;
