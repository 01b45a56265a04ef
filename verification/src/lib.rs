pub mod chat;
pub mod cli;
pub mod config;
pub mod engine;
pub mod events;
pub mod execution;
pub mod json;
pub mod lines;
pub mod markup;
pub mod number;
pub mod ollama;
pub mod output;
pub mod paths;
pub mod replace;
pub mod sorting;
pub mod text;
pub mod tools;
pub mod tui;
pub mod view;
pub mod web;
