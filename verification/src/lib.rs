//! Message-handling logic of a Discord assistant bot backed by a local
//! language-model server: configuration, slash commands and the command line,
//! mention detection, prompt assembly, attachment budgets, memory sanitising,
//! web search results and linked pages, model requests and sandbox planning.

pub mod text;
pub mod env_key;
pub mod config;
pub mod attachments;
pub mod bot;
pub mod commands;
pub mod cli;
pub mod memory;
pub mod llama;
pub mod sandbox;
pub mod web_search;
