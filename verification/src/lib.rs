use vstd::prelude::*;

pub mod text;
pub mod segments;
pub mod caption;
pub mod studio;
pub mod render;
pub mod pipeline;
pub mod novaedit;
pub mod transcript;
pub mod pdf;
pub mod tasks;
pub mod codec;
pub mod media;
pub mod mcp;
pub mod config;
pub mod reframe;
pub mod wavespeed;
pub mod scraper;
pub mod llm;
pub mod voice;
pub mod repurpose;
pub mod youtube;
pub mod social;
pub mod analysis;
pub mod edits;
pub mod scenes;
pub mod assistant;
