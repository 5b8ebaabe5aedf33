//! Track and photo correlation for a static travel site.

pub mod article;
pub mod catalog;
pub mod config;
pub mod correlate;
pub mod geocode;
pub mod geometry;
pub mod instant;
pub mod listing;
pub mod order;
pub mod page;
pub mod paths;
pub mod pipeline;
pub mod run;
pub mod slug;
pub mod text;
pub mod track;
