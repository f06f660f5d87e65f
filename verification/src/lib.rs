//! Selects feed items by publish date and title keywords, and plans the
//! command that is run for each selected item.

pub mod config;
pub mod feed;
pub mod filter;
pub mod nesting;
pub mod plan;
pub mod pubdate;
pub mod template;
pub mod text;
