//! A generator of static sites: posts in markdown, with a header of six
//! lines each, become the pages of a blog and its feed.

pub mod calls;
pub mod collection;
pub mod date;
pub mod markdown;
pub mod metadata;
pub mod post;
pub mod relations;
pub mod render;
pub mod site;
pub mod templates;
pub mod text;

pub use crate::site::generate;
