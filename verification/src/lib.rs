//! The native side of Philomena, verified.
//!
//! - `camo`: which image URLs are served as they are, and the signed relay URLs of the
//!   others.
//! - `domains`: the registry of first-party hosts, and links to them in host-relative form.
//! - `zip`: the life of an archive writer handle.
//! - `markdown`, `furbooru_markdown`, `philomena_markdown`: rendering, around the renderer.
//! - `urls`, `encoding`, `text`: what the others stand on.

pub mod camo;
pub mod domains;
pub mod encoding;
pub mod furbooru_markdown;
pub mod markdown;
pub mod philomena_markdown;
pub mod text;
pub mod urls;
pub mod zip;
