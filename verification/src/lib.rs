//! Core of a markdown static-site pipeline: frontmatter extraction with
//! tolerant date parsing, markdown link rewriting and link collection, a
//! build-wide link registry, backlink resolution, and render dispatch.
pub mod datetime;
pub mod frontmatter;
pub mod laws;
pub mod link;
pub mod md_file;
pub mod site;
pub mod strutil;
