//! The template environment's computations: `<head>` metadata rendering,
//! the URL and text filters, and the options the listing filters read from
//! their keyword arguments.
pub mod backlinks;
pub mod dirtree;
pub mod entries;
pub mod kwargs;
pub mod meta;
pub mod related;
pub mod text;
pub mod url;
