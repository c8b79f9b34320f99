pub mod text;
pub mod html;
pub mod slug;
pub mod frontmatter;
pub mod doc;
pub mod atproto;
pub mod permalink;
pub mod publish;
pub mod index;
pub mod build;
pub mod tera_env;
pub mod paths;
pub mod clean;
