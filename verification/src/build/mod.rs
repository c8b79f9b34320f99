//! Build-pipeline passes the library decides: the generated outputs, the
//! co-located asset copy plan, and the data the atproto passes inject into
//! docs and the site context.
pub mod atproto_site;
pub mod bsky_post;
pub mod content_assets;
pub mod markup;
pub mod standard_link;
pub mod well_known;

use vstd::prelude::*;

verus! {

/// One file to write: its `output_path` (relative to `output_dir`), the
/// rendered `content`, and the `id_path` of the doc it came from.
pub struct Output {
    pub output_path: String,
    pub content: String,
    pub id_path: String,
}

} // verus!
