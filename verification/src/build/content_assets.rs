//! Co-located media: every asset file found next to the content is mirrored
//! from `content_dir` into `output_dir` under its `content/`-relative subpath
//! (`content/blog/x.png` → `<output>/blog/x.png`).
use vstd::prelude::*;
use crate::text::{join_path, path_join};

verus! {

/// The (source, destination) copy for each asset, in order.
pub fn copy_plan(content_dir: &str, output_dir: &str, assets: &Vec<String>) -> (plan: Vec<(String, String)>)
    ensures
        plan@.len() == assets@.len(),
        forall|i: int|
            0 <= i < plan@.len() ==> (#[trigger] plan@[i]).0@ == join_path(content_dir@, assets@[i]@)
                && plan@[i].1@ == join_path(output_dir@, assets@[i]@),
{
    let mut plan: Vec<(String, String)> = Vec::new();
    let mut i: usize = 0;
    while i < assets.len()
        invariant
            i <= assets@.len(),
            plan@.len() == i,
            forall|k: int|
                0 <= k < i ==> (#[trigger] plan@[k]).0@ == join_path(content_dir@, assets@[k]@)
                    && plan@[k].1@ == join_path(output_dir@, assets@[k]@),
        decreases assets@.len() - i,
    {
        let rel = assets[i].as_str();
        plan.push((path_join(content_dir, rel), path_join(output_dir, rel)));
        i = i + 1;
    }
    plan
}

} // verus!
