//! Naming of cgroups for display: each cgroup directory under the cgroup
//! v2 mount is named by its path relative to the mount, the root itself
//! by a fixed label. The walk descends a bounded number of levels.

use vstd::prelude::*;

verus! {

/// Mount point of the unified cgroup hierarchy.
pub const CGROUP_ROOT: &'static str = "/sys/fs/cgroup";

/// Deepest directory level the walk descends into (the root is level 0).
pub const MAX_DEPTH: usize = 32;

/// Whether the walk visits a directory `depth` levels below the root.
pub fn descend_allowed(depth: usize) -> (ok: bool)
    ensures
        ok == (depth <= MAX_DEPTH),
{
    depth <= MAX_DEPTH
}

/// Display name of the cgroup at relative path `rel` (empty for the root).
pub fn cgroup_display_name(rel: &str) -> (name: String)
    ensures
        name@ == (if rel@.len() == 0 {
            "(root)"@
        } else {
            rel@
        }),
{
    if rel.is_empty() {
        "(root)".to_owned()
    } else {
        rel.to_owned()
    }
}

} // verus!
