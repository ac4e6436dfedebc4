//! When the Carla project of a patch is started.
use vstd::prelude::*;
use crate::midi::same_name;

verus! {

/// A change to the patch `new_patch` starts its Carla project, ending the
/// one started before, unless `current_patch` is that patch already or the
/// project does not exist.
pub fn starts_carla_project(current_patch: &str, new_patch: &str, project_exists: bool) -> (b: bool)
    ensures
        b == (current_patch@ != new_patch@ && project_exists),
{
    !same_name(current_patch, new_patch) && project_exists
}

} // verus!
