//! The configuration of the patcher.
use vstd::prelude::*;
use crate::midi::string_of;

verus! {

pub struct Config {
    pub view: bool,
    pub selected_patch: String,
}

impl Config {
    /// The view on, no patch selected.
    pub fn get_default() -> (c: Self)
        ensures
            c.view,
            c.selected_patch@ == Seq::<char>::empty(),
    {
        let empty = "";
        proof {
            reveal_strlit("");
        }
        Config { view: true, selected_patch: string_of(empty) }
    }
}

} // verus!
