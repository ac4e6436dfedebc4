//! The events between the event loop and the beat view.
use vstd::prelude::*;

verus! {

#[derive(Copy, Clone, Debug, PartialEq, Eq, Structural)]
pub enum ToViewEvents {
    BEAT(u8),
}

#[derive(Copy, Clone, Debug, PartialEq, Eq, Structural)]
pub enum FromViewEvents {
    END,
}

} // verus!
