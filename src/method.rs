use vstd::prelude::*;

verus! {

/// The http methods an operation can be registered for: one slot each in a path item.
#[derive(Clone, Copy, Debug, PartialEq, Eq, Structural)]
pub enum HttpMethod {
    Get,
    Post,
    Put,
    Delete,
    Head,
    Options,
    Patch,
    Trace,
}

} // verus!
