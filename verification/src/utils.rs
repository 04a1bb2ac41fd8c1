//! Small utilities.
use std::marker::PhantomData;
use std::rc::Rc;
use vstd::prelude::*;

verus! {

/// A phantom type which is not `Send` and also not `Sync`.
#[derive(Debug, PartialEq, Eq, PartialOrd, Ord, Clone, Copy, Hash)]
pub struct PhantomUnsendUnsync {
    phantom: PhantomData<Rc<()>>,
}

impl PhantomUnsendUnsync {
    /// The only value of the type.
    pub closed spec fn only() -> Self {
        PhantomUnsendUnsync { phantom: PhantomData }
    }

    /// The only value of the type.
    pub fn new() -> (phantom: Self)
        ensures
            phantom == Self::only(),
    {
        PhantomUnsendUnsync { phantom: PhantomData }
    }
}

} // verus!
