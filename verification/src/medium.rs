//! The participating media that bound an object, as far as lights carry them.

use std::sync::Arc;
use vstd::prelude::*;

verus! {

/// A participating medium of the scene, known by its number there.
#[derive(Clone, Copy, Debug, PartialEq, Eq, Structural)]
pub struct Medium {
    pub id: u32,
}

/// The media on the two sides of a boundary. They belong to the scene and
/// are shared with everything else that refers to them.
#[derive(Clone)]
pub struct MediumInterface {
    pub inside: Option<Arc<Medium>>,
    pub outside: Option<Arc<Medium>>,
}

/// Another handle to a shared medium.
///
/// Calls `Arc::clone`, which gives a second pointer to the same allocation;
/// the contract states that the new handle refers to the same medium.
#[verifier::external_body]
fn share(medium: &Arc<Medium>) -> (shared: Arc<Medium>)
    ensures
        shared == *medium,
{
    Arc::clone(medium)
}

impl MediumInterface {
    /// A boundary with no medium on either side.
    pub open spec fn spec_vacuum() -> MediumInterface {
        MediumInterface { inside: None, outside: None }
    }

    /// A boundary with no medium on either side.
    pub fn vacuum() -> (mi: MediumInterface)
        ensures
            mi == MediumInterface::spec_vacuum(),
    {
        MediumInterface { inside: None, outside: None }
    }

    /// A second pair of handles to the same two media.
    pub fn share(&self) -> (mi: MediumInterface)
        ensures
            mi == *self,
    {
        let inside: Option<Arc<Medium>> = match &self.inside {
            Some(medium) => Some(share(medium)),
            None => None,
        };
        let outside: Option<Arc<Medium>> = match &self.outside {
            Some(medium) => Some(share(medium)),
            None => None,
        };
        MediumInterface { inside, outside }
    }
}

} // verus!
