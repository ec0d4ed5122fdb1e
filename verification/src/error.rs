//! The error taxonomy of the bake pipeline. Every failure aborts the
//! whole bake call that triggered it and is returned, never panicked.

use vstd::prelude::*;

use crate::model::TextureValue;
use crate::resource::ResourcePath;

verus! {

/// Why a bake (or a model resolution inside it) failed.
#[derive(PartialEq, Eq, Debug)]
pub enum MeshBakeError {
    /// A texture variable could not be closed to a concrete texture id
    /// after the full parent-chain merge; carries the offending binding.
    UnresolvedTextureReference { key: String, value: TextureValue },
    /// A referenced model or texture resource could not be fetched;
    /// carries the path that was asked for.
    UnresolvedResourcePath(ResourcePath),
    /// A fetched document did not match the model schema; carries the
    /// provider's description of the defect.
    JsonShapeError(String),
    /// A model's parent chain revisits a model id; carries the id.
    CircularParentChain(String),
    /// A model's parent chain exceeds the supported depth without
    /// closing; carries the id at which the walk stopped.
    ParentChainTooDeep(String),
}

} // verus!
