//! Logical resource paths and the resource-provider boundary.

use vstd::prelude::*;
use vstd::string::StringExecFns;

use crate::model::Model;

verus! {

/// A slash-separated logical resource id (namespace and path), used as
/// the key for resource and atlas lookups. It is a string-keyed
/// identifier, not a filesystem path: composition is plain prefixing and
/// suffixing, with no traversal semantics.
#[derive(PartialEq, Eq, Debug)]
pub struct ResourcePath(pub String);

impl View for ResourcePath {
    type V = Seq<char>;

    open spec fn view(&self) -> Seq<char> {
        self.0@
    }
}

impl ResourcePath {
    /// The path with exactly the given id.
    pub fn new(id: &str) -> (r: ResourcePath)
        ensures
            r@ == id@,
    {
        ResourcePath(id.to_owned())
    }

    /// The path prefixed with `prefix`, e.g. `"models/"`.
    pub fn prepend(&self, prefix: &str) -> (r: ResourcePath)
        ensures
            r@ == prefix@ + self@,
    {
        ResourcePath(prefix.to_owned().concat(self.0.as_str()))
    }

    /// The path suffixed with `suffix`, e.g. `".json"`.
    pub fn append(&self, suffix: &str) -> (r: ResourcePath)
        ensures
            r@ == self@ + suffix@,
    {
        ResourcePath(self.0.clone().concat(suffix))
    }

    /// An exact copy of the path.
    pub fn copy_of(&self) -> (r: ResourcePath)
        ensures
            r == *self,
    {
        ResourcePath(self.0.clone())
    }
}

/// What fetching a model document yielded. Absence of the resource is
/// distinguished from a document that was found but did not match the
/// model schema.
#[derive(PartialEq, Eq, Debug)]
pub enum ModelFetch {
    /// The document was found and decoded.
    Found(Model),
    /// No resource exists under the path.
    Missing,
    /// A resource exists but is not a well-formed model document; carries
    /// a description of the defect.
    Malformed(String),
}

/// Supplies the raw game assets by logical path. Implemented by the
/// embedding host; the engine assumes nothing about what a call returns.
///
/// The host also decodes model JSON documents into [`Model`] values,
/// since the decoding runs through a JSON deserializer that stays outside
/// the verified engine.
pub trait ResourceProvider {
    /// Fetches and decodes the model document stored under `path`.
    fn get_model(&self, path: &ResourcePath) -> ModelFetch;

    /// Fetches the raw bytes (e.g. a texture PNG) stored under `path`.
    fn get_bytes(&self, path: &ResourcePath) -> Option<Vec<u8>>;
}

} // verus!
