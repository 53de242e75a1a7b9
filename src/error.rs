use vstd::prelude::*;

verus! {

/// Why a generation run stops before anything is emitted.
#[derive(Debug, Clone)]
pub enum Error {
    /// A type reference names neither a scalar type nor a type of the manifest.
    UnknownType(String),
    /// The naming policy cannot name the type with this key.
    Unnameable(String),
    /// A foreign type name lacks a marker that naming relies on: the `struct`
    /// and `*` around every name, or the `futhark_opaque` prefix of an
    /// anonymous record or sum.
    MissingMarker(String),
    /// Two types, or two entry points, share this key.
    DuplicateKey(String),
    /// The naming policy gives two types this same name.
    DuplicateName(String),
}

} // verus!
