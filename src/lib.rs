//! Safe access to fields whose storage lives in an arena: proxies for shared and exclusive
//! access, repeated and map collections, and the tagged values that carry field data into
//! and out of that storage.

use vstd::prelude::*;

pub mod arena;
pub mod bridge;
pub mod map;
pub mod proxied;
pub mod repeated;
pub mod runtime;

pub use bridge::ProtoStr;
pub use map::{MapMut, MapView, ProtoMap, ProxiedInMapKey};
pub use proxied::{MutProxy, Proxied, ProxiedWithPresence, SettableValue, ViewProxy};
pub use repeated::{ProxiedInRepeated, Repeated, RepeatedIter, RepeatedMut, RepeatedView};

verus! {

/// Deserialization failed: the bytes are not a serialized message.
#[derive(Clone, Copy, Debug, PartialEq, Eq, Structural)]
pub struct ParseError;

impl ParseError {
    /// What went wrong, in words.
    pub fn message(&self) -> (r: String)
        ensures
            r@ == "Couldn't deserialize given bytes into a proto"@,
    {
        "Couldn't deserialize given bytes into a proto".to_owned()
    }
}

} // verus!
