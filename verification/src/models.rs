//! Domain models: the versioned entity envelope, the job value it
//! wraps, and the schedule specification.

pub mod jobs;
pub mod run_at;

pub use jobs::Job;
pub use jobs::JobEvent;

use vstd::prelude::*;

verus! {

/// A content version, derived from a hash of the wrapped value, so
/// that it changes whenever the value's content changes.
#[derive(Debug, Clone, Copy, PartialEq, Eq, Hash, Structural)]
pub struct Version {
    pub hash: u64,
}

impl Version {
    /// Wrap a content hash as a version.
    pub fn new(hash: u64) -> (v: Version)
        ensures
            v == (Version { hash }),
    {
        Version { hash }
    }
}

/// The lifecycle tag of an envelope, set at creation and changed only
/// by store operations, never by content edits.
#[derive(Debug, Clone, Copy, PartialEq, Eq, Hash, Structural)]
pub enum Status {
    New(u8),
    Active(u8),
    Removed(u8),
}

/// The versioned entity envelope: a domain value together with its
/// opaque identity key, its content version and its lifecycle status.
#[derive(Debug)]
pub struct Model<T> {
    pub key: String,
    pub version: Version,
    pub status: Status,
    pub value: T,
}

/// The mathematical content of an envelope.
#[verifier::ext_equal]
pub ghost struct ModelV<V> {
    pub key: Seq<char>,
    pub version: Version,
    pub status: Status,
    pub value: V,
}

impl<T: View> View for Model<T> {
    type V = ModelV<<T as View>::V>;

    open spec fn view(&self) -> ModelV<<T as View>::V> {
        ModelV {
            key: self.key@,
            version: self.version,
            status: self.status,
            value: self.value@,
        }
    }
}

impl<T: DeepView> DeepView for Model<T> {
    type V = ModelV<<T as DeepView>::V>;

    open spec fn deep_view(&self) -> ModelV<<T as DeepView>::V> {
        ModelV {
            key: self.key@,
            version: self.version,
            status: self.status,
            value: self.value.deep_view(),
        }
    }
}

impl<T> Model<T> {
    /// Assemble an envelope from its parts.
    pub fn create_model(key: String, version: &Version, status: &Status, value: T) -> (m: Model<
        T,
    >)
        ensures
            m.key == key,
            m.version == *version,
            m.status == *status,
            m.value == value,
    {
        Model { key, version: *version, status: *status, value }
    }
}

} // verus!
