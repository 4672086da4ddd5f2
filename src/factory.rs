use vstd::prelude::*;

use crate::backend::{display_name, selection, BackendKind, DistBackend, Unsupported};

verus! {

/// A backend family that can be named and instantiated.
pub trait DistFactory {
    /// The family this factory makes.
    spec fn backend_kind() -> BackendKind;

    /// Name under which the host lists the family.
    const NAME: &'static str;

    /// `NAME`, checked against the family's name.
    fn name() -> (r: &'static str)
        ensures
            r@ == display_name(Self::backend_kind()),
    ;

    /// A backend of this family for `n_channels` channels, or `Unsupported`
    /// for any count but one or two.
    fn make(n_channels: usize) -> (r: Result<DistBackend, Unsupported>)
        ensures
            selection(Self::backend_kind(), n_channels, r),
    ;
}

/// Makes backends on the Rust port of the primitives.
pub struct RustFactory;

impl DistFactory for RustFactory {
    open spec fn backend_kind() -> BackendKind {
        BackendKind::Rust
    }

    const NAME: &'static str = "Rust Distortion";

    fn name() -> (r: &'static str) {
        Self::NAME
    }

    fn make(n_channels: usize) -> (r: Result<DistBackend, Unsupported>) {
        DistBackend::make(BackendKind::Rust, n_channels)
    }
}

/// Makes backends on the binding to the C library.
pub struct CFactory;

impl DistFactory for CFactory {
    open spec fn backend_kind() -> BackendKind {
        BackendKind::C
    }

    const NAME: &'static str = "C Distortion";

    fn name() -> (r: &'static str) {
        Self::NAME
    }

    fn make(n_channels: usize) -> (r: Result<DistBackend, Unsupported>) {
        DistBackend::make(BackendKind::C, n_channels)
    }
}

} // verus!
