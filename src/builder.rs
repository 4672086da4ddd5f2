use vstd::prelude::*;

use crate::backend::{class_id, display_name, selection, BackendKind, DistBackend, Unsupported};

verus! {

/// A backend family as the host registers it: its name, its class identifier,
/// and the construction of its instances.
pub trait DistBuilder {
    /// The family this builder makes.
    spec fn backend_kind() -> BackendKind;

    /// Name under which the host lists the family.
    const NAME: &'static str;

    /// Class identifier under which the host registers the family.
    const VST3_CLASS_ID: [u8; 16];

    /// `NAME`, checked against the family's name.
    fn name() -> (r: &'static str)
        ensures
            r@ == display_name(Self::backend_kind()),
    ;

    /// `VST3_CLASS_ID`, checked against the family's identifier.
    fn vst3_class_id() -> (r: [u8; 16])
        ensures
            r@ == class_id(Self::backend_kind()),
    ;

    /// A backend of this family for `n_channels` channels, or `Unsupported`
    /// for any count but one or two.
    fn make(n_channels: usize) -> (r: Result<DistBackend, Unsupported>)
        ensures
            selection(Self::backend_kind(), n_channels, r),
    ;
}

/// Builds backends on the Rust port of the primitives.
pub struct RustBuilder;

impl DistBuilder for RustBuilder {
    open spec fn backend_kind() -> BackendKind {
        BackendKind::Rust
    }

    const NAME: &'static str = "Rust Distortion";

    /// The ASCII text `*RustDistortion*`.
    const VST3_CLASS_ID: [u8; 16] = [
        42, 82, 117, 115, 116, 68, 105, 115, 116, 111, 114, 116, 105, 111, 110, 42,
    ];

    fn name() -> (r: &'static str) {
        Self::NAME
    }

    fn vst3_class_id() -> (r: [u8; 16]) {
        let r = Self::VST3_CLASS_ID;
        proof {
            reveal_strlit("*RustDistortion*");
        }
        assert(r@ =~= class_id(BackendKind::Rust));
        r
    }

    fn make(n_channels: usize) -> (r: Result<DistBackend, Unsupported>) {
        DistBackend::make(BackendKind::Rust, n_channels)
    }
}

/// Builds backends on the binding to the C library.
pub struct CBuilder;

impl DistBuilder for CBuilder {
    open spec fn backend_kind() -> BackendKind {
        BackendKind::C
    }

    const NAME: &'static str = "C Distortion";

    /// The ASCII text `**C_Distortion**`.
    const VST3_CLASS_ID: [u8; 16] = [
        42, 42, 67, 95, 68, 105, 115, 116, 111, 114, 116, 105, 111, 110, 42, 42,
    ];

    fn name() -> (r: &'static str) {
        Self::NAME
    }

    fn vst3_class_id() -> (r: [u8; 16]) {
        let r = Self::VST3_CLASS_ID;
        proof {
            reveal_strlit("**C_Distortion**");
        }
        assert(r@ =~= class_id(BackendKind::C));
        r
    }

    fn make(n_channels: usize) -> (r: Result<DistBackend, Unsupported>) {
        DistBackend::make(BackendKind::C, n_channels)
    }
}

} // verus!
