use vstd::prelude::*;

use crate::builder::{CBuilder, DistBuilder, RustBuilder};
use crate::pipeline::{block_steps, BlockRun};

verus! {

/// The family of DSP primitives that a backend runs on.
#[derive(Clone, Copy, Debug, PartialEq, Eq, Structural)]
pub enum BackendKind {
    /// The self-contained Rust port of the primitives.
    Rust,
    /// The binding to the precompiled C library.
    C,
}

/// Construction was asked for a channel count that no backend supports.
#[derive(Clone, Copy, Debug, PartialEq, Eq, Structural)]
pub struct Unsupported {
    pub n_channels: usize,
}

/// The channel counts a backend can be built for: mono and stereo.
pub open spec fn supported_channels(n_channels: usize) -> bool {
    n_channels == 1 || n_channels == 2
}

/// The name under which a backend is registered with the host.
pub open spec fn display_name(kind: BackendKind) -> Seq<char> {
    match kind {
        BackendKind::Rust => "Rust Distortion"@,
        BackendKind::C => "C Distortion"@,
    }
}

/// The ASCII codes of the characters of `s`.
pub open spec fn ascii(s: Seq<char>) -> Seq<u8> {
    Seq::new(s.len(), |i: int| s[i] as u8)
}

/// The 16-byte class identifier under which a backend is registered with the host.
pub open spec fn class_id(kind: BackendKind) -> Seq<u8> {
    match kind {
        BackendKind::Rust => ascii("*RustDistortion*"@),
        BackendKind::C => ascii("**C_Distortion**"@),
    }
}

impl BackendKind {
    /// Display name of the backend family.
    pub fn name(self) -> (r: &'static str)
        ensures
            r@ == display_name(self),
    {
        match self {
            BackendKind::Rust => RustBuilder::name(),
            BackendKind::C => CBuilder::name(),
        }
    }

    /// Class identifier of the backend family.
    pub fn vst3_class_id(self) -> (r: [u8; 16])
        ensures
            r@ == class_id(self),
    {
        match self {
            BackendKind::Rust => RustBuilder::vst3_class_id(),
            BackendKind::C => CBuilder::vst3_class_id(),
        }
    }
}

/// A distortion backend: the family of its primitives and the number of
/// channels whose stage states it keeps, both fixed at construction.
#[derive(Clone, Copy, Debug, PartialEq, Eq, Structural)]
pub struct DistBackend {
    kind: BackendKind,
    n_channels: usize,
}

/// What selecting a backend of `kind` for `n_channels` channels gives: a backend
/// of that family and channel count when the count is supported, else `Unsupported`
/// carrying the count.
pub open spec fn selection(
    kind: BackendKind,
    n_channels: usize,
    r: Result<DistBackend, Unsupported>,
) -> bool {
    match r {
        Ok(b) => supported_channels(n_channels) && b.kind_spec() == kind && b.n_channels_spec()
            == n_channels,
        Err(e) => !supported_channels(n_channels) && e == (Unsupported { n_channels }),
    }
}

impl DistBackend {
    #[verifier::type_invariant]
    spec fn inv(self) -> bool {
        supported_channels(self.n_channels)
    }

    pub closed spec fn kind_spec(self) -> BackendKind {
        self.kind
    }

    pub closed spec fn n_channels_spec(self) -> usize {
        self.n_channels
    }

    /// Builds a backend of `kind` for `n_channels` channels; any count but one or
    /// two is refused.
    pub fn make(kind: BackendKind, n_channels: usize) -> (r: Result<DistBackend, Unsupported>)
        ensures
            selection(kind, n_channels, r),
    {
        if n_channels == 1 || n_channels == 2 {
            Ok(DistBackend { kind, n_channels })
        } else {
            Err(Unsupported { n_channels })
        }
    }

    pub fn kind(&self) -> (r: BackendKind)
        ensures
            r == self.kind_spec(),
    {
        self.kind
    }

    pub fn n_channels(&self) -> (r: usize)
        ensures
            r == self.n_channels_spec(),
            supported_channels(r),
    {
        proof {
            use_type_invariant(self);
        }
        self.n_channels
    }

    /// Starts processing `n_samples` samples of `channel`: the run hands out
    /// exactly the steps of `block_steps(channel, 0, n_samples)`, whatever this
    /// backend processed before.
    pub fn begin(&self, channel: usize, n_samples: usize) -> (r: BlockRun)
        requires
            channel < self.n_channels_spec(),
        ensures
            r.steps_left() == block_steps(channel, 0, n_samples as nat),
    {
        BlockRun::new(channel, n_samples)
    }
}

} // verus!
