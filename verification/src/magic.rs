//! Magic numbers identifying file formats.
//!
//! Each is written at the start of a file as a big-endian `u32`.

use vstd::prelude::*;

verus! {

/// Delta file formats.
#[derive(Debug, Copy, Clone)]
pub enum DeltaFormat {
    /// A delta file.
    ///
    /// There's only one format so far.
    Delta,
}

/// Signature file formats.
#[derive(Debug, Copy, Clone)]
pub enum SignatureFormat {
    /// A signature file with MD4 magic. (Deprecated because insecure.)
    Md4Sig,
    /// A signature file with BLAKE2 strong signatures. (Current.)
    Blake2Sig,
}

impl DeltaFormat {
    /// The magic number of the format: `"rs\x026"` for a delta.
    pub open spec fn spec_to_u32(self) -> u32 {
        0x7273_0236
    }

    /// The magic number of the format.
    #[verifier::when_used_as_spec(spec_to_u32)]
    pub fn to_u32(self) -> (magic: u32)
        ensures
            magic == self.spec_to_u32(),
    {
        match self {
            DeltaFormat::Delta => 0x7273_0236,
        }
    }
}

impl SignatureFormat {
    /// The magic number of the format: `"rs\x016"` with MD4, `"rs\x017"` with
    /// BLAKE2.
    pub open spec fn spec_to_u32(self) -> u32 {
        match self {
            SignatureFormat::Md4Sig => 0x7273_0136,
            SignatureFormat::Blake2Sig => 0x7273_0137,
        }
    }

    /// The magic number of the format.
    #[verifier::when_used_as_spec(spec_to_u32)]
    pub fn to_u32(self) -> (magic: u32)
        ensures
            magic == self.spec_to_u32(),
    {
        match self {
            SignatureFormat::Md4Sig => 0x7273_0136,
            SignatureFormat::Blake2Sig => 0x7273_0137,
        }
    }
}

} // verus!
