//! Metadata a dataset loader hands the engine: the cached local
//! artifact and its content fingerprint.

use vstd::prelude::*;

verus! {

/// A content fingerprint, tagged with the algorithm that produced it.
pub enum FileHash {
    Sha256(String),
    Sha512(String),
    Md5(String),
    RustHasher(String),
}

impl FileHash {
    /// The digest text, whichever algorithm produced it.
    pub open spec fn spec_digest(&self) -> Seq<char> {
        match self {
            FileHash::Sha256(h) => h@,
            FileHash::Sha512(h) => h@,
            FileHash::Md5(h) => h@,
            FileHash::RustHasher(h) => h@,
        }
    }

    /// Reads the digest text out of the tag, as the engine does before
    /// the skip/run decision.
    pub fn digest(&self) -> (r: &String)
        ensures
            r@ == self.spec_digest(),
    {
        match self {
            FileHash::Sha256(h) => h,
            FileHash::Sha512(h) => h,
            FileHash::Md5(h) => h,
            FileHash::RustHasher(h) => h,
        }
    }
}

/// Where a loader's artifact was cached and what its bytes hash to.
pub struct CmsMetadata {
    /// Path of the cached local artifact.
    pub file: String,
    pub file_hash: FileHash,
}

/// The outcome a loader reports for one fetch.
pub struct CmsDataResult {
    pub metadata: CmsMetadata,
}

} // verus!
