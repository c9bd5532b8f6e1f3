use vstd::prelude::*;

use crate::error::Result;
use crate::session::{bundle_spec, checked_bundle_spec, decode_bundle_at, session_result, SessionState};

verus! {

/// Decodes shelter exchange bundles, numbering their sections across bundles.
#[derive(Clone, Debug, Default)]
pub struct BundleDecoder {
    pub sections: usize,
}

impl BundleDecoder {
    pub fn new() -> (d: Self)
        ensures
            d.sections == 0,
    {
        BundleDecoder { sections: 0 }
    }

    /// Decodes a bundle (see `bundle_spec`); its sections are numbered from the decoder's
    /// count, which ends counting the sections applied.
    pub fn decode(&mut self, data: &[u8]) -> (r: Result<SessionState>)
        requires
            !bundle_spec(data@, 0, old(self).sections as int).2,
        ensures
            session_result(r) == bundle_spec(data@, 0, old(self).sections as int).0,
            final(self).sections == bundle_spec(data@, 0, old(self).sections as int).1,
    {
        self.decode_checked(data)
    }

    /// Decodes a bundle as `decode` does, or returns `overflow_error()` where decoding would
    /// overflow (see `checked_bundle_spec`).
    pub fn decode_checked(&mut self, data: &[u8]) -> (r: Result<SessionState>)
        ensures
            session_result(r) == checked_bundle_spec(data@, old(self).sections as int),
            final(self).sections == bundle_spec(data@, 0, old(self).sections as int).1,
    {
        let (r, n) = decode_bundle_at(data, 0, self.sections);
        self.sections = n;
        r
    }
}

/// Decodes a bundle with a fresh decoder.
pub fn decode_bundle(data: &[u8]) -> (r: Result<SessionState>)
    requires
        !bundle_spec(data@, 0, 0).2,
    ensures
        session_result(r) == bundle_spec(data@, 0, 0).0,
{
    let mut decoder = BundleDecoder::new();
    decoder.decode(data)
}

/// Decodes a bundle with a fresh decoder, or returns `overflow_error()` where decoding would
/// overflow.
pub fn decode_bundle_checked(data: &[u8]) -> (r: Result<SessionState>)
    ensures
        session_result(r) == checked_bundle_spec(data@, 0),
{
    let mut decoder = BundleDecoder::new();
    decoder.decode_checked(data)
}

} // verus!
