//! Decoding of offline disaster-shelter exchange bundles: framed streams and nested bundles
//! of shelter capacity, route access, stock ledgers, fragmentary radio packets, report
//! templates and small automation scripts, reconciled into one session state.
use vstd::prelude::*;

pub mod analyzer;
pub mod arena;
pub mod bundle;
pub mod catalog;
pub mod checksum;
pub mod codec;
pub mod cursor;
pub mod dictionary;
pub mod error;
pub mod fragment;
pub mod frame;
pub mod inventory;
pub mod journal;
pub mod laws;
pub mod manifest;
pub mod model;
pub mod op_laws;
pub mod ops;
pub mod report;
pub mod route;
pub mod script;
pub mod session;
pub mod text;
pub mod textops;

pub use analyzer::{analyze_session, RiskReport};
pub use bundle::{decode_bundle, BundleDecoder};
pub use error::{DecodeError, ErrorKind, Result};
pub use frame::{parse_frame, parse_frames};
pub use journal::replay_journal;
pub use script::run_script;
pub use session::{decode_stream, SessionState};

use crate::frame::parse_frame_spec;
use crate::model::{Frame, FrameModel};
use crate::session::{decode_stream_spec, session_result};

verus! {

/// Decodes a stream (see `decode_stream`).
pub fn parse(data: &[u8]) -> (r: Result<SessionState>)
    requires
        !decode_stream_spec(data@).1,
    ensures
        session_result(r) == decode_stream_spec(data@).0,
{
    decode_stream(data)
}

/// The first frame of a stream (see `parse_frame`).
pub fn parse_one(data: &[u8]) -> (r: Result<Frame>)
    ensures
        match r {
            Ok(f) => parse_frame_spec(data@) == Ok::<FrameModel, DecodeError>(f@),
            Err(e) => parse_frame_spec(data@) == Err::<FrameModel, DecodeError>(e),
        },
{
    parse_frame(data)
}

} // verus!
