use vstd::prelude::*;

use crate::analyzer::{analyze_overflows, analyze_session_checked, analyze_spec, analyzed_session};
use crate::codec::{codec_step, empty_codec, BitBackrefDecoder};
use crate::cursor::{le_u16, le_u32, Cursor};
use crate::dictionary::{dict_step, empty_dict, DictModel, Dictionary};
use crate::error::{overflow_error, DecodeError, ErrorKind, Result};
use crate::fragment::{empty_frag, frag_step, FragModel, FragmentReassembler};
use crate::frame::{parse_frames, parse_frames_spec};
use crate::inventory::{empty_ledger, ledger_panics, ledger_step, InventoryLedger, LedgerModel};
use crate::journal::{replay_journal, replay_journal_spec};
use crate::manifest::{empty_manifest, manifest_spec, Manifest, ManifestModel};
use crate::model::{frames_view, kind_of, Frame, FrameKind, FrameModel, JournalSummary, ScriptResult, TelemetryPoint};
use crate::ops::{run_ops, run_panics};
use crate::report::{empty_templates, template_step, TemplateBook, TemplateModel};
use crate::route::{empty_routes, route_panics, route_step, RouteBook, RouteModel};
use crate::script::{empty_vm, point_values, vm_run_overflows, vm_run_result, window_bound, ScriptVm, VmModel};

verus! {

/// How deeply bundles may nest inside bundles. A nested bundle travels in a section or frame
/// body of at most 65535 bytes and every level adds headers of its own, so inputs nest far
/// less deep than this; the bound gives the nested decoding a measure that decreases.
pub const MAX_NESTING: usize = 65536;

/// The state that a stream of frames builds.
#[derive(Clone, Debug)]
pub struct SessionState {
    pub dictionary: Dictionary,
    pub manifest: Manifest,
    pub routes: RouteBook,
    pub inventory: InventoryLedger,
    pub fragments: FragmentReassembler,
    pub reports: TemplateBook,
    pub telemetry: Vec<TelemetryPoint>,
    pub journal_summaries: Vec<JournalSummary>,
    pub script_results: Vec<ScriptResult>,
    pub codec_output: Vec<u8>,
    pub risk_score: i64,
}

/// What a session holds.
pub struct SessionModel {
    pub dictionary: DictModel,
    pub manifest: ManifestModel,
    pub routes: RouteModel,
    pub inventory: LedgerModel,
    pub fragments: FragModel,
    pub reports: TemplateModel,
    pub telemetry: Seq<TelemetryPoint>,
    pub journal_summaries: Seq<JournalSummary>,
    pub script_results: Seq<ScriptResult>,
    pub codec_output: Seq<u8>,
    pub risk_score: i64,
}

impl View for SessionState {
    type V = SessionModel;

    open spec fn view(&self) -> SessionModel {
        SessionModel {
            dictionary: self.dictionary@,
            manifest: self.manifest@,
            routes: self.routes@,
            inventory: self.inventory@,
            fragments: self.fragments@,
            reports: self.reports@,
            telemetry: self.telemetry@,
            journal_summaries: self.journal_summaries@,
            script_results: self.script_results@,
            codec_output: self.codec_output@,
            risk_score: self.risk_score,
        }
    }
}

/// The empty session.
pub open spec fn empty_session() -> SessionModel {
    SessionModel {
        dictionary: empty_dict(),
        manifest: empty_manifest(),
        routes: empty_routes(),
        inventory: empty_ledger(),
        fragments: empty_frag(),
        reports: empty_templates(),
        telemetry: Seq::empty(),
        journal_summaries: Seq::empty(),
        script_results: Seq::empty(),
        codec_output: Seq::empty(),
        risk_score: 0,
    }
}

/// The telemetry point whose 13 bytes start at `p`.
pub open spec fn point_at(d: Seq<u8>, p: int) -> TelemetryPoint {
    TelemetryPoint {
        shelter_id: le_u16(d, p),
        minute: le_u32(d, p + 2),
        occupancy: le_u16(d, p + 6),
        water_liters: le_u16(d, p + 8),
        medical_wait: le_u16(d, p + 10),
        flags: d[p + 12],
    }
}

/// Reading telemetry points from `p` onto `tel`: a point per 13 bytes, stopping once more
/// than 2048 points are held.
pub open spec fn telemetry_from(tel: Seq<TelemetryPoint>, d: Seq<u8>, p: int) -> Seq<TelemetryPoint>
    decreases d.len() - p,
{
    if p < 0 || d.len() - p < 13 {
        tel
    } else {
        let t2 = tel.push(point_at(d, p));
        if t2.len() > 2048 {
            t2
        } else {
            telemetry_from(t2, d, p + 13)
        }
    }
}

/// The bytes `CIRN` that open a bundle.
pub open spec fn bundle_magic() -> Seq<u8> {
    seq![0x43u8, 0x49, 0x52, 0x4e]
}

/// `d` opens with the bundle magic.
pub open spec fn starts_with_magic(d: Seq<u8>) -> bool {
    d.len() >= 4 && d.subrange(0, 4) == bundle_magic()
}

/// The error of a fragment frame reached from stitched fragments; decoding it would
/// stitch and replay the same fragments without end.
pub open spec fn fragment_loop_error() -> DecodeError {
    DecodeError { kind: ErrorKind::LimitExceeded, offset: 0, detail: "fragment frames nest without end" }
}

/// The error of bundles nested more than `MAX_NESTING` deep.
pub open spec fn nesting_error() -> DecodeError {
    DecodeError { kind: ErrorKind::LimitExceeded, offset: 0, detail: "bundles nest too deep" }
}

/// The error of a bundle that opens with four bytes other than `CIRN`.
pub open spec fn magic_error() -> DecodeError {
    DecodeError { kind: ErrorKind::BadMagic, offset: 0, detail: "bundle magic mismatch" }
}

/// The ranking that bounds nested decoding: it drops with each bundle level and from a frame
/// to the frames stitched from it.
pub open spec fn rank(depth: int, nested: bool) -> int {
    2 * (MAX_NESTING - depth) + if nested {
        0int
    } else {
        1int
    }
}

/// A script machine seeded with the telemetry of the session.
pub open spec fn seeded_vm(s: SessionModel) -> VmModel {
    VmModel { telemetry: point_values(s.telemetry, s.telemetry.len() as int), ..empty_vm() }
}

/// The session after finalizing: analysed, with its risk score set to the analysis score.
pub open spec fn finalized(s: SessionModel) -> SessionModel {
    SessionModel { risk_score: analyze_spec(s).score, ..analyzed_session(s) }
}

/// Applying a frame that nests no other frames: every kind but fragments and bundles.
#[verifier::opaque]
pub open spec fn leaf_frame_spec(s: SessionModel, f: FrameModel) -> (SessionModel, Result<()>, bool) {
    let d = f.payload;
    match f.kind {
        FrameKind::Dictionary => {
            let (m, r) = run_ops(dict_step(), s.dictionary, d, 0);
            (SessionModel { dictionary: m, ..s }, r, false)
        },
        FrameKind::Manifest => match manifest_spec(d) {
            Ok(m) => (SessionModel { manifest: m, ..s }, Ok(()), false),
            Err(e) => (s, Err(e), false),
        },
        FrameKind::Route => {
            let (m, r) = run_ops(route_step(s.dictionary), s.routes, d, 0);
            (SessionModel { routes: m, ..s }, r, run_panics(route_step(s.dictionary), route_panics(), s.routes, d, 0))
        },
        FrameKind::Inventory => {
            let (m, r) = run_ops(ledger_step(), s.inventory, d, 0);
            (SessionModel { inventory: m, ..s }, r, run_panics(ledger_step(), ledger_panics(), s.inventory, d, 0))
        },
        FrameKind::Script => {
            let vm = seeded_vm(s);
            let aborts = 2 * s.telemetry.len() >= window_bound() || vm_run_overflows(vm, d);
            match vm_run_result(vm, d) {
                Ok(res) => (SessionModel { script_results: s.script_results.push(res), ..s }, Ok(()), aborts),
                Err(e) => (s, Err(e), aborts),
            }
        },
        FrameKind::Journal => match replay_journal_spec(d) {
            Ok(sum) => (SessionModel { journal_summaries: s.journal_summaries.push(sum), ..s }, Ok(()), false),
            Err(e) => (s, Err(e), false),
        },
        FrameKind::Report => {
            let (m, r) = run_ops(template_step(s.dictionary), s.reports, d, 0);
            (SessionModel { reports: m, ..s }, r, false)
        },
        FrameKind::Codec => {
            let (m, r) = run_ops(codec_step(), empty_codec(), d, 0);
            match r {
                Ok(_) => (SessionModel { codec_output: s.codec_output + m.produced, ..s }, Ok(()), false),
                Err(e) => (s, Err(e), false),
            }
        },
        FrameKind::Telemetry => (SessionModel { telemetry: telemetry_from(s.telemetry, d, 0), ..s }, Ok(()), false),
        FrameKind::Unknown(_) => if f.flags & 1 != 0 {
            let (m, r) = run_ops(dict_step(), s.dictionary, d, 0);
            (SessionModel { dictionary: m, ..s }, r, false)
        } else {
            (s, Ok(()), false)
        },
        _ => (s, Ok(()), false),
    }
}

/// Applying a frame at bundle depth `depth`, `nested` when it comes from stitched fragments:
/// the session after it, whether it failed, and whether it aborts (an integer overflow of the
/// operations, or more telemetry than any machine holds).
///
/// Dictionary, route, inventory, template and journal frames run their payload as
/// operations (routes and templates resolving aliases in the dictionary); a manifest frame
/// replaces the manifest; a fragment frame runs its payload on the reassembler and then
/// applies the frames of every stitched message (skipping messages that do not read as
/// frames); a script frame runs its payload on a machine seeded with the telemetry and
/// records the result; a codec frame decodes a tile and appends its output; a telemetry
/// frame adds points; a bundle frame whose payload opens with `CIRN` is decoded one level
/// deeper and its risk score mixed in; an unknown frame flagged `0x01` runs as dictionary
/// operations.
pub open spec fn apply_frame_spec(s: SessionModel, f: FrameModel, depth: int, nested: bool) -> (
    SessionModel,
    Result<()>,
    bool,
)
    decreases rank(depth, nested), 0int, 0int,
{
    if depth < 0 || depth > MAX_NESTING {
        (s, Ok(()), false)
    } else {
        let d = f.payload;
        match f.kind {
            FrameKind::Fragment => {
                let (m, r) = run_ops(frag_step(), s.fragments, d, 0);
                let s1 = SessionModel { fragments: m, ..s };
                match r {
                    Err(e) => (s1, Err(e), false),
                    Ok(_) => if nested {
                        (s1, Err(fragment_loop_error()), false)
                    } else {
                        apply_stitched_spec(s1, m.stitched, 0, depth)
                    },
                }
            },
            FrameKind::Bundle => if starts_with_magic(d) {
                if depth + 1 > MAX_NESTING {
                    (s, Err(nesting_error()), false)
                } else {
                    let (r, sections, aborts) = bundle_spec(d, depth + 1, 0);
                    match r {
                        Ok(n) => (SessionModel { risk_score: s.risk_score ^ n.risk_score, ..s }, Ok(()), aborts),
                        Err(e) => (s, Err(e), aborts),
                    }
                }
            } else {
                (s, Ok(()), false)
            },
            _ => leaf_frame_spec(s, f),
        }
    }
}

/// Applying the frames of `fs` from `i` in order, until one fails or aborts.
pub open spec fn apply_frames_spec(s: SessionModel, fs: Seq<FrameModel>, i: int, depth: int, nested: bool) -> (
    SessionModel,
    Result<()>,
    bool,
)
    decreases rank(depth, nested), 1int, fs.len() - i,
{
    if i < 0 || i >= fs.len() {
        (s, Ok(()), false)
    } else {
        let (s2, r, aborts) = apply_frame_spec(s, fs[i], depth, nested);
        if aborts {
            (s2, r, true)
        } else {
            match r {
                Err(e) => (s2, Err(e), false),
                Ok(_) => apply_frames_spec(s2, fs, i + 1, depth, nested),
            }
        }
    }
}

/// Applying the frames of the stitched messages from `j`, as nested frames.
pub open spec fn apply_stitched_spec(s: SessionModel, runs: Seq<Seq<u8>>, j: int, depth: int) -> (
    SessionModel,
    Result<()>,
    bool,
)
    decreases rank(depth, true), 2int, runs.len() - j,
{
    if j < 0 || j >= runs.len() {
        (s, Ok(()), false)
    } else {
        match parse_frames_spec(runs[j]) {
            Ok(fs) => {
                let (s2, r, aborts) = apply_frames_spec(s, fs, 0, depth, true);
                if aborts {
                    (s2, r, true)
                } else {
                    match r {
                        Err(e) => (s2, Err(e), false),
                        Ok(_) => apply_stitched_spec(s2, runs, j + 1, depth),
                    }
                }
            },
            Err(_) => apply_stitched_spec(s, runs, j + 1, depth),
        }
    }
}

/// Applying the sections of a bundle from `p`, at most `left` more: each section is a kind
/// byte, a flags byte, a 16-bit length and the payload, applied as a frame on channel
/// `sections` (the running section count); the sections end when fewer than four bytes are
/// left or a payload runs past the end. The result carries the final section count; counting
/// past `usize::MAX` aborts.
pub open spec fn bundle_sections_spec(
    s: SessionModel,
    d: Seq<u8>,
    p: int,
    left: int,
    depth: int,
    sections: int,
) -> (SessionModel, Result<()>, bool, int)
    decreases rank(depth, false), 1int, left,
{
    if left <= 0 || p < 0 || d.len() - p < 4 {
        (s, Ok(()), false, sections)
    } else {
        let len = le_u16(d, p + 2) as int;
        if len > d.len() - (p + 4) {
            (s, Ok(()), false, sections)
        } else {
            let f = FrameModel {
                kind: kind_of(d[p]),
                raw_kind: d[p],
                flags: d[p + 1],
                channel: sections as u16,
                checksum: 0,
                payload: d.subrange(p + 4, p + 4 + len),
            };
            let (s2, r, aborts) = apply_frame_spec(s, f, depth, false);
            if aborts {
                (s2, r, true, sections)
            } else {
                match r {
                    Err(e) => (s2, Err(e), false, sections),
                    Ok(_) => if sections + 1 > usize::MAX {
                        (s2, Ok(()), true, sections)
                    } else {
                        bundle_sections_spec(s2, d, p + 4 + len, left - 1, depth, sections + 1)
                    },
                }
            }
        }
    }
}

/// The position after the bundle header, and the declared section count: the magic (when
/// four bytes are there), a version byte, the count byte and a 16-bit flags word, each read
/// only when there are bytes for it (the count is zero otherwise).
pub open spec fn bundle_header(d: Seq<u8>) -> (int, int) {
    let p0: int = if d.len() >= 4 {
        4
    } else {
        0
    };
    let p1 = if p0 < d.len() {
        p0 + 1
    } else {
        p0
    };
    let declared: int = if p1 < d.len() {
        d[p1] as int
    } else {
        0
    };
    let p2 = if p1 < d.len() {
        p1 + 1
    } else {
        p1
    };
    let p3 = if p2 + 2 <= d.len() {
        p2 + 2
    } else {
        p2
    };
    (p3, declared)
}

/// The number of sections a bundle reads at most: its declared count, at least 1 and at most
/// 128.
pub open spec fn section_limit(declared: int) -> int {
    if declared < 1 {
        1
    } else if declared > 128 {
        128
    } else {
        declared
    }
}

/// Decoding a bundle whose frames apply at `depth`, its section count starting at
/// `sections`: the finalized session or the error, the final section count, and whether it
/// aborts.
pub open spec fn bundle_spec(d: Seq<u8>, depth: int, sections: int) -> (Result<SessionModel>, int, bool)
    decreases rank(depth, false), 2int, 0int,
{
    if d.len() >= 4 && d.subrange(0, 4) != bundle_magic() {
        (Err(magic_error()), sections, false)
    } else {
        let (p, declared) = bundle_header(d);
        let (s, r, aborts, n) = bundle_sections_spec(empty_session(), d, p, section_limit(declared), depth, sections);
        if aborts {
            (Ok(s), n, true)
        } else {
            match r {
                Err(e) => (Err(e), n, false),
                Ok(_) => (Ok(finalized(s)), n, analyze_overflows(s)),
            }
        }
    }
}

/// Decoding a stream: a bundle when it opens with `CIRN`, otherwise its frames applied in
/// order to an empty session, then finalized. The result, and whether decoding aborts.
pub open spec fn decode_stream_spec(d: Seq<u8>) -> (Result<SessionModel>, bool) {
    if starts_with_magic(d) {
        let (r, n, aborts) = bundle_spec(d, 0, 0);
        (r, aborts)
    } else {
        match parse_frames_spec(d) {
            Err(e) => (Err(e), false),
            Ok(fs) => {
                let (s, r, aborts) = apply_frames_spec(empty_session(), fs, 0, 0, false);
                if aborts {
                    (Ok(s), true)
                } else {
                    match r {
                        Err(e) => (Err(e), false),
                        Ok(_) => (Ok(finalized(s)), analyze_overflows(s)),
                    }
                }
            },
        }
    }
}

/// Decoding a stream with overflow checks: `overflow_error()` where decoding aborts, the
/// decoded session or the error otherwise.
pub open spec fn checked_stream_spec(d: Seq<u8>) -> Result<SessionModel> {
    if decode_stream_spec(d).1 {
        Err(overflow_error())
    } else {
        decode_stream_spec(d).0
    }
}

/// Decoding a bundle with overflow checks, its section count starting at `sections`.
pub open spec fn checked_bundle_spec(d: Seq<u8>, sections: int) -> Result<SessionModel> {
    if bundle_spec(d, 0, sections).2 {
        Err(overflow_error())
    } else {
        bundle_spec(d, 0, sections).0
    }
}

/// The model of a session result.
pub open spec fn session_result(r: Result<SessionState>) -> Result<SessionModel> {
    match r {
        Ok(s) => Ok(s@),
        Err(e) => Err(e),
    }
}

fn copy_frame(f: &Frame) -> (c: Frame)
    ensures
        c@ == f@,
{
    Frame {
        kind: f.kind,
        raw_kind: f.raw_kind,
        flags: f.flags,
        channel: f.channel,
        checksum: f.checksum,
        payload: crate::arena::capture_bytes(f.payload.as_slice()).bytes,
    }
}

fn starts_with_cirn(d: &[u8]) -> (b: bool)
    ensures
        b == starts_with_magic(d@),
{
    if d.len() < 4 {
        return false;
    }
    let r = d[0] == 0x43 && d[1] == 0x49 && d[2] == 0x52 && d[3] == 0x4e;
    assert(r ==> d@.subrange(0, 4) =~= bundle_magic());
    assert(d@.subrange(0, 4) == bundle_magic() ==> d@.subrange(0, 4)[0] == 0x43 && d@.subrange(0, 4)[1] == 0x49 && d@.subrange(0, 4)[2] == 0x52 && d@.subrange(0, 4)[3] == 0x4e);
    r
}

impl SessionState {
    pub fn new() -> (s: Self)
        ensures
            s@ == empty_session(),
    {
        SessionState {
            dictionary: Dictionary::new(),
            manifest: Manifest::default(),
            routes: RouteBook::new(),
            inventory: InventoryLedger::new(),
            fragments: FragmentReassembler::new(),
            reports: TemplateBook::new(),
            telemetry: Vec::new(),
            journal_summaries: Vec::new(),
            script_results: Vec::new(),
            codec_output: Vec::new(),
            risk_score: 0,
        }
    }

    /// Applies a frame (see `apply_frame_spec`), at the top level of the session.
    pub fn apply_frame(&mut self, frame: Frame) -> (r: Result<()>)
        requires
            !apply_frame_spec(old(self)@, frame@, 0, false).2,
        ensures
            (final(self)@, r) == (apply_frame_spec(old(self)@, frame@, 0, false).0, apply_frame_spec(
                old(self)@,
                frame@,
                0,
                false,
            ).1),
    {
        self.apply_frame_at(frame, 0, false)
    }

    /// Applies a frame as `apply_frame` does, but returns `overflow_error()` (leaving the
    /// session in an unspecified state) where applying it would overflow.
    pub fn apply_frame_checked(&mut self, frame: Frame) -> (r: Result<()>)
        ensures
            apply_frame_spec(old(self)@, frame@, 0, false).2 ==> r == Err::<(), DecodeError>(
                overflow_error(),
            ),
            !apply_frame_spec(old(self)@, frame@, 0, false).2 ==> final(self)@ == apply_frame_spec(
                old(self)@,
                frame@,
                0,
                false,
            ).0 && r == apply_frame_spec(old(self)@, frame@, 0, false).1,
    {
        self.apply_frame_at(frame, 0, false)
    }

    fn apply_frame_at(&mut self, frame: Frame, depth: usize, nested: bool) -> (r: Result<()>)
        requires
            depth <= MAX_NESTING,
        ensures
            apply_frame_spec(old(self)@, frame@, depth as int, nested).2 ==> r == Err::<
                (),
                DecodeError,
            >(overflow_error()),
            !apply_frame_spec(old(self)@, frame@, depth as int, nested).2 ==> final(self)@
                == apply_frame_spec(old(self)@, frame@, depth as int, nested).0 && r
                == apply_frame_spec(old(self)@, frame@, depth as int, nested).1,
        decreases rank(depth as int, nested), 0int, 0int,
    {
        match frame.kind {
            FrameKind::Fragment => {
                let stitched = self.fragments.parse_ops(frame.payload.as_slice())?;
                if nested {
                    return Err(DecodeError::new(ErrorKind::LimitExceeded, 0, "fragment frames nest without end"));
                }
                self.apply_stitched_at(&stitched, depth)
            },
            FrameKind::Bundle => {
                if starts_with_cirn(frame.payload.as_slice()) {
                    if depth + 1 > MAX_NESTING {
                        return Err(DecodeError::new(ErrorKind::LimitExceeded, 0, "bundles nest too deep"));
                    }
                    let (r, _sections) = decode_bundle_at(frame.payload.as_slice(), depth + 1, 0);
                    let nested_state = r?;
                    self.risk_score = self.risk_score ^ nested_state.risk_score;
                }
                Ok(())
            },
            _ => self.apply_leaf(frame),
        }
    }

    fn apply_leaf(&mut self, frame: Frame) -> (r: Result<()>)
        ensures
            leaf_frame_spec(old(self)@, frame@).2 ==> r == Err::<(), DecodeError>(overflow_error()),
            !leaf_frame_spec(old(self)@, frame@).2 ==> final(self)@ == leaf_frame_spec(
                old(self)@,
                frame@,
            ).0 && r == leaf_frame_spec(old(self)@, frame@).1,
    {
        reveal(leaf_frame_spec);
        let ghost s = self@;
        match frame.kind {
            FrameKind::Dictionary => {
                let r = self.dictionary.parse_ops(frame.payload.as_slice());
                assert(r == leaf_frame_spec(s, frame@).1);
                r
            },
            FrameKind::Manifest => {
                let m = Manifest::parse(frame.payload.as_slice())?;
                self.manifest = m;
                Ok(())
            },
            FrameKind::Route => {
                let r = self.routes.parse_ops_checked(frame.payload.as_slice(), &self.dictionary);
                r
            },
            FrameKind::Inventory => {
                let r = self.inventory.parse_ops_checked(frame.payload.as_slice());
                r
            },
            FrameKind::Script => {
                if self.telemetry.len() as u64 >= 0x4000_0000_0000u64 {
                    return Err(DecodeError::overflow());
                }
                let mut vm = ScriptVm::new();
                proof {
                    crate::script::lemma_point_values_len(s.telemetry, s.telemetry.len() as int);
                }
                vm.seed_from_points(self.telemetry.as_slice());
                assert(vm@ == seeded_vm(s));
                let res = vm.run_checked(frame.payload.as_slice())?;
                self.script_results.push(res);
                Ok(())
            },
            FrameKind::Journal => {
                let sum = replay_journal(frame.payload.as_slice())?;
                self.journal_summaries.push(sum);
                Ok(())
            },
            FrameKind::Report => {
                let r = self.reports.parse_ops(frame.payload.as_slice(), &self.dictionary);
                assert(r == leaf_frame_spec(s, frame@).1);
                r
            },
            FrameKind::Codec => {
                let mut decoder = BitBackrefDecoder::new();
                let out = decoder.decode_tile(frame.payload.as_slice())?;
                let mut i: usize = 0;
                let ghost start = self.codec_output@;
                while i < out.len()
                    invariant
                        0 <= i <= out@.len(),
                        self.codec_output@ == start + out@.take(i as int),
                        self@ == (SessionModel { codec_output: self.codec_output@, ..s }),
                    decreases out@.len() - i,
                {
                    self.codec_output.push(out[i]);
                    i = i + 1;
                    assert(start + out@.take(i as int) == (start + out@.take((i - 1) as int)).push(out@[i - 1]));
                }
                assert(out@.take(out@.len() as int) == out@);
                Ok(())
            },
            FrameKind::Telemetry => {
                let r = self.parse_telemetry(frame.payload.as_slice());
                assert(r == leaf_frame_spec(s, frame@).1);
                r
            },
            FrameKind::Unknown(_) => {
                if frame.flags & 1 != 0 {
                    let r = self.dictionary.parse_ops(frame.payload.as_slice());
                    assert(r == leaf_frame_spec(s, frame@).1);
                    r
                } else {
                    Ok(())
                }
            },
            _ => Ok(()),
        }
    }

    fn apply_frames_at(&mut self, frames: &Vec<Frame>, depth: usize, nested: bool) -> (r: Result<()>)
        requires
            depth <= MAX_NESTING,
        ensures
            apply_frames_spec(old(self)@, frames_view(frames@), 0, depth as int, nested).2 ==> r
                == Err::<(), DecodeError>(overflow_error()),
            !apply_frames_spec(old(self)@, frames_view(frames@), 0, depth as int, nested).2 ==> final(self)@ == apply_frames_spec(old(self)@, frames_view(frames@), 0, depth as int, nested).0 && r
                == apply_frames_spec(old(self)@, frames_view(frames@), 0, depth as int, nested).1,
        decreases rank(depth as int, nested), 1int, 0int,
    {
        let ghost fs = frames_view(frames@);
        let mut i: usize = 0;
        while i < frames.len()
            invariant
                0 <= i <= frames@.len(),
                depth <= MAX_NESTING,
                fs == frames_view(frames@),
                apply_frames_spec(self@, fs, i as int, depth as int, nested) == apply_frames_spec(
                    old(self)@,
                    fs,
                    0,
                    depth as int,
                    nested,
                ),
            decreases frames@.len() - i,
        {
            let frame = copy_frame(&frames[i]);
            assert(fs[i as int] == frame@);
            let r = self.apply_frame_at(frame, depth, nested);
            match r {
                Ok(_) => {},
                Err(e) => {
                    return Err(e);
                },
            }
            i = i + 1;
        }
        Ok(())
    }

    fn apply_stitched_at(&mut self, runs: &Vec<Vec<u8>>, depth: usize) -> (r: Result<()>)
        requires
            depth <= MAX_NESTING,
        ensures
            apply_stitched_spec(old(self)@, crate::arena::bytes_seq(runs@), 0, depth as int).2 ==> r
                == Err::<(), DecodeError>(overflow_error()),
            !apply_stitched_spec(old(self)@, crate::arena::bytes_seq(runs@), 0, depth as int).2
                ==> final(self)@ == apply_stitched_spec(
                old(self)@,
                crate::arena::bytes_seq(runs@),
                0,
                depth as int,
            ).0 && r == apply_stitched_spec(old(self)@, crate::arena::bytes_seq(runs@), 0, depth as int).1,
        decreases rank(depth as int, true), 2int, 0int,
    {
        let ghost rs = crate::arena::bytes_seq(runs@);
        let mut j: usize = 0;
        while j < runs.len()
            invariant
                0 <= j <= runs@.len(),
                depth <= MAX_NESTING,
                rs == crate::arena::bytes_seq(runs@),
                apply_stitched_spec(self@, rs, j as int, depth as int) == apply_stitched_spec(
                    old(self)@,
                    rs,
                    0,
                    depth as int,
                ),
            decreases runs@.len() - j,
        {
            assert(rs[j as int] == runs@[j as int]@);
            match parse_frames(runs[j].as_slice()) {
                Ok(nested) => {
                    let r = self.apply_frames_at(&nested, depth, true);
                    match r {
                        Ok(_) => {},
                        Err(e) => {
                            return Err(e);
                        },
                    }
                },
                Err(_) => {},
            }
            j = j + 1;
        }
        Ok(())
    }

    /// Adds the telemetry points of `payload` (see `telemetry_from`).
    pub fn parse_telemetry(&mut self, payload: &[u8]) -> (r: Result<()>)
        ensures
            final(self)@ == (SessionModel { telemetry: telemetry_from(old(self)@.telemetry, payload@, 0), ..old(self)@ }),
            r == Ok::<(), DecodeError>(()),
    {
        let mut c = Cursor::new(payload);
        while c.remaining() >= 13
            invariant_except_break
                telemetry_from(self.telemetry@, payload@, c.pos()) == telemetry_from(
                    old(self)@.telemetry,
                    payload@,
                    0,
                ),
            invariant
                c.bytes() == payload@,
                c.wf(),
                self@ == (SessionModel { telemetry: self.telemetry@, ..old(self)@ }),
            ensures
                self.telemetry@ == telemetry_from(old(self)@.telemetry, payload@, 0),
            decreases payload@.len() - c.pos(),
        {
            let ghost p = c.pos();
            let shelter_id = c.u16()?;
            let minute = c.u32()?;
            let occupancy = c.u16()?;
            let water_liters = c.u16()?;
            let medical_wait = c.u16()?;
            let flags = c.u8()?;
            let point = TelemetryPoint { shelter_id, minute, occupancy, water_liters, medical_wait, flags };
            assert(point == point_at(payload@, p));
            self.telemetry.push(point);
            if self.telemetry.len() > 2048 {
                break;
            }
        }
        Ok(())
    }

    /// Finalizes the session: analyses it and records the risk score (see `finalized`).
    pub fn finalize(&mut self) -> (r: Result<()>)
        requires
            !analyze_overflows(old(self)@),
        ensures
            final(self)@ == finalized(old(self)@),
            r == Ok::<(), DecodeError>(()),
    {
        self.finalize_checked()
    }

    /// Finalizes the session as `finalize` does, or returns `overflow_error()` (leaving the
    /// session as it is) where the analysis would overflow.
    pub fn finalize_checked(&mut self) -> (r: Result<()>)
        ensures
            analyze_overflows(old(self)@) ==> r == Err::<(), DecodeError>(overflow_error())
                && final(self)@ == old(self)@,
            !analyze_overflows(old(self)@) ==> final(self)@ == finalized(old(self)@) && r == Ok::<
                (),
                DecodeError,
            >(()),
    {
        let report = analyze_session_checked(self)?;
        self.risk_score = report.score;
        Ok(())
    }
}

/// Decodes a bundle whose frames apply at `depth`, numbering sections from `sections`;
/// returns the result and the final section count (see `bundle_spec`).
pub(crate) fn decode_bundle_at(data: &[u8], depth: usize, sections: usize) -> (res: (Result<SessionState>, usize))
    requires
        depth <= MAX_NESTING,
    ensures
        bundle_spec(data@, depth as int, sections as int).2 ==> res.0 is Err && res.0->Err_0
            == overflow_error(),
        !bundle_spec(data@, depth as int, sections as int).2 ==> session_result(res.0)
            == bundle_spec(data@, depth as int, sections as int).0,
        res.1 == bundle_spec(data@, depth as int, sections as int).1,
    decreases rank(depth as int, false), 2int, 0int,
{
    let mut state = SessionState::new();
    let mut c = Cursor::new(data);
    if c.remaining() >= 4 {
        let magic = match c.take(4) {
            Ok(m) => m,
            Err(e) => {
                return (Err(e), sections);
            },
        };
        if !(magic[0] == 0x43 && magic[1] == 0x49 && magic[2] == 0x52 && magic[3] == 0x4e) {
            assert(data@.subrange(0, 4) != bundle_magic()) by {
                if data@.subrange(0, 4) == bundle_magic() {
                    assert(magic@ == data@.subrange(0, 4));
                    assert(magic@[0] == 0x43 && magic@[1] == 0x49 && magic@[2] == 0x52 && magic@[3] == 0x4e);
                }
            }
            return (Err(DecodeError::new(ErrorKind::BadMagic, 0, "bundle magic mismatch")), sections);
        }
        assert(magic@ =~= bundle_magic());
    }
    let _version = match c.u8() {
        Ok(v) => v,
        Err(_) => 1,
    };
    let declared = match c.u8() {
        Ok(v) => v as usize,
        Err(_) => 0,
    };
    let _flags = match c.u16() {
        Ok(v) => v,
        Err(_) => 0,
    };
    let limit = if declared < 1 {
        1
    } else if declared > 128 {
        128
    } else {
        declared
    };
    let ghost header = bundle_header(data@);
    assert(c.pos() == header.0 && declared == header.1);
    let mut count = sections;
    let mut left = limit;
    let ghost d = data@;
    let ghost target = bundle_sections_spec(empty_session(), d, c.pos(), limit as int, depth as int, sections as int);
    while left > 0
        invariant_except_break
            bundle_sections_spec(state@, d, c.pos(), left as int, depth as int, count as int) == target,
        invariant
            d == data@,
            target == bundle_sections_spec(
                empty_session(),
                d,
                bundle_header(d).0,
                section_limit(bundle_header(d).1),
                depth as int,
                sections as int,
            ),
            !(d.len() >= 4 && d.subrange(0, 4) != bundle_magic()),
            c.bytes() == d,
            c.wf(),
            depth <= MAX_NESTING,
            0 <= left <= 128,
        ensures
            (state@, Ok::<(), DecodeError>(()), false, count as int) == target,
        decreases left,
    {
        if c.remaining() < 4 {
            break;
        }
        let ghost p = c.pos();
        let kind = match c.u8() {
            Ok(v) => v,
            Err(e) => {
                return (Err(e), count);
            },
        };
        let flags = match c.u8() {
            Ok(v) => v,
            Err(e) => {
                return (Err(e), count);
            },
        };
        let len = match c.u16() {
            Ok(v) => v as usize,
            Err(e) => {
                return (Err(e), count);
            },
        };
        if len > c.remaining() {
            break;
        }
        let body = match c.take(len) {
            Ok(b) => b,
            Err(e) => {
                return (Err(e), count);
            },
        };
        let frame = Frame {
            kind: FrameKind::from_byte(kind),
            raw_kind: kind,
            flags,
            channel: count as u16,
            checksum: 0,
            payload: crate::arena::capture_bytes(body).bytes,
        };
        let r = state.apply_frame_at(frame, depth, false);
        match r {
            Ok(_) => {},
            Err(e) => {
                return (Err(e), count);
            },
        }
        if count == usize::MAX {
            return (Err(DecodeError::overflow()), count);
        }
        count = count + 1;
        left = left - 1;
    }
    match state.finalize_checked() {
        Ok(_) => {},
        Err(e) => {
            return (Err(e), count);
        },
    }
    (Ok(state), count)
}

/// Decodes a stream (see `decode_stream_spec`).
pub fn decode_stream(data: &[u8]) -> (r: Result<SessionState>)
    requires
        !decode_stream_spec(data@).1,
    ensures
        session_result(r) == decode_stream_spec(data@).0,
{
    decode_stream_checked(data)
}

/// Decodes a stream as `decode_stream` does, or returns `overflow_error()` where decoding
/// would overflow (see `checked_stream_spec`).
pub fn decode_stream_checked(data: &[u8]) -> (r: Result<SessionState>)
    ensures
        session_result(r) == checked_stream_spec(data@),
{
    if starts_with_cirn(data) {
        let (r, _n) = decode_bundle_at(data, 0, 0);
        return r;
    }
    let mut state = SessionState::new();
    let frames = parse_frames(data)?;
    state.apply_frames_at(&frames, 0, false)?;
    state.finalize_checked()?;
    Ok(state)
}

impl Default for SessionState {
    /// An empty session, as `new` makes it.
    fn default() -> (d: Self)
        ensures
            d@ == empty_session(),
    {
        Self::new()
    }
}

} // verus!
