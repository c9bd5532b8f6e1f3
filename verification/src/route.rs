use vstd::prelude::*;
use vstd::string::*;

use crate::arena::{capture_bytes, capture_slice, read_at, span_score, span_score_spec, spans_seq, RawSlice, RawSpan};
use crate::cursor::{le_u16, Cursor};
use crate::dictionary::{resolve_text, DictModel, Dictionary};
use crate::error::{eof_error, overflow_error, DecodeError, Result};
use crate::model::{lane_score, NodeModel, RouteLane, ShelterNode};
use crate::ops::{run_ops, run_panics, skip_op, skip_unknown, step_result, OpStep};

verus! {

/// The most shelters a route book takes in from its operations.
pub const MAX_NODES: usize = 2048;

/// The most lanes a route book takes in from its operations.
pub const MAX_LANES: usize = 4096;

/// Shelters, the lanes between them, and marks taken from dictionary aliases.
#[derive(Clone, Debug)]
pub struct RouteBook {
    pub nodes: Vec<ShelterNode>,
    pub lanes: Vec<RouteLane>,
    cached_lanes: Option<RawSlice<RouteLane>>,
    cached_index: usize,
    label_marks: Vec<RawSpan>,
    last_score: i64,
}

/// What a route book holds.
pub struct RouteModel {
    pub nodes: Seq<NodeModel>,
    pub lanes: Seq<RouteLane>,
    pub cached_lanes: Option<Seq<RouteLane>>,
    pub cached_index: usize,
    pub label_marks: Seq<Seq<u8>>,
    pub last_score: i64,
}

/// The models of a sequence of shelter nodes.
pub open spec fn nodes_seq(v: Seq<ShelterNode>) -> Seq<NodeModel> {
    v.map_values(|n: ShelterNode| n@)
}

impl View for RouteBook {
    type V = RouteModel;

    closed spec fn view(&self) -> RouteModel {
        RouteModel {
            nodes: nodes_seq(self.nodes@),
            lanes: self.lanes@,
            cached_lanes: match self.cached_lanes {
                Some(r) => Some(r@),
                None => None,
            },
            cached_index: self.cached_index,
            label_marks: spans_seq(self.label_marks@),
            last_score: self.last_score,
        }
    }
}

/// The empty route book.
pub open spec fn empty_routes() -> RouteModel {
    RouteModel {
        nodes: Seq::empty(),
        lanes: Seq::empty(),
        cached_lanes: None,
        cached_index: 0,
        label_marks: Seq::empty(),
        last_score: 0,
    }
}

/// The sum of the scores of the first `n` lanes.
pub open spec fn lane_sum(lanes: Seq<RouteLane>, n: int) -> int
    decreases n,
{
    if n <= 0 {
        0
    } else {
        lane_sum(lanes, n - 1) + lane_score(lanes[n - 1])
    }
}

/// Every running sum of the first `n` lane scores fits in an `i32`.
pub open spec fn lane_sum_fits(lanes: Seq<RouteLane>, n: int) -> bool
    decreases n,
{
    if n <= 0 {
        true
    } else {
        lane_sum_fits(lanes, n - 1) && i32::MIN <= lane_sum(lanes, n) <= i32::MAX
    }
}

/// Whether compaction with `selector` keeps a lane: with an even selector, when it is open (not
/// flagged `0x80`); with an odd one, when its confidence is above 8.
pub open spec fn lane_kept(lane: RouteLane, selector: u8) -> bool {
    if selector & 1 == 0 {
        lane.flags & 0x80 == 0
    } else {
        lane.confidence > 8
    }
}

/// The first `n` lanes, without those that compaction with the selector drops.
pub open spec fn compacted(lanes: Seq<RouteLane>, selector: u8, n: int) -> Seq<RouteLane>
    decreases n,
{
    if n <= 0 {
        Seq::empty()
    } else {
        let lane = lanes[n - 1];
        if lane_kept(lane, selector) {
            compacted(lanes, selector, n - 1).push(lane)
        } else {
            compacted(lanes, selector, n - 1)
        }
    }
}

/// The score of the cached lane. The cached copy is only read past its end, where nothing is
/// found, so the score is that of the current lanes: the sum of their scores.
pub open spec fn cached_lane_score(m: RouteModel) -> i32 {
    lane_sum(m.lanes, m.lanes.len() as int) as i32
}

/// Scoring the lanes overflows when a running sum leaves the `i32` range.
pub open spec fn lane_score_overflows(m: RouteModel) -> bool {
    !lane_sum_fits(m.lanes, m.lanes.len() as int)
}

/// The label audit: the last score mixed with the scores of the label marks.
pub open spec fn audit_marks(m: RouteModel, n: int) -> u64
    decreases n,
{
    if n <= 0 {
        m.last_score as u64
    } else {
        audit_marks(m, n - 1) ^ span_score_spec(m.label_marks[n - 1])
    }
}

/// One route operation at `p`: `0x10` adds a shelter (id, region, capacity, occupancy, length
/// byte and label) while fewer than `MAX_NODES` are held; `0x11` adds a lane (from, to,
/// minutes, flags, confidence) while fewer than `MAX_LANES` are held; `0x12` caches a copy of
/// the lanes, then reads a 16-bit index into it; `0x13` compacts with a selector byte; `0x14`
/// marks the UTF-8 bytes of the dictionary text of an alias; `0x15` mixes the cached lane
/// score into the last score; any other opcode skips up to 7 bytes.
pub open spec fn route_op(m: RouteModel, dict: DictModel, d: Seq<u8>, p: int) -> (RouteModel, Result<int>) {
    let op = d[p];
    let q = p + 1;
    if op == 0x10 {
        if q + 2 > d.len() {
            (m, Err(eof_error(q)))
        } else if q + 4 > d.len() {
            (m, Err(eof_error(q + 2)))
        } else if q + 6 > d.len() {
            (m, Err(eof_error(q + 4)))
        } else if q + 8 > d.len() {
            (m, Err(eof_error(q + 6)))
        } else if q + 9 > d.len() {
            (m, Err(eof_error(q + 8)))
        } else if q + 9 + d[q + 8] > d.len() {
            (m, Err(eof_error(q + 9)))
        } else {
            let node = NodeModel {
                id: le_u16(d, q),
                region: le_u16(d, q + 2),
                capacity: le_u16(d, q + 4),
                occupancy: le_u16(d, q + 6),
                label: d.subrange(q + 9, q + 9 + d[q + 8]),
            };
            let next = q + 9 + d[q + 8];
            if m.nodes.len() < MAX_NODES {
                (RouteModel { nodes: m.nodes.push(node), ..m }, Ok(next))
            } else {
                (m, Ok(next))
            }
        }
    } else if op == 0x11 {
        if q + 2 > d.len() {
            (m, Err(eof_error(q)))
        } else if q + 4 > d.len() {
            (m, Err(eof_error(q + 2)))
        } else if q + 6 > d.len() {
            (m, Err(eof_error(q + 4)))
        } else if q + 7 > d.len() {
            (m, Err(eof_error(q + 6)))
        } else if q + 8 > d.len() {
            (m, Err(eof_error(q + 7)))
        } else {
            let lane = RouteLane {
                from: le_u16(d, q),
                to: le_u16(d, q + 2),
                minutes: le_u16(d, q + 4),
                flags: d[q + 6],
                confidence: d[q + 7],
            };
            if m.lanes.len() < MAX_LANES {
                (RouteModel { lanes: m.lanes.push(lane), ..m }, Ok(q + 8))
            } else {
                (m, Ok(q + 8))
            }
        }
    } else if op == 0x12 {
        let cached = RouteModel { cached_lanes: Some(m.lanes), ..m };
        if q + 2 > d.len() {
            (cached, Err(eof_error(q)))
        } else {
            (RouteModel { cached_index: le_u16(d, q) as usize, ..cached }, Ok(q + 2))
        }
    } else if op == 0x13 {
        if q + 1 > d.len() {
            (m, Err(eof_error(q)))
        } else {
            (RouteModel { lanes: compacted(m.lanes, d[q], m.lanes.len() as int), ..m }, Ok(q + 1))
        }
    } else if op == 0x14 {
        if q + 2 > d.len() {
            (m, Err(eof_error(q)))
        } else {
            match resolve_text(dict, le_u16(d, q)) {
                Some(t) => (
                    RouteModel { label_marks: m.label_marks.push(vstd::utf8::encode_utf8(t)), ..m },
                    Ok(q + 2),
                ),
                None => (m, Ok(q + 2)),
            }
        }
    } else if op == 0x15 {
        (RouteModel { last_score: m.last_score ^ (cached_lane_score(m) as i64), ..m }, Ok(q))
    } else {
        (m, Ok(skip_unknown(d, p, 8)))
    }
}

/// Whether the route operation at `p` overflows: scoring lanes whose sum leaves `i32`.
pub open spec fn route_op_panics(m: RouteModel, d: Seq<u8>, p: int) -> bool {
    d[p] == 0x15 && lane_score_overflows(m)
}

/// The route operation step, resolving aliases in `dict`.
pub open spec fn route_step(dict: DictModel) -> OpStep<RouteModel> {
    |m: RouteModel, d: Seq<u8>, p: int| route_op(m, dict, d, p)
}

/// The route overflow predicate.
pub open spec fn route_panics() -> spec_fn(RouteModel, Seq<u8>, int) -> bool {
    |m: RouteModel, d: Seq<u8>, p: int| route_op_panics(m, d, p)
}

proof fn lemma_unfit_stays(lanes: Seq<RouteLane>, k: int, n: int)
    requires
        0 <= k <= n,
        !lane_sum_fits(lanes, k),
    ensures
        !lane_sum_fits(lanes, n),
    decreases n - k,
{
    if k < n {
        lemma_unfit_stays(lanes, k, n - 1);
    }
}

proof fn lemma_lane_fits_prefix(lanes: Seq<RouteLane>, n: int)
    requires
        lane_sum_fits(lanes, n),
    ensures
        forall|k: int| 0 <= k <= n ==> #[trigger] lane_sum_fits(lanes, k),
    decreases n,
{
    if n > 0 {
        lemma_lane_fits_prefix(lanes, n - 1);
    }
}

fn copy_node(n: &ShelterNode) -> (c: ShelterNode)
    ensures
        c@ == n@,
{
    ShelterNode {
        id: n.id,
        region: n.region,
        capacity: n.capacity,
        occupancy: n.occupancy,
        label: capture_bytes(n.label.as_slice()).bytes,
    }
}

impl RouteBook {
    /// The shelter nodes, as the view holds them.
    pub fn nodes(&self) -> (v: &[ShelterNode])
        ensures
            nodes_seq(v@) == self@.nodes,
    {
        self.nodes.as_slice()
    }

    /// The lanes, as the view holds them.
    pub fn lanes(&self) -> (v: &[RouteLane])
        ensures
            v@ == self@.lanes,
    {
        self.lanes.as_slice()
    }

    pub fn new() -> (b: Self)
        ensures
            b@ == empty_routes(),
    {
        let b = RouteBook {
            nodes: Vec::new(),
            lanes: Vec::new(),
            cached_lanes: None,
            cached_index: 0,
            label_marks: Vec::new(),
            last_score: 0,
        };
        assert(b@.nodes == Seq::<NodeModel>::empty());
        assert(b@.label_marks == Seq::<Seq<u8>>::empty());
        b
    }

    fn apply_op(&mut self, c: &mut Cursor, dict: &Dictionary) -> (r: Result<()>)
        requires
            old(c).wf(),
            old(c).pos() < old(c).bytes().len(),
            !route_op_panics(old(self)@, old(c).bytes(), old(c).pos()),
        ensures
            final(c).bytes() == old(c).bytes(),
            final(c).wf(),
            step_result(final(self)@, r, final(c).pos(), route_op(old(self)@, dict@, old(c).bytes(), old(c).pos())),
    {
        let op = c.u8()?;
        if op == 0x10 {
            let id = c.u16()?;
            let region = c.u16()?;
            let capacity = c.u16()?;
            let occupancy = c.u16()?;
            let label = capture_bytes(c.take_len8()?).bytes;
            if self.nodes.len() < MAX_NODES {
                let node = ShelterNode { id, region, capacity, occupancy, label };
                let ghost before = self.nodes@;
                self.nodes.push(node);
                assert(nodes_seq(self.nodes@) == nodes_seq(before).push(node@));
            }
        } else if op == 0x11 {
            let from = c.u16()?;
            let to = c.u16()?;
            let minutes = c.u16()?;
            let flags = c.u8()?;
            let confidence = c.u8()?;
            if self.lanes.len() < MAX_LANES {
                self.lanes.push(RouteLane { from, to, minutes, flags, confidence });
            }
        } else if op == 0x12 {
            self.cached_lanes = Some(capture_slice(self.lanes.as_slice()));
            self.cached_index = c.u16()? as usize;
        } else if op == 0x13 {
            let selector = c.u8()?;
            self.compact(selector);
        } else if op == 0x14 {
            let id = c.u16()?;
            match dict.resolve_alias_text(id) {
                Some(text) => {
                    let span = capture_bytes(text.as_str().as_bytes());
                    let ghost before = self.label_marks@;
                    self.label_marks.push(span);
                    assert(spans_seq(self.label_marks@) == spans_seq(before).push(span@));
                },
                None => {},
            }
        } else if op == 0x15 {
            let s = self.score_cached_lane();
            self.last_score = self.last_score ^ (s as i64);
        } else {
            skip_op(c, op, 8);
        }
        Ok(())
    }

    /// Runs the operations of `payload`, resolving aliases in `dict`.
    pub fn parse_ops(&mut self, payload: &[u8], dict: &Dictionary) -> (r: Result<()>)
        requires
            !run_panics(route_step(dict@), route_panics(), old(self)@, payload@, 0),
        ensures
            (final(self)@, r) == run_ops(route_step(dict@), old(self)@, payload@, 0),
    {
        self.parse_ops_checked(payload, dict)
    }

    /// Runs the operations of `payload` as `parse_ops` does, but returns `overflow_error()`
    /// (leaving the book in an unspecified state) where an operation would overflow.
    pub fn parse_ops_checked(&mut self, payload: &[u8], dict: &Dictionary) -> (r: Result<()>)
        ensures
            run_panics(route_step(dict@), route_panics(), old(self)@, payload@, 0) ==> r == Err::<
                (),
                DecodeError,
            >(overflow_error()),
            !run_panics(route_step(dict@), route_panics(), old(self)@, payload@, 0) ==> (
            final(self)@,
            r,
            ) == run_ops(route_step(dict@), old(self)@, payload@, 0),
    {
        let mut c = Cursor::new(payload);
        let ghost aborts = run_panics(route_step(dict@), route_panics(), old(self)@, payload@, 0);
        while !c.is_empty()
            invariant
                c.bytes() == payload@,
                c.wf(),
                run_ops(route_step(dict@), self@, payload@, c.pos()) == run_ops(
                    route_step(dict@),
                    old(self)@,
                    payload@,
                    0,
                ),
                run_panics(route_step(dict@), route_panics(), self@, payload@, c.pos()) == aborts,
                aborts == run_panics(route_step(dict@), route_panics(), old(self)@, payload@, 0),
            decreases payload@.len() - c.pos(),
        {
            let ghost p = c.pos();
            let ghost m = self@;
            assert(route_panics()(m, payload@, p) == route_op_panics(m, payload@, p));
            if c.peek() == Some(0x15u8) && self.score_would_overflow() {
                return Err(DecodeError::overflow());
            }
            let r = self.apply_op(&mut c, dict);
            assert(route_step(dict@)(m, payload@, p) == route_op(m, dict@, payload@, p));
            if r.is_err() {
                return r;
            }
        }
        Ok(())
    }

    /// Whether scoring the lanes would overflow (see `lane_score_overflows`).
    pub fn score_would_overflow(&self) -> (b: bool)
        ensures
            b == lane_score_overflows(self@),
    {
        let mut sum: i64 = 0;
        let mut i: usize = 0;
        while i < self.lanes.len()
            invariant
                0 <= i <= self.lanes@.len(),
                sum == lane_sum(self.lanes@, i as int),
                lane_sum_fits(self.lanes@, i as int),
            decreases self.lanes@.len() - i,
        {
            sum = sum + self.lanes[i].score() as i64;
            i = i + 1;
            if sum < i32::MIN as i64 || sum > i32::MAX as i64 {
                proof {
                    lemma_unfit_stays(self.lanes@, i as int, self.lanes@.len() as int);
                }
                return true;
            }
        }
        false
    }

    /// Keeps the lanes that the selector keeps (see `compacted`).
    pub fn compact(&mut self, selector: u8)
        ensures
            final(self)@ == (RouteModel {
                lanes: compacted(old(self)@.lanes, selector, old(self)@.lanes.len() as int),
                ..old(self)@
            }),
    {
        let mut kept: Vec<RouteLane> = Vec::new();
        let mut i: usize = 0;
        while i < self.lanes.len()
            invariant
                0 <= i <= self.lanes@.len(),
                kept@ == compacted(self.lanes@, selector, i as int),
            decreases self.lanes@.len() - i,
        {
            let lane = self.lanes[i];
            let blocked = lane.flags & 0x80 != 0;
            let keep = if selector & 1 == 0 {
                !blocked
            } else {
                lane.confidence > 8
            };
            if keep {
                kept.push(lane);
            }
            i = i + 1;
        }
        self.lanes = kept;
    }

    /// The score of the cached lane (see `cached_lane_score`).
    pub fn score_cached_lane(&self) -> (s: i32)
        requires
            !lane_score_overflows(self@),
        ensures
            s == cached_lane_score(self@),
    {
        match &self.cached_lanes {
            Some(raw) => {
                if !raw.is_empty() && self.cached_index >= raw.len() {
                    match read_at(raw, self.cached_index) {
                        Some(lane) => {
                            return lane.score();
                        },
                        None => {},
                    }
                }
                if !raw.is_empty() && self.cached_index % 5 == 4 && self.cached_index <= usize::MAX
                    - raw.len() {
                    match read_at(raw, self.cached_index + raw.len()) {
                        Some(lane) => {
                            return lane.score();
                        },
                        None => {},
                    }
                }
            },
            None => {},
        }
        proof {
            lemma_lane_fits_prefix(self.lanes@, self.lanes@.len() as int);
        }
        let mut sum: i32 = 0;
        let mut i: usize = 0;
        while i < self.lanes.len()
            invariant
                0 <= i <= self.lanes@.len(),
                sum == lane_sum(self.lanes@, i as int),
                forall|k: int| 0 <= k <= self.lanes@.len() ==> #[trigger] lane_sum_fits(self.lanes@, k),
            decreases self.lanes@.len() - i,
        {
            assert(lane_sum_fits(self.lanes@, i + 1));
            sum = sum + self.lanes[i].score();
            i = i + 1;
        }
        sum
    }

    /// The label audit (see `audit_marks`).
    pub fn audit_labels(&self) -> (acc: u64)
        ensures
            acc == audit_marks(self@, self@.label_marks.len() as int),
    {
        let mut acc = self.last_score as u64;
        let mut i: usize = 0;
        while i < self.label_marks.len()
            invariant
                0 <= i <= self.label_marks@.len(),
                acc == audit_marks(self@, i as int),
            decreases self.label_marks@.len() - i,
        {
            assert(self@.label_marks[i as int] == self.label_marks@[i as int]@);
            acc = acc ^ span_score(&self.label_marks[i]);
            i = i + 1;
        }
        acc
    }
}

/// The route book that a payload of operations builds from an empty one.
pub fn decode_route(payload: &[u8], dict: &Dictionary) -> (r: Result<RouteBook>)
    requires
        !run_panics(route_step(dict@), route_panics(), empty_routes(), payload@, 0),
    ensures
        match r {
            Ok(b) => run_ops(route_step(dict@), empty_routes(), payload@, 0) == (b@, Ok::<(), DecodeError>(())),
            Err(e) => run_ops(route_step(dict@), empty_routes(), payload@, 0).1 == Err::<(), DecodeError>(e),
        },
{
    let mut book = RouteBook::new();
    book.parse_ops(payload, dict)?;
    Ok(book)
}

/// The route book that a payload of operations builds from an empty one, or
/// `overflow_error()` where an operation would overflow.
pub fn decode_route_checked(payload: &[u8], dict: &Dictionary) -> (r: Result<RouteBook>)
    ensures
        run_panics(route_step(dict@), route_panics(), empty_routes(), payload@, 0) ==> r == Err::<
            RouteBook,
            DecodeError,
        >(overflow_error()),
        !run_panics(route_step(dict@), route_panics(), empty_routes(), payload@, 0) ==> match r {
            Ok(b) => run_ops(route_step(dict@), empty_routes(), payload@, 0) == (b@, Ok::<(), DecodeError>(())),
            Err(e) => run_ops(route_step(dict@), empty_routes(), payload@, 0).1 == Err::<(), DecodeError>(e),
        },
{
    let mut book = RouteBook::new();
    book.parse_ops_checked(payload, dict)?;
    Ok(book)
}

impl Default for RouteBook {
    /// An empty route book, as `new` makes it.
    fn default() -> (d: Self)
        ensures
            d@ == empty_routes(),
    {
        Self::new()
    }
}

} // verus!
