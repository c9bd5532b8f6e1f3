use vstd::prelude::*;

verus! {

/// The kind of a frame, taken from the low four bits of its kind byte.
#[derive(Clone, Copy, Debug, PartialEq, Eq, Structural)]
pub enum FrameKind {
    Dictionary,
    Manifest,
    Route,
    Inventory,
    Fragment,
    Script,
    Journal,
    Report,
    Codec,
    Telemetry,
    Bundle,
    Unknown(u8),
}

/// The kind that a kind byte stands for.
pub open spec fn kind_of(value: u8) -> FrameKind {
    let low = value % 16;
    if low <= 1 {
        FrameKind::Dictionary
    } else if low == 2 {
        FrameKind::Manifest
    } else if low == 3 {
        FrameKind::Route
    } else if low == 4 {
        FrameKind::Inventory
    } else if low == 5 {
        FrameKind::Fragment
    } else if low == 6 {
        FrameKind::Script
    } else if low == 7 {
        FrameKind::Journal
    } else if low == 8 {
        FrameKind::Report
    } else if low == 9 {
        FrameKind::Codec
    } else if low == 10 {
        FrameKind::Telemetry
    } else if low == 11 {
        FrameKind::Bundle
    } else {
        FrameKind::Unknown(low)
    }
}

impl FrameKind {
    pub fn from_byte(value: u8) -> (k: Self)
        ensures
            k == kind_of(value),
    {
        match value % 16 {
            0 | 1 => FrameKind::Dictionary,
            2 => FrameKind::Manifest,
            3 => FrameKind::Route,
            4 => FrameKind::Inventory,
            5 => FrameKind::Fragment,
            6 => FrameKind::Script,
            7 => FrameKind::Journal,
            8 => FrameKind::Report,
            9 => FrameKind::Codec,
            10 => FrameKind::Telemetry,
            11 => FrameKind::Bundle,
            other => FrameKind::Unknown(other),
        }
    }
}

/// One framed record of a stream.
#[derive(Clone, Debug)]
pub struct Frame {
    pub kind: FrameKind,
    pub raw_kind: u8,
    pub flags: u8,
    pub channel: u16,
    pub checksum: u16,
    pub payload: Vec<u8>,
}

/// What a frame holds.
pub struct FrameModel {
    pub kind: FrameKind,
    pub raw_kind: u8,
    pub flags: u8,
    pub channel: u16,
    pub checksum: u16,
    pub payload: Seq<u8>,
}

impl View for Frame {
    type V = FrameModel;

    open spec fn view(&self) -> FrameModel {
        FrameModel {
            kind: self.kind,
            raw_kind: self.raw_kind,
            flags: self.flags,
            channel: self.channel,
            checksum: self.checksum,
            payload: self.payload@,
        }
    }
}

/// The models of a sequence of frames.
pub open spec fn frames_view(frames: Seq<Frame>) -> Seq<FrameModel> {
    frames.map_values(|f: Frame| f@)
}

/// One telemetry sample of a shelter.
#[derive(Clone, Copy, Debug, Default)]
pub struct TelemetryPoint {
    pub shelter_id: u16,
    pub minute: u32,
    pub occupancy: u16,
    pub water_liters: u16,
    pub medical_wait: u16,
    pub flags: u8,
}

/// A shelter of a route book.
#[derive(Clone, Debug)]
pub struct ShelterNode {
    pub id: u16,
    pub region: u16,
    pub capacity: u16,
    pub occupancy: u16,
    pub label: Vec<u8>,
}

/// What a shelter node holds.
pub struct NodeModel {
    pub id: u16,
    pub region: u16,
    pub capacity: u16,
    pub occupancy: u16,
    pub label: Seq<u8>,
}

impl View for ShelterNode {
    type V = NodeModel;

    open spec fn view(&self) -> NodeModel {
        NodeModel {
            id: self.id,
            region: self.region,
            capacity: self.capacity,
            occupancy: self.occupancy,
            label: self.label@,
        }
    }
}

impl ShelterNode {
    /// Occupancy over capacity (negative when there is room).
    pub fn pressure(&self) -> (p: i32)
        ensures
            p == self.occupancy - self.capacity,
    {
        self.occupancy as i32 - self.capacity as i32
    }
}

/// A route between two shelters.
#[derive(Clone, Copy, Debug, Default)]
pub struct RouteLane {
    pub from: u16,
    pub to: u16,
    pub minutes: u16,
    pub flags: u8,
    pub confidence: u8,
}

/// The score of a lane: its minutes, plus 700 when blocked (flag `0x80`), less its confidence.
pub open spec fn lane_score(lane: RouteLane) -> int {
    lane.minutes + (if lane.flags & 0x80 != 0 {
        700int
    } else {
        0int
    }) - lane.confidence
}

impl RouteLane {
    pub fn score(&self) -> (s: i32)
        ensures
            s == lane_score(*self),
    {
        let blocked: i32 = if self.flags & 0x80 != 0 {
            700
        } else {
            0
        };
        self.minutes as i32 + blocked - self.confidence as i32
    }
}

/// A stocked item of the inventory ledger.
#[derive(Clone, Debug)]
pub struct StockItem {
    pub sku: u16,
    pub quantity: i32,
    pub expires_day: u16,
    pub bin: u8,
    pub name: Vec<u8>,
}

/// What a stock item holds.
pub struct ItemModel {
    pub sku: u16,
    pub quantity: i32,
    pub expires_day: u16,
    pub bin: u8,
    pub name: Seq<u8>,
}

impl View for StockItem {
    type V = ItemModel;

    open spec fn view(&self) -> ItemModel {
        ItemModel {
            sku: self.sku,
            quantity: self.quantity,
            expires_day: self.expires_day,
            bin: self.bin,
            name: self.name@,
        }
    }
}

/// The outcome of replaying a journal.
#[derive(Clone, Copy, Debug, Default)]
pub struct JournalSummary {
    pub events: usize,
    pub checkpoints: usize,
    pub score: i64,
}

/// The outcome of running a script.
#[derive(Clone, Copy, Debug, Default)]
pub struct ScriptResult {
    pub accumulator: i64,
    pub alerts: u16,
    pub last_window: usize,
}

} // verus!
