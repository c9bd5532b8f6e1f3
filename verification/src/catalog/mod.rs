use vstd::prelude::*;

verus! {

/// A shelter of the built-in reference table.
#[derive(Clone, Copy, Debug)]
pub struct ShelterProfile {
    pub id: u16,
    pub region: u16,
    pub capacity: u16,
    pub baseline_staff: u16,
    pub flags: u16,
    pub name: &'static str,
}

/// A supply line of the reference tables.
#[derive(Clone, Copy, Debug)]
pub struct SupplyProfile {
    pub sku: u16,
    pub family: u16,
    pub units_per_case: u16,
    pub cold_chain: bool,
    pub name: &'static str,
}

/// An agency of the reference tables.
#[derive(Clone, Copy, Debug)]
pub struct AgencyProfile {
    pub id: u16,
    pub mutual_aid_zone: u16,
    pub dispatch_weight: u16,
    pub name: &'static str,
}

/// A route of the reference tables.
#[derive(Clone, Copy, Debug)]
pub struct RouteProfile {
    pub id: u16,
    pub from_zone: u16,
    pub to_zone: u16,
    pub winter_minutes: u16,
    pub flood_minutes: u16,
    pub label: &'static str,
}

/// A standard phrase of the built-in reference table.
#[derive(Clone, Copy, Debug)]
pub struct PhraseProfile {
    pub id: u16,
    pub severity: u16,
    pub text: &'static str,
}

/// A zone of the reference tables.
#[derive(Clone, Copy, Debug)]
pub struct ZoneProfile {
    pub id: u16,
    pub county: u16,
    pub flood_plain: bool,
    pub radio_channel: u16,
    pub label: &'static str,
}

/// A form of the reference tables.
#[derive(Clone, Copy, Debug)]
pub struct FormProfile {
    pub id: u16,
    pub revision: u16,
    pub retention_days: u16,
    pub label: &'static str,
}

/// A playbook of the reference tables.
#[derive(Clone, Copy, Debug)]
pub struct PlaybookProfile {
    pub id: u16,
    pub phase: u16,
    pub actions: u16,
    pub label: &'static str,
}

/// The number of shelters in the reference table.
pub const SHELTER_COUNT: usize = 8;

/// The number of phrases in the reference table.
pub const PHRASE_COUNT: usize = 8;

/// Row `k` of the shelter table, `0 <= k < SHELTER_COUNT`.
pub open spec fn shelter_row(k: int) -> ShelterProfile {
    if k == 0 {
        ShelterProfile { id: 1, region: 10, capacity: 120, baseline_staff: 6, flags: 0x1, name: "Harbor East Gym" }
    } else if k == 1 {
        ShelterProfile { id: 2, region: 10, capacity: 80, baseline_staff: 4, flags: 0x0, name: "Mill Street Church Hall" }
    } else if k == 2 {
        ShelterProfile { id: 3, region: 11, capacity: 250, baseline_staff: 12, flags: 0x3, name: "County Fairgrounds Barn" }
    } else if k == 3 {
        ShelterProfile { id: 4, region: 12, capacity: 60, baseline_staff: 3, flags: 0x0, name: "Ridge School Library" }
    } else if k == 4 {
        ShelterProfile { id: 5, region: 12, capacity: 150, baseline_staff: 8, flags: 0x2, name: "North Arena" }
    } else if k == 5 {
        ShelterProfile { id: 6, region: 13, capacity: 45, baseline_staff: 2, flags: 0x0, name: "Lakeside Fire Station" }
    } else if k == 6 {
        ShelterProfile { id: 7, region: 14, capacity: 300, baseline_staff: 15, flags: 0x5, name: "Convention Center Hall B" }
    } else {
        ShelterProfile { id: 8, region: 15, capacity: 90, baseline_staff: 5, flags: 0x1, name: "Valley Community Center" }
    }
}

/// Row `k` of the phrase table, `0 <= k < PHRASE_COUNT`.
pub open spec fn phrase_row(k: int) -> PhraseProfile {
    if k == 0 {
        PhraseProfile { id: 1, severity: 1, text: "shelter open" }
    } else if k == 1 {
        PhraseProfile { id: 2, severity: 2, text: "capacity reached" }
    } else if k == 2 {
        PhraseProfile { id: 3, severity: 1, text: "water resupply requested" }
    } else if k == 3 {
        PhraseProfile { id: 4, severity: 3, text: "medical team needed" }
    } else if k == 4 {
        PhraseProfile { id: 5, severity: 2, text: "road closed" }
    } else if k == 5 {
        PhraseProfile { id: 6, severity: 1, text: "generator running" }
    } else if k == 6 {
        PhraseProfile { id: 7, severity: 3, text: "evacuate immediately" }
    } else {
        PhraseProfile { id: 8, severity: 1, text: "field report" }
    }
}

/// The profile of the shelter at `index`, the table read cyclically.
pub fn shelter_profile(index: usize) -> (p: ShelterProfile)
    ensures
        p == shelter_row((index % SHELTER_COUNT) as int),
{
    match index % SHELTER_COUNT {
        0 => ShelterProfile { id: 1, region: 10, capacity: 120, baseline_staff: 6, flags: 0x1, name: "Harbor East Gym" },
        1 => ShelterProfile { id: 2, region: 10, capacity: 80, baseline_staff: 4, flags: 0x0, name: "Mill Street Church Hall" },
        2 => ShelterProfile { id: 3, region: 11, capacity: 250, baseline_staff: 12, flags: 0x3, name: "County Fairgrounds Barn" },
        3 => ShelterProfile { id: 4, region: 12, capacity: 60, baseline_staff: 3, flags: 0x0, name: "Ridge School Library" },
        4 => ShelterProfile { id: 5, region: 12, capacity: 150, baseline_staff: 8, flags: 0x2, name: "North Arena" },
        5 => ShelterProfile { id: 6, region: 13, capacity: 45, baseline_staff: 2, flags: 0x0, name: "Lakeside Fire Station" },
        6 => ShelterProfile { id: 7, region: 14, capacity: 300, baseline_staff: 15, flags: 0x5, name: "Convention Center Hall B" },
        _ => ShelterProfile { id: 8, region: 15, capacity: 90, baseline_staff: 5, flags: 0x1, name: "Valley Community Center" },
    }
}

/// The text of the phrase at `seed`, the table read cyclically.
pub open spec fn phrase_spec(seed: u32) -> &'static str {
    phrase_row((seed as int) % (PHRASE_COUNT as int)).text
}

pub fn phrase(seed: u32) -> (t: &'static str)
    ensures
        t == phrase_spec(seed),
{
    match seed % (PHRASE_COUNT as u32) {
        0 => "shelter open",
        1 => "capacity reached",
        2 => "water resupply requested",
        3 => "medical team needed",
        4 => "road closed",
        5 => "generator running",
        6 => "evacuate immediately",
        _ => "field report",
    }
}

} // verus!
