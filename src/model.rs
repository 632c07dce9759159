use vstd::prelude::*;

verus! {

/// Progression through a session.
#[derive(Debug, Clone, Copy, PartialEq, Eq, Structural)]
pub enum SessionState {
    Invalid,
    GetInCar,
    Warmup,
    ParadeLaps,
    Racing,
    Checkered,
    Cooldown,
}

pub open spec fn session_state_of(code: i32) -> SessionState {
    if code == 1 {
        SessionState::GetInCar
    } else if code == 2 {
        SessionState::Warmup
    } else if code == 3 {
        SessionState::ParadeLaps
    } else if code == 4 {
        SessionState::Racing
    } else if code == 5 {
        SessionState::Checkered
    } else if code == 6 {
        SessionState::Cooldown
    } else {
        SessionState::Invalid
    }
}

impl SessionState {
    /// Decodes the simulator's session-state code; unknown codes are `Invalid`.
    pub fn from_iracing(value: i32) -> (r: SessionState)
        ensures
            r == session_state_of(value),
    {
        match value {
            1 => SessionState::GetInCar,
            2 => SessionState::Warmup,
            3 => SessionState::ParadeLaps,
            4 => SessionState::Racing,
            5 => SessionState::Checkered,
            6 => SessionState::Cooldown,
            _ => SessionState::Invalid,
        }
    }
}

} // verus!

verus! {

/// Surface under the car, the same for every source.
#[derive(Debug, Clone, Copy, PartialEq, Eq, Structural)]
pub enum TrackSurface {
    NotInWorld,
    Undefined,
    Asphalt,
    Concrete,
    RacingDirt,
    Paint,
    Rumble,
    Grass,
    Dirt,
    Sand,
    Gravel,
    Grasscrete,
    Astroturf,
    Unknown,
}

pub open spec fn surface_of(code: i32) -> TrackSurface {
    if code == -1 {
        TrackSurface::NotInWorld
    } else if code == 0 {
        TrackSurface::Undefined
    } else if 1 <= code <= 4 {
        TrackSurface::Asphalt
    } else if 6 <= code <= 7 {
        TrackSurface::Concrete
    } else if 8 <= code <= 9 {
        TrackSurface::RacingDirt
    } else if 10 <= code <= 11 {
        TrackSurface::Paint
    } else if 12 <= code <= 15 {
        TrackSurface::Rumble
    } else if 16 <= code <= 19 {
        TrackSurface::Grass
    } else if 20 <= code <= 23 {
        TrackSurface::Dirt
    } else if code == 24 {
        TrackSurface::Sand
    } else if 25 <= code <= 28 {
        TrackSurface::Gravel
    } else if code == 29 {
        TrackSurface::Grasscrete
    } else if code == 30 {
        TrackSurface::Astroturf
    } else {
        TrackSurface::Unknown
    }
}

impl TrackSurface {
    /// Classifies the simulator's surface code.
    pub fn from_iracing(code: i32) -> (r: TrackSurface)
        ensures
            r == surface_of(code),
    {
        if code == -1 {
            TrackSurface::NotInWorld
        } else if code == 0 {
            TrackSurface::Undefined
        } else if 1 <= code && code <= 4 {
            TrackSurface::Asphalt
        } else if 6 <= code && code <= 7 {
            TrackSurface::Concrete
        } else if 8 <= code && code <= 9 {
            TrackSurface::RacingDirt
        } else if 10 <= code && code <= 11 {
            TrackSurface::Paint
        } else if 12 <= code && code <= 15 {
            TrackSurface::Rumble
        } else if 16 <= code && code <= 19 {
            TrackSurface::Grass
        } else if 20 <= code && code <= 23 {
            TrackSurface::Dirt
        } else if code == 24 {
            TrackSurface::Sand
        } else if 25 <= code && code <= 28 {
            TrackSurface::Gravel
        } else if code == 29 {
            TrackSurface::Grasscrete
        } else if code == 30 {
            TrackSurface::Astroturf
        } else {
            TrackSurface::Unknown
        }
    }
}

/// Kind of session.
#[derive(Debug, Clone, Copy, PartialEq, Eq, Structural)]
pub enum SessionType {
    Practice,
    Qualifying,
    Race,
    Hotlap,
    TimeTrial,
    Drift,
    Warmup,
    Other,
}

/// How wet the track is.
#[derive(Debug, Clone, Copy, PartialEq, Eq, Structural)]
pub enum TrackWetness {
    Dry,
    SlightlyWet,
    Wet,
    VeryWet,
    Flooded,
    Unknown,
}

/// A value along three axes.
#[derive(Debug, Clone, Copy, PartialEq, Eq)]
pub struct Vector3<T> {
    pub x: T,
    pub y: T,
    pub z: T,
}

impl<T> Vector3<T> {
    pub fn new(x: T, y: T, z: T) -> (r: Vector3<T>)
        ensures
            r.x == x,
            r.y == y,
            r.z == z,
    {
        Vector3 { x, y, z }
    }
}

/// Whether bit `k` of `bits` is set.
pub open spec fn bit(bits: u32, k: u32) -> bool {
    bits & (1u32 << k) != 0
}

/// Decoded engine warning and status flags.
#[derive(Debug, Clone, Copy, PartialEq, Eq, Structural)]
pub struct EngineWarnings {
    pub water_temp_high: bool,
    pub fuel_pressure_low: bool,
    pub oil_pressure_low: bool,
    pub engine_stalled: bool,
    pub pit_speed_limiter: bool,
    pub rev_limiter: bool,
}

impl EngineWarnings {
    /// Decodes the simulator's engine-warning bitfield (bits 0 to 5).
    pub fn from_iracing_bits(bits: u32) -> (r: EngineWarnings)
        ensures
            r.water_temp_high == bit(bits, 0),
            r.fuel_pressure_low == bit(bits, 1),
            r.oil_pressure_low == bit(bits, 2),
            r.engine_stalled == bit(bits, 3),
            r.pit_speed_limiter == bit(bits, 4),
            r.rev_limiter == bit(bits, 5),
    {
        EngineWarnings {
            water_temp_high: bits & (1u32 << 0u32) != 0,
            fuel_pressure_low: bits & (1u32 << 1u32) != 0,
            oil_pressure_low: bits & (1u32 << 2u32) != 0,
            engine_stalled: bits & (1u32 << 3u32) != 0,
            pit_speed_limiter: bits & (1u32 << 4u32) != 0,
            rev_limiter: bits & (1u32 << 5u32) != 0,
        }
    }
}

/// Every flag that can be shown at once; sources with a single flag set one field.
#[derive(Debug, Clone, Copy, PartialEq, Eq, Structural)]
pub struct FlagState {
    pub green: bool,
    pub yellow: bool,
    pub yellow_waving: bool,
    pub caution: bool,
    pub caution_waving: bool,
    pub red: bool,
    pub blue: bool,
    pub white: bool,
    pub checkered: bool,
    pub black: bool,
    pub disqualified: bool,
    pub debris: bool,
    pub crossed: bool,
    pub one_lap_to_green: bool,
    pub green_held: bool,
    pub ten_to_go: bool,
    pub five_to_go: bool,
    pub can_service: bool,
    pub furled: bool,
    pub repair: bool,
    pub start_hidden: bool,
    pub start_ready: bool,
    pub start_set: bool,
    pub start_go: bool,
}

impl FlagState {
    /// Decodes the simulator's session-flags bitfield.
    pub fn from_iracing_bits(bits: u32) -> (r: FlagState)
        ensures
            r.checkered == bit(bits, 0),
            r.white == bit(bits, 1),
            r.green == bit(bits, 2),
            r.yellow == bit(bits, 3),
            r.red == bit(bits, 4),
            r.blue == bit(bits, 5),
            r.debris == bit(bits, 6),
            r.crossed == bit(bits, 7),
            r.yellow_waving == bit(bits, 8),
            r.one_lap_to_green == bit(bits, 9),
            r.green_held == bit(bits, 10),
            r.ten_to_go == bit(bits, 11),
            r.five_to_go == bit(bits, 12),
            r.caution == bit(bits, 14),
            r.caution_waving == bit(bits, 15),
            r.black == bit(bits, 16),
            r.disqualified == bit(bits, 17),
            r.can_service == bit(bits, 18),
            r.furled == bit(bits, 19),
            r.repair == bit(bits, 20),
            r.start_hidden == bit(bits, 21),
            r.start_ready == bit(bits, 22),
            r.start_set == bit(bits, 23),
            r.start_go == bit(bits, 24),
    {
        FlagState {
            checkered: bits & (1u32 << 0u32) != 0,
            white: bits & (1u32 << 1u32) != 0,
            green: bits & (1u32 << 2u32) != 0,
            yellow: bits & (1u32 << 3u32) != 0,
            red: bits & (1u32 << 4u32) != 0,
            blue: bits & (1u32 << 5u32) != 0,
            debris: bits & (1u32 << 6u32) != 0,
            crossed: bits & (1u32 << 7u32) != 0,
            yellow_waving: bits & (1u32 << 8u32) != 0,
            one_lap_to_green: bits & (1u32 << 9u32) != 0,
            green_held: bits & (1u32 << 10u32) != 0,
            ten_to_go: bits & (1u32 << 11u32) != 0,
            five_to_go: bits & (1u32 << 12u32) != 0,
            caution: bits & (1u32 << 14u32) != 0,
            caution_waving: bits & (1u32 << 15u32) != 0,
            black: bits & (1u32 << 16u32) != 0,
            disqualified: bits & (1u32 << 17u32) != 0,
            can_service: bits & (1u32 << 18u32) != 0,
            furled: bits & (1u32 << 19u32) != 0,
            repair: bits & (1u32 << 20u32) != 0,
            start_hidden: bits & (1u32 << 21u32) != 0,
            start_ready: bits & (1u32 << 22u32) != 0,
            start_set: bits & (1u32 << 23u32) != 0,
            start_go: bits & (1u32 << 24u32) != 0,
        }
    }

    /// Whether any flag that concerns the driver on track is shown.
    pub fn any_active(&self) -> (r: bool)
        ensures
            r == (self.green || self.yellow || self.yellow_waving || self.caution
                || self.caution_waving || self.red || self.blue || self.white || self.checkered
                || self.black || self.disqualified || self.debris || self.crossed),
    {
        self.green || self.yellow || self.yellow_waving || self.caution || self.caution_waving
            || self.red || self.blue || self.white || self.checkered || self.black
            || self.disqualified || self.debris || self.crossed
    }
}

} // verus!
