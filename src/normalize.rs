use vstd::prelude::*;
use vstd::string::*;
use crate::ibt::{NamedValue, Sample, ValueView};
use crate::model::SessionType;
use crate::text::{
    contains, ends_with, has_infix, has_prefix, has_suffix, lower_of, push_signed_decimal,
    signed_decimal, starts_with, str_eq, to_lower,
};

verus! {

broadcast use vstd::string::group_string_axioms;

/// The session type that a lower-case session label names: matched by substring in a
/// fixed order; any other non-empty label is `Other`, an empty one names none.
pub open spec fn session_type_of(l: Seq<char>) -> Option<SessionType> {
    if has_infix(l, "race"@) {
        Some(SessionType::Race)
    } else if has_infix(l, "qualify"@) || has_infix(l, "qual"@) {
        Some(SessionType::Qualifying)
    } else if has_infix(l, "practice"@) {
        Some(SessionType::Practice)
    } else if has_infix(l, "time trial"@) || has_infix(l, "timetrial"@) {
        Some(SessionType::TimeTrial)
    } else if has_infix(l, "hotlap"@) {
        Some(SessionType::Hotlap)
    } else if has_infix(l, "warmup"@) || has_infix(l, "warm up"@) {
        Some(SessionType::Warmup)
    } else if l.len() > 0 {
        Some(SessionType::Other)
    } else {
        None
    }
}

/// The session type of a lower-case session label.
pub fn session_type_from_lowered(l: &str) -> (r: Option<SessionType>)
    ensures
        r == session_type_of(l@),
{
    if contains(l, "race") {
        Some(SessionType::Race)
    } else if contains(l, "qualify") || contains(l, "qual") {
        Some(SessionType::Qualifying)
    } else if contains(l, "practice") {
        Some(SessionType::Practice)
    } else if contains(l, "time trial") || contains(l, "timetrial") {
        Some(SessionType::TimeTrial)
    } else if contains(l, "hotlap") {
        Some(SessionType::Hotlap)
    } else if contains(l, "warmup") || contains(l, "warm up") {
        Some(SessionType::Warmup)
    } else if l.unicode_len() > 0 {
        Some(SessionType::Other)
    } else {
        None
    }
}

/// The session type of a session label, compared without regard to case.
pub fn parse_session_type(label: &str) -> (r: Option<SessionType>)
    ensures
        r == session_type_of(lower_of(label@)),
{
    let l = to_lower(label);
    session_type_from_lowered(l.as_str())
}

/// The label of a sky-condition code.
pub open spec fn skies_of(code: i32) -> Seq<char> {
    if code == 0 {
        "Clear"@
    } else if code == 1 {
        "Partly Cloudy"@
    } else if code == 2 {
        "Mostly Cloudy"@
    } else if code == 3 {
        "Overcast"@
    } else {
        "Unknown("@ + signed_decimal(code as int) + ")"@
    }
}

/// Names a sky-condition code; an unknown one is shown with its number.
pub fn skies_label(code: i32) -> (r: String)
    ensures
        r@ == skies_of(code),
{
    match code {
        0 => "Clear".to_string(),
        1 => "Partly Cloudy".to_string(),
        2 => "Mostly Cloudy".to_string(),
        3 => "Overcast".to_string(),
        _ => {
            let mut s = "Unknown(".to_string();
            push_signed_decimal(&mut s, code as i64);
            s.append(")");
            s
        },
    }
}

/// `s` without every trailing `" km"`, as `str::trim_end_matches` removes them.
pub open spec fn strip_km(s: Seq<char>) -> Seq<char>
    decreases s.len(),
{
    if s.len() >= 3 && has_suffix(s, " km"@) {
        strip_km(s.take(s.len() - 3))
    } else {
        s
    }
}

/// The number text of a track length such as `"4,28 km"`: the unit removed and a
/// decimal comma turned into a point.
pub open spec fn length_number_text(s: Seq<char>) -> Seq<char> {
    strip_km(s).map_values(|c: char| if c == ',' { '.' } else { c })
}

/// The number text of a track length; the kilometres it spells are read by the caller.
pub fn track_length_text(s: &str) -> (r: String)
    ensures
        r@ == length_number_text(s@),
{
    let mut end = s.unicode_len();
    let mut rest = s;
    loop
        invariant
            end == rest@.len(),
            strip_km(s@) == strip_km(rest@),
        ensures
            strip_km(s@) == rest@,
            end == rest@.len(),
        decreases end,
    {
        if end >= 3 && ends_with(rest, " km") {
            let shorter = rest.substring_char(0, end - 3);
            proof {
                assert(shorter@ =~= rest@.take(rest@.len() - 3));
            }
            rest = shorter;
            end = end - 3;
        } else {
            assert(strip_km(rest@) == rest@);
            break;
        }
    }
    let ghost t = strip_km(s@);
    assert(t == rest@);
    let mut out = String::new();
    let mut i: usize = 0;
    while i < end
        invariant
            i <= end,
            end == rest@.len(),
            t == rest@,
            out@ == t.take(i as int).map_values(|c: char| if c == ',' { '.' } else { c }),
        decreases end - i,
    {
        let c = rest.get_char(i);
        if c == ',' {
            out.append(".");
        } else {
            out.append(rest.substring_char(i, i + 1));
        }
        proof {
            reveal_strlit(".");
            assert(t.take(i + 1) =~= t.take(i as int).push(c));
            assert(out@ =~= t.take(i + 1).map_values(|c: char| if c == ',' { '.' } else { c }));
        }
        i = i + 1;
    }
    assert(t.take(end as int) =~= t);
    out
}

/// Where a tyre's inner, middle and outer temperatures are read from.
#[derive(Debug, Clone, Copy, PartialEq, Eq, Structural)]
pub struct TyreTempSources {
    pub surface_inner: WheelField,
    pub surface_middle: WheelField,
    pub surface_outer: WheelField,
    pub carcass_inner: WheelField,
    pub carcass_middle: WheelField,
    pub carcass_outer: WheelField,
}

/// The source reports temperatures by track side (L/CL left, R/CR right, M/CC middle).
/// The inner side faces the car's centre line: right on a left-side wheel, left on a
/// right-side one. The middle is the same on both.
pub fn tyre_temp_sources(is_left_side: bool) -> (r: TyreTempSources)
    ensures
        r.surface_middle == WheelField::TempCC,
        r.carcass_middle == WheelField::TempM,
        is_left_side ==> r.surface_inner == WheelField::TempCR && r.surface_outer
            == WheelField::TempCL && r.carcass_inner == WheelField::TempR && r.carcass_outer
            == WheelField::TempL,
        !is_left_side ==> r.surface_inner == WheelField::TempCL && r.surface_outer
            == WheelField::TempCR && r.carcass_inner == WheelField::TempL && r.carcass_outer
            == WheelField::TempR,
{
    if is_left_side {
        TyreTempSources {
            surface_inner: WheelField::TempCR,
            surface_middle: WheelField::TempCC,
            surface_outer: WheelField::TempCL,
            carcass_inner: WheelField::TempR,
            carcass_middle: WheelField::TempM,
            carcass_outer: WheelField::TempL,
        }
    } else {
        TyreTempSources {
            surface_inner: WheelField::TempCL,
            surface_middle: WheelField::TempCC,
            surface_outer: WheelField::TempCR,
            carcass_inner: WheelField::TempL,
            carcass_middle: WheelField::TempM,
            carcass_outer: WheelField::TempR,
        }
    }
}

/// Whether the wheel at a corner is on the car's left side.
pub fn is_left_corner(c: Corner) -> (r: bool)
    ensures
        r == (c == Corner::FrontLeft || c == Corner::RearLeft),
{
    match c {
        Corner::FrontLeft | Corner::RearLeft => true,
        Corner::FrontRight | Corner::RearRight => false,
    }
}

// ---------------------------------------------------------------------------
// The mapped set and the extras
// ---------------------------------------------------------------------------

/// A scalar variable that a section of a frame reads, by its name in the recording.
#[allow(non_camel_case_types)]
#[derive(Debug, Clone, Copy, PartialEq, Eq, Structural)]
pub enum Var {
    VelocityX,
    VelocityY,
    VelocityZ,
    LatAccel,
    LongAccel,
    VertAccel,
    Pitch,
    Yaw,
    Roll,
    PitchRate,
    YawRate,
    RollRate,
    Speed,
    RPM,
    Gear,
    Throttle,
    Brake,
    Clutch,
    SteeringWheelAngle,
    SteeringWheelTorque,
    SteeringWheelPctTorque,
    IsOnTrack,
    IsInGarage,
    PlayerTrackSurface,
    WaterTemp,
    OilTemp,
    OilPress,
    OilLevel,
    FuelLevel,
    FuelLevelPct,
    FuelPress,
    FuelUsePerHour,
    Voltage,
    ManifoldPress,
    EngineWarnings,
    LapCurrentLapTime,
    LapLastLapTime,
    LapBestLapTime,
    LapBestNLapTime,
    LapBestNLapLap,
    Lap,
    LapCompleted,
    LapDist,
    LapDistPct,
    PlayerCarPosition,
    PlayerCarClassPosition,
    LapDeltaToBestLap,
    LapDeltaToBestLap_OK,
    LapDeltaToSessionBestLap,
    LapDeltaToSessionBestLap_OK,
    LapDeltaToOptimalLap,
    LapDeltaToOptimalLap_OK,
    RaceLaps,
    SessionTick,
    SessionState,
    SessionTime,
    SessionTimeRemain,
    SessionTimeOfDay,
    SessionLapsRemainEx,
    SessionFlags,
    AirTemp,
    TrackTempCrew,
    AirPressure,
    AirDensity,
    RelativeHumidity,
    WindVel,
    WindDir,
    FogLevel,
    Precipitation,
    Skies,
    WeatherDeclaredWet,
    OnPitRoad,
    PitstopActive,
    PlayerCarPitSvStatus,
    PitRepairLeft,
    PitOptRepairLeft,
    FastRepairAvailable,
    FastRepairUsed,
    dpFuelFill,
    dpLFTireChange,
    dpRFTireChange,
    dpLRTireChange,
    dpRRTireChange,
    dpLFTireColdPress,
    dpRFTireColdPress,
    dpLRTireColdPress,
    dpRRTireColdPress,
    dpWindshieldTearoff,
    dpFastRepair,
    dcABS,
    dcTractionControl,
    dcTractionControl2,
    dcBrakeBias,
    dcAntiRollFront,
    dcAntiRollRear,
    DRS_Status,
    dcThrottleShape,
    PushToPass,
}

pub open spec fn var_name(v: Var) -> Seq<char> {
    match v {
        Var::VelocityX => "VelocityX"@,
        Var::VelocityY => "VelocityY"@,
        Var::VelocityZ => "VelocityZ"@,
        Var::LatAccel => "LatAccel"@,
        Var::LongAccel => "LongAccel"@,
        Var::VertAccel => "VertAccel"@,
        Var::Pitch => "Pitch"@,
        Var::Yaw => "Yaw"@,
        Var::Roll => "Roll"@,
        Var::PitchRate => "PitchRate"@,
        Var::YawRate => "YawRate"@,
        Var::RollRate => "RollRate"@,
        Var::Speed => "Speed"@,
        Var::RPM => "RPM"@,
        Var::Gear => "Gear"@,
        Var::Throttle => "Throttle"@,
        Var::Brake => "Brake"@,
        Var::Clutch => "Clutch"@,
        Var::SteeringWheelAngle => "SteeringWheelAngle"@,
        Var::SteeringWheelTorque => "SteeringWheelTorque"@,
        Var::SteeringWheelPctTorque => "SteeringWheelPctTorque"@,
        Var::IsOnTrack => "IsOnTrack"@,
        Var::IsInGarage => "IsInGarage"@,
        Var::PlayerTrackSurface => "PlayerTrackSurface"@,
        Var::WaterTemp => "WaterTemp"@,
        Var::OilTemp => "OilTemp"@,
        Var::OilPress => "OilPress"@,
        Var::OilLevel => "OilLevel"@,
        Var::FuelLevel => "FuelLevel"@,
        Var::FuelLevelPct => "FuelLevelPct"@,
        Var::FuelPress => "FuelPress"@,
        Var::FuelUsePerHour => "FuelUsePerHour"@,
        Var::Voltage => "Voltage"@,
        Var::ManifoldPress => "ManifoldPress"@,
        Var::EngineWarnings => "EngineWarnings"@,
        Var::LapCurrentLapTime => "LapCurrentLapTime"@,
        Var::LapLastLapTime => "LapLastLapTime"@,
        Var::LapBestLapTime => "LapBestLapTime"@,
        Var::LapBestNLapTime => "LapBestNLapTime"@,
        Var::LapBestNLapLap => "LapBestNLapLap"@,
        Var::Lap => "Lap"@,
        Var::LapCompleted => "LapCompleted"@,
        Var::LapDist => "LapDist"@,
        Var::LapDistPct => "LapDistPct"@,
        Var::PlayerCarPosition => "PlayerCarPosition"@,
        Var::PlayerCarClassPosition => "PlayerCarClassPosition"@,
        Var::LapDeltaToBestLap => "LapDeltaToBestLap"@,
        Var::LapDeltaToBestLap_OK => "LapDeltaToBestLap_OK"@,
        Var::LapDeltaToSessionBestLap => "LapDeltaToSessionBestLap"@,
        Var::LapDeltaToSessionBestLap_OK => "LapDeltaToSessionBestLap_OK"@,
        Var::LapDeltaToOptimalLap => "LapDeltaToOptimalLap"@,
        Var::LapDeltaToOptimalLap_OK => "LapDeltaToOptimalLap_OK"@,
        Var::RaceLaps => "RaceLaps"@,
        Var::SessionTick => "SessionTick"@,
        Var::SessionState => "SessionState"@,
        Var::SessionTime => "SessionTime"@,
        Var::SessionTimeRemain => "SessionTimeRemain"@,
        Var::SessionTimeOfDay => "SessionTimeOfDay"@,
        Var::SessionLapsRemainEx => "SessionLapsRemainEx"@,
        Var::SessionFlags => "SessionFlags"@,
        Var::AirTemp => "AirTemp"@,
        Var::TrackTempCrew => "TrackTempCrew"@,
        Var::AirPressure => "AirPressure"@,
        Var::AirDensity => "AirDensity"@,
        Var::RelativeHumidity => "RelativeHumidity"@,
        Var::WindVel => "WindVel"@,
        Var::WindDir => "WindDir"@,
        Var::FogLevel => "FogLevel"@,
        Var::Precipitation => "Precipitation"@,
        Var::Skies => "Skies"@,
        Var::WeatherDeclaredWet => "WeatherDeclaredWet"@,
        Var::OnPitRoad => "OnPitRoad"@,
        Var::PitstopActive => "PitstopActive"@,
        Var::PlayerCarPitSvStatus => "PlayerCarPitSvStatus"@,
        Var::PitRepairLeft => "PitRepairLeft"@,
        Var::PitOptRepairLeft => "PitOptRepairLeft"@,
        Var::FastRepairAvailable => "FastRepairAvailable"@,
        Var::FastRepairUsed => "FastRepairUsed"@,
        Var::dpFuelFill => "dpFuelFill"@,
        Var::dpLFTireChange => "dpLFTireChange"@,
        Var::dpRFTireChange => "dpRFTireChange"@,
        Var::dpLRTireChange => "dpLRTireChange"@,
        Var::dpRRTireChange => "dpRRTireChange"@,
        Var::dpLFTireColdPress => "dpLFTireColdPress"@,
        Var::dpRFTireColdPress => "dpRFTireColdPress"@,
        Var::dpLRTireColdPress => "dpLRTireColdPress"@,
        Var::dpRRTireColdPress => "dpRRTireColdPress"@,
        Var::dpWindshieldTearoff => "dpWindshieldTearoff"@,
        Var::dpFastRepair => "dpFastRepair"@,
        Var::dcABS => "dcABS"@,
        Var::dcTractionControl => "dcTractionControl"@,
        Var::dcTractionControl2 => "dcTractionControl2"@,
        Var::dcBrakeBias => "dcBrakeBias"@,
        Var::dcAntiRollFront => "dcAntiRollFront"@,
        Var::dcAntiRollRear => "dcAntiRollRear"@,
        Var::DRS_Status => "DRS_Status"@,
        Var::dcThrottleShape => "dcThrottleShape"@,
        Var::PushToPass => "PushToPass"@,
    }
}

impl Var {
    /// The variable's name; every such name is in the mapped set.
    pub fn name(&self) -> (r: &'static str)
        ensures
            r@ == var_name(*self),
            mapped_name(r@),
    {
        match self {
            Var::VelocityX => "VelocityX",
            Var::VelocityY => "VelocityY",
            Var::VelocityZ => "VelocityZ",
            Var::LatAccel => "LatAccel",
            Var::LongAccel => "LongAccel",
            Var::VertAccel => "VertAccel",
            Var::Pitch => "Pitch",
            Var::Yaw => "Yaw",
            Var::Roll => "Roll",
            Var::PitchRate => "PitchRate",
            Var::YawRate => "YawRate",
            Var::RollRate => "RollRate",
            Var::Speed => "Speed",
            Var::RPM => "RPM",
            Var::Gear => "Gear",
            Var::Throttle => "Throttle",
            Var::Brake => "Brake",
            Var::Clutch => "Clutch",
            Var::SteeringWheelAngle => "SteeringWheelAngle",
            Var::SteeringWheelTorque => "SteeringWheelTorque",
            Var::SteeringWheelPctTorque => "SteeringWheelPctTorque",
            Var::IsOnTrack => "IsOnTrack",
            Var::IsInGarage => "IsInGarage",
            Var::PlayerTrackSurface => "PlayerTrackSurface",
            Var::WaterTemp => "WaterTemp",
            Var::OilTemp => "OilTemp",
            Var::OilPress => "OilPress",
            Var::OilLevel => "OilLevel",
            Var::FuelLevel => "FuelLevel",
            Var::FuelLevelPct => "FuelLevelPct",
            Var::FuelPress => "FuelPress",
            Var::FuelUsePerHour => "FuelUsePerHour",
            Var::Voltage => "Voltage",
            Var::ManifoldPress => "ManifoldPress",
            Var::EngineWarnings => "EngineWarnings",
            Var::LapCurrentLapTime => "LapCurrentLapTime",
            Var::LapLastLapTime => "LapLastLapTime",
            Var::LapBestLapTime => "LapBestLapTime",
            Var::LapBestNLapTime => "LapBestNLapTime",
            Var::LapBestNLapLap => "LapBestNLapLap",
            Var::Lap => "Lap",
            Var::LapCompleted => "LapCompleted",
            Var::LapDist => "LapDist",
            Var::LapDistPct => "LapDistPct",
            Var::PlayerCarPosition => "PlayerCarPosition",
            Var::PlayerCarClassPosition => "PlayerCarClassPosition",
            Var::LapDeltaToBestLap => "LapDeltaToBestLap",
            Var::LapDeltaToBestLap_OK => "LapDeltaToBestLap_OK",
            Var::LapDeltaToSessionBestLap => "LapDeltaToSessionBestLap",
            Var::LapDeltaToSessionBestLap_OK => "LapDeltaToSessionBestLap_OK",
            Var::LapDeltaToOptimalLap => "LapDeltaToOptimalLap",
            Var::LapDeltaToOptimalLap_OK => "LapDeltaToOptimalLap_OK",
            Var::RaceLaps => "RaceLaps",
            Var::SessionTick => "SessionTick",
            Var::SessionState => "SessionState",
            Var::SessionTime => "SessionTime",
            Var::SessionTimeRemain => "SessionTimeRemain",
            Var::SessionTimeOfDay => "SessionTimeOfDay",
            Var::SessionLapsRemainEx => "SessionLapsRemainEx",
            Var::SessionFlags => "SessionFlags",
            Var::AirTemp => "AirTemp",
            Var::TrackTempCrew => "TrackTempCrew",
            Var::AirPressure => "AirPressure",
            Var::AirDensity => "AirDensity",
            Var::RelativeHumidity => "RelativeHumidity",
            Var::WindVel => "WindVel",
            Var::WindDir => "WindDir",
            Var::FogLevel => "FogLevel",
            Var::Precipitation => "Precipitation",
            Var::Skies => "Skies",
            Var::WeatherDeclaredWet => "WeatherDeclaredWet",
            Var::OnPitRoad => "OnPitRoad",
            Var::PitstopActive => "PitstopActive",
            Var::PlayerCarPitSvStatus => "PlayerCarPitSvStatus",
            Var::PitRepairLeft => "PitRepairLeft",
            Var::PitOptRepairLeft => "PitOptRepairLeft",
            Var::FastRepairAvailable => "FastRepairAvailable",
            Var::FastRepairUsed => "FastRepairUsed",
            Var::dpFuelFill => "dpFuelFill",
            Var::dpLFTireChange => "dpLFTireChange",
            Var::dpRFTireChange => "dpRFTireChange",
            Var::dpLRTireChange => "dpLRTireChange",
            Var::dpRRTireChange => "dpRRTireChange",
            Var::dpLFTireColdPress => "dpLFTireColdPress",
            Var::dpRFTireColdPress => "dpRFTireColdPress",
            Var::dpLRTireColdPress => "dpLRTireColdPress",
            Var::dpRRTireColdPress => "dpRRTireColdPress",
            Var::dpWindshieldTearoff => "dpWindshieldTearoff",
            Var::dpFastRepair => "dpFastRepair",
            Var::dcABS => "dcABS",
            Var::dcTractionControl => "dcTractionControl",
            Var::dcTractionControl2 => "dcTractionControl2",
            Var::dcBrakeBias => "dcBrakeBias",
            Var::dcAntiRollFront => "dcAntiRollFront",
            Var::dcAntiRollRear => "dcAntiRollRear",
            Var::DRS_Status => "DRS_Status",
            Var::dcThrottleShape => "dcThrottleShape",
            Var::PushToPass => "PushToPass",
        }
    }
}

/// A wheel corner.
#[derive(Debug, Clone, Copy, PartialEq, Eq, Structural)]
pub enum Corner {
    FrontLeft,
    FrontRight,
    RearLeft,
    RearRight,
}

/// A per-wheel quantity.
#[derive(Debug, Clone, Copy, PartialEq, Eq, Structural)]
pub enum WheelField {
    ShockDefl,
    ShockDeflAvg,
    ShockVel,
    ShockVelAvg,
    RideHeight,
    Pressure,
    ColdPressure,
    TempCL,
    TempCC,
    TempCR,
    TempL,
    TempM,
    TempR,
    Wear,
    Speed,
    BrakeLinePress,
}

/// The recording's name of a quantity at a corner: the corner's prefix, then the field's.
pub open spec fn wheel_name(c: Corner, f: WheelField) -> Seq<char> {
    match c {
        Corner::FrontLeft => match f {
            WheelField::ShockDefl => "LFshockDefl"@,
            WheelField::ShockDeflAvg => "LFshockDeflST"@,
            WheelField::ShockVel => "LFshockVel"@,
            WheelField::ShockVelAvg => "LFshockVelST"@,
            WheelField::RideHeight => "LFrideHeight"@,
            WheelField::Pressure => "LFpressure"@,
            WheelField::ColdPressure => "LFcoldPressure"@,
            WheelField::TempCL => "LFtempCL"@,
            WheelField::TempCC => "LFtempCC"@,
            WheelField::TempCR => "LFtempCR"@,
            WheelField::TempL => "LFtempL"@,
            WheelField::TempM => "LFtempM"@,
            WheelField::TempR => "LFtempR"@,
            WheelField::Wear => "LFwearL"@,
            WheelField::Speed => "LFspeed"@,
            WheelField::BrakeLinePress => "LFbrakeLinePress"@,
        },
        Corner::FrontRight => match f {
            WheelField::ShockDefl => "RFshockDefl"@,
            WheelField::ShockDeflAvg => "RFshockDeflST"@,
            WheelField::ShockVel => "RFshockVel"@,
            WheelField::ShockVelAvg => "RFshockVelST"@,
            WheelField::RideHeight => "RFrideHeight"@,
            WheelField::Pressure => "RFpressure"@,
            WheelField::ColdPressure => "RFcoldPressure"@,
            WheelField::TempCL => "RFtempCL"@,
            WheelField::TempCC => "RFtempCC"@,
            WheelField::TempCR => "RFtempCR"@,
            WheelField::TempL => "RFtempL"@,
            WheelField::TempM => "RFtempM"@,
            WheelField::TempR => "RFtempR"@,
            WheelField::Wear => "RFwearL"@,
            WheelField::Speed => "RFspeed"@,
            WheelField::BrakeLinePress => "RFbrakeLinePress"@,
        },
        Corner::RearLeft => match f {
            WheelField::ShockDefl => "LRshockDefl"@,
            WheelField::ShockDeflAvg => "LRshockDeflST"@,
            WheelField::ShockVel => "LRshockVel"@,
            WheelField::ShockVelAvg => "LRshockVelST"@,
            WheelField::RideHeight => "LRrideHeight"@,
            WheelField::Pressure => "LRpressure"@,
            WheelField::ColdPressure => "LRcoldPressure"@,
            WheelField::TempCL => "LRtempCL"@,
            WheelField::TempCC => "LRtempCC"@,
            WheelField::TempCR => "LRtempCR"@,
            WheelField::TempL => "LRtempL"@,
            WheelField::TempM => "LRtempM"@,
            WheelField::TempR => "LRtempR"@,
            WheelField::Wear => "LRwearL"@,
            WheelField::Speed => "LRspeed"@,
            WheelField::BrakeLinePress => "LRbrakeLinePress"@,
        },
        Corner::RearRight => match f {
            WheelField::ShockDefl => "RRshockDefl"@,
            WheelField::ShockDeflAvg => "RRshockDeflST"@,
            WheelField::ShockVel => "RRshockVel"@,
            WheelField::ShockVelAvg => "RRshockVelST"@,
            WheelField::RideHeight => "RRrideHeight"@,
            WheelField::Pressure => "RRpressure"@,
            WheelField::ColdPressure => "RRcoldPressure"@,
            WheelField::TempCL => "RRtempCL"@,
            WheelField::TempCC => "RRtempCC"@,
            WheelField::TempCR => "RRtempCR"@,
            WheelField::TempL => "RRtempL"@,
            WheelField::TempM => "RRtempM"@,
            WheelField::TempR => "RRtempR"@,
            WheelField::Wear => "RRwearL"@,
            WheelField::Speed => "RRspeed"@,
            WheelField::BrakeLinePress => "RRbrakeLinePress"@,
        },
    }
}

/// The name of a per-wheel variable; every such name is in the mapped set.
pub fn wheel_var_name(c: Corner, f: WheelField) -> (r: &'static str)
    ensures
        r@ == wheel_name(c, f),
        mapped_name(r@),
{
    match c {
        Corner::FrontLeft => match f {
            WheelField::ShockDefl => "LFshockDefl",
            WheelField::ShockDeflAvg => "LFshockDeflST",
            WheelField::ShockVel => "LFshockVel",
            WheelField::ShockVelAvg => "LFshockVelST",
            WheelField::RideHeight => "LFrideHeight",
            WheelField::Pressure => "LFpressure",
            WheelField::ColdPressure => "LFcoldPressure",
            WheelField::TempCL => "LFtempCL",
            WheelField::TempCC => "LFtempCC",
            WheelField::TempCR => "LFtempCR",
            WheelField::TempL => "LFtempL",
            WheelField::TempM => "LFtempM",
            WheelField::TempR => "LFtempR",
            WheelField::Wear => "LFwearL",
            WheelField::Speed => "LFspeed",
            WheelField::BrakeLinePress => "LFbrakeLinePress",
        },
        Corner::FrontRight => match f {
            WheelField::ShockDefl => "RFshockDefl",
            WheelField::ShockDeflAvg => "RFshockDeflST",
            WheelField::ShockVel => "RFshockVel",
            WheelField::ShockVelAvg => "RFshockVelST",
            WheelField::RideHeight => "RFrideHeight",
            WheelField::Pressure => "RFpressure",
            WheelField::ColdPressure => "RFcoldPressure",
            WheelField::TempCL => "RFtempCL",
            WheelField::TempCC => "RFtempCC",
            WheelField::TempCR => "RFtempCR",
            WheelField::TempL => "RFtempL",
            WheelField::TempM => "RFtempM",
            WheelField::TempR => "RFtempR",
            WheelField::Wear => "RFwearL",
            WheelField::Speed => "RFspeed",
            WheelField::BrakeLinePress => "RFbrakeLinePress",
        },
        Corner::RearLeft => match f {
            WheelField::ShockDefl => "LRshockDefl",
            WheelField::ShockDeflAvg => "LRshockDeflST",
            WheelField::ShockVel => "LRshockVel",
            WheelField::ShockVelAvg => "LRshockVelST",
            WheelField::RideHeight => "LRrideHeight",
            WheelField::Pressure => "LRpressure",
            WheelField::ColdPressure => "LRcoldPressure",
            WheelField::TempCL => "LRtempCL",
            WheelField::TempCC => "LRtempCC",
            WheelField::TempCR => "LRtempCR",
            WheelField::TempL => "LRtempL",
            WheelField::TempM => "LRtempM",
            WheelField::TempR => "LRtempR",
            WheelField::Wear => "LRwearL",
            WheelField::Speed => "LRspeed",
            WheelField::BrakeLinePress => "LRbrakeLinePress",
        },
        Corner::RearRight => match f {
            WheelField::ShockDefl => "RRshockDefl",
            WheelField::ShockDeflAvg => "RRshockDeflST",
            WheelField::ShockVel => "RRshockVel",
            WheelField::ShockVelAvg => "RRshockVelST",
            WheelField::RideHeight => "RRrideHeight",
            WheelField::Pressure => "RRpressure",
            WheelField::ColdPressure => "RRcoldPressure",
            WheelField::TempCL => "RRtempCL",
            WheelField::TempCC => "RRtempCC",
            WheelField::TempCR => "RRtempCR",
            WheelField::TempL => "RRtempL",
            WheelField::TempM => "RRtempM",
            WheelField::TempR => "RRtempR",
            WheelField::Wear => "RRwearL",
            WheelField::Speed => "RRspeed",
            WheelField::BrakeLinePress => "RRbrakeLinePress",
        },
    }
}

/// The names that the motion section reads.
pub open spec fn mapped_motion(n: Seq<char>) -> bool {
    n == "VelocityX"@
        || n == "VelocityY"@
        || n == "VelocityZ"@
        || n == "LatAccel"@
        || n == "LongAccel"@
        || n == "VertAccel"@
        || n == "Pitch"@
        || n == "Yaw"@
        || n == "Roll"@
        || n == "PitchRate"@
        || n == "YawRate"@
        || n == "RollRate"@
        || n == "Speed"@
}

fn is_mapped_motion(n: &str) -> (r: bool)
    ensures
        r == mapped_motion(n@),
{
    str_eq(n, "VelocityX")
        || str_eq(n, "VelocityY")
        || str_eq(n, "VelocityZ")
        || str_eq(n, "LatAccel")
        || str_eq(n, "LongAccel")
        || str_eq(n, "VertAccel")
        || str_eq(n, "Pitch")
        || str_eq(n, "Yaw")
        || str_eq(n, "Roll")
        || str_eq(n, "PitchRate")
        || str_eq(n, "YawRate")
        || str_eq(n, "RollRate")
        || str_eq(n, "Speed")
}

/// The names that the vehicle section reads.
pub open spec fn mapped_vehicle(n: Seq<char>) -> bool {
    n == "RPM"@
        || n == "Gear"@
        || n == "Throttle"@
        || n == "Brake"@
        || n == "Clutch"@
        || n == "SteeringWheelAngle"@
        || n == "SteeringWheelTorque"@
        || n == "SteeringWheelPctTorque"@
        || n == "IsOnTrack"@
        || n == "IsInGarage"@
        || n == "PlayerTrackSurface"@
}

fn is_mapped_vehicle(n: &str) -> (r: bool)
    ensures
        r == mapped_vehicle(n@),
{
    str_eq(n, "RPM")
        || str_eq(n, "Gear")
        || str_eq(n, "Throttle")
        || str_eq(n, "Brake")
        || str_eq(n, "Clutch")
        || str_eq(n, "SteeringWheelAngle")
        || str_eq(n, "SteeringWheelTorque")
        || str_eq(n, "SteeringWheelPctTorque")
        || str_eq(n, "IsOnTrack")
        || str_eq(n, "IsInGarage")
        || str_eq(n, "PlayerTrackSurface")
}

/// The names that the engine section reads.
pub open spec fn mapped_engine(n: Seq<char>) -> bool {
    n == "WaterTemp"@
        || n == "OilTemp"@
        || n == "OilPress"@
        || n == "OilLevel"@
        || n == "FuelLevel"@
        || n == "FuelLevelPct"@
        || n == "FuelPress"@
        || n == "FuelUsePerHour"@
        || n == "Voltage"@
        || n == "ManifoldPress"@
        || n == "EngineWarnings"@
}

fn is_mapped_engine(n: &str) -> (r: bool)
    ensures
        r == mapped_engine(n@),
{
    str_eq(n, "WaterTemp")
        || str_eq(n, "OilTemp")
        || str_eq(n, "OilPress")
        || str_eq(n, "OilLevel")
        || str_eq(n, "FuelLevel")
        || str_eq(n, "FuelLevelPct")
        || str_eq(n, "FuelPress")
        || str_eq(n, "FuelUsePerHour")
        || str_eq(n, "Voltage")
        || str_eq(n, "ManifoldPress")
        || str_eq(n, "EngineWarnings")
}

/// The names that the wheels section reads.
pub open spec fn mapped_wheel_lf(n: Seq<char>) -> bool {
    n == "LFshockDefl"@
        || n == "LFshockDeflST"@
        || n == "LFshockVel"@
        || n == "LFshockVelST"@
        || n == "LFrideHeight"@
        || n == "LFpressure"@
        || n == "LFcoldPressure"@
        || n == "LFtempCL"@
        || n == "LFtempCC"@
        || n == "LFtempCR"@
        || n == "LFtempL"@
        || n == "LFtempM"@
        || n == "LFtempR"@
        || n == "LFwearL"@
        || n == "LFspeed"@
        || n == "LFbrakeLinePress"@
}

pub open spec fn mapped_wheel_rf(n: Seq<char>) -> bool {
    n == "RFshockDefl"@
        || n == "RFshockDeflST"@
        || n == "RFshockVel"@
        || n == "RFshockVelST"@
        || n == "RFrideHeight"@
        || n == "RFpressure"@
        || n == "RFcoldPressure"@
        || n == "RFtempCL"@
        || n == "RFtempCC"@
        || n == "RFtempCR"@
        || n == "RFtempL"@
        || n == "RFtempM"@
        || n == "RFtempR"@
        || n == "RFwearL"@
        || n == "RFspeed"@
        || n == "RFbrakeLinePress"@
}

pub open spec fn mapped_wheel_lr(n: Seq<char>) -> bool {
    n == "LRshockDefl"@
        || n == "LRshockDeflST"@
        || n == "LRshockVel"@
        || n == "LRshockVelST"@
        || n == "LRrideHeight"@
        || n == "LRpressure"@
        || n == "LRcoldPressure"@
        || n == "LRtempCL"@
        || n == "LRtempCC"@
        || n == "LRtempCR"@
        || n == "LRtempL"@
        || n == "LRtempM"@
        || n == "LRtempR"@
        || n == "LRwearL"@
        || n == "LRspeed"@
        || n == "LRbrakeLinePress"@
}

pub open spec fn mapped_wheel_rr(n: Seq<char>) -> bool {
    n == "RRshockDefl"@
        || n == "RRshockDeflST"@
        || n == "RRshockVel"@
        || n == "RRshockVelST"@
        || n == "RRrideHeight"@
        || n == "RRpressure"@
        || n == "RRcoldPressure"@
        || n == "RRtempCL"@
        || n == "RRtempCC"@
        || n == "RRtempCR"@
        || n == "RRtempL"@
        || n == "RRtempM"@
        || n == "RRtempR"@
        || n == "RRwearL"@
        || n == "RRspeed"@
        || n == "RRbrakeLinePress"@
}

pub open spec fn mapped_wheels(n: Seq<char>) -> bool {
    mapped_wheel_lf(n) || mapped_wheel_rf(n) || mapped_wheel_lr(n) || mapped_wheel_rr(n)
}

fn is_mapped_wheels(n: &str) -> (r: bool)
    ensures
        r == mapped_wheels(n@),
{
    str_eq(n, "LFshockDefl")
        || str_eq(n, "LFshockDeflST")
        || str_eq(n, "LFshockVel")
        || str_eq(n, "LFshockVelST")
        || str_eq(n, "LFrideHeight")
        || str_eq(n, "LFpressure")
        || str_eq(n, "LFcoldPressure")
        || str_eq(n, "LFtempCL")
        || str_eq(n, "LFtempCC")
        || str_eq(n, "LFtempCR")
        || str_eq(n, "LFtempL")
        || str_eq(n, "LFtempM")
        || str_eq(n, "LFtempR")
        || str_eq(n, "LFwearL")
        || str_eq(n, "LFspeed")
        || str_eq(n, "LFbrakeLinePress")
        || str_eq(n, "RFshockDefl")
        || str_eq(n, "RFshockDeflST")
        || str_eq(n, "RFshockVel")
        || str_eq(n, "RFshockVelST")
        || str_eq(n, "RFrideHeight")
        || str_eq(n, "RFpressure")
        || str_eq(n, "RFcoldPressure")
        || str_eq(n, "RFtempCL")
        || str_eq(n, "RFtempCC")
        || str_eq(n, "RFtempCR")
        || str_eq(n, "RFtempL")
        || str_eq(n, "RFtempM")
        || str_eq(n, "RFtempR")
        || str_eq(n, "RFwearL")
        || str_eq(n, "RFspeed")
        || str_eq(n, "RFbrakeLinePress")
        || str_eq(n, "LRshockDefl")
        || str_eq(n, "LRshockDeflST")
        || str_eq(n, "LRshockVel")
        || str_eq(n, "LRshockVelST")
        || str_eq(n, "LRrideHeight")
        || str_eq(n, "LRpressure")
        || str_eq(n, "LRcoldPressure")
        || str_eq(n, "LRtempCL")
        || str_eq(n, "LRtempCC")
        || str_eq(n, "LRtempCR")
        || str_eq(n, "LRtempL")
        || str_eq(n, "LRtempM")
        || str_eq(n, "LRtempR")
        || str_eq(n, "LRwearL")
        || str_eq(n, "LRspeed")
        || str_eq(n, "LRbrakeLinePress")
        || str_eq(n, "RRshockDefl")
        || str_eq(n, "RRshockDeflST")
        || str_eq(n, "RRshockVel")
        || str_eq(n, "RRshockVelST")
        || str_eq(n, "RRrideHeight")
        || str_eq(n, "RRpressure")
        || str_eq(n, "RRcoldPressure")
        || str_eq(n, "RRtempCL")
        || str_eq(n, "RRtempCC")
        || str_eq(n, "RRtempCR")
        || str_eq(n, "RRtempL")
        || str_eq(n, "RRtempM")
        || str_eq(n, "RRtempR")
        || str_eq(n, "RRwearL")
        || str_eq(n, "RRspeed")
        || str_eq(n, "RRbrakeLinePress")
}

/// The names that the timing section reads.
pub open spec fn mapped_timing(n: Seq<char>) -> bool {
    n == "LapCurrentLapTime"@
        || n == "LapLastLapTime"@
        || n == "LapBestLapTime"@
        || n == "LapBestNLapTime"@
        || n == "LapBestNLapLap"@
        || n == "Lap"@
        || n == "LapCompleted"@
        || n == "LapDist"@
        || n == "LapDistPct"@
        || n == "PlayerCarPosition"@
        || n == "PlayerCarClassPosition"@
        || n == "LapDeltaToBestLap"@
        || n == "LapDeltaToBestLap_OK"@
        || n == "LapDeltaToSessionBestLap"@
        || n == "LapDeltaToSessionBestLap_OK"@
        || n == "LapDeltaToOptimalLap"@
        || n == "LapDeltaToOptimalLap_OK"@
        || n == "RaceLaps"@
}

fn is_mapped_timing(n: &str) -> (r: bool)
    ensures
        r == mapped_timing(n@),
{
    str_eq(n, "LapCurrentLapTime")
        || str_eq(n, "LapLastLapTime")
        || str_eq(n, "LapBestLapTime")
        || str_eq(n, "LapBestNLapTime")
        || str_eq(n, "LapBestNLapLap")
        || str_eq(n, "Lap")
        || str_eq(n, "LapCompleted")
        || str_eq(n, "LapDist")
        || str_eq(n, "LapDistPct")
        || str_eq(n, "PlayerCarPosition")
        || str_eq(n, "PlayerCarClassPosition")
        || str_eq(n, "LapDeltaToBestLap")
        || str_eq(n, "LapDeltaToBestLap_OK")
        || str_eq(n, "LapDeltaToSessionBestLap")
        || str_eq(n, "LapDeltaToSessionBestLap_OK")
        || str_eq(n, "LapDeltaToOptimalLap")
        || str_eq(n, "LapDeltaToOptimalLap_OK")
        || str_eq(n, "RaceLaps")
}

/// The names that the session section reads.
pub open spec fn mapped_session(n: Seq<char>) -> bool {
    n == "SessionTick"@
        || n == "SessionState"@
        || n == "SessionTime"@
        || n == "SessionTimeRemain"@
        || n == "SessionTimeOfDay"@
        || n == "SessionLapsRemainEx"@
        || n == "SessionFlags"@
}

fn is_mapped_session(n: &str) -> (r: bool)
    ensures
        r == mapped_session(n@),
{
    str_eq(n, "SessionTick")
        || str_eq(n, "SessionState")
        || str_eq(n, "SessionTime")
        || str_eq(n, "SessionTimeRemain")
        || str_eq(n, "SessionTimeOfDay")
        || str_eq(n, "SessionLapsRemainEx")
        || str_eq(n, "SessionFlags")
}

/// The names that the weather section reads.
pub open spec fn mapped_weather(n: Seq<char>) -> bool {
    n == "AirTemp"@
        || n == "TrackTempCrew"@
        || n == "AirPressure"@
        || n == "AirDensity"@
        || n == "RelativeHumidity"@
        || n == "WindVel"@
        || n == "WindDir"@
        || n == "FogLevel"@
        || n == "Precipitation"@
        || n == "Skies"@
        || n == "WeatherDeclaredWet"@
}

fn is_mapped_weather(n: &str) -> (r: bool)
    ensures
        r == mapped_weather(n@),
{
    str_eq(n, "AirTemp")
        || str_eq(n, "TrackTempCrew")
        || str_eq(n, "AirPressure")
        || str_eq(n, "AirDensity")
        || str_eq(n, "RelativeHumidity")
        || str_eq(n, "WindVel")
        || str_eq(n, "WindDir")
        || str_eq(n, "FogLevel")
        || str_eq(n, "Precipitation")
        || str_eq(n, "Skies")
        || str_eq(n, "WeatherDeclaredWet")
}

/// The names that the pit section reads.
pub open spec fn mapped_pit(n: Seq<char>) -> bool {
    n == "OnPitRoad"@
        || n == "PitstopActive"@
        || n == "PlayerCarPitSvStatus"@
        || n == "PitRepairLeft"@
        || n == "PitOptRepairLeft"@
        || n == "FastRepairAvailable"@
        || n == "FastRepairUsed"@
        || n == "dpFuelFill"@
        || n == "dpLFTireChange"@
        || n == "dpRFTireChange"@
        || n == "dpLRTireChange"@
        || n == "dpRRTireChange"@
        || n == "dpLFTireColdPress"@
        || n == "dpRFTireColdPress"@
        || n == "dpLRTireColdPress"@
        || n == "dpRRTireColdPress"@
        || n == "dpWindshieldTearoff"@
        || n == "dpFastRepair"@
}

fn is_mapped_pit(n: &str) -> (r: bool)
    ensures
        r == mapped_pit(n@),
{
    str_eq(n, "OnPitRoad")
        || str_eq(n, "PitstopActive")
        || str_eq(n, "PlayerCarPitSvStatus")
        || str_eq(n, "PitRepairLeft")
        || str_eq(n, "PitOptRepairLeft")
        || str_eq(n, "FastRepairAvailable")
        || str_eq(n, "FastRepairUsed")
        || str_eq(n, "dpFuelFill")
        || str_eq(n, "dpLFTireChange")
        || str_eq(n, "dpRFTireChange")
        || str_eq(n, "dpLRTireChange")
        || str_eq(n, "dpRRTireChange")
        || str_eq(n, "dpLFTireColdPress")
        || str_eq(n, "dpRFTireColdPress")
        || str_eq(n, "dpLRTireColdPress")
        || str_eq(n, "dpRRTireColdPress")
        || str_eq(n, "dpWindshieldTearoff")
        || str_eq(n, "dpFastRepair")
}

/// The names that the electronics section reads.
pub open spec fn mapped_electronics(n: Seq<char>) -> bool {
    n == "dcABS"@
        || n == "dcTractionControl"@
        || n == "dcTractionControl2"@
        || n == "dcBrakeBias"@
        || n == "dcAntiRollFront"@
        || n == "dcAntiRollRear"@
        || n == "DRS_Status"@
        || n == "dcThrottleShape"@
        || n == "PushToPass"@
}

fn is_mapped_electronics(n: &str) -> (r: bool)
    ensures
        r == mapped_electronics(n@),
{
    str_eq(n, "dcABS")
        || str_eq(n, "dcTractionControl")
        || str_eq(n, "dcTractionControl2")
        || str_eq(n, "dcBrakeBias")
        || str_eq(n, "dcAntiRollFront")
        || str_eq(n, "dcAntiRollRear")
        || str_eq(n, "DRS_Status")
        || str_eq(n, "dcThrottleShape")
        || str_eq(n, "PushToPass")
}

/// The mapped set: the names that the sections of a frame read, and no others.
pub open spec fn mapped_name(n: Seq<char>) -> bool {
    mapped_motion(n)
        || mapped_vehicle(n)
        || mapped_engine(n)
        || mapped_wheels(n)
        || mapped_timing(n)
        || mapped_session(n)
        || mapped_weather(n)
        || mapped_pit(n)
        || mapped_electronics(n)
}

/// Whether the variable `n` is read by a section of a frame.
pub fn is_mapped_var(n: &str) -> (r: bool)
    ensures
        r == mapped_name(n@),
{
    is_mapped_motion(n)
        || is_mapped_vehicle(n)
        || is_mapped_engine(n)
        || is_mapped_wheels(n)
        || is_mapped_timing(n)
        || is_mapped_session(n)
        || is_mapped_weather(n)
        || is_mapped_pit(n)
        || is_mapped_electronics(n)
}

proof fn lemma_motion_read(n: Seq<char>)
    requires
        mapped_motion(n),
    ensures
        exists|v: Var| var_name(v) == n,
{
    if n == "VelocityX"@ {
        assert(var_name(Var::VelocityX) == n);
    }
    if n == "VelocityY"@ {
        assert(var_name(Var::VelocityY) == n);
    }
    if n == "VelocityZ"@ {
        assert(var_name(Var::VelocityZ) == n);
    }
    if n == "LatAccel"@ {
        assert(var_name(Var::LatAccel) == n);
    }
    if n == "LongAccel"@ {
        assert(var_name(Var::LongAccel) == n);
    }
    if n == "VertAccel"@ {
        assert(var_name(Var::VertAccel) == n);
    }
    if n == "Pitch"@ {
        assert(var_name(Var::Pitch) == n);
    }
    if n == "Yaw"@ {
        assert(var_name(Var::Yaw) == n);
    }
    if n == "Roll"@ {
        assert(var_name(Var::Roll) == n);
    }
    if n == "PitchRate"@ {
        assert(var_name(Var::PitchRate) == n);
    }
    if n == "YawRate"@ {
        assert(var_name(Var::YawRate) == n);
    }
    if n == "RollRate"@ {
        assert(var_name(Var::RollRate) == n);
    }
    if n == "Speed"@ {
        assert(var_name(Var::Speed) == n);
    }
}

proof fn lemma_vehicle_read(n: Seq<char>)
    requires
        mapped_vehicle(n),
    ensures
        exists|v: Var| var_name(v) == n,
{
    if n == "RPM"@ {
        assert(var_name(Var::RPM) == n);
    }
    if n == "Gear"@ {
        assert(var_name(Var::Gear) == n);
    }
    if n == "Throttle"@ {
        assert(var_name(Var::Throttle) == n);
    }
    if n == "Brake"@ {
        assert(var_name(Var::Brake) == n);
    }
    if n == "Clutch"@ {
        assert(var_name(Var::Clutch) == n);
    }
    if n == "SteeringWheelAngle"@ {
        assert(var_name(Var::SteeringWheelAngle) == n);
    }
    if n == "SteeringWheelTorque"@ {
        assert(var_name(Var::SteeringWheelTorque) == n);
    }
    if n == "SteeringWheelPctTorque"@ {
        assert(var_name(Var::SteeringWheelPctTorque) == n);
    }
    if n == "IsOnTrack"@ {
        assert(var_name(Var::IsOnTrack) == n);
    }
    if n == "IsInGarage"@ {
        assert(var_name(Var::IsInGarage) == n);
    }
    if n == "PlayerTrackSurface"@ {
        assert(var_name(Var::PlayerTrackSurface) == n);
    }
}

proof fn lemma_engine_read(n: Seq<char>)
    requires
        mapped_engine(n),
    ensures
        exists|v: Var| var_name(v) == n,
{
    if n == "WaterTemp"@ {
        assert(var_name(Var::WaterTemp) == n);
    }
    if n == "OilTemp"@ {
        assert(var_name(Var::OilTemp) == n);
    }
    if n == "OilPress"@ {
        assert(var_name(Var::OilPress) == n);
    }
    if n == "OilLevel"@ {
        assert(var_name(Var::OilLevel) == n);
    }
    if n == "FuelLevel"@ {
        assert(var_name(Var::FuelLevel) == n);
    }
    if n == "FuelLevelPct"@ {
        assert(var_name(Var::FuelLevelPct) == n);
    }
    if n == "FuelPress"@ {
        assert(var_name(Var::FuelPress) == n);
    }
    if n == "FuelUsePerHour"@ {
        assert(var_name(Var::FuelUsePerHour) == n);
    }
    if n == "Voltage"@ {
        assert(var_name(Var::Voltage) == n);
    }
    if n == "ManifoldPress"@ {
        assert(var_name(Var::ManifoldPress) == n);
    }
    if n == "EngineWarnings"@ {
        assert(var_name(Var::EngineWarnings) == n);
    }
}

proof fn lemma_timing_read(n: Seq<char>)
    requires
        mapped_timing(n),
    ensures
        exists|v: Var| var_name(v) == n,
{
    if n == "LapCurrentLapTime"@ {
        assert(var_name(Var::LapCurrentLapTime) == n);
    }
    if n == "LapLastLapTime"@ {
        assert(var_name(Var::LapLastLapTime) == n);
    }
    if n == "LapBestLapTime"@ {
        assert(var_name(Var::LapBestLapTime) == n);
    }
    if n == "LapBestNLapTime"@ {
        assert(var_name(Var::LapBestNLapTime) == n);
    }
    if n == "LapBestNLapLap"@ {
        assert(var_name(Var::LapBestNLapLap) == n);
    }
    if n == "Lap"@ {
        assert(var_name(Var::Lap) == n);
    }
    if n == "LapCompleted"@ {
        assert(var_name(Var::LapCompleted) == n);
    }
    if n == "LapDist"@ {
        assert(var_name(Var::LapDist) == n);
    }
    if n == "LapDistPct"@ {
        assert(var_name(Var::LapDistPct) == n);
    }
    if n == "PlayerCarPosition"@ {
        assert(var_name(Var::PlayerCarPosition) == n);
    }
    if n == "PlayerCarClassPosition"@ {
        assert(var_name(Var::PlayerCarClassPosition) == n);
    }
    if n == "LapDeltaToBestLap"@ {
        assert(var_name(Var::LapDeltaToBestLap) == n);
    }
    if n == "LapDeltaToBestLap_OK"@ {
        assert(var_name(Var::LapDeltaToBestLap_OK) == n);
    }
    if n == "LapDeltaToSessionBestLap"@ {
        assert(var_name(Var::LapDeltaToSessionBestLap) == n);
    }
    if n == "LapDeltaToSessionBestLap_OK"@ {
        assert(var_name(Var::LapDeltaToSessionBestLap_OK) == n);
    }
    if n == "LapDeltaToOptimalLap"@ {
        assert(var_name(Var::LapDeltaToOptimalLap) == n);
    }
    if n == "LapDeltaToOptimalLap_OK"@ {
        assert(var_name(Var::LapDeltaToOptimalLap_OK) == n);
    }
    if n == "RaceLaps"@ {
        assert(var_name(Var::RaceLaps) == n);
    }
}

proof fn lemma_session_read(n: Seq<char>)
    requires
        mapped_session(n),
    ensures
        exists|v: Var| var_name(v) == n,
{
    if n == "SessionTick"@ {
        assert(var_name(Var::SessionTick) == n);
    }
    if n == "SessionState"@ {
        assert(var_name(Var::SessionState) == n);
    }
    if n == "SessionTime"@ {
        assert(var_name(Var::SessionTime) == n);
    }
    if n == "SessionTimeRemain"@ {
        assert(var_name(Var::SessionTimeRemain) == n);
    }
    if n == "SessionTimeOfDay"@ {
        assert(var_name(Var::SessionTimeOfDay) == n);
    }
    if n == "SessionLapsRemainEx"@ {
        assert(var_name(Var::SessionLapsRemainEx) == n);
    }
    if n == "SessionFlags"@ {
        assert(var_name(Var::SessionFlags) == n);
    }
}

proof fn lemma_weather_read(n: Seq<char>)
    requires
        mapped_weather(n),
    ensures
        exists|v: Var| var_name(v) == n,
{
    if n == "AirTemp"@ {
        assert(var_name(Var::AirTemp) == n);
    }
    if n == "TrackTempCrew"@ {
        assert(var_name(Var::TrackTempCrew) == n);
    }
    if n == "AirPressure"@ {
        assert(var_name(Var::AirPressure) == n);
    }
    if n == "AirDensity"@ {
        assert(var_name(Var::AirDensity) == n);
    }
    if n == "RelativeHumidity"@ {
        assert(var_name(Var::RelativeHumidity) == n);
    }
    if n == "WindVel"@ {
        assert(var_name(Var::WindVel) == n);
    }
    if n == "WindDir"@ {
        assert(var_name(Var::WindDir) == n);
    }
    if n == "FogLevel"@ {
        assert(var_name(Var::FogLevel) == n);
    }
    if n == "Precipitation"@ {
        assert(var_name(Var::Precipitation) == n);
    }
    if n == "Skies"@ {
        assert(var_name(Var::Skies) == n);
    }
    if n == "WeatherDeclaredWet"@ {
        assert(var_name(Var::WeatherDeclaredWet) == n);
    }
}

proof fn lemma_pit_read(n: Seq<char>)
    requires
        mapped_pit(n),
    ensures
        exists|v: Var| var_name(v) == n,
{
    if n == "OnPitRoad"@ {
        assert(var_name(Var::OnPitRoad) == n);
    }
    if n == "PitstopActive"@ {
        assert(var_name(Var::PitstopActive) == n);
    }
    if n == "PlayerCarPitSvStatus"@ {
        assert(var_name(Var::PlayerCarPitSvStatus) == n);
    }
    if n == "PitRepairLeft"@ {
        assert(var_name(Var::PitRepairLeft) == n);
    }
    if n == "PitOptRepairLeft"@ {
        assert(var_name(Var::PitOptRepairLeft) == n);
    }
    if n == "FastRepairAvailable"@ {
        assert(var_name(Var::FastRepairAvailable) == n);
    }
    if n == "FastRepairUsed"@ {
        assert(var_name(Var::FastRepairUsed) == n);
    }
    if n == "dpFuelFill"@ {
        assert(var_name(Var::dpFuelFill) == n);
    }
    if n == "dpLFTireChange"@ {
        assert(var_name(Var::dpLFTireChange) == n);
    }
    if n == "dpRFTireChange"@ {
        assert(var_name(Var::dpRFTireChange) == n);
    }
    if n == "dpLRTireChange"@ {
        assert(var_name(Var::dpLRTireChange) == n);
    }
    if n == "dpRRTireChange"@ {
        assert(var_name(Var::dpRRTireChange) == n);
    }
    if n == "dpLFTireColdPress"@ {
        assert(var_name(Var::dpLFTireColdPress) == n);
    }
    if n == "dpRFTireColdPress"@ {
        assert(var_name(Var::dpRFTireColdPress) == n);
    }
    if n == "dpLRTireColdPress"@ {
        assert(var_name(Var::dpLRTireColdPress) == n);
    }
    if n == "dpRRTireColdPress"@ {
        assert(var_name(Var::dpRRTireColdPress) == n);
    }
    if n == "dpWindshieldTearoff"@ {
        assert(var_name(Var::dpWindshieldTearoff) == n);
    }
    if n == "dpFastRepair"@ {
        assert(var_name(Var::dpFastRepair) == n);
    }
}

proof fn lemma_electronics_read(n: Seq<char>)
    requires
        mapped_electronics(n),
    ensures
        exists|v: Var| var_name(v) == n,
{
    if n == "dcABS"@ {
        assert(var_name(Var::dcABS) == n);
    }
    if n == "dcTractionControl"@ {
        assert(var_name(Var::dcTractionControl) == n);
    }
    if n == "dcTractionControl2"@ {
        assert(var_name(Var::dcTractionControl2) == n);
    }
    if n == "dcBrakeBias"@ {
        assert(var_name(Var::dcBrakeBias) == n);
    }
    if n == "dcAntiRollFront"@ {
        assert(var_name(Var::dcAntiRollFront) == n);
    }
    if n == "dcAntiRollRear"@ {
        assert(var_name(Var::dcAntiRollRear) == n);
    }
    if n == "DRS_Status"@ {
        assert(var_name(Var::DRS_Status) == n);
    }
    if n == "dcThrottleShape"@ {
        assert(var_name(Var::dcThrottleShape) == n);
    }
    if n == "PushToPass"@ {
        assert(var_name(Var::PushToPass) == n);
    }
}

proof fn lemma_wheel_lf_read(n: Seq<char>)
    requires
        mapped_wheel_lf(n),
    ensures
        exists|f: WheelField| wheel_name(Corner::FrontLeft, f) == n,
{
    if n == "LFshockDefl"@ {
        assert(wheel_name(Corner::FrontLeft, WheelField::ShockDefl) == n);
    }
    if n == "LFshockDeflST"@ {
        assert(wheel_name(Corner::FrontLeft, WheelField::ShockDeflAvg) == n);
    }
    if n == "LFshockVel"@ {
        assert(wheel_name(Corner::FrontLeft, WheelField::ShockVel) == n);
    }
    if n == "LFshockVelST"@ {
        assert(wheel_name(Corner::FrontLeft, WheelField::ShockVelAvg) == n);
    }
    if n == "LFrideHeight"@ {
        assert(wheel_name(Corner::FrontLeft, WheelField::RideHeight) == n);
    }
    if n == "LFpressure"@ {
        assert(wheel_name(Corner::FrontLeft, WheelField::Pressure) == n);
    }
    if n == "LFcoldPressure"@ {
        assert(wheel_name(Corner::FrontLeft, WheelField::ColdPressure) == n);
    }
    if n == "LFtempCL"@ {
        assert(wheel_name(Corner::FrontLeft, WheelField::TempCL) == n);
    }
    if n == "LFtempCC"@ {
        assert(wheel_name(Corner::FrontLeft, WheelField::TempCC) == n);
    }
    if n == "LFtempCR"@ {
        assert(wheel_name(Corner::FrontLeft, WheelField::TempCR) == n);
    }
    if n == "LFtempL"@ {
        assert(wheel_name(Corner::FrontLeft, WheelField::TempL) == n);
    }
    if n == "LFtempM"@ {
        assert(wheel_name(Corner::FrontLeft, WheelField::TempM) == n);
    }
    if n == "LFtempR"@ {
        assert(wheel_name(Corner::FrontLeft, WheelField::TempR) == n);
    }
    if n == "LFwearL"@ {
        assert(wheel_name(Corner::FrontLeft, WheelField::Wear) == n);
    }
    if n == "LFspeed"@ {
        assert(wheel_name(Corner::FrontLeft, WheelField::Speed) == n);
    }
    if n == "LFbrakeLinePress"@ {
        assert(wheel_name(Corner::FrontLeft, WheelField::BrakeLinePress) == n);
    }
}

proof fn lemma_wheel_rf_read(n: Seq<char>)
    requires
        mapped_wheel_rf(n),
    ensures
        exists|f: WheelField| wheel_name(Corner::FrontRight, f) == n,
{
    if n == "RFshockDefl"@ {
        assert(wheel_name(Corner::FrontRight, WheelField::ShockDefl) == n);
    }
    if n == "RFshockDeflST"@ {
        assert(wheel_name(Corner::FrontRight, WheelField::ShockDeflAvg) == n);
    }
    if n == "RFshockVel"@ {
        assert(wheel_name(Corner::FrontRight, WheelField::ShockVel) == n);
    }
    if n == "RFshockVelST"@ {
        assert(wheel_name(Corner::FrontRight, WheelField::ShockVelAvg) == n);
    }
    if n == "RFrideHeight"@ {
        assert(wheel_name(Corner::FrontRight, WheelField::RideHeight) == n);
    }
    if n == "RFpressure"@ {
        assert(wheel_name(Corner::FrontRight, WheelField::Pressure) == n);
    }
    if n == "RFcoldPressure"@ {
        assert(wheel_name(Corner::FrontRight, WheelField::ColdPressure) == n);
    }
    if n == "RFtempCL"@ {
        assert(wheel_name(Corner::FrontRight, WheelField::TempCL) == n);
    }
    if n == "RFtempCC"@ {
        assert(wheel_name(Corner::FrontRight, WheelField::TempCC) == n);
    }
    if n == "RFtempCR"@ {
        assert(wheel_name(Corner::FrontRight, WheelField::TempCR) == n);
    }
    if n == "RFtempL"@ {
        assert(wheel_name(Corner::FrontRight, WheelField::TempL) == n);
    }
    if n == "RFtempM"@ {
        assert(wheel_name(Corner::FrontRight, WheelField::TempM) == n);
    }
    if n == "RFtempR"@ {
        assert(wheel_name(Corner::FrontRight, WheelField::TempR) == n);
    }
    if n == "RFwearL"@ {
        assert(wheel_name(Corner::FrontRight, WheelField::Wear) == n);
    }
    if n == "RFspeed"@ {
        assert(wheel_name(Corner::FrontRight, WheelField::Speed) == n);
    }
    if n == "RFbrakeLinePress"@ {
        assert(wheel_name(Corner::FrontRight, WheelField::BrakeLinePress) == n);
    }
}

proof fn lemma_wheel_lr_read(n: Seq<char>)
    requires
        mapped_wheel_lr(n),
    ensures
        exists|f: WheelField| wheel_name(Corner::RearLeft, f) == n,
{
    if n == "LRshockDefl"@ {
        assert(wheel_name(Corner::RearLeft, WheelField::ShockDefl) == n);
    }
    if n == "LRshockDeflST"@ {
        assert(wheel_name(Corner::RearLeft, WheelField::ShockDeflAvg) == n);
    }
    if n == "LRshockVel"@ {
        assert(wheel_name(Corner::RearLeft, WheelField::ShockVel) == n);
    }
    if n == "LRshockVelST"@ {
        assert(wheel_name(Corner::RearLeft, WheelField::ShockVelAvg) == n);
    }
    if n == "LRrideHeight"@ {
        assert(wheel_name(Corner::RearLeft, WheelField::RideHeight) == n);
    }
    if n == "LRpressure"@ {
        assert(wheel_name(Corner::RearLeft, WheelField::Pressure) == n);
    }
    if n == "LRcoldPressure"@ {
        assert(wheel_name(Corner::RearLeft, WheelField::ColdPressure) == n);
    }
    if n == "LRtempCL"@ {
        assert(wheel_name(Corner::RearLeft, WheelField::TempCL) == n);
    }
    if n == "LRtempCC"@ {
        assert(wheel_name(Corner::RearLeft, WheelField::TempCC) == n);
    }
    if n == "LRtempCR"@ {
        assert(wheel_name(Corner::RearLeft, WheelField::TempCR) == n);
    }
    if n == "LRtempL"@ {
        assert(wheel_name(Corner::RearLeft, WheelField::TempL) == n);
    }
    if n == "LRtempM"@ {
        assert(wheel_name(Corner::RearLeft, WheelField::TempM) == n);
    }
    if n == "LRtempR"@ {
        assert(wheel_name(Corner::RearLeft, WheelField::TempR) == n);
    }
    if n == "LRwearL"@ {
        assert(wheel_name(Corner::RearLeft, WheelField::Wear) == n);
    }
    if n == "LRspeed"@ {
        assert(wheel_name(Corner::RearLeft, WheelField::Speed) == n);
    }
    if n == "LRbrakeLinePress"@ {
        assert(wheel_name(Corner::RearLeft, WheelField::BrakeLinePress) == n);
    }
}

proof fn lemma_wheel_rr_read(n: Seq<char>)
    requires
        mapped_wheel_rr(n),
    ensures
        exists|f: WheelField| wheel_name(Corner::RearRight, f) == n,
{
    if n == "RRshockDefl"@ {
        assert(wheel_name(Corner::RearRight, WheelField::ShockDefl) == n);
    }
    if n == "RRshockDeflST"@ {
        assert(wheel_name(Corner::RearRight, WheelField::ShockDeflAvg) == n);
    }
    if n == "RRshockVel"@ {
        assert(wheel_name(Corner::RearRight, WheelField::ShockVel) == n);
    }
    if n == "RRshockVelST"@ {
        assert(wheel_name(Corner::RearRight, WheelField::ShockVelAvg) == n);
    }
    if n == "RRrideHeight"@ {
        assert(wheel_name(Corner::RearRight, WheelField::RideHeight) == n);
    }
    if n == "RRpressure"@ {
        assert(wheel_name(Corner::RearRight, WheelField::Pressure) == n);
    }
    if n == "RRcoldPressure"@ {
        assert(wheel_name(Corner::RearRight, WheelField::ColdPressure) == n);
    }
    if n == "RRtempCL"@ {
        assert(wheel_name(Corner::RearRight, WheelField::TempCL) == n);
    }
    if n == "RRtempCC"@ {
        assert(wheel_name(Corner::RearRight, WheelField::TempCC) == n);
    }
    if n == "RRtempCR"@ {
        assert(wheel_name(Corner::RearRight, WheelField::TempCR) == n);
    }
    if n == "RRtempL"@ {
        assert(wheel_name(Corner::RearRight, WheelField::TempL) == n);
    }
    if n == "RRtempM"@ {
        assert(wheel_name(Corner::RearRight, WheelField::TempM) == n);
    }
    if n == "RRtempR"@ {
        assert(wheel_name(Corner::RearRight, WheelField::TempR) == n);
    }
    if n == "RRwearL"@ {
        assert(wheel_name(Corner::RearRight, WheelField::Wear) == n);
    }
    if n == "RRspeed"@ {
        assert(wheel_name(Corner::RearRight, WheelField::Speed) == n);
    }
    if n == "RRbrakeLinePress"@ {
        assert(wheel_name(Corner::RearRight, WheelField::BrakeLinePress) == n);
    }
}

proof fn lemma_wheels_read(n: Seq<char>)
    requires
        mapped_wheels(n),
    ensures
        exists|c: Corner, f: WheelField| wheel_name(c, f) == n,
{
    if mapped_wheel_lf(n) {
        lemma_wheel_lf_read(n);
        let f = choose|f: WheelField| wheel_name(Corner::FrontLeft, f) == n;
        assert(wheel_name(Corner::FrontLeft, f) == n);
    }
    if mapped_wheel_rf(n) {
        lemma_wheel_rf_read(n);
        let f = choose|f: WheelField| wheel_name(Corner::FrontRight, f) == n;
        assert(wheel_name(Corner::FrontRight, f) == n);
    }
    if mapped_wheel_lr(n) {
        lemma_wheel_lr_read(n);
        let f = choose|f: WheelField| wheel_name(Corner::RearLeft, f) == n;
        assert(wheel_name(Corner::RearLeft, f) == n);
    }
    if mapped_wheel_rr(n) {
        lemma_wheel_rr_read(n);
        let f = choose|f: WheelField| wheel_name(Corner::RearRight, f) == n;
        assert(wheel_name(Corner::RearRight, f) == n);
    }
}

/// Every name in the mapped set is the name of a variable that some section reads.
pub proof fn lemma_mapped_names_are_read(n: Seq<char>)
    requires
        mapped_name(n),
    ensures
        (exists|v: Var| var_name(v) == n) || (exists|c: Corner, f: WheelField| wheel_name(c, f) == n),
{
    if mapped_motion(n) {
        lemma_motion_read(n);
    }
    if mapped_vehicle(n) {
        lemma_vehicle_read(n);
    }
    if mapped_engine(n) {
        lemma_engine_read(n);
    }
    if mapped_timing(n) {
        lemma_timing_read(n);
    }
    if mapped_session(n) {
        lemma_session_read(n);
    }
    if mapped_weather(n) {
        lemma_weather_read(n);
    }
    if mapped_pit(n) {
        lemma_pit_read(n);
    }
    if mapped_electronics(n) {
        lemma_electronics_read(n);
    }
    if mapped_wheels(n) {
        lemma_wheels_read(n);
    }
}
/// Whether a variable goes to the extras: it is not mapped and is not a per-car array
/// (those belong to the competitors).
pub open spec fn is_extra(n: Seq<char>) -> bool {
    !mapped_name(n) && !has_prefix(n, "CarIdx"@)
}

/// The key of an extra: the source tag, a slash, the variable's name.
pub open spec fn extra_key(source: Seq<char>, n: Seq<char>) -> Seq<char> {
    source + "/"@ + n
}

/// The extras of a sample: every variable that goes to the extras, in order, under its key.
pub open spec fn extras_of(source: Seq<char>, s: Seq<(Seq<char>, ValueView)>) -> Seq<
    (Seq<char>, ValueView),
>
    decreases s.len(),
{
    if s.len() == 0 {
        Seq::empty()
    } else {
        let rest = extras_of(source, s.drop_last());
        if is_extra(s.last().0) {
            rest.push((extra_key(source, s.last().0), s.last().1))
        } else {
            rest
        }
    }
}

/// Whether the variable `n` goes to the extras.
pub fn is_extra_var(n: &str) -> (r: bool)
    ensures
        r == is_extra(n@),
{
    !is_mapped_var(n) && !starts_with(n, "CarIdx")
}

/// The extras of `sample` under keys `"<source>/<name>"`.
pub fn collect_extras(source: &str, sample: &Sample) -> (r: Vec<NamedValue>)
    ensures
        r@.map_values(|e: NamedValue| (e.name@, e.value@)) == extras_of(source@, sample@),
{
    let mut out: Vec<NamedValue> = Vec::new();
    let mut i: usize = 0;
    while i < sample.values.len()
        invariant
            i <= sample.values@.len(),
            out@.map_values(|e: NamedValue| (e.name@, e.value@)) == extras_of(
                source@,
                sample@.take(i as int),
            ),
        decreases sample.values@.len() - i,
    {
        let e = &sample.values[i];
        proof {
            assert(sample@.take(i + 1).drop_last() =~= sample@.take(i as int));
            assert(sample@.take(i + 1).last() == (e.name@, e.value@));
        }
        if is_extra_var(e.name.as_str()) {
            let mut key = source.to_string();
            key.append("/");
            key.append(e.name.as_str());
            assert(key@ == extra_key(source@, e.name@));
            let ghost before = out@;
            out.push(NamedValue { name: key, value: e.value.copied() });
            proof {
                assert(out@.map_values(|e: NamedValue| (e.name@, e.value@)) =~= before.map_values(
                    |e: NamedValue| (e.name@, e.value@),
                ).push((extra_key(source@, e.name@), e.value@)));
            }
        }
        i = i + 1;
    }
    proof {
        assert(sample@.take(sample@.len() as int) =~= sample@);
    }
    out
}

proof fn lemma_extras_keys(source: Seq<char>, s: Seq<(Seq<char>, ValueView)>, k: int)
    requires
        0 <= k < extras_of(source, s).len(),
    ensures
        exists|n: Seq<char>| is_extra(n) && extras_of(source, s)[k].0 == extra_key(source, n),
    decreases s.len(),
{
    if s.len() > 0 {
        let rest = extras_of(source, s.drop_last());
        if k < rest.len() {
            lemma_extras_keys(source, s.drop_last(), k);
        }
    }
}

/// No mapped variable ever appears among the extras, whatever the sample.
pub proof fn lemma_mapped_never_extra(
    source: Seq<char>,
    s: Seq<(Seq<char>, ValueView)>,
    n: Seq<char>,
    k: int,
)
    requires
        mapped_name(n),
        0 <= k < extras_of(source, s).len(),
    ensures
        extras_of(source, s)[k].0 != extra_key(source, n),
{
    lemma_extras_keys(source, s, k);
    let m = choose|m: Seq<char>| is_extra(m) && extras_of(source, s)[k].0 == extra_key(source, m);
    if extra_key(source, m) == extra_key(source, n) {
        let p = source + "/"@;
        assert(extra_key(source, m).skip(p.len() as int) =~= m);
        assert(extra_key(source, n).skip(p.len() as int) =~= n);
    }
}

} // verus!
