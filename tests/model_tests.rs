use ost::manager::{detection_step, live_frames_allowed, toggle, AdapterProbe, DetectionAction};
use ost::model::{EngineWarnings, FlagState, SessionState, SessionType, TrackSurface, Vector3};
use ost::normalize::{
    collect_extras, is_extra_var, is_mapped_var, parse_session_type, session_type_from_lowered,
    is_left_corner, skies_label, track_length_text, tyre_temp_sources, wheel_var_name, Corner, Var,
    WheelField,
};
use ost::ibt::{NamedValue, Sample, VarValue};

/// A length in meters, as the serialized frame tags it.
#[derive(Debug, Clone, Copy, PartialEq)]
struct Meters(f32);

#[test]
fn test_vector3_new() {
    let v = Vector3::new(Meters(1.0), Meters(2.0), Meters(3.0));
    assert_eq!(v.x, Meters(1.0));
    assert_eq!(v.y, Meters(2.0));
    assert_eq!(v.z, Meters(3.0));
}

#[test]
fn surface_codes() {
    assert_eq!(TrackSurface::from_iracing(-1), TrackSurface::NotInWorld);
    assert_eq!(TrackSurface::from_iracing(0), TrackSurface::Undefined);
    assert_eq!(TrackSurface::from_iracing(3), TrackSurface::Asphalt);
    assert_eq!(TrackSurface::from_iracing(5), TrackSurface::Unknown);
    assert_eq!(TrackSurface::from_iracing(7), TrackSurface::Concrete);
    assert_eq!(TrackSurface::from_iracing(9), TrackSurface::RacingDirt);
    assert_eq!(TrackSurface::from_iracing(10), TrackSurface::Paint);
    assert_eq!(TrackSurface::from_iracing(15), TrackSurface::Rumble);
    assert_eq!(TrackSurface::from_iracing(16), TrackSurface::Grass);
    assert_eq!(TrackSurface::from_iracing(23), TrackSurface::Dirt);
    assert_eq!(TrackSurface::from_iracing(24), TrackSurface::Sand);
    assert_eq!(TrackSurface::from_iracing(28), TrackSurface::Gravel);
    assert_eq!(TrackSurface::from_iracing(29), TrackSurface::Grasscrete);
    assert_eq!(TrackSurface::from_iracing(30), TrackSurface::Astroturf);
    assert_eq!(TrackSurface::from_iracing(31), TrackSurface::Unknown);
}

#[test]
fn session_state_codes() {
    assert_eq!(SessionState::from_iracing(1), SessionState::GetInCar);
    assert_eq!(SessionState::from_iracing(4), SessionState::Racing);
    assert_eq!(SessionState::from_iracing(6), SessionState::Cooldown);
    assert_eq!(SessionState::from_iracing(0), SessionState::Invalid);
    assert_eq!(SessionState::from_iracing(7), SessionState::Invalid);
}

#[test]
fn engine_warning_bits() {
    let w = EngineWarnings::from_iracing_bits(0x01 | 0x08 | 0x20);
    assert!(w.water_temp_high);
    assert!(!w.fuel_pressure_low);
    assert!(!w.oil_pressure_low);
    assert!(w.engine_stalled);
    assert!(!w.pit_speed_limiter);
    assert!(w.rev_limiter);
}

#[test]
fn flag_bits() {
    let f = FlagState::from_iracing_bits((1 << 2) | (1 << 14) | (1 << 24));
    assert!(f.green);
    assert!(f.caution);
    assert!(f.start_go);
    assert!(!f.checkered);
    assert!(!f.yellow);
    assert!(f.any_active());
    let quiet = FlagState::from_iracing_bits(1 << 18);
    assert!(quiet.can_service);
    assert!(!quiet.any_active());
    // bit 13 carries no flag
    assert!(!FlagState::from_iracing_bits(1 << 13).any_active());
}

#[test]
fn session_type_labels() {
    assert_eq!(parse_session_type("Lone Qualify"), Some(SessionType::Qualifying));
    assert_eq!(parse_session_type("RACE"), Some(SessionType::Race));
    assert_eq!(parse_session_type("Offline Testing"), Some(SessionType::Other));
    assert_eq!(parse_session_type("Warm Up"), Some(SessionType::Warmup));
    assert_eq!(parse_session_type("Time Trial"), Some(SessionType::TimeTrial));
    assert_eq!(parse_session_type(""), None);
    assert_eq!(session_type_from_lowered("hotlap"), Some(SessionType::Hotlap));
    assert_eq!(session_type_from_lowered("Practice"), Some(SessionType::Other));
}

#[test]
fn tyre_sides() {
    let l = tyre_temp_sources(true);
    assert_eq!(l.surface_inner, WheelField::TempCR);
    assert_eq!(l.surface_middle, WheelField::TempCC);
    assert_eq!(l.surface_outer, WheelField::TempCL);
    assert_eq!(l.carcass_inner, WheelField::TempR);
    assert_eq!(l.carcass_middle, WheelField::TempM);
    assert_eq!(l.carcass_outer, WheelField::TempL);
    let r = tyre_temp_sources(false);
    assert_eq!(r.surface_inner, WheelField::TempCL);
    assert_eq!(r.surface_middle, WheelField::TempCC);
    assert_eq!(r.carcass_outer, WheelField::TempR);
    assert!(is_left_corner(Corner::RearLeft));
    assert!(!is_left_corner(Corner::FrontRight));
}

#[test]
fn variable_names() {
    assert_eq!(Var::Speed.name(), "Speed");
    assert_eq!(Var::LapDeltaToBestLap_OK.name(), "LapDeltaToBestLap_OK");
    assert_eq!(Var::dpLFTireChange.name(), "dpLFTireChange");
    assert_eq!(wheel_var_name(Corner::FrontLeft, WheelField::TempCC), "LFtempCC");
    assert_eq!(wheel_var_name(Corner::RearRight, WheelField::Wear), "RRwearL");
    assert_eq!(wheel_var_name(Corner::FrontRight, WheelField::ShockDeflAvg), "RFshockDeflST");
    assert_eq!(wheel_var_name(Corner::RearLeft, WheelField::Pressure), "LRpressure");
}

#[test]
fn mapped_names_never_become_extras() {
    for n in ["Speed", "RPM", "LFtempCL", "LFtempCC", "RRwearL", "RFpressure", "SessionTick", "dcABS", "RaceLaps", "PushToPass"] {
        assert!(is_mapped_var(n), "{n}");
        assert!(!is_extra_var(n), "{n}");
    }
    // names no section reads are not in the mapped set
    for n in ["speed", "LFtempCM", "RRwear", "LFairPressure", "SessionNum", "TrackWetness", "dpFuelAddKg", "CarIdxLap"] {
        assert!(!is_mapped_var(n), "{n}");
    }
    assert!(is_extra_var("SessionUniqueID"));
    assert!(is_extra_var("SessionNum"));
    assert!(!is_extra_var("CarIdxLap"));
    assert!(!is_extra_var("CarIdxFastRepairsUsed"));
}

#[test]
fn extras_are_keyed_by_source() {
    let sample = Sample {
        values: vec![
            NamedValue { name: "Speed".to_string(), value: VarValue::Float(0) },
            NamedValue { name: "SessionUniqueID".to_string(), value: VarValue::Int(7) },
            NamedValue { name: "CarIdxGear".to_string(), value: VarValue::IntArray(vec![1, 2]) },
            NamedValue { name: "FrameRate".to_string(), value: VarValue::Float(0x4270_0000) },
        ],
    };
    let extras = collect_extras("iracing", &sample);
    let keys: Vec<&str> = extras.iter().map(|e| e.name.as_str()).collect();
    assert_eq!(keys, vec!["iracing/SessionUniqueID", "iracing/FrameRate"]);
    assert_eq!(extras[0].value, VarValue::Int(7));
}

#[test]
fn detection_keeps_stops_and_starts() {
    let p = |enabled, detected, active| AdapterProbe { enabled, detected, active };
    let probes = vec![p(false, true, false), p(true, false, false), p(true, true, false), p(true, true, false)];
    assert_eq!(detection_step(None, &probes, 0), DetectionAction::Start(2));
    assert_eq!(detection_step(None, &probes, 3), DetectionAction::Start(3));
    assert_eq!(detection_step(None, &probes, 4), DetectionAction::Idle);
    assert_eq!(detection_step(Some(2), &probes, 0), DetectionAction::Keep);
    assert_eq!(detection_step(Some(1), &probes, 0), DetectionAction::Stop(1));
    assert_eq!(detection_step(Some(9), &probes, 0), DetectionAction::Start(2));
}

#[test]
fn live_reads_and_toggles() {
    assert!(live_frames_allowed(false, Some(0)));
    assert!(!live_frames_allowed(true, Some(0)));
    assert!(!live_frames_allowed(false, None));
    let t = toggle(true, true);
    assert!(!t.enabled && t.stop);
    let t = toggle(false, false);
    assert!(t.enabled && !t.stop);
}

#[test]
fn sky_labels() {
    assert_eq!(skies_label(0), "Clear");
    assert_eq!(skies_label(1), "Partly Cloudy");
    assert_eq!(skies_label(2), "Mostly Cloudy");
    assert_eq!(skies_label(3), "Overcast");
    assert_eq!(skies_label(4), "Unknown(4)");
    assert_eq!(skies_label(-17), "Unknown(-17)");
    assert_eq!(skies_label(1230), "Unknown(1230)");
    assert_eq!(skies_label(i32::MIN), "Unknown(-2147483648)");
}

#[test]
fn track_length_number_text() {
    assert_eq!(track_length_text("4.28 km"), "4.28");
    assert_eq!(track_length_text("4,28 km"), "4.28");
    assert_eq!(track_length_text("5 km km"), "5");
    assert_eq!(track_length_text("3,1,2"), "3.1.2");
    assert_eq!(track_length_text(" km"), "");
    assert_eq!(track_length_text("km"), "km");
}
