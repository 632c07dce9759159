use ost::ibt::{
    read_array_value, read_null_terminated_string, read_scalar_value, IbtError, IbtFile, VarType, VarValue,
};
use ost::session_info::{parse_i32, IbtSessionInfo};

/// One variable of a synthetic recording: type code, offset, count, name.
struct Var(i32, i32, i32, &'static str);

/// Lays out a recording: header, first buffer descriptor, disk sub-header, variable
/// table, YAML, then `samples` of `buf_len` bytes each.
fn build(ver: i32, vars: &[Var], yaml: &str, buf_len: usize, samples: &[Vec<u8>]) -> Vec<u8> {
    let var_off = 144usize;
    let yaml_off = var_off + 144 * vars.len();
    let yaml_len = yaml.len() + 4;
    let base = yaml_off + yaml_len;
    let mut d = vec![0u8; base + buf_len * samples.len()];
    let put = |d: &mut Vec<u8>, at: usize, v: i32| d[at..at + 4].copy_from_slice(&v.to_le_bytes());
    put(&mut d, 0, ver);
    put(&mut d, 8, 60);
    put(&mut d, 16, yaml_len as i32);
    put(&mut d, 20, yaml_off as i32);
    put(&mut d, 24, vars.len() as i32);
    put(&mut d, 28, var_off as i32);
    put(&mut d, 32, 1);
    put(&mut d, 36, buf_len as i32);
    put(&mut d, 52, base as i32);
    d[120..128].copy_from_slice(&10.0f64.to_le_bytes());
    d[128..136].copy_from_slice(&12.5f64.to_le_bytes());
    put(&mut d, 136, 3);
    put(&mut d, 140, samples.len() as i32);
    for (k, v) in vars.iter().enumerate() {
        let o = var_off + 144 * k;
        put(&mut d, o, v.0);
        put(&mut d, o + 4, v.1);
        put(&mut d, o + 8, v.2);
        d[o + 16..o + 16 + v.3.len()].copy_from_slice(v.3.as_bytes());
        d[o + 112..o + 114].copy_from_slice(b"m/");
    }
    d[yaml_off..yaml_off + yaml.len()].copy_from_slice(yaml.as_bytes());
    for (i, s) in samples.iter().enumerate() {
        d[base + i * buf_len..base + i * buf_len + s.len()].copy_from_slice(s);
    }
    d
}

fn sample_bytes(lap: i32, speed: f32, tick: i32) -> Vec<u8> {
    let mut s = vec![0u8; 24];
    s[0..4].copy_from_slice(&lap.to_le_bytes());
    s[4..8].copy_from_slice(&speed.to_le_bytes());
    s[8..12].copy_from_slice(&tick.to_le_bytes());
    s[12] = 1;
    s[16..20].copy_from_slice(&7i32.to_le_bytes());
    s[20..24].copy_from_slice(&(-8i32).to_le_bytes());
    s
}

const YAML: &str = "---\nWeekendInfo:\n TrackName: spielberg gp\n TrackDisplayName: Red Bull Ring\n TrackLength: 4.28 km\nSessionInfo:\n Sessions:\n - SessionNum: 0\n   SessionType: Lone Qualify\n";

fn vars() -> Vec<Var> {
    vec![
        Var(2, 0, 1, "Lap"),
        Var(4, 4, 1, "Speed"),
        Var(2, 8, 1, "SessionTick"),
        Var(1, 12, 1, "IsOnTrack"),
        Var(2, 16, 2, "CarIdxGear"),
        Var(5, 20, 1, "Beyond"),
    ]
}

fn fixture() -> IbtFile {
    let samples: Vec<Vec<u8>> = (0..5).map(|i| sample_bytes(if i < 2 { 1 } else { 2 }, i as f32 * 1.5, 100 + i)).collect();
    IbtFile::from_bytes(build(2, &vars(), YAML, 24, &samples)).expect("synthetic file parses")
}

#[test]
fn test_var_type_from_i32() {
    assert_eq!(VarType::from_i32(0).unwrap(), VarType::Char);
    assert_eq!(VarType::from_i32(1).unwrap(), VarType::Bool);
    assert_eq!(VarType::from_i32(2).unwrap(), VarType::Int);
    assert_eq!(VarType::from_i32(3).unwrap(), VarType::BitField);
    assert_eq!(VarType::from_i32(4).unwrap(), VarType::Float);
    assert_eq!(VarType::from_i32(5).unwrap(), VarType::Double);
    assert!(VarType::from_i32(6).is_err());
}

#[test]
fn test_read_null_terminated_string() {
    let buf = b"hello\0\0\0\0\0";
    assert_eq!(read_null_terminated_string(buf), "hello");
    let buf2 = b"no null here!!!!";
    assert_eq!(read_null_terminated_string(buf2), "no null here!!!!");
}

#[test]
fn null_terminated_invalid_utf8_is_replaced() {
    assert_eq!(read_null_terminated_string(&[b'a', 0xff, b'b', 0, b'c']), "a\u{fffd}b");
    assert_eq!(read_null_terminated_string(&[]), "");
}

#[test]
fn test_session_info_from_yaml() {
    let yaml = r#"---
WeekendInfo:
 TrackName: spielberg gp
 TrackDisplayName: Red Bull Ring
 TrackConfigName: Grand Prix
 TrackLength: 4.28 km
 DriverInfo:
 DriverCarIdx: 5
 Drivers:
 - CarIdx: 0
   UserName: Test Driver
   CarScreenName: Formula Test
SessionInfo:
 Sessions:
 - SessionNum: 0
   SessionType: Lone Qualify
"#;
    let info = IbtSessionInfo::from_yaml(yaml).unwrap();
    assert_eq!(info.track_name, "spielberg gp");
    assert_eq!(info.track_display_name, "Red Bull Ring");
    assert_eq!(info.driver_car_idx, 5);
    assert_eq!(info.driver_name, "Test Driver");
    assert_eq!(info.car_screen_name, "Formula Test");
    assert_eq!(info.session_type, "Lone Qualify");
}

#[test]
fn yaml_first_driver_wins_and_display_falls_back() {
    let yaml = "TrackName: a\r\n UserName: first\n UserName: second\n CarScreenName: car\n DriverCarIdx: x1\n SessionType: Race\n SessionType: Practice\n";
    let info = IbtSessionInfo::from_yaml(yaml).unwrap();
    assert_eq!(info.track_display_name, "a");
    assert_eq!(info.driver_name, "first");
    assert_eq!(info.car_name, "car");
    assert_eq!(info.driver_car_idx, 0);
    assert_eq!(info.session_type, "Race");
}

#[test]
fn yaml_keys_take_their_first_occurrence() {
    let yaml = "TrackName: first track\nTrackName: second track\nTrackLength: 1 km\nTrackLength: 2 km\n DriverCarIdx: 3\n DriverCarIdx: 4\n SessionType:\n SessionType: Race\n";
    let info = IbtSessionInfo::from_yaml(yaml).unwrap();
    assert_eq!(info.track_name, "first track");
    assert_eq!(info.track_display_name, "first track");
    assert_eq!(info.track_length, "1 km");
    assert_eq!(info.driver_car_idx, 3);
    assert_eq!(info.session_type, "");
    let bad_idx = IbtSessionInfo::from_yaml("DriverCarIdx: x\nDriverCarIdx: 7\n").unwrap();
    assert_eq!(bad_idx.driver_car_idx, 0);
}

#[test]
fn integers_parse_like_std() {
    for s in ["0", "42", "-7", "+13", "2147483647", "-2147483648", "2147483648", "", "-", "+", "1a", " 1", "007"] {
        assert_eq!(parse_i32(s), s.parse::<i32>().ok(), "{s:?}");
    }
}

#[test]
fn header_and_tables_decode() {
    let f = fixture();
    assert_eq!(f.header().ver, 2);
    assert_eq!(f.tick_rate(), 60);
    assert_eq!(f.record_count(), 5);
    assert_eq!(f.disk_sub_header().session_lap_count, 3);
    assert_eq!(f64::from_bits(f.disk_sub_header().session_end_time_bits) - f64::from_bits(f.disk_sub_header().session_start_time_bits), 2.5);
    let names: Vec<&str> = f.var_headers_ref().iter().map(|v| v.name.as_str()).collect();
    assert_eq!(names, vec!["Lap", "Speed", "SessionTick", "IsOnTrack", "CarIdxGear", "Beyond"]);
    assert_eq!(f.var_headers_ref()[1].var_type, VarType::Float);
    assert_eq!(f.var_headers_ref()[0].unit, "m/");
    assert_eq!(f.session_info().track_display_name, "Red Bull Ring");
    assert_eq!(f.session_info().session_type, "Lone Qualify");
    assert!(f.session_info_yaml().starts_with("---\nWeekendInfo"));
    assert_eq!(f.file_size() as usize, 144 + 144 * 6 + YAML.len() + 4 + 5 * 24);
}

#[test]
fn sample_values_decode() {
    let f = fixture();
    let s = f.read_sample(3).unwrap();
    assert_eq!(s.get("Lap"), Some(&VarValue::Int(2)));
    assert_eq!(s.get("SessionTick"), Some(&VarValue::Int(103)));
    assert_eq!(s.get("IsOnTrack"), Some(&VarValue::Bool(true)));
    assert_eq!(s.get("CarIdxGear"), Some(&VarValue::IntArray(vec![7, -8])));
    match s.get("Speed") {
        Some(VarValue::Float(bits)) => assert_eq!(f32::from_bits(*bits), 4.5),
        other => panic!("{other:?}"),
    }
    // a double at offset 20 would end past the 24-byte sample: skipped
    assert_eq!(s.get("Beyond"), None);
    assert_eq!(s.values.len(), 5);
    assert_eq!(s.get("IsOnTrack").unwrap().as_bool(), Some(true));
    assert_eq!(s.get("Lap").unwrap().as_u32(), Some(2));
}

#[test]
fn read_sample_boundaries() {
    let f = fixture();
    let n = f.record_count();
    assert_eq!(f.read_sample(n).unwrap_err(), IbtError::OutOfRange);
    assert!(f.read_sample(n - 1).is_ok());
}

#[test]
fn range_read_matches_single_reads() {
    let f = fixture();
    for i in 0..f.record_count() {
        let one = f.read_sample(i).unwrap();
        let run = f.read_samples_range(i, 1).unwrap();
        assert_eq!(run.len(), 1);
        assert_eq!(format!("{:?}", one.values), format!("{:?}", run[0].values));
    }
}

#[test]
fn range_read_clamps_count() {
    let f = fixture();
    assert_eq!(f.read_samples_range(3, 10).unwrap().len(), 2);
    assert_eq!(f.read_samples_range(0, 2).unwrap().len(), 2);
    assert_eq!(f.read_samples_range(1, 0).unwrap().len(), 0);
    assert_eq!(f.read_samples_range(5, 1).unwrap_err(), IbtError::OutOfRange);
    let run = f.read_samples_range(2, 3).unwrap();
    assert_eq!(run[2].get("SessionTick"), Some(&VarValue::Int(104)));
}

#[test]
fn parsing_twice_gives_the_same_result() {
    let a = fixture();
    let b = fixture();
    assert_eq!(format!("{:?}", a.var_headers_ref()), format!("{:?}", b.var_headers_ref()));
    for i in 0..a.record_count() {
        assert_eq!(format!("{:?}", a.read_sample(i).unwrap()), format!("{:?}", b.read_sample(i).unwrap()));
    }
}

#[test]
fn rejects_bad_files() {
    let s = vec![sample_bytes(1, 0.0, 0)];
    assert_eq!(IbtFile::from_bytes(vec![0u8; 100]).err(), Some(IbtError::TruncatedFile));
    assert_eq!(IbtFile::from_bytes(build(1, &vars(), YAML, 24, &s)).err(), Some(IbtError::UnsupportedVersion));
    let bad_type = vec![Var(9, 0, 1, "Odd")];
    assert_eq!(IbtFile::from_bytes(build(2, &bad_type, YAML, 24, &s)).err(), Some(IbtError::MalformedHeader));
    let mut short = build(2, &vars(), YAML, 24, &s);
    short.truncate(short.len() - 1);
    assert_eq!(IbtFile::from_bytes(short).err(), Some(IbtError::TruncatedFile));
    let mut far = build(2, &vars(), YAML, 24, &s);
    far[28..32].copy_from_slice(&i32::MAX.to_le_bytes());
    assert_eq!(IbtFile::from_bytes(far).err(), Some(IbtError::MalformedHeader));
    let mut neg = build(2, &vars(), YAML, 24, &s);
    neg[36..40].copy_from_slice(&(-1i32).to_le_bytes());
    assert_eq!(IbtFile::from_bytes(neg).err(), Some(IbtError::MalformedHeader));
}

#[test]
fn test_read_scalar_values() {
    let mut buf = vec![0u8; 32];
    let val: f32 = 42.5;
    buf[0..4].copy_from_slice(&val.to_le_bytes());
    let ival: i32 = -123;
    buf[4..8].copy_from_slice(&ival.to_le_bytes());
    let dval: f64 = 99.99;
    buf[8..16].copy_from_slice(&dval.to_le_bytes());
    buf[16] = 1;
    match read_scalar_value(&buf, 0, VarType::Float) {
        Some(VarValue::Float(v)) => assert!((f32::from_bits(v) - 42.5).abs() < 0.001),
        _ => panic!("Expected Float"),
    }
    match read_scalar_value(&buf, 4, VarType::Int) {
        Some(VarValue::Int(v)) => assert_eq!(v, -123),
        _ => panic!("Expected Int"),
    }
    match read_scalar_value(&buf, 8, VarType::Double) {
        Some(VarValue::Double(v)) => assert!((f64::from_bits(v) - 99.99).abs() < 0.001),
        _ => panic!("Expected Double"),
    }
    match read_scalar_value(&buf, 16, VarType::Bool) {
        Some(VarValue::Bool(v)) => assert!(v),
        _ => panic!("Expected Bool"),
    }
}

#[test]
fn scalar_reads_past_the_end_are_absent() {
    let buf = [1u8, 2, 3, 4, 5];
    assert_eq!(read_scalar_value(&buf, 1, VarType::Int), Some(VarValue::Int(0x0504_0302)));
    assert_eq!(read_scalar_value(&buf, 2, VarType::Int), None);
    assert_eq!(read_scalar_value(&buf, 4, VarType::Char), Some(VarValue::Char(5)));
    assert_eq!(read_scalar_value(&buf, 5, VarType::Char), None);
    assert_eq!(read_scalar_value(&buf, usize::MAX, VarType::Double), None);
}

#[test]
fn array_reads_keep_the_elements_that_fit() {
    let mut buf = vec![0u8; 10];
    buf[0..4].copy_from_slice(&(-1i32).to_le_bytes());
    buf[4..8].copy_from_slice(&9i32.to_le_bytes());
    assert_eq!(read_array_value(&buf, 0, VarType::Int, 3), Some(VarValue::IntArray(vec![-1, 9])));
    assert_eq!(read_array_value(&buf, 0, VarType::BitField, 2), Some(VarValue::IntArray(vec![-1, 9])));
    assert_eq!(read_array_value(&buf, 12, VarType::Float, 2), Some(VarValue::FloatArray(vec![])));
    assert_eq!(read_array_value(&buf, 2, VarType::Double, 1), Some(VarValue::DoubleArray(vec![0x0000_0009_ffff])));
    assert_eq!(read_array_value(&buf, 8, VarType::Char, 2), Some(VarValue::CharArray(vec![0, 0])));
    assert_eq!(read_array_value(&buf, 8, VarType::Bool, 3), None);
}
