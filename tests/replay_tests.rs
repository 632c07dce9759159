use ost::ibt::IbtFile;
use ost::replay::{
    build_lap_index, frame_wait_micros, is_recording_name, replay_id, DriverAction, LapInfo, ReplayState,
};

fn recording(frames: usize, laps: &[i32]) -> IbtFile {
    let var_off = 144usize;
    let yaml = "TrackDisplayName: Ring\nCarScreenName: Car\n";
    let yaml_off = var_off + 144;
    let base = yaml_off + yaml.len();
    let mut d = vec![0u8; base + 4 * frames];
    let put = |d: &mut Vec<u8>, at: usize, v: i32| d[at..at + 4].copy_from_slice(&v.to_le_bytes());
    put(&mut d, 0, 2);
    put(&mut d, 8, 60);
    put(&mut d, 16, yaml.len() as i32);
    put(&mut d, 20, yaml_off as i32);
    put(&mut d, 24, 1);
    put(&mut d, 28, var_off as i32);
    put(&mut d, 32, 1);
    put(&mut d, 36, 4);
    put(&mut d, 52, base as i32);
    put(&mut d, 140, frames as i32);
    put(&mut d, var_off, 2);
    put(&mut d, var_off + 8, 1);
    d[var_off + 16..var_off + 19].copy_from_slice(b"Lap");
    d[yaml_off..yaml_off + yaml.len()].copy_from_slice(yaml.as_bytes());
    for i in 0..frames {
        let lap = laps.get(i).copied().unwrap_or(0);
        put(&mut d, base + 4 * i, lap);
    }
    IbtFile::from_bytes(d).unwrap()
}

#[test]
fn new_replay_starts_playing_at_zero() {
    let r = ReplayState::new(recording(10, &[]));
    assert_eq!(r.total_frames(), 10);
    assert_eq!(r.current_frame(), 0);
    assert!(r.is_playing());
    assert_eq!(r.playback_speed(), 1000);
    assert_eq!(r.tick_rate(), 60);
    assert_eq!(r.track_name(), "Ring");
    assert_eq!(r.car_name(), "Car");
}

#[test]
fn seek_then_advance() {
    let mut r = ReplayState::new(recording(10, &[]));
    r.seek(4);
    assert_eq!(r.advance(), Some(5));
    assert_eq!(r.current_frame(), 5);
    r.seek(4);
    r.pause();
    assert_eq!(r.advance(), None);
    assert_eq!(r.current_frame(), 4);
    r.seek(1000);
    assert_eq!(r.current_frame(), 9);
}

#[test]
fn speed_is_clamped() {
    let mut r = ReplayState::new(recording(3, &[]));
    r.set_speed(0);
    assert_eq!(r.playback_speed(), 100);
    r.set_speed(100_000);
    assert_eq!(r.playback_speed(), 16_000);
    r.set_speed(2500);
    assert_eq!(r.playback_speed(), 2500);
}

#[test]
fn driver_stops_after_final_frame() {
    let mut r = ReplayState::new(recording(3, &[]));
    r.seek(2);
    assert_eq!(r.driver_step(), DriverAction::Emit { frame: 2, micros: 16_666 });
    assert!(!r.is_playing());
    assert_eq!(r.current_frame(), 2);
    assert_eq!(r.driver_step(), DriverAction::Wait { micros: 50_000 });
    assert_eq!(r.driver_step(), DriverAction::Wait { micros: 50_000 });
    r.play();
    assert_eq!(r.driver_step(), DriverAction::Emit { frame: 2, micros: 16_666 });
}

#[test]
fn driver_emits_in_cursor_order() {
    let mut r = ReplayState::new(recording(5, &[]));
    r.set_speed(2000);
    let mut seen = Vec::new();
    while let DriverAction::Emit { frame, micros } = r.driver_step() {
        assert_eq!(micros, 8333);
        seen.push(frame);
    }
    assert_eq!(seen, vec![0, 1, 2, 3, 4]);
}

#[test]
fn frame_waits() {
    assert_eq!(frame_wait_micros(60, 1000), 16_666);
    assert_eq!(frame_wait_micros(60, 16_000), 1041);
    assert_eq!(frame_wait_micros(2000, 16_000), 1000);
    assert_eq!(frame_wait_micros(0, 1000), 1000);
}

#[test]
fn frames_range_is_clamped() {
    let r = ReplayState::new(recording(10, &[]));
    let batch = r.get_frames_range(8, 5).unwrap();
    assert_eq!(batch.iter().map(|p| p.0).collect::<Vec<_>>(), vec![8, 9]);
    let batch = r.get_frames_range(50, 5).unwrap();
    assert_eq!(batch.iter().map(|p| p.0).collect::<Vec<_>>(), vec![9]);
    assert_eq!(r.get_frames_range(0, 100_000).unwrap().len(), 10);
    assert!(r.get_frame(10).is_err());
    assert!(r.get_frame(9).is_ok());
}

#[test]
fn range_is_capped_at_two_minutes() {
    let r = ReplayState::new(recording(8000, &[]));
    assert_eq!(r.get_frames_range(0, 8000).unwrap().len(), 7200);
    assert_eq!(r.get_frames_range(1000, 8000).unwrap().len(), 7000);
}

#[test]
fn lap_index_from_runs() {
    let laps = build_lap_index(&vec![0, 0, 1, 1, 1, 2, 2]);
    assert_eq!(
        laps,
        vec![
            LapInfo { index: 0, start_frame: 0, end_frame: 1, duration_ticks: 1, valid: false },
            LapInfo { index: 1, start_frame: 2, end_frame: 4, duration_ticks: 2, valid: true },
            LapInfo { index: 2, start_frame: 5, end_frame: 6, duration_ticks: 1, valid: false },
        ]
    );
    assert!(build_lap_index(&vec![]).is_empty());
    assert_eq!(build_lap_index(&vec![3]).len(), 1);
}

#[test]
fn replay_builds_lap_index_at_load() {
    let r = ReplayState::new(recording(6, &[1, 1, 2, 2, 2, 3]));
    let laps = r.laps();
    assert_eq!(laps.len(), 3);
    assert_eq!((laps[1].start_frame, laps[1].end_frame, laps[1].valid), (2, 4, true));
}

fn fnv(bytes: &[u8]) -> u64 {
    let mut h: u64 = 0xcbf29ce484222325;
    for b in bytes {
        h = (h ^ *b as u64).wrapping_mul(0x100000001b3);
    }
    h
}

#[test]
fn replay_id_depends_only_on_identity() {
    let a = replay_id(1234, 16263, "Red Bull Ring", "Formula");
    assert_eq!(a, replay_id(1234, 16263, "Red Bull Ring", "Formula"));
    assert_ne!(a, replay_id(1235, 16263, "Red Bull Ring", "Formula"));
    assert_ne!(replay_id(1, 2, "ab", "c"), replay_id(1, 2, "a", "bc"));
    let mut bytes = Vec::new();
    bytes.extend_from_slice(&1234u64.to_le_bytes());
    bytes.extend_from_slice(&16263u64.to_le_bytes());
    bytes.extend_from_slice(b"Red Bull Ring");
    bytes.push(0xff);
    bytes.extend_from_slice(b"Formula");
    assert_eq!(a, fnv(&bytes));
    let r = ReplayState::new(recording(4, &[]));
    assert_eq!(r.replay_id(), replay_id(r.file_size(), 4, "Ring", "Car"));
}

#[test]
fn upload_names() {
    assert!(is_recording_name("race.ibt"));
    assert!(is_recording_name("RACE.IBT"));
    assert!(!is_recording_name("race.ibt.zip"));
    assert!(!is_recording_name("notes.txt"));
}
