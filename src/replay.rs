use vstd::prelude::*;
use vstd::string::StringSliceAdditionalSpecFns;
use crate::ibt::{
    header_of, lookup, record_count_of, sample_of, yaml_of, IbtError, IbtFile, Sample, ValueView,
    VarValue,
};
use crate::session_info::session_info_of;

verus! {

broadcast use vstd::string::group_string_axioms;

/// The most samples that one range request returns: two minutes at 60 Hz.
pub const MAX_RANGE_FRAMES: usize = 7200;

/// Playback speed bounds, in thousandths of real time.
pub const MIN_SPEED_MILLI: u32 = 100;

pub const MAX_SPEED_MILLI: u32 = 16000;

/// Real-time playback speed, in thousandths.
pub const NORMAL_SPEED_MILLI: u32 = 1000;

/// How long a paused driver waits before it looks again, in microseconds.
pub const PAUSED_WAIT_MICROS: u64 = 50_000;

/// The shortest wait between two emitted frames, in microseconds.
pub const MIN_FRAME_WAIT_MICROS: u64 = 1000;

// ---------------------------------------------------------------------------
// Playback cursor
// ---------------------------------------------------------------------------

/// The playback state of a replay.
pub ghost struct CursorView {
    pub total_frames: nat,
    pub current_frame: nat,
    pub playing: bool,
    pub speed_milli: nat,
}

/// The last frame a cursor can stand on.
pub open spec fn last_frame(total: nat) -> nat {
    if total == 0 {
        0
    } else {
        (total - 1) as nat
    }
}

pub open spec fn seek_to(c: CursorView, frame: nat) -> CursorView {
    CursorView {
        current_frame: if frame < last_frame(c.total_frames) {
            frame
        } else {
            last_frame(c.total_frames)
        },
        ..c
    }
}

pub open spec fn paused(c: CursorView) -> CursorView {
    CursorView { playing: false, ..c }
}

pub open spec fn resumed(c: CursorView) -> CursorView {
    CursorView { playing: true, ..c }
}

/// The speed `x` clamped to the accepted range.
pub open spec fn clamp_speed(x: nat) -> nat {
    if x < MIN_SPEED_MILLI {
        MIN_SPEED_MILLI as nat
    } else if x > MAX_SPEED_MILLI {
        MAX_SPEED_MILLI as nat
    } else {
        x
    }
}

/// One step forward: nothing while paused; at the last frame playback stops;
/// otherwise the cursor moves on and the new position is returned.
pub open spec fn advanced(c: CursorView) -> (CursorView, Option<nat>) {
    if !c.playing {
        (c, None)
    } else if c.current_frame >= last_frame(c.total_frames) {
        (paused(c), None)
    } else {
        (
            CursorView { current_frame: c.current_frame + 1, ..c },
            Some((c.current_frame + 1) as nat),
        )
    }
}

/// What the driver does next.
#[derive(Debug, Clone, Copy, PartialEq, Eq, Structural)]
pub enum DriverAction {
    /// Playback is paused: wait this long, then look again.
    Wait { micros: u64 },
    /// Emit this frame, then wait this long before the next step.
    Emit { frame: usize, micros: u64 },
}

/// The wait between frames at `tick_rate` Hz and `speed_milli` thousandths of real time,
/// at least one millisecond; without a tick rate, the shortest wait.
pub open spec fn frame_wait(tick_rate: nat, speed_milli: nat) -> nat {
    if tick_rate * speed_milli == 0 {
        MIN_FRAME_WAIT_MICROS as nat
    } else {
        let w = 1_000_000_000nat / (tick_rate * speed_milli);
        if w < MIN_FRAME_WAIT_MICROS {
            MIN_FRAME_WAIT_MICROS as nat
        } else {
            w as nat
        }
    }
}

/// One driver step: while paused, wait; else emit the current frame and advance.
pub open spec fn driver_next(c: CursorView, tick_rate: nat) -> (CursorView, DriverAction) {
    if !c.playing {
        (c, DriverAction::Wait { micros: PAUSED_WAIT_MICROS })
    } else {
        (
            advanced(c).0,
            DriverAction::Emit {
                frame: c.current_frame as usize,
                micros: frame_wait(tick_rate, c.speed_milli) as u64,
            },
        )
    }
}

/// Seeking to a frame before the last one and advancing while playing lands on the
/// next frame.
pub proof fn lemma_seek_then_advance(c: CursorView, k: nat)
    requires
        c.playing,
        k + 1 < c.total_frames,
    ensures
        advanced(seek_to(c, k)).1 == Some(k + 1),
        advanced(seek_to(c, k)).0.current_frame == k + 1,
{
}

/// Seeking, pausing and then advancing gives nothing and leaves the cursor where the
/// seek put it.
pub proof fn lemma_seek_pause_advance(c: CursorView, k: nat)
    requires
        k < c.total_frames,
    ensures
        advanced(paused(seek_to(c, k))).1 is None,
        advanced(paused(seek_to(c, k))).0.current_frame == k,
{
}

/// A driver at the last frame emits it and stops playback; until `play`, every later
/// step only waits.
pub proof fn lemma_driver_stops_at_end(c: CursorView, tick_rate: nat)
    requires
        c.playing,
        c.total_frames > 0,
        c.current_frame == last_frame(c.total_frames),
    ensures
        driver_next(c, tick_rate).1 == (DriverAction::Emit {
            frame: c.current_frame as usize,
            micros: frame_wait(tick_rate, c.speed_milli) as u64,
        }),
        !driver_next(c, tick_rate).0.playing,
        driver_next(c, tick_rate).0.current_frame == c.current_frame,
        driver_next(driver_next(c, tick_rate).0, tick_rate).1 == (DriverAction::Wait {
            micros: PAUSED_WAIT_MICROS,
        }),
        driver_next(driver_next(c, tick_rate).0, tick_rate).0 == driver_next(c, tick_rate).0,
{
}

// ---------------------------------------------------------------------------
// Uploads
// ---------------------------------------------------------------------------

/// The largest recording that is accepted for upload: 512 MiB.
pub const MAX_UPLOAD_BYTES: u64 = 512 * 1024 * 1024;

/// Whether an uploaded file's name marks a recording: it ends in `.ibt`, in any case.
pub fn is_recording_name(name: &str) -> (r: bool)
    ensures
        r == crate::text::has_suffix(crate::text::lower_of(name@), ".ibt"@),
{
    let l = crate::text::to_lower(name);
    crate::text::ends_with(l.as_str(), ".ibt")
}

// ---------------------------------------------------------------------------
// Replay id
// ---------------------------------------------------------------------------

pub const FNV_OFFSET: u64 = 0xcbf2_9ce4_8422_2325;

pub const FNV_PRIME: u64 = 0x0000_0100_0000_01b3;

/// FNV-1a over `b`, from the hash `h`.
pub open spec fn fnv_from(h: u64, b: Seq<u8>) -> u64
    decreases b.len(),
{
    if b.len() == 0 {
        h
    } else {
        (fnv_from(h, b.drop_last()) ^ (b.last() as u64)).wrapping_mul(FNV_PRIME)
    }
}

/// The `n` low bytes of `x`, least significant first.
pub open spec fn le_bytes(x: nat, n: nat) -> Seq<u8>
    decreases n,
{
    if n == 0 {
        Seq::empty()
    } else {
        seq![(x % 256) as u8] + le_bytes(x / 256, (n - 1) as nat)
    }
}

/// The bytes that identify a recording: file size and frame count (eight bytes each,
/// little-endian), the track name, a 0xff separator, the car name.
pub open spec fn id_bytes(file_size: u64, total_frames: u64, track: Seq<u8>, car: Seq<u8>) -> Seq<
    u8,
> {
    le_bytes(file_size as nat, 8) + le_bytes(total_frames as nat, 8) + track + seq![0xffu8] + car
}

fn hash_bytes(h: u64, b: &[u8]) -> (r: u64)
    ensures
        r == fnv_from(h, b@),
{
    let mut acc = h;
    let mut i: usize = 0;
    while i < b.len()
        invariant
            i <= b@.len(),
            acc == fnv_from(h, b@.take(i as int)),
        decreases b@.len() - i,
    {
        proof {
            assert(b@.take(i + 1).drop_last() =~= b@.take(i as int));
        }
        acc = (acc ^ (b[i] as u64)).wrapping_mul(FNV_PRIME);
        i = i + 1;
    }
    assert(b@.take(b@.len() as int) =~= b@);
    acc
}

fn push_le_bytes(out: &mut Vec<u8>, x: u64)
    ensures
        final(out)@ == old(out)@ + le_bytes(x as nat, 8),
{
    let ghost start = old(out)@;
    let mut v = x;
    let mut k: u64 = 0;
    while k < 8
        invariant
            k <= 8,
            out@ + le_bytes(v as nat, (8 - k) as nat) == start + le_bytes(x as nat, 8),
        decreases 8 - k,
    {
        let ghost before = out@;
        out.push((v % 256) as u8);
        proof {
            assert(le_bytes(v as nat, (8 - k) as nat) == seq![(v % 256) as u8] + le_bytes(
                (v / 256) as nat,
                (8 - k - 1) as nat,
            ));
            assert(out@ + le_bytes((v / 256) as nat, (8 - k - 1) as nat) =~= before + le_bytes(
                v as nat,
                (8 - k) as nat,
            ));
        }
        v = v / 256;
        k = k + 1;
    }
    assert(le_bytes(v as nat, 0) =~= Seq::<u8>::empty());
    assert(out@ =~= start + le_bytes(x as nat, 8));
}

/// A stable identifier of a recording, from its file size, frame count, track name and
/// car name alone: FNV-1a over those values.
pub fn replay_id(file_size: u64, total_frames: u64, track_name: &str, car_name: &str) -> (r: u64)
    ensures
        r == fnv_from(
            FNV_OFFSET,
            id_bytes(file_size, total_frames, track_name.spec_bytes(), car_name.spec_bytes()),
        ),
{
    let mut bytes: Vec<u8> = Vec::new();
    push_le_bytes(&mut bytes, file_size);
    push_le_bytes(&mut bytes, total_frames);
    let t = track_name.as_bytes();
    let mut i: usize = 0;
    let ghost b0 = bytes@;
    while i < t.len()
        invariant
            i <= t@.len(),
            bytes@ == b0 + t@.take(i as int),
        decreases t@.len() - i,
    {
        bytes.push(t[i]);
        i = i + 1;
        assert(bytes@ =~= b0 + t@.take(i as int));
    }
    assert(t@.take(t@.len() as int) =~= t@);
    bytes.push(0xff);
    let c = car_name.as_bytes();
    let ghost b1 = bytes@;
    let mut i: usize = 0;
    while i < c.len()
        invariant
            i <= c@.len(),
            bytes@ == b1 + c@.take(i as int),
        decreases c@.len() - i,
    {
        bytes.push(c[i]);
        i = i + 1;
        assert(bytes@ =~= b1 + c@.take(i as int));
    }
    assert(c@.take(c@.len() as int) =~= c@);
    assert(bytes@ =~= id_bytes(file_size, total_frames, t@, c@));
    hash_bytes(FNV_OFFSET, bytes.as_slice())
}

// ---------------------------------------------------------------------------
// Lap index
// ---------------------------------------------------------------------------

/// The runs of equal lap numbers in `laps`, each as (first sample, last sample, lap).
pub open spec fn lap_runs(laps: Seq<i32>) -> Seq<(int, int, i32)>
    decreases laps.len(),
{
    if laps.len() == 0 {
        Seq::empty()
    } else {
        let r = lap_runs(laps.drop_last());
        let i = laps.len() - 1;
        if r.len() > 0 && laps[i - 1] == laps[i] {
            r.update(r.len() - 1, (r.last().0, i, laps[i]))
        } else {
            r.push((i, i, laps[i]))
        }
    }
}

/// One lap of a recording: a run of samples with the same lap number.
#[derive(Debug, Clone, Copy, PartialEq, Eq, Structural)]
pub struct LapInfo {
    /// The lap number.
    pub index: i32,
    pub start_frame: usize,
    pub end_frame: usize,
    /// `end_frame - start_frame`, in samples; divided by the tick rate it is the
    /// duration in seconds.
    pub duration_ticks: usize,
    /// False for the first and the last run, which the recording may cut.
    pub valid: bool,
}

/// The lap index of `laps`.
pub open spec fn lap_index_of(laps: Seq<i32>) -> Seq<LapInfo> {
    let r = lap_runs(laps);
    Seq::new(
        r.len(),
        |k: int|
            LapInfo {
                index: r[k].2,
                start_frame: r[k].0 as usize,
                end_frame: r[k].1 as usize,
                duration_ticks: (r[k].1 - r[k].0) as usize,
                valid: k != 0 && k != r.len() - 1,
            },
    )
}

proof fn lemma_runs_shape(laps: Seq<i32>)
    ensures
        forall|k: int|
            0 <= k < lap_runs(laps).len() ==> 0 <= (#[trigger] lap_runs(laps)[k]).0 <= lap_runs(
                laps,
            )[k].1 < laps.len(),
        laps.len() > 0 ==> lap_runs(laps).len() > 0 && lap_runs(laps).last().1 == laps.len() - 1,
    decreases laps.len(),
{
    if laps.len() > 0 {
        let p = laps.drop_last();
        lemma_runs_shape(p);
        let r = lap_runs(p);
        let i = laps.len() - 1;
        assert forall|k: int| 0 <= k < lap_runs(laps).len() implies 0 <= (#[trigger] lap_runs(
            laps,
        )[k]).0 <= lap_runs(laps)[k].1 < laps.len() by {
            if k < r.len() {
                assert(0 <= r[k].0 <= r[k].1 < p.len());
            }
        }
    }
}

/// Builds the lap index from the lap number of every sample.
pub fn build_lap_index(laps: &Vec<i32>) -> (r: Vec<LapInfo>)
    ensures
        r@ == lap_index_of(laps@),
{
    let n = laps.len();
    let mut runs: Vec<(usize, usize, i32)> = Vec::new();
    let mut i: usize = 0;
    while i < n
        invariant
            i <= n,
            n == laps@.len(),
            runs@.len() == lap_runs(laps@.take(i as int)).len(),
            forall|k: int|
                0 <= k < runs@.len() ==> (#[trigger] runs@[k]).0 as int == lap_runs(
                    laps@.take(i as int),
                )[k].0 && runs@[k].1 as int == lap_runs(laps@.take(i as int))[k].1 && runs@[k].2
                    == lap_runs(laps@.take(i as int))[k].2,
        decreases n - i,
    {
        let ghost t = laps@.take(i + 1);
        proof {
            assert(t.drop_last() =~= laps@.take(i as int));
            lemma_runs_shape(laps@.take(i as int));
        }
        let m = runs.len();
        if m > 0 && laps[i - 1] == laps[i] {
            let first = runs[m - 1].0;
            runs.set(m - 1, (first, i, laps[i]));
        } else {
            proof {
                if i > 0 {
                    lemma_runs_shape(laps@.take(i as int));
                }
            }
            runs.push((i, i, laps[i]));
        }
        i = i + 1;
    }
    proof {
        assert(laps@.take(n as int) =~= laps@);
        lemma_runs_shape(laps@);
    }
    let ghost rs = lap_runs(laps@);
    let m = runs.len();
    let mut out: Vec<LapInfo> = Vec::new();
    let mut k: usize = 0;
    while k < m
        invariant
            k <= m,
            m == runs@.len(),
            rs == lap_runs(laps@),
            m == rs.len(),
            forall|j: int|
                0 <= j < m ==> (#[trigger] runs@[j]).0 as int == rs[j].0 && runs@[j].1 as int
                    == rs[j].1 && runs@[j].2 == rs[j].2,
            forall|j: int| 0 <= j < rs.len() ==> 0 <= (#[trigger] rs[j]).0 <= rs[j].1,
            out@ =~= lap_index_of(laps@).take(k as int),
        decreases m - k,
    {
        let (a, b, lap) = runs[k];
        assert(rs[k as int].0 <= rs[k as int].1);
        out.push(
            LapInfo {
                index: lap,
                start_frame: a,
                end_frame: b,
                duration_ticks: b - a,
                valid: k != 0 && k != m - 1,
            },
        );
        k = k + 1;
    }
    out
}

/// Every lap's duration in samples is the distance from its first to its last sample.
pub proof fn lemma_lap_duration(laps: Seq<i32>, k: int)
    requires
        0 <= k < lap_index_of(laps).len(),
        laps.len() <= usize::MAX,
    ensures
        lap_index_of(laps)[k].duration_ticks + lap_index_of(laps)[k].start_frame
            == lap_index_of(laps)[k].end_frame,
{
    lemma_runs_shape(laps);
    let r = lap_runs(laps);
    assert(0 <= r[k].0 <= r[k].1 < laps.len());
}

// ---------------------------------------------------------------------------
// Replay state
// ---------------------------------------------------------------------------

/// The lap number of every sample, where each has an integer `Lap` value.
pub open spec fn lap_numbers(d: Seq<u8>) -> Option<Seq<i32>> {
    let n = record_count_of(d);
    if forall|i: int| 0 <= i < n ==> #[trigger] lookup(sample_of(d, i), "Lap"@) matches Some(
        ValueView::Int(_),
    ) {
        Some(Seq::new(n as nat, |i: int| lookup(sample_of(d, i), "Lap"@)->0->Int_0))
    } else {
        None
    }
}

/// The lap index of a recording; empty where some sample has no lap number.
pub open spec fn laps_of(d: Seq<u8>) -> Seq<LapInfo> {
    match lap_numbers(d) {
        Some(l) => lap_index_of(l),
        None => Seq::empty(),
    }
}

/// Reads the lap number of every sample.
fn read_lap_numbers(ibt: &IbtFile) -> (r: Option<Vec<i32>>)
    requires
        ibt.wf(),
    ensures
        r is Some <==> lap_numbers(ibt@) is Some,
        r is Some ==> r->0@ == lap_numbers(ibt@)->0,
{
    let n = ibt.record_count();
    let mut out: Vec<i32> = Vec::new();
    let mut i: usize = 0;
    while i < n
        invariant
            ibt.wf(),
            i <= n,
            n == record_count_of(ibt@),
            out@.len() == i,
            forall|j: int|
                0 <= j < i ==> #[trigger] lookup(sample_of(ibt@, j), "Lap"@) == Some(
                    ValueView::Int(out@[j]),
                ),
        decreases n - i,
    {
        let sample = match ibt.read_sample(i) {
            Ok(s) => s,
            Err(_) => return None,
        };
        proof {
            reveal_strlit("Lap");
        }
        match sample.get("Lap") {
            Some(VarValue::Int(v)) => out.push(*v),
            _ => {
                proof {
                    assert(!(lookup(sample_of(ibt@, i as int), "Lap"@) matches Some(
                        ValueView::Int(_),
                    )));
                }
                return None;
            },
        }
        i = i + 1;
    }
    proof {
        assert(out@ =~= Seq::new(
            n as nat,
            |i: int| lookup(sample_of(ibt@, i), "Lap"@)->0->Int_0,
        ));
    }
    Some(out)
}

/// The identifier of the recording `d`: see `replay_id`.
pub open spec fn recording_id(d: Seq<u8>) -> u64 {
    fnv_from(
        FNV_OFFSET,
        id_bytes(
            d.len() as u64,
            record_count_of(d) as u64,
            crate::text::utf8_of(session_info_of(yaml_of(d)).track_display_name),
            crate::text::utf8_of(session_info_of(yaml_of(d)).car_name),
        ),
    )
}

/// Two recordings with the same file size, frame count, track name and car name have
/// the same identifier, whatever else they hold.
pub proof fn lemma_recording_id_identity(a: Seq<u8>, b: Seq<u8>)
    requires
        a.len() == b.len(),
        record_count_of(a) == record_count_of(b),
        session_info_of(yaml_of(a)).track_display_name == session_info_of(
            yaml_of(b),
        ).track_display_name,
        session_info_of(yaml_of(a)).car_name == session_info_of(yaml_of(b)).car_name,
    ensures
        recording_id(a) == recording_id(b),
{
}

/// An active replay: a parsed recording, its playback cursor and what is known of it.
pub struct ReplayState {
    ibt: IbtFile,
    current_frame: usize,
    total_frames: usize,
    tick_rate: u32,
    playing: bool,
    speed_milli: u32,
    file_size: u64,
    track_name: String,
    car_name: String,
    laps: Vec<LapInfo>,
    replay_id: u64,
}

impl View for ReplayState {
    type V = CursorView;

    closed spec fn view(&self) -> CursorView {
        CursorView {
            total_frames: self.total_frames as nat,
            current_frame: self.current_frame as nat,
            playing: self.playing,
            speed_milli: self.speed_milli as nat,
        }
    }
}

impl ReplayState {
    /// The recording being replayed.
    pub closed spec fn recording(&self) -> Seq<u8> {
        self.ibt@
    }

    pub closed spec fn wf(&self) -> bool {
        &&& self.ibt.wf()
        &&& self.total_frames == record_count_of(self.ibt@)
        &&& self.current_frame <= last_frame(self.total_frames as nat)
        &&& MIN_SPEED_MILLI <= self.speed_milli <= MAX_SPEED_MILLI
        &&& self.tick_rate == header_of(self.ibt@).tick_rate as u32
        &&& self.file_size == self.ibt@.len()
        &&& self.track_name@ == session_info_of(yaml_of(self.ibt@)).track_display_name
        &&& self.car_name@ == session_info_of(yaml_of(self.ibt@)).car_name
        &&& self.laps@ == laps_of(self.ibt@)
        &&& self.replay_id == fnv_from(
            FNV_OFFSET,
            id_bytes(
                self.file_size,
                self.total_frames as u64,
                crate::text::utf8_of(self.track_name@),
                crate::text::utf8_of(self.car_name@),
            ),
        )
    }

    /// Under the invariant, the cursor's frame count is the recording's sample count.
    pub proof fn lemma_total_frames(&self)
        requires
            self.wf(),
        ensures
            self@.total_frames == record_count_of(self.recording()),
            self@.current_frame <= last_frame(self@.total_frames),
            MIN_SPEED_MILLI <= self@.speed_milli <= MAX_SPEED_MILLI,
    {
    }

    /// Starts a replay of `ibt` at its first frame, playing at real time.
    pub fn new(ibt: IbtFile) -> (r: ReplayState)
        requires
            ibt.wf(),
        ensures
            r.wf(),
            r.recording() == ibt@,
            r@ == (CursorView {
                total_frames: record_count_of(ibt@) as nat,
                current_frame: 0,
                playing: true,
                speed_milli: NORMAL_SPEED_MILLI as nat,
            }),
    {
        let total_frames = ibt.record_count();
        let tick_rate = ibt.tick_rate();
        let file_size = ibt.file_size();
        let track_name = ibt.session_info().track_display_name.clone();
        let car_name = ibt.session_info().car_name.clone();
        let laps = match read_lap_numbers(&ibt) {
            Some(l) => build_lap_index(&l),
            None => Vec::new(),
        };
        let replay_id = replay_id(
            file_size,
            total_frames as u64,
            track_name.as_str(),
            car_name.as_str(),
        );
        ReplayState {
            ibt,
            current_frame: 0,
            total_frames,
            tick_rate,
            playing: true,
            speed_milli: NORMAL_SPEED_MILLI,
            file_size,
            track_name,
            car_name,
            laps,
            replay_id,
        }
    }

    /// The recording being replayed.
    pub fn ibt(&self) -> (r: &IbtFile)
        requires
            self.wf(),
        ensures
            r.wf(),
            r@ == self.recording(),
    {
        &self.ibt
    }

    /// Sample `index` of the recording.
    pub fn get_frame(&self, index: usize) -> (r: Result<Sample, IbtError>)
        requires
            self.wf(),
        ensures
            index >= self@.total_frames ==> r == Err::<Sample, IbtError>(IbtError::OutOfRange),
            index < self@.total_frames ==> r is Ok && r->Ok_0@ == sample_of(
                self.recording(),
                index as int,
            ),
    {
        self.ibt.read_sample(index)
    }

    /// A batch of samples with their indices: the start is clamped to the last frame,
    /// the count to `MAX_RANGE_FRAMES` and to the frames left. Fails only on an empty
    /// recording.
    pub fn get_frames_range(&self, start: usize, count: usize) -> (r: Result<
        Vec<(usize, Sample)>,
        IbtError,
    >)
        requires
            self.wf(),
        ensures
            self@.total_frames == 0 ==> r == Err::<Vec<(usize, Sample)>, IbtError>(
                IbtError::OutOfRange,
            ),
            self@.total_frames > 0 ==> {
                let s = if start < last_frame(self@.total_frames) {
                    start as int
                } else {
                    last_frame(self@.total_frames) as int
                };
                let left = self@.total_frames - s;
                let n = if count < MAX_RANGE_FRAMES && count < left {
                    count as int
                } else if MAX_RANGE_FRAMES < left {
                    MAX_RANGE_FRAMES as int
                } else {
                    left
                };
                &&& r is Ok
                &&& r->Ok_0@.len() == n
                &&& forall|k: int|
                    0 <= k < n ==> (#[trigger] r->Ok_0@[k]).0 == s + k && r->Ok_0@[k].1@
                        == sample_of(self.recording(), s + k)
            },
    {
        let last = if self.total_frames == 0 {
            0
        } else {
            self.total_frames - 1
        };
        let s = if start < last {
            start
        } else {
            last
        };
        let left = self.total_frames - s;
        let n = if count < MAX_RANGE_FRAMES && count < left {
            count
        } else if MAX_RANGE_FRAMES < left {
            MAX_RANGE_FRAMES
        } else {
            left
        };
        let samples = match self.ibt.read_samples_range(s, n) {
            Ok(v) => v,
            Err(e) => return Err(e),
        };
        let mut out: Vec<(usize, Sample)> = Vec::new();
        let mut k: usize = 0;
        let mut rest = samples;
        let ghost all = rest@;
        while k < n
            invariant
                k <= n,
                s + n <= self.total_frames,
                all.len() == n,
                rest@ =~= all.skip(k as int),
                out@.len() == k,
                forall|j: int| 0 <= j < n ==> (#[trigger] all[j])@ == sample_of(self.ibt@, s + j),
                forall|j: int|
                    0 <= j < k ==> (#[trigger] out@[j]).0 == s + j && out@[j].1@ == sample_of(
                        self.ibt@,
                        s + j,
                    ),
            decreases n - k,
        {
            let sample = rest.remove(0);
            out.push((s + k, sample));
            k = k + 1;
        }
        Ok(out)
    }

    pub fn total_frames(&self) -> (r: usize)
        ensures
            r == self@.total_frames,
            self.wf() ==> r == record_count_of(self.recording()),
    {
        self.total_frames
    }

    pub fn current_frame(&self) -> (r: usize)
        ensures
            r == self@.current_frame,
    {
        self.current_frame
    }

    /// The native sample rate, in Hz.
    pub fn tick_rate(&self) -> (r: u32)
        requires
            self.wf(),
        ensures
            r == header_of(self.recording()).tick_rate as u32,
    {
        self.tick_rate
    }

    /// The playback speed, in thousandths of real time.
    pub fn playback_speed(&self) -> (r: u32)
        ensures
            r == self@.speed_milli,
    {
        self.speed_milli
    }

    pub fn is_playing(&self) -> (r: bool)
        ensures
            r == self@.playing,
    {
        self.playing
    }

    pub fn file_size(&self) -> (r: u64)
        requires
            self.wf(),
        ensures
            r == self.recording().len(),
    {
        self.file_size
    }

    pub fn track_name(&self) -> (r: &str)
        requires
            self.wf(),
        ensures
            r@ == session_info_of(yaml_of(self.recording())).track_display_name,
    {
        self.track_name.as_str()
    }

    pub fn car_name(&self) -> (r: &str)
        requires
            self.wf(),
        ensures
            r@ == session_info_of(yaml_of(self.recording())).car_name,
    {
        self.car_name.as_str()
    }

    /// The lap index, built once at load.
    pub fn laps(&self) -> (r: &[LapInfo])
        requires
            self.wf(),
        ensures
            r@ == laps_of(self.recording()),
    {
        self.laps.as_slice()
    }

    /// The recording's identifier; see `replay_id`.
    pub fn replay_id(&self) -> (r: u64)
        requires
            self.wf(),
        ensures
            r == recording_id(self.recording()),
    {
        self.replay_id
    }

    pub fn play(&mut self)
        requires
            old(self).wf(),
        ensures
            final(self).wf(),
            final(self).recording() == old(self).recording(),
            final(self)@ == resumed(old(self)@),
    {
        self.playing = true;
    }

    pub fn pause(&mut self)
        requires
            old(self).wf(),
        ensures
            final(self).wf(),
            final(self).recording() == old(self).recording(),
            final(self)@ == paused(old(self)@),
    {
        self.playing = false;
    }

    /// Moves the cursor to `frame`, clamped to the last frame.
    pub fn seek(&mut self, frame: usize)
        requires
            old(self).wf(),
        ensures
            final(self).wf(),
            final(self).recording() == old(self).recording(),
            final(self)@ == seek_to(old(self)@, frame as nat),
    {
        let last = if self.total_frames == 0 {
            0
        } else {
            self.total_frames - 1
        };
        self.current_frame = if frame < last {
            frame
        } else {
            last
        };
    }

    /// Sets the playback speed, in thousandths of real time, clamped to the accepted range.
    pub fn set_speed(&mut self, speed: u32)
        requires
            old(self).wf(),
        ensures
            final(self).wf(),
            final(self).recording() == old(self).recording(),
            final(self)@ == (CursorView { speed_milli: clamp_speed(speed as nat), ..old(self)@ }),
    {
        self.speed_milli = if speed < MIN_SPEED_MILLI {
            MIN_SPEED_MILLI
        } else if speed > MAX_SPEED_MILLI {
            MAX_SPEED_MILLI
        } else {
            speed
        };
    }

    /// Moves the cursor one frame on while playing; at the last frame playback stops.
    pub fn advance(&mut self) -> (r: Option<usize>)
        requires
            old(self).wf(),
        ensures
            final(self).wf(),
            final(self).recording() == old(self).recording(),
            final(self)@ == advanced(old(self)@).0,
            r matches Some(i) ==> advanced(old(self)@).1 == Some(i as nat),
            r is None <==> advanced(old(self)@).1 is None,
    {
        if !self.playing {
            return None;
        }
        let last = if self.total_frames == 0 {
            0
        } else {
            self.total_frames - 1
        };
        if self.current_frame >= last {
            self.playing = false;
            return None;
        }
        self.current_frame = self.current_frame + 1;
        Some(self.current_frame)
    }

    /// One step of the driver: paused, it waits; playing, it emits the current frame,
    /// advances, and waits one frame interval at the current speed.
    pub fn driver_step(&mut self) -> (r: DriverAction)
        requires
            old(self).wf(),
        ensures
            final(self).wf(),
            final(self).recording() == old(self).recording(),
            (final(self)@, r) == driver_next(
                old(self)@,
                header_of(old(self).recording()).tick_rate as u32 as nat,
            ),
    {
        if !self.playing {
            return DriverAction::Wait { micros: PAUSED_WAIT_MICROS };
        }
        let frame = self.current_frame;
        let micros = frame_wait_micros(self.tick_rate, self.speed_milli);
        self.advance();
        DriverAction::Emit { frame, micros }
    }
}

/// The wait between two frames at `tick_rate` Hz and `speed_milli` thousandths of
/// real time, in microseconds.
pub fn frame_wait_micros(tick_rate: u32, speed_milli: u32) -> (r: u64)
    ensures
        r == frame_wait(tick_rate as nat, speed_milli as nat),
{
    let t = tick_rate as u64;
    let s = speed_milli as u64;
    proof {
        assert(t * s <= 0xffff_ffffu64 * 0xffff_ffffu64) by (nonlinear_arith)
            requires
                t <= 0xffff_ffff,
                s <= 0xffff_ffff,
        ;
    }
    let p = t * s;
    if p == 0 {
        return MIN_FRAME_WAIT_MICROS;
    }
    let w = 1_000_000_000u64 / p;
    if w < MIN_FRAME_WAIT_MICROS {
        MIN_FRAME_WAIT_MICROS
    } else {
        w
    }
}

} // verus!
