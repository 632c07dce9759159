use vstd::prelude::*;

verus! {

/// What the manager knows of one registered live adapter at a detection step.
#[derive(Debug, Clone, Copy, PartialEq, Eq, Structural)]
pub struct AdapterProbe {
    /// Not in the disabled set.
    pub enabled: bool,
    /// Its `detect()` answered yes.
    pub detected: bool,
    /// Its `is_active()` answered yes.
    pub active: bool,
}

/// What a detection step asks of the adapters.
#[derive(Debug, Clone, Copy, PartialEq, Eq, Structural)]
pub enum DetectionAction {
    /// The active adapter is still detected: nothing changes.
    Keep,
    /// The active adapter is gone: stop it and clear the active slot.
    Stop(usize),
    /// Start this adapter; on success it becomes the active one.
    Start(usize),
    /// No adapter to start.
    Idle,
}

/// An adapter that may be started: enabled, detected, and not running.
pub open spec fn startable(p: AdapterProbe) -> bool {
    p.enabled && p.detected && !p.active
}

/// The first startable adapter at or after `from`.
pub open spec fn first_startable(probes: Seq<AdapterProbe>, from: int) -> Option<int> {
    if exists|k: int| from <= k < probes.len() && startable(#[trigger] probes[k]) {
        Some(
            choose|k: int|
                from <= k < probes.len() && startable(#[trigger] probes[k]) && forall|j: int|
                    from <= j < k ==> !startable(#[trigger] probes[j]),
        )
    } else {
        None
    }
}

/// A detection step: an active adapter is kept while detected and stopped when not;
/// without one, the first startable adapter from `from` on is started. After a failed
/// start, the step is taken again from the next index.
pub open spec fn detection(active: Option<usize>, probes: Seq<AdapterProbe>, from: int) -> DetectionAction {
    match active {
        Some(k) if k < probes.len() => if probes[k as int].detected {
            DetectionAction::Keep
        } else {
            DetectionAction::Stop(k)
        },
        _ => match first_startable(probes, from) {
            Some(k) => DetectionAction::Start(k as usize),
            None => DetectionAction::Idle,
        },
    }
}

pub fn detection_step(active: Option<usize>, probes: &Vec<AdapterProbe>, from: usize) -> (r:
    DetectionAction)
    ensures
        r == detection(active, probes@, from as int),
{
    if let Some(k) = active {
        if k < probes.len() {
            if probes[k].detected {
                return DetectionAction::Keep;
            } else {
                return DetectionAction::Stop(k);
            }
        }
    }
    let mut k: usize = from;
    while k < probes.len()
        invariant
            from <= k,
            active is None || active->0 >= probes@.len(),
            forall|j: int| from <= j < k && j < probes@.len() ==> !startable(#[trigger] probes@[j]),
        decreases probes@.len() - k,
    {
        let p = probes[k];
        if p.enabled && p.detected && !p.active {
            proof {
                assert(from <= k < probes@.len() && startable(probes@[k as int]));
                assert(forall|j: int| from <= j < k ==> !startable(#[trigger] probes@[j]));
                let c = choose|c: int|
                    from <= c < probes@.len() && startable(#[trigger] probes@[c]) && forall|j: int|
                        from <= j < c ==> !startable(#[trigger] probes@[j]);
                assert(startable(probes@[k as int]));
                if c < k {
                    assert(!startable(probes@[c]));
                }
                if c > k {
                    assert(!startable(probes@[k as int]));
                }
            }
            return DetectionAction::Start(k);
        }
        k = k + 1;
    }
    DetectionAction::Idle
}

/// Live frames are read only while no replay owns the bus and an adapter is active.
pub fn live_frames_allowed(replay_active: bool, active: Option<usize>) -> (r: bool)
    ensures
        r == (!replay_active && active is Some),
{
    !replay_active && active.is_some()
}

/// The result of toggling an adapter.
#[derive(Debug, Clone, Copy, PartialEq, Eq, Structural)]
pub struct ToggleOutcome {
    /// Whether the adapter is enabled afterwards.
    pub enabled: bool,
    /// Whether it has to be stopped and the active slot cleared.
    pub stop: bool,
}

/// Toggling flips whether an adapter is enabled; disabling an active one stops it.
pub fn toggle(enabled: bool, active: bool) -> (r: ToggleOutcome)
    ensures
        r.enabled == !enabled,
        r.stop == (enabled && active),
{
    ToggleOutcome { enabled: !enabled, stop: enabled && active }
}

} // verus!
