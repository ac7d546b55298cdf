//! Relay auto-tuning of the actuator's PID controller: the actuator is
//! pushed and pulled around a setpoint until the weight has crossed it a
//! given number of times. The weights, times and gains are floating-point
//! and stay with the caller; the comparisons it makes are handed in as
//! booleans, and the bookkeeping it must do comes back as actions.
use vstd::prelude::*;

verus! {

/// The outcome of the comparisons made on one measurement.
#[derive(Clone, Copy, Debug, PartialEq, Eq, Structural)]
pub struct Measurement {
    /// The weight is within 15% of the setpoint.
    pub preload_ok: bool,
    /// The weight is below the setpoint.
    pub below_setpoint: bool,
    /// The weight is on the other side of the setpoint than the last one.
    pub crossed: bool,
}

/// The relay output for a measurement.
#[derive(Clone, Copy, Debug, PartialEq, Eq, Structural)]
pub enum RelayOutput {
    /// Do not move.
    Rest,
    /// Move by the relay amplitude towards more load.
    Push,
    /// Move by the relay amplitude towards less load.
    Pull,
}

/// Bookkeeping the caller does for a measurement, in the order given.
#[derive(Clone, Copy, Debug, PartialEq, Eq, Structural)]
pub enum TunerAction {
    /// Remember the weight as the last one and start the clock.
    Start,
    /// Take the time since the last crossing as half the period, and widen
    /// the peak-to-peak amplitude by this step.
    MeasureHalfPeriod,
    /// Compute the critical gain from the relay amplitude and the
    /// peak-to-peak amplitude.
    ComputeGain,
    /// Remember the time of this crossing.
    MarkCrossing,
    /// Remember the weight as the last one.
    RememberValue,
}

/// Where the tuning stands.
#[derive(Clone, Copy, Debug, PartialEq, Eq, Structural)]
pub struct TuningState {
    pub preload_verified: bool,
    pub complete: bool,
    /// A first measurement was taken.
    pub started: bool,
    /// A crossing was seen.
    pub crossed_once: bool,
    pub oscillation_count: u32,
    pub min_oscillations: u32,
}

/// The number of oscillations after which tuning is complete.
pub const MIN_OSCILLATIONS: u32 = 4;

impl TuningState {
    /// Counts stay below the goal until tuning is complete.
    pub open spec fn wf(self) -> bool {
        &&& self.min_oscillations >= 1
        &&& self.complete <==> self.oscillation_count >= self.min_oscillations
        &&& self.oscillation_count <= self.min_oscillations
    }
}

/// Next state, output and bookkeeping for a measurement.
pub open spec fn tuner_step(s: TuningState, m: Measurement) -> (TuningState, RelayOutput, Seq<TunerAction>) {
    if !s.preload_verified && !m.preload_ok {
        (s, RelayOutput::Rest, seq![])
    } else {
        let s = TuningState { preload_verified: true, ..s };
        if s.complete {
            (s, RelayOutput::Rest, seq![])
        } else if !s.started {
            (TuningState { started: true, ..s }, RelayOutput::Push, seq![TunerAction::Start])
        } else if m.crossed && s.crossed_once && s.oscillation_count + 1 >= s.min_oscillations {
            (
                TuningState {
                    oscillation_count: (s.oscillation_count + 1) as u32,
                    complete: true,
                    ..s
                },
                RelayOutput::Rest,
                seq![TunerAction::MeasureHalfPeriod, TunerAction::ComputeGain],
            )
        } else {
            let out = if m.below_setpoint {
                RelayOutput::Push
            } else {
                RelayOutput::Pull
            };
            if m.crossed {
                if s.crossed_once {
                    (
                        TuningState { oscillation_count: (s.oscillation_count + 1) as u32, ..s },
                        out,
                        seq![
                            TunerAction::MeasureHalfPeriod,
                            TunerAction::MarkCrossing,
                            TunerAction::RememberValue,
                        ],
                    )
                } else {
                    (
                        TuningState { crossed_once: true, ..s },
                        out,
                        seq![TunerAction::MarkCrossing, TunerAction::RememberValue],
                    )
                }
            } else {
                (s, out, seq![TunerAction::RememberValue])
            }
        }
    }
}

impl TuningState {
    /// A tuning that has not started and waits for a checked preload.
    pub fn new() -> (r: TuningState)
        ensures
            r.wf(),
            !r.preload_verified && !r.complete && !r.started && !r.crossed_once,
            r.oscillation_count == 0,
            r.min_oscillations == MIN_OSCILLATIONS,
    {
        TuningState {
            preload_verified: false,
            complete: false,
            started: false,
            crossed_once: false,
            oscillation_count: 0,
            min_oscillations: MIN_OSCILLATIONS,
        }
    }

    /// Decides on a measurement.
    pub fn process_measurement(&mut self, m: Measurement) -> (r: (RelayOutput, Vec<TunerAction>))
        requires
            old(self).wf(),
        ensures
            final(self).wf(),
            *final(self) == tuner_step(*old(self), m).0,
            r.0 == tuner_step(*old(self), m).1,
            r.1@ == tuner_step(*old(self), m).2,
    {
        if !self.preload_verified {
            if !m.preload_ok {
                return (RelayOutput::Rest, Vec::new());
            }
            self.preload_verified = true;
        }
        if self.complete {
            return (RelayOutput::Rest, Vec::new());
        }
        if !self.started {
            self.started = true;
            return (RelayOutput::Push, vec![TunerAction::Start]);
        }
        let mut actions: Vec<TunerAction> = Vec::new();
        if m.crossed {
            if self.crossed_once {
                actions.push(TunerAction::MeasureHalfPeriod);
                self.oscillation_count = self.oscillation_count + 1;
                if self.oscillation_count >= self.min_oscillations {
                    actions.push(TunerAction::ComputeGain);
                    self.complete = true;
                    return (RelayOutput::Rest, actions);
                }
            }
            self.crossed_once = true;
            actions.push(TunerAction::MarkCrossing);
        }
        actions.push(TunerAction::RememberValue);
        let out = if m.below_setpoint {
            RelayOutput::Push
        } else {
            RelayOutput::Pull
        };
        (out, actions)
    }

    /// Starts again, keeping the goal.
    pub fn reset(&mut self)
        ensures
            *final(self) == (TuningState {
                preload_verified: false,
                complete: false,
                started: false,
                crossed_once: false,
                oscillation_count: 0,
                min_oscillations: old(self).min_oscillations,
            }),
    {
        self.preload_verified = false;
        self.complete = false;
        self.started = false;
        self.crossed_once = false;
        self.oscillation_count = 0;
    }

    pub fn is_tuning_complete(&self) -> (r: bool)
        ensures
            r == self.complete,
    {
        self.complete
    }

    pub fn is_preload_ok(&self) -> (r: bool)
        ensures
            r == self.preload_verified,
    {
        self.preload_verified
    }
}

/// Nothing moves before the preload was found within bounds, and nothing
/// moves once tuning is complete.
pub proof fn lemma_tuner_rests(s: TuningState, m: Measurement)
    ensures
        !s.preload_verified && !m.preload_ok ==> tuner_step(s, m).1 == RelayOutput::Rest,
        s.complete ==> tuner_step(s, m).1 == RelayOutput::Rest && tuner_step(s, m).0.complete,
{
}

/// Tuning completes on the crossing that makes the count reach the goal,
/// and only then; the count never passes the goal.
pub proof fn lemma_tuner_completes_at_goal(s: TuningState, m: Measurement)
    requires
        s.wf(),
    ensures
        tuner_step(s, m).0.wf(),
        !s.complete && tuner_step(s, m).0.complete ==> m.crossed && s.crossed_once
            && s.oscillation_count + 1 == s.min_oscillations,
{
}

/// The relay works around the setpoint: the first measurement after a
/// checked preload pushes, and from then on, until tuning completes, it
/// pushes on a weight below the setpoint and pulls on one above it, whether
/// or not the setpoint was just crossed. The crossing that reaches the goal
/// rests.
pub proof fn lemma_relay_follows_setpoint(s: TuningState, m: Measurement)
    requires
        s.wf(),
        s.preload_verified || m.preload_ok,
        !s.complete,
    ensures
        !s.started ==> tuner_step(s, m).1 == RelayOutput::Push,
        s.started && !(m.crossed && s.crossed_once && s.oscillation_count + 1
            == s.min_oscillations) ==> tuner_step(s, m).1 == (if m.below_setpoint {
            RelayOutput::Push
        } else {
            RelayOutput::Pull
        }),
        s.started && m.crossed && s.crossed_once && s.oscillation_count + 1 == s.min_oscillations
            ==> tuner_step(s, m).1 == RelayOutput::Rest,
{
}

/// While tuning runs (preload checked, started, not complete), each
/// crossing of the setpoint after the first is counted as an oscillation
/// and measures a half period; the crossing that reaches the goal computes
/// the gain and completes the tuning. Nothing else changes the count or
/// completes it, and the goal never changes.
pub proof fn lemma_tuner_counts_crossings(s: TuningState, m: Measurement)
    requires
        s.wf(),
    ensures
        ({
            let runs = (s.preload_verified || m.preload_ok) && !s.complete && s.started;
            let counted = runs && m.crossed && s.crossed_once;
            let reaches = counted && s.oscillation_count + 1 == s.min_oscillations;
            let (n, out, acts) = tuner_step(s, m);
            &&& n.oscillation_count == (if counted {
                s.oscillation_count + 1
            } else {
                s.oscillation_count as int
            })
            &&& n.min_oscillations == s.min_oscillations
            &&& n.complete == (s.complete || reaches)
            &&& acts.contains(TunerAction::MeasureHalfPeriod) == counted
            &&& acts.contains(TunerAction::ComputeGain) == reaches
            &&& (runs && m.crossed ==> n.crossed_once)
            &&& (runs && m.crossed && !reaches ==> acts.contains(TunerAction::MarkCrossing))
            &&& (runs && !reaches ==> acts.last() == TunerAction::RememberValue)
        }),
{
    let runs = (s.preload_verified || m.preload_ok) && !s.complete && s.started;
    let counted = runs && m.crossed && s.crossed_once;
    let reaches = counted && s.oscillation_count + 1 == s.min_oscillations;
    let acts = tuner_step(s, m).2;
    if acts.contains(TunerAction::MeasureHalfPeriod) {
        let k = choose|k: int| 0 <= k < acts.len() && acts[k] == TunerAction::MeasureHalfPeriod;
        assert(acts[k] == TunerAction::MeasureHalfPeriod);
    }
    if acts.contains(TunerAction::ComputeGain) {
        let k = choose|k: int| 0 <= k < acts.len() && acts[k] == TunerAction::ComputeGain;
        assert(acts[k] == TunerAction::ComputeGain);
    }
    if counted {
        assert(acts[0] == TunerAction::MeasureHalfPeriod);
    }
    if reaches {
        assert(acts[1] == TunerAction::ComputeGain);
    }
    if runs && m.crossed && !reaches {
        if counted {
            assert(acts[1] == TunerAction::MarkCrossing);
        } else {
            assert(acts[0] == TunerAction::MarkCrossing);
        }
    }
}

} // verus!
