//! Alarm data model and the per-alarm evaluator state machine.

use vstd::prelude::*;

verus! {

/// Severity carried by every alarm event.
#[derive(Clone, Copy, Debug, PartialEq, Eq, Structural)]
pub enum AlarmSeverity {
    High,
    Medium,
    Low,
    Unknown,
}

/// State carried by every alarm event.  `Unknown` is used only in synthetic
/// acknowledgement events.
#[derive(Clone, Copy, Debug, PartialEq, Eq, Structural)]
pub enum AlarmState {
    Set_,
    Reset,
    Unknown,
}

/// Acknowledgement state of an alarm event.  `None` means the field does not
/// apply to the event.
#[derive(Clone, Copy, Debug, PartialEq, Eq, Structural)]
pub enum AlarmAck {
    Ack,
    NotAck,
    None_,
}

impl AlarmSeverity {
    /// The numeric code the history store uses for this severity.
    pub fn code(&self) -> (c: u8)
        ensures
            c == self.spec_code(),
    {
        match self {
            AlarmSeverity::High => 3,
            AlarmSeverity::Medium => 2,
            AlarmSeverity::Low => 1,
            AlarmSeverity::Unknown => 0,
        }
    }

    pub open spec fn spec_code(&self) -> u8 {
        match self {
            AlarmSeverity::High => 3,
            AlarmSeverity::Medium => 2,
            AlarmSeverity::Low => 1,
            AlarmSeverity::Unknown => 0,
        }
    }
}

/// One alarm event, published on every transition.
#[derive(Debug)]
pub struct AlarmStatus {
    pub name: String,
    pub state: AlarmState,
    pub value: i64,
    pub severity: AlarmSeverity,
    pub ack: AlarmAck,
}

/// Mathematical model of an [`AlarmStatus`].
pub ghost struct AlarmStatusV {
    pub name: Seq<char>,
    pub state: AlarmState,
    pub value: int,
    pub severity: AlarmSeverity,
    pub ack: AlarmAck,
}

impl View for AlarmStatus {
    type V = AlarmStatusV;

    open spec fn view(&self) -> AlarmStatusV {
        AlarmStatusV {
            name: self.name@,
            state: self.state,
            value: self.value as int,
            severity: self.severity,
            ack: self.ack,
        }
    }
}

/// One configured alarm: a digital condition on a measurement path.
#[derive(Debug)]
pub struct Alarm {
    pub path: String,
    pub severity: AlarmSeverity,
    pub set: i64,
    pub reset: i64,
    pub meas: String,
}

impl Clone for AlarmStatus {
    fn clone(&self) -> (r: AlarmStatus)
        ensures
            r@ == self@,
    {
        AlarmStatus {
            name: self.name.clone(),
            state: self.state,
            value: self.value,
            severity: self.severity,
            ack: self.ack,
        }
    }
}

impl Clone for Alarm {
    fn clone(&self) -> (r: Alarm)
        ensures
            r.path@ == self.path@,
            r.severity == self.severity,
            r.set == self.set,
            r.reset == self.reset,
            r.meas@ == self.meas@,
    {
        Alarm {
            path: self.path.clone(),
            severity: self.severity,
            set: self.set,
            reset: self.reset,
            meas: self.meas.clone(),
        }
    }
}

/// What the evaluator decides to do with one measurement sample.
#[derive(Debug)]
pub enum MeasDecision {
    /// The sample equals the set value: emit this set event and persist it.
    EmitSet(AlarmStatus),
    /// The sample equals the reset value: ask the history store for the
    /// latest event before deciding.
    ConsultStore,
    /// The sample matches neither value: no event, no state change.
    Ignore,
}

/// The acknowledgement field a reset event carries, given the
/// acknowledgement state of the latest stored event it clears.
pub open spec fn spec_reset_ack(prev: AlarmAck) -> AlarmAck {
    if prev is Ack {
        AlarmAck::Ack
    } else {
        AlarmAck::None_
    }
}

impl Alarm {
    /// The set event this alarm emits whenever its measurement equals the
    /// set value.
    pub open spec fn spec_set_event(&self) -> AlarmStatusV {
        AlarmStatusV {
            name: self.path@,
            state: AlarmState::Set_,
            value: self.set as int,
            severity: self.severity,
            ack: AlarmAck::NotAck,
        }
    }

    /// The reset event this alarm emits when its measurement equals the
    /// reset value and the latest stored event `prev` is not itself a reset.
    pub open spec fn spec_reset_event(&self, prev: AlarmStatusV) -> AlarmStatusV {
        AlarmStatusV {
            name: self.path@,
            state: AlarmState::Reset,
            value: self.reset as int,
            severity: self.severity,
            ack: spec_reset_ack(prev.ack),
        }
    }

    pub fn new(path: String, set: i64, reset: i64, severity: AlarmSeverity, meas: String) -> (a:
        Alarm)
        ensures
            a.path@ == path@,
            a.set == set,
            a.reset == reset,
            a.severity == severity,
            a.meas@ == meas@,
    {
        Alarm { path, severity, set, reset, meas }
    }

    /// Evaluate one measurement sample.
    ///
    /// A set event is emitted exactly when the sample equals the set value;
    /// the store is consulted exactly when the sample equals the reset value
    /// (and not the set value); any other sample is ignored.
    pub fn on_measurement(&self, value: i64) -> (d: MeasDecision)
        ensures
            (d matches MeasDecision::EmitSet(e) ==> e@ == self.spec_set_event()),
            (d is EmitSet <==> value == self.set),
            (d is ConsultStore <==> value != self.set && value == self.reset),
            (d is Ignore <==> value != self.set && value != self.reset),
    {
        if value == self.set {
            MeasDecision::EmitSet(self.set_event())
        } else if value == self.reset {
            MeasDecision::ConsultStore
        } else {
            MeasDecision::Ignore
        }
    }

    /// Decide the outcome of a reset sample from the latest stored event.
    ///
    /// Nothing is emitted when the store has no event for this alarm (there
    /// was no set to clear, or the query failed) or when the latest event is
    /// already a reset.  Otherwise the emitted reset event carries `Ack` when
    /// the cleared event had been acknowledged and `None_` when no operator
    /// action remains pending.
    pub fn on_store_latest(&self, latest: Option<&AlarmStatus>) -> (r: Option<AlarmStatus>)
        ensures
            match latest {
                Option::None => r is None,
                Option::Some(prev) => if prev.state is Reset {
                    r is None
                } else {
                    r matches Some(e) && e@ == self.spec_reset_event(prev@)
                },
            },
    {
        match latest {
            Option::None => Option::None,
            Option::Some(prev) => {
                if prev.state == AlarmState::Reset {
                    Option::None
                } else {
                    let ack = if prev.ack == AlarmAck::Ack {
                        AlarmAck::Ack
                    } else {
                        AlarmAck::None_
                    };
                    Option::Some(
                        AlarmStatus {
                            name: self.path.clone(),
                            state: AlarmState::Reset,
                            value: self.reset,
                            severity: self.severity,
                            ack,
                        },
                    )
                }
            },
        }
    }

    /// The set event as an executable value.
    pub fn set_event(&self) -> (e: AlarmStatus)
        ensures
            e@ == self.spec_set_event(),
    {
        AlarmStatus {
            name: self.path.clone(),
            state: AlarmState::Set_,
            value: self.set,
            severity: self.severity,
            ack: AlarmAck::NotAck,
        }
    }

    pub fn get_meas(&self) -> (m: &str)
        ensures
            m@ == self.meas@,
    {
        self.meas.as_str()
    }

    pub fn get_path(&self) -> (p: &str)
        ensures
            p@ == self.path@,
    {
        self.path.as_str()
    }
}

/// The synthetic event the acknowledgement dispatcher emits for an
/// acknowledged alarm name.
pub open spec fn spec_ack_event(name: Seq<char>) -> AlarmStatusV {
    AlarmStatusV {
        name: name,
        state: AlarmState::Unknown,
        value: i64::MAX as int,
        severity: AlarmSeverity::Unknown,
        ack: AlarmAck::Ack,
    }
}

/// Build the synthetic acknowledgement event for `name`.
pub fn ack_event(name: String) -> (e: AlarmStatus)
    ensures
        e@ == spec_ack_event(name@),
{
    AlarmStatus {
        name,
        state: AlarmState::Unknown,
        value: i64::MAX,
        severity: AlarmSeverity::Unknown,
        ack: AlarmAck::Ack,
    }
}

} // verus!
