//! Model of the per-alarm persisted history.
//!
//! The history store is append-only; per alarm it only ever grows by the
//! three operations the engine performs: inserting an emitted set event,
//! inserting a gated reset event, and recording an acknowledgement as a copy
//! of the latest row.  This module captures those operations over a row
//! vector and proves the laws the store sequence obeys: per alarm the
//! sequence, filtered to state transitions, alternates beginning with a set
//! event, and a reset event carries `Ack` only when the set event it clears
//! had been acknowledged.

use vstd::prelude::*;

use crate::alarm::{Alarm, AlarmAck, AlarmState, AlarmStatus, AlarmStatusV};

verus! {

/// The states of a row sequence.
pub open spec fn states_of(rows: Seq<AlarmStatusV>) -> Seq<AlarmState> {
    rows.map_values(|r: AlarmStatusV| r.state)
}

/// Collapse consecutive equal states, keeping one representative of each
/// run: the sequence of state transitions.
pub open spec fn transitions(s: Seq<AlarmState>) -> Seq<AlarmState>
    decreases s.len(),
{
    if s.len() <= 1 {
        s
    } else if s[s.len() - 1] == s[s.len() - 2] {
        transitions(s.drop_last())
    } else {
        transitions(s.drop_last()).push(s[s.len() - 1])
    }
}

/// Adjacent elements always differ.
pub open spec fn alternating(s: Seq<AlarmState>) -> bool {
    forall|i: int| 0 < i < s.len() ==> #[trigger] s[i] != s[i - 1]
}

/// What holds of every history the engine can produce.
pub open spec fn wf_rows(rows: Seq<AlarmStatusV>) -> bool {
    // Only real states are persisted; synthetic ack-only events never reach
    // the store as fresh rows.
    &&& forall|i: int|
        0 <= i < rows.len() ==> (rows[i].state is Set_ || rows[i].state is Reset)
    // The first row of an alarm's history is a set event: a reset is only
    // persisted when a latest row exists and is not itself a reset.
    &&& rows.len() > 0 ==> rows[0].state is Set_
    // A set row is persisted `NotAck` and at most acknowledged to `Ack`;
    // `None_` belongs to reset events only.
    &&& forall|i: int|
        0 <= i < rows.len() && rows[i].state is Set_ ==> !(rows[i].ack is None_)
    // An acknowledged set row is always the acknowledgement copy of a set
    // row (fresh set events are persisted `NotAck`).
    &&& forall|i: int|
        0 <= i < rows.len() && rows[i].state is Set_ && rows[i].ack is Ack ==> i > 0
            && rows[i - 1].state is Set_
    // A reset row never directly follows a reset row except as an
    // acknowledgement copy of it.
    &&& forall|i: int|
        0 < i < rows.len() && rows[i].state is Reset && rows[i - 1].state is Reset
            ==> rows[i].ack is Ack
}

/// The persisted history of one alarm.
pub struct History {
    rows: Vec<AlarmStatus>,
}

impl History {
    /// The rows as a mathematical sequence.
    pub closed spec fn rows_v(&self) -> Seq<AlarmStatusV> {
        self.rows@.map_values(|r: AlarmStatus| r@)
    }

    pub open spec fn wf(&self) -> bool {
        wf_rows(self.rows_v())
    }

    pub fn new() -> (h: History)
        ensures
            h.wf(),
            h.rows_v() =~= Seq::<AlarmStatusV>::empty(),
    {
        History { rows: Vec::new() }
    }

    /// The most recent row, if any.
    pub fn latest(&self) -> (r: Option<AlarmStatus>)
        ensures
            self.rows_v().len() == 0 ==> r is None,
            self.rows_v().len() > 0 ==> (r matches Some(e) && e@ == self.rows_v().last()),
    {
        if self.rows.len() == 0 {
            Option::None
        } else {
            let e = self.rows[self.rows.len() - 1].clone();
            assert(e@ == self.rows_v().last());
            Option::Some(e)
        }
    }

    /// Persist the set event the alarm emits for a measurement equal to its
    /// set value, and return the emitted event.
    pub fn apply_set(&mut self, alarm: &Alarm) -> (e: AlarmStatus)
        requires
            old(self).wf(),
        ensures
            final(self).wf(),
            e@ == alarm.spec_set_event(),
            final(self).rows_v() =~= old(self).rows_v().push(e@),
    {
        let e = alarm.set_event();
        self.rows.push(e.clone());
        proof {
            assert(self.rows_v() =~= old(self).rows_v().push(e@));
        }
        e
    }

    /// Evaluate a measurement equal to the alarm's reset value: consult the
    /// latest row and, when it exists and is not itself a reset, persist and
    /// return the reset event.  Otherwise nothing is emitted.
    pub fn apply_reset(&mut self, alarm: &Alarm) -> (r: Option<AlarmStatus>)
        requires
            old(self).wf(),
        ensures
            final(self).wf(),
            old(self).rows_v().len() == 0 ==> r is None && final(self).rows_v() =~= old(
                self,
            ).rows_v(),
            old(self).rows_v().len() > 0 && old(self).rows_v().last().state is Reset ==> r is None
                && final(self).rows_v() =~= old(self).rows_v(),
            old(self).rows_v().len() > 0 && !(old(self).rows_v().last().state is Reset) ==> (
            r matches Some(e) && e@ == alarm.spec_reset_event(old(self).rows_v().last())
                && final(self).rows_v() =~= old(self).rows_v().push(e@)),
            // A reset is emitted with `Ack` only when the latest stored row
            // is an acknowledged set event.
            (r matches Some(e) && e@.ack is Ack) ==> old(self).rows_v().last().state is Set_
                && old(self).rows_v().last().ack is Ack,
    {
        let latest = self.latest();
        let decision = alarm.on_store_latest(latest.as_ref());
        match decision {
            Option::None => Option::None,
            Option::Some(e) => {
                self.rows.push(e.clone());
                proof {
                    assert(self.rows_v() =~= old(self).rows_v().push(e@));
                }
                Option::Some(e)
            },
        }
    }

    /// Record an operator acknowledgement: append a copy of the latest row
    /// with its acknowledgement field set.  An empty history is unchanged.
    #[verifier::rlimit(50)]
    pub fn record_ack(&mut self)
        requires
            old(self).wf(),
        ensures
            final(self).wf(),
            old(self).rows_v().len() == 0 ==> final(self).rows_v() =~= old(self).rows_v(),
            old(self).rows_v().len() > 0 ==> final(self).rows_v() =~= old(self).rows_v().push(
                AlarmStatusV { ack: AlarmAck::Ack, ..old(self).rows_v().last() },
            ),
    {
        if self.rows.len() > 0 {
            let mut e = self.rows[self.rows.len() - 1].clone();
            e.ack = AlarmAck::Ack;
            self.rows.push(e);
            proof {
                assert(self.rows_v() =~= old(self).rows_v().push(
                    AlarmStatusV { ack: AlarmAck::Ack, ..old(self).rows_v().last() },
                ));
            }
        }
    }
}

/// The transition sequence never holds two equal neighbours.
pub proof fn lemma_transitions_alternating(s: Seq<AlarmState>)
    ensures
        alternating(transitions(s)),
    decreases s.len(),
{
    if s.len() > 1 {
        lemma_transitions_alternating(s.drop_last());
        if s[s.len() - 1] != s[s.len() - 2] {
            lemma_transitions_last(s.drop_last());
        }
    }
}

/// A nonempty sequence keeps its first element and its last run's state.
pub proof fn lemma_transitions_last(s: Seq<AlarmState>)
    ensures
        s.len() == 0 ==> transitions(s).len() == 0,
        s.len() > 0 ==> transitions(s).len() > 0 && transitions(s).last() == s.last()
            && transitions(s).first() == s.first(),
    decreases s.len(),
{
    if s.len() > 1 {
        lemma_transitions_last(s.drop_last());
    }
}

/// The store sequence of one alarm, filtered to state transitions,
/// alternates between set and reset beginning with a set event.
pub proof fn lemma_history_alternates(rows: Seq<AlarmStatusV>)
    requires
        wf_rows(rows),
    ensures
        alternating(transitions(states_of(rows))),
        rows.len() > 0 ==> transitions(states_of(rows)).first() is Set_,
        forall|i: int|
            0 <= i < transitions(states_of(rows)).len() ==> (transitions(states_of(rows))[i]
                is Set_ || transitions(states_of(rows))[i] is Reset),
{
    let s = states_of(rows);
    lemma_transitions_alternating(s);
    if rows.len() > 0 {
        lemma_transitions_last(s);
        assert(s.first() == rows[0].state);
    }
    lemma_transitions_members(s);
    assert(forall|i: int| 0 <= i < s.len() ==> (s[i] is Set_ || s[i] is Reset));
}

/// Every element of the transition sequence occurs in the input.
pub proof fn lemma_transitions_members(s: Seq<AlarmState>)
    ensures
        forall|i: int|
            0 <= i < transitions(s).len() ==> exists|j: int|
                0 <= j < s.len() && s[j] == #[trigger] transitions(s)[i],
    decreases s.len(),
{
    if s.len() <= 1 {
        assert forall|i: int| 0 <= i < transitions(s).len() implies exists|j: int|
            0 <= j < s.len() && s[j] == #[trigger] transitions(s)[i] by {
            assert(transitions(s) == s);
            assert(s[i] == transitions(s)[i]);
        }
    } else {
        let d = s.drop_last();
        lemma_transitions_members(d);
        assert forall|i: int| 0 <= i < transitions(s).len() implies exists|j: int|
            0 <= j < s.len() && s[j] == #[trigger] transitions(s)[i] by {
            if s[s.len() - 1] == s[s.len() - 2] || i < transitions(d).len() {
                assert(transitions(s)[i] == transitions(d)[i]);
                let j = choose|j: int| 0 <= j < d.len() && d[j] == transitions(d)[i];
                assert(d[j] == s[j]);
                assert(s[j] == transitions(s)[i]);
            } else {
                assert(transitions(s)[i] == s[s.len() - 1]);
            }
        }
    }
}

/// An acknowledged set row descends from a set event that was emitted (and
/// persisted `NotAck`) and later acknowledged: a reset event carrying `Ack`
/// therefore clears a set event that had been acknowledged beforehand.
pub proof fn lemma_acked_set_was_emitted(rows: Seq<AlarmStatusV>, i: int)
    requires
        wf_rows(rows),
        0 <= i < rows.len(),
        rows[i].state is Set_,
        rows[i].ack is Ack,
    ensures
        exists|j: int| 0 <= j < i && rows[j].state is Set_ && rows[j].ack is NotAck,
    decreases i,
{
    assert(rows[i].state is Set_ && rows[i].ack is Ack);
    assert(i > 0 && rows[i - 1].state is Set_);
    assert(!(rows[i - 1].ack is None_));
    if rows[i - 1].ack is NotAck {
        assert(0 <= i - 1 < i && rows[i - 1].state is Set_ && rows[i - 1].ack is NotAck);
    } else {
        lemma_acked_set_was_emitted(rows, i - 1);
        let j = choose|j: int|
            0 <= j < i - 1 && rows[j].state is Set_ && rows[j].ack is NotAck;
        assert(0 <= j < i && rows[j].state is Set_ && rows[j].ack is NotAck);
    }
}

} // verus!
