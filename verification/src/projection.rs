//! Status projection and subscription broadcaster state.
//!
//! The broadcaster owns two maps keyed by alarm name: the projection, which
//! holds the latest event per alarm, and the subscription table, which holds
//! the client handles subscribed to each name.  Clients are identified by
//! their remote address, represented here by a numeric handle; equality of
//! handles is equality of addresses.

use vstd::prelude::*;

use crate::alarm::{AlarmStatus, AlarmStatusV};
use crate::kvmap::{
    kv_map, kv_unique, lemma_kv_map_props, lemma_kv_push, lemma_kv_remove, lemma_kv_replace,
    lemma_kv_swap_remove_seq,
};

verus! {

/// Pairwise-distinct client handles.
pub open spec fn ids_unique(ids: Seq<u64>) -> bool {
    forall|a: int, b: int| 0 <= a < b < ids.len() ==> ids[a] != ids[b]
}

/// The shared state of the status projection and subscription broadcaster.
pub struct Server {
    subscriptions: Vec<(String, Vec<u64>)>,
    status: Vec<(String, AlarmStatus)>,
}

impl Server {
    /// The subscription table: alarm name to subscribed client handles.
    pub closed spec fn subs(&self) -> Map<Seq<char>, Seq<u64>> {
        kv_map(self.subscriptions@)
    }

    /// The projection: alarm name to the latest event observed for it.
    pub closed spec fn projection(&self) -> Map<Seq<char>, AlarmStatusV> {
        kv_map(self.status@)
    }

    /// The client handles subscribed to `name` (empty when none ever
    /// subscribed).
    pub open spec fn subs_of(&self, name: Seq<char>) -> Seq<u64> {
        if self.subs().dom().contains(name) {
            self.subs()[name]
        } else {
            Seq::empty()
        }
    }

    pub closed spec fn wf(&self) -> bool {
        &&& kv_unique(self.subscriptions@)
        &&& kv_unique(self.status@)
        &&& forall|i: int|
            0 <= i < self.subscriptions@.len() ==> ids_unique(
                #[trigger] self.subscriptions@[i].1@,
            )
    }

    /// No client handle appears twice in any subscription set.
    pub proof fn lemma_subs_distinct(&self, name: Seq<char>)
        requires
            self.wf(),
        ensures
            ids_unique(self.subs_of(name)),
    {
        lemma_kv_map_props(self.subscriptions@);
        if self.subs().dom().contains(name) {
            let i = choose|i: int|
                0 <= i < self.subscriptions@.len() && #[trigger] self.subscriptions@[i].0@ == name;
            assert(self.subs()[name] == self.subscriptions@[i].1@);
        }
    }

    pub fn new() -> (s: Server)
        ensures
            s.wf(),
            s.subs() =~= Map::<Seq<char>, Seq<u64>>::empty(),
            s.projection() =~= Map::<Seq<char>, AlarmStatusV>::empty(),
    {
        Server { subscriptions: Vec::new(), status: Vec::new() }
    }

    /// Index of the subscription entry for `name`, if there is one.
    fn find_sub(&self, name: &String) -> (r: Option<usize>)
        ensures
            match r {
                Some(i) => i < self.subscriptions@.len() && self.subscriptions@[i as int].0@
                    == name@,
                Option::None => forall|j: int|
                    0 <= j < self.subscriptions@.len() ==> #[trigger] self.subscriptions@[j].0@
                        != name@,
            },
    {
        let n = self.subscriptions.len();
        let mut j: usize = 0;
        while j < n
            invariant
                n == self.subscriptions@.len(),
                j <= n,
                forall|j2: int|
                    0 <= j2 < j ==> #[trigger] self.subscriptions@[j2].0@ != name@,
            decreases n - j,
        {
            if self.subscriptions[j].0 == *name {
                return Option::Some(j);
            }
            j += 1;
        }
        Option::None
    }

    /// Index of the projection entry for `name`, if there is one.
    fn find_status(&self, name: &String) -> (r: Option<usize>)
        ensures
            match r {
                Some(i) => i < self.status@.len() && self.status@[i as int].0@ == name@,
                Option::None => forall|j: int|
                    0 <= j < self.status@.len() ==> #[trigger] self.status@[j].0@ != name@,
            },
    {
        let n = self.status.len();
        let mut j: usize = 0;
        while j < n
            invariant
                n == self.status@.len(),
                j <= n,
                forall|j2: int| 0 <= j2 < j ==> #[trigger] self.status@[j2].0@ != name@,
            decreases n - j,
        {
            if self.status[j].0 == *name {
                return Option::Some(j);
            }
            j += 1;
        }
        Option::None
    }

    /// Add `client` to the subscription set for `alm`.
    ///
    /// Returns whether the client was newly added: subscribing is
    /// idempotent, and a repeated call with an equal client handle changes
    /// nothing and returns false.
    pub fn subscribe(&mut self, alm: &String, client: u64) -> (added: bool)
        requires
            old(self).wf(),
        ensures
            final(self).wf(),
            final(self).projection() == old(self).projection(),
            added == !old(self).subs_of(alm@).contains(client),
            !added ==> *final(self) == *old(self),
            added ==> final(self).subs() == old(self).subs().insert(
                alm@,
                old(self).subs_of(alm@).push(client),
            ),
    {
        proof {
            lemma_kv_map_props(old(self).subscriptions@);
        }
        match self.find_sub(alm) {
            Option::None => {
                assert(!old(self).subs().dom().contains(alm@));
                let mut ids: Vec<u64> = Vec::new();
                ids.push(client);
                let ghost s0 = self.subscriptions@;
                let entry = (alm.clone(), ids);
                proof {
                    lemma_kv_push(s0, entry);
                }
                self.subscriptions.push(entry);
                true
            },
            Option::Some(i) => {
                assert(old(self).subs().dom().contains(alm@) && old(self).subs()[alm@] == old(
                    self,
                ).subscriptions@[i as int].1@);
                if contains_id(&self.subscriptions[i].1, client) {
                    false
                } else {
                    let ghost s0 = self.subscriptions@;
                    let mut entry = self.subscriptions.swap_remove(i);
                    entry.1.push(client);
                    proof {
                        assert(entry.1@ == s0[i as int].1@.push(client));
                        assert forall|a: int, b: int| 0 <= a < b < entry.1@.len() implies entry.1@[a]
                            != entry.1@[b] by {
                            assert(ids_unique(s0[i as int].1@));
                            if b == entry.1@.len() - 1 {
                                assert(!s0[i as int].1@.contains(client));
                                assert(s0[i as int].1@[a] != client);
                            }
                        }
                        lemma_kv_replace(s0, i as int, entry);
                        lemma_kv_swap_remove_seq(s0, i as int);
                    }
                    self.subscriptions.push(entry);
                    proof {
                        assert forall|j: int|
                            0 <= j < final(self).subscriptions@.len() implies ids_unique(
                            #[trigger] final(self).subscriptions@[j].1@,
                        ) by {
                            if j < final(self).subscriptions@.len() - 1 {
                                if j == i {
                                    assert(final(self).subscriptions@[j] == s0[s0.len() - 1]);
                                } else {
                                    assert(final(self).subscriptions@[j] == s0[j]);
                                }
                            }
                        }
                    }
                    true
                }
            },
        }
    }

    /// Apply one event: return the client handles it must be fanned out to,
    /// and update the projection.  A reset event whose acknowledgement field
    /// does not apply removes the projection entry for its name; every other
    /// event becomes the projection entry for its name.
    pub fn apply_event(&mut self, e: &AlarmStatus) -> (targets: Vec<u64>)
        requires
            old(self).wf(),
        ensures
            final(self).wf(),
            final(self).subs() == old(self).subs(),
            targets@ == old(self).subs_of(e.name@),
            ids_unique(targets@),
            e@.state is Reset && e@.ack is None_ ==> final(self).projection() == old(
                self,
            ).projection().remove(e.name@),
            !(e@.state is Reset && e@.ack is None_) ==> final(self).projection() == old(
                self,
            ).projection().insert(e.name@, e@),
    {
        proof {
            lemma_kv_map_props(old(self).subscriptions@);
            lemma_kv_map_props(old(self).status@);
            old(self).lemma_subs_distinct(e.name@);
        }
        let mut targets: Vec<u64> = Vec::new();
        match self.find_sub(&e.name) {
            Option::None => {
                assert(!self.subs().dom().contains(e.name@));
            },
            Option::Some(i) => {
                let ids = &self.subscriptions[i].1;
                let n = ids.len();
                let mut j: usize = 0;
                while j < n
                    invariant
                        n == ids@.len(),
                        j <= n,
                        targets@ == ids@.take(j as int),
                    decreases n - j,
                {
                    targets.push(ids[j]);
                    proof {
                        assert(targets@ =~= ids@.take(j + 1 as int));
                    }
                    j += 1;
                }
                assert(targets@ =~= ids@);
            },
        }
        let removing = match (&e.state, &e.ack) {
            (crate::alarm::AlarmState::Reset, crate::alarm::AlarmAck::None_) => true,
            _ => false,
        };
        match self.find_status(&e.name) {
            Option::None => {
                assert(!old(self).projection().dom().contains(e.name@));
                if removing {
                    assert(final(self).projection() =~= old(self).projection().remove(e.name@));
                } else {
                    let ghost s0 = self.status@;
                    let entry = (e.name.clone(), e.clone());
                    proof {
                        lemma_kv_push(s0, entry);
                    }
                    self.status.push(entry);
                }
            },
            Option::Some(i) => {
                let ghost s0 = self.status@;
                if removing {
                    proof {
                        lemma_kv_remove(s0, i as int);
                    }
                    let _ = self.status.swap_remove(i);
                } else {
                    let mut entry = self.status.swap_remove(i);
                    entry.1 = e.clone();
                    proof {
                        lemma_kv_replace(s0, i as int, entry);
                    }
                    self.status.push(entry);
                }
            },
        }
        targets
    }

    /// The projection entries for `names`, in the order of `names`, skipping
    /// names that have no entry.
    pub fn get_all_subscribed(&self, names: &Vec<String>) -> (r: Vec<AlarmStatus>)
        requires
            self.wf(),
        ensures
            r@.map_values(|a: AlarmStatus| a@) == spec_get_all(
                self.projection(),
                names@.map_values(|n: String| n@),
            ),
    {
        proof {
            lemma_kv_map_props(self.status@);
        }
        let ghost names_v = names@.map_values(|n: String| n@);
        let mut r: Vec<AlarmStatus> = Vec::new();
        let n = names.len();
        let mut i: usize = 0;
        while i < n
            invariant
                self.wf(),
                n == names@.len(),
                names_v == names@.map_values(|n2: String| n2@),
                i <= n,
                r@.map_values(|a: AlarmStatus| a@) == spec_get_all(
                    self.projection(),
                    names_v.take(i as int),
                ),
            decreases n - i,
        {
            proof {
                lemma_kv_map_props(self.status@);
                assert(names_v.take(i + 1 as int).drop_last() =~= names_v.take(i as int));
                assert(names_v.take(i + 1 as int).last() == names_v[i as int]);
            }
            let ghost r_pre = r@;
            match self.find_status(&names[i]) {
                Option::None => {
                    assert(!self.projection().dom().contains(names_v[i as int]));
                    assert(spec_get_all(self.projection(), names_v.take(i + 1 as int))
                        =~= spec_get_all(self.projection(), names_v.take(i as int)));
                },
                Option::Some(j) => {
                    let entry = self.status[j].1.clone();
                    assert(self.projection()[names_v[i as int]] == entry@);
                    r.push(entry);
                    proof {
                        assert(r@.map_values(|a: AlarmStatus| a@) =~= r_pre.map_values(
                            |a: AlarmStatus| a@,
                        ).push(entry@));
                        assert(spec_get_all(self.projection(), names_v.take(i + 1 as int))
                            =~= spec_get_all(self.projection(), names_v.take(i as int)).push(
                            self.projection()[names_v[i as int]],
                        ));
                    }
                },
            }
            i += 1;
        }
        proof {
            assert(names_v.take(n as int) =~= names_v);
        }
        r
    }
}

/// The projection entries whose key is in `names`, in the order of `names`.
pub open spec fn spec_get_all(m: Map<Seq<char>, AlarmStatusV>, names: Seq<Seq<char>>) -> Seq<
    AlarmStatusV,
>
    decreases names.len(),
{
    if names.len() == 0 {
        Seq::empty()
    } else if m.dom().contains(names.last()) {
        spec_get_all(m, names.drop_last()).push(m[names.last()])
    } else {
        spec_get_all(m, names.drop_last())
    }
}

/// Whether `ids` holds `x`.
fn contains_id(ids: &Vec<u64>, x: u64) -> (b: bool)
    ensures
        b == ids@.contains(x),
{
    let n = ids.len();
    let mut j: usize = 0;
    while j < n
        invariant
            n == ids@.len(),
            j <= n,
            forall|j2: int| 0 <= j2 < j ==> ids@[j2] != x,
        decreases n - j,
    {
        if ids[j] == x {
            assert(ids@.contains(x));
            return true;
        }
        j += 1;
    }
    assert(!ids@.contains(x));
    false
}

} // verus!
