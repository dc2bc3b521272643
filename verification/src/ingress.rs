//! Measurement and acknowledgement ingress.
//!
//! The broker delivers measurement samples addressed by routing key and
//! acknowledgement messages holding an alarm name.  This module holds the
//! routing table from measurement path to per-measurement channel index and
//! the decoding of both payload kinds; the broker transport performs the
//! deliveries it decides on.

use vstd::prelude::*;

use crate::digits::{spec_parse_i64, parse_i64_chars};
use crate::session::{names_of, spec_find_route};

verus! {

/// The characters of an ASCII byte sequence.
pub open spec fn ascii_chars(bytes: Seq<u8>) -> Seq<char> {
    bytes.map_values(|b: u8| b as char)
}

/// The value of a measurement payload: its bytes read as a decimal
/// integer, or nothing when they are not one or it does not fit.
pub open spec fn spec_parse_payload(bytes: Seq<u8>) -> Option<int> {
    if forall|i: int| 0 <= i < bytes.len() ==> bytes[i] < 128 {
        spec_parse_i64(ascii_chars(bytes))
    } else {
        Option::None
    }
}

/// Decode a measurement payload.
pub fn parse_payload(payload: &[u8]) -> (r: Option<i64>)
    ensures
        match spec_parse_payload(payload@) {
            Some(w) => r matches Some(x) && x == w,
            Option::None => r is None,
        },
{
    let n = payload.len();
    let mut v: Vec<char> = Vec::new();
    let mut i: usize = 0;
    while i < n
        invariant
            n == payload@.len(),
            i <= n,
            forall|j: int| 0 <= j < i ==> payload@[j] < 128,
            v@ == ascii_chars(payload@.take(i as int)),
        decreases n - i,
    {
        let b = payload[i];
        if b >= 128 {
            return Option::None;
        }
        v.push(b as char);
        proof {
            assert(v@ =~= ascii_chars(payload@.take(i + 1 as int)));
        }
        i += 1;
    }
    proof {
        assert(payload@.take(n as int) =~= payload@);
    }
    parse_i64_chars(&v)
}

/// What the ingress loop does with one measurement frame.
#[derive(Debug, PartialEq, Eq, Structural)]
pub enum IngressAction {
    /// Send this value into the broadcast channel with this index, then
    /// acknowledge the delivery.
    Deliver(usize, i64),
    /// Acknowledge the delivery and move on: the payload is not a decimal
    /// integer or no route is registered for the key.
    Discard,
}

/// The routing table from measurement path to broadcast channel index.
pub struct MeasRouter {
    paths: Vec<String>,
}

impl MeasRouter {
    /// The registered measurement paths, in registration order.
    pub closed spec fn paths_v(&self) -> Seq<Seq<char>> {
        names_of(self.paths@)
    }

    pub fn new() -> (r: MeasRouter)
        ensures
            r.paths_v() =~= Seq::<Seq<char>>::empty(),
    {
        MeasRouter { paths: Vec::new() }
    }

    /// The channel index for `meas`, if one is registered.
    pub fn route_of(&self, meas: &str) -> (r: Option<usize>)
        ensures
            match spec_find_route(self.paths_v(), meas@) {
                Some(i) => r matches Some(x) && x == i,
                Option::None => r is None,
            },
    {
        let n = self.paths.len();
        proof {
            assert(self.paths_v().skip(0) =~= self.paths_v());
        }
        let mut j: usize = 0;
        while j < n
            invariant
                n == self.paths@.len(),
                j <= n,
                spec_find_route(self.paths_v(), meas@) == match spec_find_route(
                    self.paths_v().skip(j as int),
                    meas@,
                ) {
                    Some(i) => Some(i + j),
                    Option::None => Option::None::<int>,
                },
            decreases n - j,
        {
            proof {
                assert(self.paths_v().skip(j as int)[0] == self.paths_v()[j as int]);
                assert(self.paths_v().skip(j as int).drop_first() =~= self.paths_v().skip(
                    j + 1 as int,
                ));
            }
            if crate::strutil::str_eq(self.paths[j].as_str(), meas) {
                assert(self.paths_v()[j as int] == meas@);
                return Option::Some(j);
            }
            j += 1;
        }
        proof {
            assert(self.paths_v().skip(n as int).len() == 0);
        }
        Option::None
    }

    /// Register `meas`, reusing the existing route when one exists.
    ///
    /// Returns the channel index and whether a new channel must be created
    /// (and the queue bound) for it.
    pub fn subscribe(&mut self, meas: &str) -> (r: (usize, bool))
        ensures
            match spec_find_route(old(self).paths_v(), meas@) {
                Some(i) => r.0 == i && r.1 == false && *final(self) == *old(self),
                Option::None => r.0 == old(self).paths_v().len() && r.1 == true
                    && final(self).paths_v() == old(self).paths_v().push(meas@),
            },
    {
        match self.route_of(meas) {
            Option::Some(i) => (i, false),
            Option::None => {
                let i = self.paths.len();
                self.paths.push(meas.to_owned());
                proof {
                    assert(final(self).paths_v() =~= old(self).paths_v().push(meas@));
                }
                (i, true)
            },
        }
    }

    /// Decide what to do with one measurement frame: deliver the decoded
    /// value to the route of its key, or discard it.
    pub fn on_measurement_frame(&self, routing_key: &str, payload: &[u8]) -> (a: IngressAction)
        ensures
            match (spec_parse_payload(payload@), spec_find_route(self.paths_v(), routing_key@)) {
                (Some(w), Some(i)) => a matches IngressAction::Deliver(x, y) && x == i && y == w,
                _ => a is Discard,
            },
    {
        match parse_payload(payload) {
            Option::None => IngressAction::Discard,
            Option::Some(value) => {
                match self.route_of(routing_key) {
                    Option::None => IngressAction::Discard,
                    Option::Some(i) => IngressAction::Deliver(i, value),
                }
            },
        }
    }
}

} // verus!
