//! Client session protocol.
//!
//! A session performs the version handshake, then handles the text commands
//! of the subscription protocol.  The decisions are pure: the surrounding
//! websocket transport feeds frames in and performs the returned actions.

use vstd::prelude::*;
use vstd::string::StringExecFns;

use crate::alarm::AlarmStatusV;
use crate::codec::{encode, spec_encode};
use crate::projection::{spec_get_all, Server};
use crate::strutil::{has_prefix, str_eq, suffix_from};

verus! {

/// The websocket close code sent on a protocol violation.
pub const CLOSE_PROTOCOL_ERROR: u16 = 1002;

pub open spec fn spec_protocol_version() -> Seq<char> {
    "1.0"@
}

/// The protocol version this server speaks.
pub fn protocol_version() -> (r: &'static str)
    ensures
        r@ == spec_protocol_version(),
{
    "1.0"
}

/// A command received from a client, as the protocol spells it.
pub enum Command {
    KeepAlive,
    Subscribe(String),
    Ack(String),
    GetAll,
    Unknown,
}

/// Parse one text frame into a command.
pub fn parse_command(msg: &str) -> (c: Command)
    ensures
        ({
            let ka = msg@ == "::ka::"@;
            let sub = !ka && msg@.len() >= 13 && msg@.subrange(0, 13) == "::subscribe::"@;
            let ack = !ka && !sub && msg@.len() >= 7 && msg@.subrange(0, 7) == "::ack::"@;
            let ga = !ka && !sub && !ack && msg@ == "::ga::"@;
            &&& (c is KeepAlive <==> ka)
            &&& (c is Subscribe <==> sub)
            &&& (c matches Command::Subscribe(a) ==> a@ == msg@.skip(13))
            &&& (c is Ack <==> ack)
            &&& (c matches Command::Ack(a) ==> a@ == msg@.skip(7))
            &&& (c is GetAll <==> ga)
            &&& (c is Unknown <==> !ka && !sub && !ack && !ga)
        }),
{
    proof {
        reveal_strlit("::subscribe::");
        reveal_strlit("::ack::");
    }
    if str_eq(msg, "::ka::") {
        Command::KeepAlive
    } else if has_prefix(msg, "::subscribe::") {
        Command::Subscribe(suffix_from(msg, 13))
    } else if has_prefix(msg, "::ack::") {
        Command::Ack(suffix_from(msg, 7))
    } else if str_eq(msg, "::ga::") {
        Command::GetAll
    } else {
        Command::Unknown
    }
}

/// The server's answer to the first frame of a connection.
pub enum HandshakeReply {
    /// Versions agree: send this text frame and proceed.
    Accept(String),
    /// Versions disagree: send a close frame with this status code and
    /// reason, and end the session.
    Reject(u16, String),
}

/// Compare the client's first frame against the protocol version.
pub fn do_handshake(msg: Option<&str>) -> (r: HandshakeReply)
    ensures
        match msg {
            Some(m) => if m@ == spec_protocol_version() {
                r matches HandshakeReply::Accept(t) && t@ == "::protocol_version:: "@
                    + spec_protocol_version()
            } else {
                r matches HandshakeReply::Reject(code, reason) && code == 1002 && reason@
                    == "wrong version"@
            },
            Option::None => r matches HandshakeReply::Reject(code, reason) && code == 1002
                && reason@ == "wrong version"@,
        },
{
    match msg {
        Option::Some(m) => {
            if str_eq(m, protocol_version()) {
                let mut t = String::new();
                t.append("::protocol_version:: ");
                t.append(protocol_version());
                proof {
                    assert(t@ =~= "::protocol_version:: "@ + spec_protocol_version());
                }
                HandshakeReply::Accept(t)
            } else {
                HandshakeReply::Reject(CLOSE_PROTOCOL_ERROR, "wrong version".to_owned())
            }
        },
        Option::None => HandshakeReply::Reject(CLOSE_PROTOCOL_ERROR, "wrong version".to_owned()),
    }
}

/// The acknowledgement routing table: the configured alarm names, in the
/// order their evaluators were started.
pub struct AckRoutes {
    names: Vec<String>,
}

/// The first index holding `a`, if any.
pub open spec fn spec_find_route(names: Seq<Seq<char>>, a: Seq<char>) -> Option<int>
    decreases names.len(),
{
    if names.len() == 0 {
        Option::None
    } else if names[0] == a {
        Some(0)
    } else {
        match spec_find_route(names.drop_first(), a) {
            Some(i) => Some(i + 1),
            Option::None => Option::None,
        }
    }
}

/// The name sequences of a string vector.
pub open spec fn names_of(v: Seq<String>) -> Seq<Seq<char>> {
    v.map_values(|s: String| s@)
}

impl AckRoutes {
    pub closed spec fn view_names(&self) -> Seq<Seq<char>> {
        names_of(self.names@)
    }

    pub fn new() -> (r: AckRoutes)
        ensures
            r.view_names() =~= Seq::<Seq<char>>::empty(),
    {
        AckRoutes { names: Vec::new() }
    }

    /// Register the alarm name of the next evaluator.
    pub fn push(&mut self, name: String)
        ensures
            final(self).view_names() =~= old(self).view_names().push(name@),
    {
        self.names.push(name);
    }

    /// The alarm name registered at `i`.
    pub fn name_at(&self, i: usize) -> (r: Option<&String>)
        ensures
            i < self.view_names().len() ==> (r matches Some(n) && n@
                == self.view_names()[i as int]),
            i >= self.view_names().len() ==> r is None,
    {
        if i < self.names.len() {
            Option::Some(&self.names[i])
        } else {
            Option::None
        }
    }

    /// The evaluator index an acknowledgement for `a` is routed to.
    pub fn find(&self, a: &String) -> (r: Option<usize>)
        ensures
            match spec_find_route(self.view_names(), a@) {
                Some(i) => r matches Some(x) && x == i,
                Option::None => r is None,
            },
    {
        let n = self.names.len();
        proof {
            assert(self.view_names().skip(0) =~= self.view_names());
        }
        let mut j: usize = 0;
        while j < n
            invariant
                n == self.names@.len(),
                j <= n,
                spec_find_route(self.view_names(), a@) == match spec_find_route(
                    self.view_names().skip(j as int),
                    a@,
                ) {
                    Some(i) => Some(i + j),
                    Option::None => Option::None::<int>,
                },
            decreases n - j,
        {
            proof {
                assert(self.view_names().skip(j as int)[0] == self.view_names()[j as int]);
                assert(self.view_names().skip(j as int).drop_first() =~= self.view_names().skip(
                    j + 1 as int,
                ));
            }
            if self.names[j] == *a {
                assert(self.view_names()[j as int] == a@);
                return Option::Some(j);
            }
            j += 1;
        }
        proof {
            assert(self.view_names().skip(n as int).len() == 0);
        }
        Option::None
    }
}

/// The reply to a get-all command: each projected event the session is
/// subscribed to, serialised, each followed by a line break.
pub open spec fn spec_ga_reply(evs: Seq<AlarmStatusV>) -> Seq<char>
    decreases evs.len(),
{
    if evs.len() == 0 {
        Seq::empty()
    } else {
        spec_ga_reply(evs.drop_last()) + spec_encode(evs.last()) + "\n"@
    }
}

/// Build the get-all reply text.
pub fn ga_reply(evs: &Vec<crate::alarm::AlarmStatus>) -> (r: String)
    ensures
        r@ == spec_ga_reply(evs@.map_values(|e: crate::alarm::AlarmStatus| e@)),
{
    let ghost evs_v = evs@.map_values(|e: crate::alarm::AlarmStatus| e@);
    let mut out = String::new();
    let n = evs.len();
    let mut i: usize = 0;
    while i < n
        invariant
            n == evs@.len(),
            evs_v == evs@.map_values(|e: crate::alarm::AlarmStatus| e@),
            i <= n,
            out@ == spec_ga_reply(evs_v.take(i as int)),
        decreases n - i,
    {
        let t = encode(&evs[i]);
        out.append(t.as_str());
        out.append("\n");
        proof {
            assert(evs_v.take(i + 1 as int).drop_last() =~= evs_v.take(i as int));
            assert(evs_v.take(i + 1 as int).last() == evs_v[i as int]);
            assert(out@ =~= spec_ga_reply(evs_v.take(i + 1 as int)));
        }
        i += 1;
    }
    proof {
        assert(evs_v.take(n as int) =~= evs_v);
    }
    out
}

} // verus!

verus! {

/// Where a session stands in its lifecycle.
#[derive(Clone, Copy, Debug, PartialEq, Eq, Structural)]
pub enum Phase {
    /// The first frame (the client's protocol version) is still awaited.
    AwaitVersion,
    /// The handshake succeeded; commands are handled.
    Active,
    /// The session ended; nothing is handled or registered any more.
    Ended,
}

/// One inbound websocket frame, reduced to what the protocol reads.
pub enum Incoming {
    Text(String),
    Binary,
    CloseFrame,
}

/// One action the transport must perform for the session.
pub enum Outgoing {
    /// Send this text frame.
    Reply(String),
    /// Send a close frame with this status code and reason, then stop.
    SendClose(u16, String),
    /// Deliver an acknowledgement to the evaluator with this index.
    RouteAck(usize),
}

/// One client session: handshake state and the names subscribed so far.
pub struct Session {
    pub phase: Phase,
    pub subs: Vec<String>,
}

impl Session {
    pub fn new() -> (s: Session)
        ensures
            s.phase is AwaitVersion,
            s.subs@.len() == 0,
    {
        Session { phase: Phase::AwaitVersion, subs: Vec::new() }
    }

    /// Handle one inbound frame.
    ///
    /// Before the handshake, the first text frame is compared against the
    /// protocol version: on a match the session becomes active and the
    /// version reply is sent; otherwise the session ends with a protocol
    /// close frame, and nothing it sends later is registered.  An active
    /// session handles the keep-alive, subscribe, ack and get-all commands.
    /// Binary frames are ignored; a close frame ends the session.
    pub fn on_message(
        &mut self,
        server: &mut Server,
        routes: &AckRoutes,
        client: u64,
        msg: Incoming,
    ) -> (out: Option<Outgoing>)
        requires
            old(server).wf(),
        ensures
            final(server).wf(),
            // an ended session never changes anything
            old(self).phase is Ended ==> *final(self) == *old(self) && *final(server) == *old(
                server,
            ) && out is None,
            // the handshake
            old(self).phase is AwaitVersion ==> *final(server) == *old(server) && final(self).subs
                == old(self).subs && (match msg {
                Incoming::Text(m) => if m@ == spec_protocol_version() {
                    final(self).phase is Active && (out matches Some(Outgoing::Reply(t)) && t@
                        == "::protocol_version:: "@ + spec_protocol_version())
                } else {
                    final(self).phase is Ended && (out matches Some(Outgoing::SendClose(c, reason))
                        && c == 1002 && reason@ == "wrong version"@)
                },
                Incoming::Binary => final(self).phase is Ended && (out matches Some(
                    Outgoing::SendClose(c, reason),
                ) && c == 1002 && reason@ == "wrong version"@),
                Incoming::CloseFrame => final(self).phase is Ended && out is None,
            }),
            // the command loop
            old(self).phase is Active ==> match msg {
                Incoming::Text(m) => final(self).active_step(
                    *old(self),
                    *old(server),
                    routes,
                    client,
                    m@,
                    out,
                ) && subscribe_effect(*old(server), *final(server), m@, client),
                Incoming::Binary => *final(self) == *old(self) && *final(server) == *old(server)
                    && out is None,
                Incoming::CloseFrame => final(self).phase is Ended && final(self).subs == old(
                    self,
                ).subs && *final(server) == *old(server) && out is None,
            },
    {
        match msg {
            Incoming::CloseFrame => {
                if matches!(self.phase, Phase::Active) || matches!(self.phase, Phase::AwaitVersion) {
                    self.phase = Phase::Ended;
                }
                Option::None
            },
            Incoming::Binary => {
                if matches!(self.phase, Phase::AwaitVersion) {
                    self.phase = Phase::Ended;
                    let r = do_handshake(Option::None);
                    match r {
                        HandshakeReply::Reject(c, reason) => Option::Some(
                            Outgoing::SendClose(c, reason),
                        ),
                        HandshakeReply::Accept(_) => Option::None,
                    }
                } else {
                    Option::None
                }
            },
            Incoming::Text(m) => {
                match self.phase {
                    Phase::Ended => Option::None,
                    Phase::AwaitVersion => {
                        let r = do_handshake(Option::Some(m.as_str()));
                        match r {
                            HandshakeReply::Accept(t) => {
                                self.phase = Phase::Active;
                                Option::Some(Outgoing::Reply(t))
                            },
                            HandshakeReply::Reject(c, reason) => {
                                self.phase = Phase::Ended;
                                Option::Some(Outgoing::SendClose(c, reason))
                            },
                        }
                    },
                    Phase::Active => self.on_command(server, routes, client, m.as_str()),
                }
            },
        }
    }

    /// What one text command of an active session does, as a relation
    /// between the states before and after and the resulting action.
    pub open spec fn active_step(
        self,
        pre: Session,
        server_pre: Server,
        routes: &AckRoutes,
        client: u64,
        m: Seq<char>,
        out: Option<Outgoing>,
    ) -> bool {
        if m == "::ka::"@ {
            self == pre && out is None
        } else if m.len() >= 13 && m.subrange(0, 13) == "::subscribe::"@ {
            let a = m.skip(13);
            let added = !spec_subs_of(server_pre, a).contains(client);
            &&& out is None
            &&& self.phase == pre.phase
            &&& (added ==> names_of(self.subs@) == names_of(pre.subs@).push(a))
            &&& (!added ==> self.subs == pre.subs)
        } else if m.len() >= 7 && m.subrange(0, 7) == "::ack::"@ {
            let a = m.skip(7);
            &&& self == pre
            &&& match spec_find_route(routes.view_names(), a) {
                Some(i) => out matches Some(Outgoing::RouteAck(x)) && x == i,
                Option::None => out matches Some(Outgoing::Reply(t)) && t@ == "Couldn't find "@ + a
                    + " to ack"@,
            }
        } else if m == "::ga::"@ {
            &&& self == pre
            &&& out matches Some(Outgoing::Reply(t)) && t@ == spec_ga_reply(
                spec_get_all(server_pre.projection(), names_of(pre.subs@)),
            )
        } else {
            self == pre && out is None
        }
    }

    /// Handle one command of an active session.
    fn on_command(
        &mut self,
        server: &mut Server,
        routes: &AckRoutes,
        client: u64,
        m: &str,
    ) -> (out: Option<Outgoing>)
        requires
            old(server).wf(),
            old(self).phase is Active,
        ensures
            final(server).wf(),
            final(self).active_step(*old(self), *old(server), routes, client, m@, out),
            subscribe_effect(*old(server), *final(server), m@, client),
    {
        match parse_command(m) {
            Command::KeepAlive => Option::None,
            Command::Subscribe(a) => {
                let added = server.subscribe(&a, client);
                if added {
                    self.subs.push(a);
                    proof {
                        assert(names_of(final(self).subs@) =~= names_of(old(self).subs@).push(
                            m@.skip(13),
                        ));
                    }
                }
                Option::None
            },
            Command::Ack(a) => {
                match routes.find(&a) {
                    Some(i) => Option::Some(Outgoing::RouteAck(i)),
                    Option::None => {
                        let mut t = String::new();
                        t.append("Couldn't find ");
                        t.append(a.as_str());
                        t.append(" to ack");
                        proof {
                            assert(t@ =~= "Couldn't find "@ + m@.skip(7) + " to ack"@);
                        }
                        Option::Some(Outgoing::Reply(t))
                    },
                }
            },
            Command::GetAll => {
                let evs = server.get_all_subscribed(&self.subs);
                let t = ga_reply(&evs);
                Option::Some(Outgoing::Reply(t))
            },
            Command::Unknown => Option::None,
        }
    }
}

/// The set of clients subscribed to `a` in `s` (empty when the name was
/// never subscribed to).
pub open spec fn spec_subs_of(s: Server, a: Seq<char>) -> Seq<u64> {
    s.subs_of(a)
}

/// How a command changes the subscription tables: only a subscribe command
/// touches them, and only at its own name for its own client.
pub open spec fn subscribe_effect(pre: Server, post: Server, m: Seq<char>, client: u64) -> bool {
    if m.len() >= 13 && m.subrange(0, 13) == "::subscribe::"@ && m != "::ka::"@ {
        let a = m.skip(13);
        &&& post.projection() == pre.projection()
        &&& (spec_subs_of(pre, a).contains(client) ==> post == pre)
        &&& (!spec_subs_of(pre, a).contains(client) ==> post.subs() == pre.subs().insert(
            a,
            spec_subs_of(pre, a).push(client),
        ))
    } else {
        post == pre
    }
}

} // verus!
