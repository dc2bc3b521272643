//! JSON codec for alarm events.
//!
//! Events cross the wire as JSON text: one object with the fields `name`,
//! `state`, `value`, `severity` and `ack` in that order, the enumerations
//! spelled as their variant words and the name escaped as a JSON string.
//! Both directions are verified, and decoding is proved to recover every
//! encoded event exactly.

use vstd::prelude::*;

use crate::alarm::{AlarmAck, AlarmSeverity, AlarmState, AlarmStatus, AlarmStatusV};
use crate::digits::{is_digit, lemma_scan_int_of_repr, scan_i64_at, spec_i64_str};
use crate::strutil::{chars_of, string_from_chars};
use vstd::string::StringExecFns;

verus! {

/// The escape sequence a character is written as inside a JSON string.
pub open spec fn esc_char(c: char) -> Seq<char> {
    if c == '"' {
        seq!['\\', '"']
    } else if c == '\\' {
        seq!['\\', '\\']
    } else if c == '\n' {
        seq!['\\', 'n']
    } else if c == '\r' {
        seq!['\\', 'r']
    } else if c == '\t' {
        seq!['\\', 't']
    } else {
        seq![c]
    }
}

/// A whole string escaped.
pub open spec fn esc(s: Seq<char>) -> Seq<char>
    decreases s.len(),
{
    if s.len() == 0 {
        Seq::empty()
    } else {
        esc_char(s[0]) + esc(s.drop_first())
    }
}

/// The character an escape letter stands for.
pub open spec fn unesc_char(c: char) -> Option<char> {
    if c == '"' {
        Some('"')
    } else if c == '\\' {
        Some('\\')
    } else if c == 'n' {
        Some('\n')
    } else if c == 'r' {
        Some('\r')
    } else if c == 't' {
        Some('\t')
    } else {
        Option::None
    }
}

/// Read an escaped JSON string up to and including its closing quote:
/// the decoded characters and the number of characters consumed.
pub open spec fn spec_unesc(s: Seq<char>) -> Option<(Seq<char>, int)>
    decreases s.len(),
{
    if s.len() == 0 {
        Option::None
    } else if s[0] == '"' {
        Some((Seq::empty(), 1))
    } else if s[0] == '\\' {
        if s.len() >= 2 && unesc_char(s[1]) is Some {
            match spec_unesc(s.skip(2)) {
                Some((d, n)) => Some((seq![unesc_char(s[1])->0] + d, n + 2)),
                Option::None => Option::None,
            }
        } else {
            Option::None
        }
    } else {
        match spec_unesc(s.skip(1)) {
            Some((d, n)) => Some((seq![s[0]] + d, n + 1)),
            Option::None => Option::None,
        }
    }
}

/// Escaping distributes over concatenation.
pub proof fn lemma_esc_concat(a: Seq<char>, b: Seq<char>)
    ensures
        esc(a + b) == esc(a) + esc(b),
    decreases a.len(),
{
    if a.len() == 0 {
        assert(a + b =~= b);
        assert(esc(a) + esc(b) =~= esc(b));
    } else {
        assert((a + b)[0] == a[0]);
        assert((a + b).drop_first() =~= a.drop_first() + b);
        lemma_esc_concat(a.drop_first(), b);
        assert(esc(a + b) == esc_char(a[0]) + esc(a.drop_first() + b));
        assert(esc(a + b) =~= esc(a) + esc(b));
    }
}

/// Reading back an escaped string followed by its closing quote yields
/// exactly the original string and stops right after the quote.
pub proof fn lemma_unesc_esc(name: Seq<char>, rest: Seq<char>)
    ensures
        spec_unesc(esc(name) + seq!['"'] + rest) == Some(
            (name, esc(name).len() + 1 as int),
        ),
    decreases name.len(),
{
    let s = esc(name) + seq!['"'] + rest;
    if name.len() == 0 {
        assert(esc(name).len() == 0);
        assert(s[0] == '"');
        assert(spec_unesc(s) == Some((Seq::<char>::empty(), 1 as int)));
        assert(name =~= Seq::<char>::empty());
    } else {
        let c = name[0];
        let tail = name.drop_first();
        lemma_unesc_esc(tail, rest);
        let t = esc(tail) + seq!['"'] + rest;
        assert(esc(name) =~= esc_char(c) + esc(tail));
        let m = esc(tail).len() + 1 as int;
        assert(spec_unesc(t) == Some((tail, m)));
        if c == '"' || c == '\\' || c == '\n' || c == '\r' || c == '\t' {
            assert(esc_char(c).len() == 2);
            assert(s[0] == '\\');
            assert(s.len() >= 2);
            let x = esc_char(c)[1];
            assert(s[1] == x);
            assert(unesc_char(x) == Some(c));
            assert(s.skip(2) =~= t);
            assert(spec_unesc(s) == Some((seq![c] + tail, m + 2)));
            assert(seq![c] + tail =~= name);
            assert(esc(name).len() == 2 + esc(tail).len());
        } else {
            assert(esc_char(c) =~= seq![c]);
            assert(s[0] == c);
            assert(c != '"' && c != '\\');
            assert(s.skip(1) =~= t);
            assert(spec_unesc(s) == Some((seq![c] + tail, m + 1)));
            assert(seq![c] + tail =~= name);
            assert(esc(name).len() == 1 + esc(tail).len());
        }
    }
}

/// Append `name` escaped to `out`.
pub fn push_escaped(out: &mut String, name: &str)
    ensures
        final(out)@ == old(out)@ + esc(name@),
{
    let v = chars_of(name);
    let n = v.len();
    let mut i: usize = 0;
    while i < n
        invariant
            n == v@.len(),
            v@ == name@,
            i <= n,
            out@ == old(out)@ + esc(name@.take(i as int)),
        decreases n - i,
    {
        let c = v[i];
        if c == '"' {
            out.push('\\');
            out.push('"');
        } else if c == '\\' {
            out.push('\\');
            out.push('\\');
        } else if c == '\n' {
            out.push('\\');
            out.push('n');
        } else if c == '\r' {
            out.push('\\');
            out.push('r');
        } else if c == '\t' {
            out.push('\\');
            out.push('t');
        } else {
            out.push(c);
        }
        proof {
            let pre = name@.take(i as int);
            let one = seq![name@[i as int]];
            assert(name@.take(i + 1 as int) =~= pre + one);
            lemma_esc_concat(pre, one);
            assert(one[0] == name@[i as int]);
            assert(one.drop_first() =~= Seq::<char>::empty());
            assert(esc(one) == esc_char(one[0]) + esc(one.drop_first()));
            assert(esc(one) =~= esc_char(name@[i as int]));
            assert(out@ =~= old(out)@ + esc(name@.take(i + 1 as int)));
        }
        i += 1;
    }
    proof {
        assert(name@.take(n as int) =~= name@);
    }
}

/// Read an escaped string from `v` beginning at `i`, up to and including
/// its closing quote.
pub fn unescape_at(v: &Vec<char>, i: usize) -> (r: Option<(String, usize)>)
    requires
        i <= v@.len(),
    ensures
        r matches Some(p) ==> p.1 <= v@.len(),
        match spec_unesc(v@.skip(i as int)) {
            Some((d, n)) => (r matches Some(p) && p.0@ == d && p.1 == i + n),
            Option::None => r is None,
        },
{
    let n = v.len();
    let mut acc: Vec<char> = Vec::new();
    let mut j: usize = i;
    loop
        invariant
            i <= j <= n,
            n == v@.len(),
            match spec_unesc(v@.skip(j as int)) {
                Some((d, m)) => spec_unesc(v@.skip(i as int)) == Some(
                    (acc@ + d, j - i + m),
                ),
                Option::None => spec_unesc(v@.skip(i as int)) is None,
            },
        decreases n - j,
    {
        if j >= n {
            assert(v@.skip(j as int).len() == 0);
            return Option::None;
        }
        let c = v[j];
        assert(v@.skip(j as int)[0] == c);
        if c == '"' {
            proof {
                assert(spec_unesc(v@.skip(j as int)) == Some((Seq::<char>::empty(), 1 as int)));
                assert(acc@ + Seq::<char>::empty() =~= acc@);
            }
            let s = string_from_chars(&acc);
            return Option::Some((s, j + 1));
        } else if c == '\\' {
            if j + 1 >= n {
                assert(v@.skip(j as int).len() == 1);
                return Option::None;
            }
            let x = v[j + 1];
            assert(v@.skip(j as int)[1] == x);
            let decoded: char;
            if x == '"' {
                decoded = '"';
            } else if x == '\\' {
                decoded = '\\';
            } else if x == 'n' {
                decoded = '\n';
            } else if x == 'r' {
                decoded = '\r';
            } else if x == 't' {
                decoded = '\t';
            } else {
                assert(unesc_char(x) is None);
                return Option::None;
            }
            assert(unesc_char(x) == Some(decoded));
            proof {
                assert(v@.skip(j as int).skip(2) =~= v@.skip(j + 2 as int));
            }
            acc.push(decoded);
            proof {
                match spec_unesc(v@.skip(j + 2 as int)) {
                    Some((d, m)) => {
                        assert(spec_unesc(v@.skip(j as int)) == Some(
                            (seq![decoded] + d, m + 2),
                        ));
                        assert(acc@ + d =~= acc@.drop_last() + (seq![decoded] + d));
                    },
                    Option::None => {},
                }
            }
            j += 2;
        } else {
            proof {
                assert(v@.skip(j as int).skip(1) =~= v@.skip(j + 1 as int));
            }
            acc.push(c);
            proof {
                match spec_unesc(v@.skip(j + 1 as int)) {
                    Some((d, m)) => {
                        assert(spec_unesc(v@.skip(j as int)) == Some((seq![c] + d, m + 1)));
                        assert(acc@ + d =~= acc@.drop_last() + (seq![c] + d));
                    },
                    Option::None => {},
                }
            }
            j += 1;
        }
    }
}

} // verus!

verus! {

/// The word a state is spelled as on the wire.
pub open spec fn spec_state_str(st: AlarmState) -> Seq<char> {
    match st {
        AlarmState::Set_ => "Set"@,
        AlarmState::Reset => "Reset"@,
        AlarmState::Unknown => "Unknown"@,
    }
}

pub open spec fn spec_sev_str(sv: AlarmSeverity) -> Seq<char> {
    match sv {
        AlarmSeverity::High => "High"@,
        AlarmSeverity::Medium => "Medium"@,
        AlarmSeverity::Low => "Low"@,
        AlarmSeverity::Unknown => "Unknown"@,
    }
}

pub open spec fn spec_ack_str(a: AlarmAck) -> Seq<char> {
    match a {
        AlarmAck::Ack => "Ack"@,
        AlarmAck::NotAck => "NotAck"@,
        AlarmAck::None_ => "None"@,
    }
}

/// The JSON text of an event.
pub open spec fn spec_encode(e: AlarmStatusV) -> Seq<char> {
    "{\"name\":\""@ + esc(e.name) + "\",\"state\":\""@ + spec_state_str(e.state)
        + "\",\"value\":"@ + spec_i64_str(e.value) + ",\"severity\":\""@ + spec_sev_str(e.severity)
        + "\",\"ack\":\""@ + spec_ack_str(e.ack) + "\"}"@
}

fn state_word(st: &AlarmState) -> (r: &'static str)
    ensures
        r@ == spec_state_str(*st),
{
    match st {
        AlarmState::Set_ => "Set",
        AlarmState::Reset => "Reset",
        AlarmState::Unknown => "Unknown",
    }
}

fn sev_word(sv: &AlarmSeverity) -> (r: &'static str)
    ensures
        r@ == spec_sev_str(*sv),
{
    match sv {
        AlarmSeverity::High => "High",
        AlarmSeverity::Medium => "Medium",
        AlarmSeverity::Low => "Low",
        AlarmSeverity::Unknown => "Unknown",
    }
}

fn ack_word(a: &AlarmAck) -> (r: &'static str)
    ensures
        r@ == spec_ack_str(*a),
{
    match a {
        AlarmAck::Ack => "Ack",
        AlarmAck::NotAck => "NotAck",
        AlarmAck::None_ => "None",
    }
}

/// Serialise one event to its JSON text.
pub fn encode(e: &AlarmStatus) -> (r: String)
    ensures
        r@ == spec_encode(e@),
{
    let mut out = String::new();
    out.append("{\"name\":\"");
    push_escaped(&mut out, e.name.as_str());
    out.append("\",\"state\":\"");
    out.append(state_word(&e.state));
    out.append("\",\"value\":");
    crate::digits::push_i64(&mut out, e.value);
    out.append(",\"severity\":\"");
    out.append(sev_word(&e.severity));
    out.append("\",\"ack\":\"");
    out.append(ack_word(&e.ack));
    out.append("\"}");
    proof {
        assert(out@ =~= spec_encode(e@));
    }
    out
}

} // verus!

verus! {

/// Match the characters of `lit` at position `i`.
pub fn expect_lit(v: &Vec<char>, i: usize, lit: &str) -> (r: Option<usize>)
    requires
        i <= v@.len(),
    ensures
        match r {
            Some(j) => j == i + lit@.len() && j <= v@.len() && v@.subrange(i as int, j as int)
                == lit@,
            Option::None => !(i + lit@.len() <= v@.len() && v@.subrange(
                i as int,
                i + lit@.len(),
            ) == lit@),
        },
{
    let lc = chars_of(lit);
    let m = lc.len();
    if m > v.len() - i {
        return Option::None;
    }
    let mut k: usize = 0;
    while k < m
        invariant
            m == lit@.len(),
            lc@ == lit@,
            i + m <= v@.len(),
            v@.len() <= usize::MAX,
            k <= m,
            forall|k2: int| 0 <= k2 < k ==> v@[i + k2] == lit@[k2],
        decreases m - k,
    {
        if v[i + k] != lc[k] {
            assert(v@.subrange(i as int, i + lit@.len())[k as int] != lit@[k as int]);
            return Option::None;
        }
        k += 1;
    }
    proof {
        assert(v@.subrange(i as int, i + lit@.len()) =~= lit@);
    }
    Option::Some(i + m)
}

/// Parse a state word followed by its closing quote.
fn parse_state(v: &Vec<char>, i: usize) -> (r: Option<(AlarmState, usize)>)
    requires
        i <= v@.len(),
    ensures
        r matches Some(p) ==> p.1 <= v@.len(),
        forall|st: AlarmState, rest: Seq<char>|
            v@.skip(i as int) == spec_state_str(st) + seq!['"'] + rest ==> (r matches Some(p)
                && p.0 == st && p.1 == i + spec_state_str(st).len() + 1),
{
    proof {
        reveal_strlit("Set\"");
        reveal_strlit("Reset\"");
        reveal_strlit("Unknown\"");
        reveal_strlit("Set");
        reveal_strlit("Reset");
        reveal_strlit("Unknown");
    }
    let r1 = expect_lit(v, i, "Set\"");
    match r1 {
        Some(j) => {
            proof {
                assert forall|st: AlarmState, rest: Seq<char>|
                    v@.skip(i as int) == spec_state_str(st) + seq!['"'] + rest implies st
                    == AlarmState::Set_ && j == i + spec_state_str(st).len() + 1 by {
                    lemma_word_match(v@, i as int, "Set\""@, spec_state_str(st), rest);
                    assert(spec_state_str(st) =~= "Set"@);
                    assert(st is Set_);
                }
            }
            Option::Some((AlarmState::Set_, j))
        },
        Option::None => {
            let r2 = expect_lit(v, i, "Reset\"");
            match r2 {
                Some(j) => {
                    proof {
                        assert forall|st: AlarmState, rest: Seq<char>|
                            v@.skip(i as int) == spec_state_str(st) + seq!['"'] + rest implies st
                            == AlarmState::Reset && j == i + spec_state_str(st).len() + 1 by {
                            lemma_word_match(v@, i as int, "Reset\""@, spec_state_str(st), rest);
                            assert(spec_state_str(st) =~= "Reset"@);
                            assert(st is Reset);
                        }
                    }
                    Option::Some((AlarmState::Reset, j))
                },
                Option::None => {
                    let r3 = expect_lit(v, i, "Unknown\"");
                    match r3 {
                        Some(j) => {
                            proof {
                                assert forall|st: AlarmState, rest: Seq<char>|
                                    v@.skip(i as int) == spec_state_str(st) + seq!['"'] + rest
                                    implies st == AlarmState::Unknown && j == i + spec_state_str(
                                        st,
                                    ).len() + 1 by {
                                    lemma_word_match(
                                        v@,
                                        i as int,
                                        "Unknown\""@,
                                        spec_state_str(st),
                                        rest,
                                    );
                                    assert(spec_state_str(st) =~= "Unknown"@);
                                    assert(st is Unknown);
                                }
                            }
                            Option::Some((AlarmState::Unknown, j))
                        },
                        Option::None => {
                            proof {
                                assert forall|st: AlarmState, rest: Seq<char>|
                                    v@.skip(i as int) != spec_state_str(st) + seq!['"']
                                    + rest by {
                                    if v@.skip(i as int) == spec_state_str(st) + seq!['"'] + rest {
                                        lemma_word_no_match(
                                            v@,
                                            i as int,
                                            spec_state_str(st),
                                            rest,
                                        );
                                        match st {
                                            AlarmState::Set_ => {
                                                assert(spec_state_str(st) + seq!['"']
                                                    =~= "Set\""@);
                                            },
                                            AlarmState::Reset => {
                                                assert(spec_state_str(st) + seq!['"']
                                                    =~= "Reset\""@);
                                            },
                                            AlarmState::Unknown => {
                                                assert(spec_state_str(st) + seq!['"']
                                                    =~= "Unknown\""@);
                                            },
                                        }
                                        assert(false);
                                    }
                                }
                            }
                            Option::None
                        },
                    }
                },
            }
        },
    }
}

/// When the text at `i` is some word plus closing quote, and a quoted
/// literal matched there, the word and the literal agree.
proof fn lemma_word_match(s: Seq<char>, i: int, lit: Seq<char>, word: Seq<char>, rest: Seq<char>)
    requires
        0 <= i <= s.len(),
        i + lit.len() <= s.len(),
        s.subrange(i, i + lit.len()) == lit,
        s.skip(i) == word + seq!['"'] + rest,
        !word.contains('"'),
        lit.len() >= 1,
        lit.last() == '"',
        !lit.take(lit.len() - 1).contains('"'),
    ensures
        word =~= lit.take(lit.len() - 1),
{
    let wq = word + seq!['"'] + rest;
    assert forall|k: int| 0 <= k < lit.len() implies s[i + k] == lit[k] by {
        assert(s.subrange(i, i + lit.len())[k] == s[i + k]);
    }
    assert forall|k: int| 0 <= k < wq.len() implies s[i + k] == wq[k] by {
        assert(s.skip(i)[k] == s[i + k]);
    }
    if lit.len() - 1 < word.len() {
        // the quote ending the literal would sit inside the word
        assert(wq[lit.len() - 1] == word[lit.len() - 1]);
        assert(word[lit.len() - 1] == '"');
        assert(word.contains('"'));
        assert(false);
    }
    if lit.len() - 1 > word.len() {
        // the quote ending the word would sit inside the literal
        assert(wq[word.len() as int] == '"');
        assert(lit[word.len() as int] == '"');
        assert(lit.take(lit.len() - 1)[word.len() as int] == '"');
        assert(lit.take(lit.len() - 1).contains('"'));
        assert(false);
    }
    assert(word.len() == lit.len() - 1);
    assert forall|k: int| 0 <= k < word.len() implies word[k] == lit.take(lit.len() - 1)[k] by {
        assert(wq[k] == word[k]);
        assert(s[i + k] == lit[k]);
    }
}

/// A quoted word in the text can always be matched by its own quoted
/// literal: used to refute the case where every candidate failed.
proof fn lemma_word_no_match(s: Seq<char>, i: int, word: Seq<char>, rest: Seq<char>)
    requires
        0 <= i <= s.len(),
        s.skip(i) == word + seq!['"'] + rest,
    ensures
        i + (word.len() + 1) <= s.len() && s.subrange(i, i + word.len() + 1) == word + seq!['"'],
{
    let wq = word + seq!['"'] + rest;
    assert(s.len() - i == wq.len());
    assert forall|k: int| 0 <= k < word.len() + 1 implies s.subrange(i, i + word.len() + 1)[k]
        == (word + seq!['"'])[k] by {
        assert(s.subrange(i, i + word.len() + 1)[k] == s[i + k]);
        assert(s.skip(i)[k] == s[i + k]);
        assert(wq[k] == (word + seq!['"'])[k]);
    }
    assert(s.subrange(i, i + word.len() + 1) =~= word + seq!['"']);
}

} // verus!

verus! {

/// Parse a sev word followed by its closing quote.
fn parse_sev(v: &Vec<char>, i: usize) -> (r: Option<(AlarmSeverity, usize)>)
    requires
        i <= v@.len(),
    ensures
        r matches Some(p) ==> p.1 <= v@.len(),
        forall|w: AlarmSeverity, rest: Seq<char>|
            v@.skip(i as int) == spec_sev_str(w) + seq!['"'] + rest ==> (r matches Some(p) && p.0 == w
                && p.1 == i + spec_sev_str(w).len() + 1),
{
    proof {
        reveal_strlit("High\"");
        reveal_strlit("High");
        reveal_strlit("Medium\"");
        reveal_strlit("Medium");
        reveal_strlit("Low\"");
        reveal_strlit("Low");
        reveal_strlit("Unknown\"");
        reveal_strlit("Unknown");
    }
    if let Some(j) = expect_lit(v, i, "High\"") {
        proof {
            assert forall|w: AlarmSeverity, rest: Seq<char>|
                v@.skip(i as int) == spec_sev_str(w) + seq!['"'] + rest implies w == AlarmSeverity::High && j == i
                + spec_sev_str(w).len() + 1 by {
                lemma_word_match(v@, i as int, "High\""@, spec_sev_str(w), rest);
                assert(spec_sev_str(w) =~= "High"@);
            }
        }
        return Option::Some((AlarmSeverity::High, j));
    }
    if let Some(j) = expect_lit(v, i, "Medium\"") {
        proof {
            assert forall|w: AlarmSeverity, rest: Seq<char>|
                v@.skip(i as int) == spec_sev_str(w) + seq!['"'] + rest implies w == AlarmSeverity::Medium && j == i
                + spec_sev_str(w).len() + 1 by {
                lemma_word_match(v@, i as int, "Medium\""@, spec_sev_str(w), rest);
                assert(spec_sev_str(w) =~= "Medium"@);
            }
        }
        return Option::Some((AlarmSeverity::Medium, j));
    }
    if let Some(j) = expect_lit(v, i, "Low\"") {
        proof {
            assert forall|w: AlarmSeverity, rest: Seq<char>|
                v@.skip(i as int) == spec_sev_str(w) + seq!['"'] + rest implies w == AlarmSeverity::Low && j == i
                + spec_sev_str(w).len() + 1 by {
                lemma_word_match(v@, i as int, "Low\""@, spec_sev_str(w), rest);
                assert(spec_sev_str(w) =~= "Low"@);
            }
        }
        return Option::Some((AlarmSeverity::Low, j));
    }
    if let Some(j) = expect_lit(v, i, "Unknown\"") {
        proof {
            assert forall|w: AlarmSeverity, rest: Seq<char>|
                v@.skip(i as int) == spec_sev_str(w) + seq!['"'] + rest implies w == AlarmSeverity::Unknown && j == i
                + spec_sev_str(w).len() + 1 by {
                lemma_word_match(v@, i as int, "Unknown\""@, spec_sev_str(w), rest);
                assert(spec_sev_str(w) =~= "Unknown"@);
            }
        }
        return Option::Some((AlarmSeverity::Unknown, j));
    }
    proof {
        assert forall|w: AlarmSeverity, rest: Seq<char>|
            v@.skip(i as int) != spec_sev_str(w) + seq!['"'] + rest by {
            if v@.skip(i as int) == spec_sev_str(w) + seq!['"'] + rest {
                lemma_word_no_match(v@, i as int, spec_sev_str(w), rest);
                match w {
                    AlarmSeverity::High => {
                        assert(spec_sev_str(w) + seq!['"'] =~= "High\""@);
                    },
                    AlarmSeverity::Medium => {
                        assert(spec_sev_str(w) + seq!['"'] =~= "Medium\""@);
                    },
                    AlarmSeverity::Low => {
                        assert(spec_sev_str(w) + seq!['"'] =~= "Low\""@);
                    },
                    AlarmSeverity::Unknown => {
                        assert(spec_sev_str(w) + seq!['"'] =~= "Unknown\""@);
                    },
                }
                assert(false);
            }
        }
    }
    Option::None
}

/// Parse a ack word followed by its closing quote.
fn parse_ack(v: &Vec<char>, i: usize) -> (r: Option<(AlarmAck, usize)>)
    requires
        i <= v@.len(),
    ensures
        r matches Some(p) ==> p.1 <= v@.len(),
        forall|w: AlarmAck, rest: Seq<char>|
            v@.skip(i as int) == spec_ack_str(w) + seq!['"'] + rest ==> (r matches Some(p) && p.0 == w
                && p.1 == i + spec_ack_str(w).len() + 1),
{
    proof {
        reveal_strlit("Ack\"");
        reveal_strlit("Ack");
        reveal_strlit("NotAck\"");
        reveal_strlit("NotAck");
        reveal_strlit("None\"");
        reveal_strlit("None");
    }
    if let Some(j) = expect_lit(v, i, "Ack\"") {
        proof {
            assert forall|w: AlarmAck, rest: Seq<char>|
                v@.skip(i as int) == spec_ack_str(w) + seq!['"'] + rest implies w == AlarmAck::Ack && j == i
                + spec_ack_str(w).len() + 1 by {
                lemma_word_match(v@, i as int, "Ack\""@, spec_ack_str(w), rest);
                assert(spec_ack_str(w) =~= "Ack"@);
            }
        }
        return Option::Some((AlarmAck::Ack, j));
    }
    if let Some(j) = expect_lit(v, i, "NotAck\"") {
        proof {
            assert forall|w: AlarmAck, rest: Seq<char>|
                v@.skip(i as int) == spec_ack_str(w) + seq!['"'] + rest implies w == AlarmAck::NotAck && j == i
                + spec_ack_str(w).len() + 1 by {
                lemma_word_match(v@, i as int, "NotAck\""@, spec_ack_str(w), rest);
                assert(spec_ack_str(w) =~= "NotAck"@);
            }
        }
        return Option::Some((AlarmAck::NotAck, j));
    }
    if let Some(j) = expect_lit(v, i, "None\"") {
        proof {
            assert forall|w: AlarmAck, rest: Seq<char>|
                v@.skip(i as int) == spec_ack_str(w) + seq!['"'] + rest implies w == AlarmAck::None_ && j == i
                + spec_ack_str(w).len() + 1 by {
                lemma_word_match(v@, i as int, "None\""@, spec_ack_str(w), rest);
                assert(spec_ack_str(w) =~= "None"@);
            }
        }
        return Option::Some((AlarmAck::None_, j));
    }
    proof {
        assert forall|w: AlarmAck, rest: Seq<char>|
            v@.skip(i as int) != spec_ack_str(w) + seq!['"'] + rest by {
            if v@.skip(i as int) == spec_ack_str(w) + seq!['"'] + rest {
                lemma_word_no_match(v@, i as int, spec_ack_str(w), rest);
                match w {
                    AlarmAck::Ack => {
                        assert(spec_ack_str(w) + seq!['"'] =~= "Ack\""@);
                    },
                    AlarmAck::NotAck => {
                        assert(spec_ack_str(w) + seq!['"'] =~= "NotAck\""@);
                    },
                    AlarmAck::None_ => {
                        assert(spec_ack_str(w) + seq!['"'] =~= "None\""@);
                    },
                }
                assert(false);
            }
        }
    }
    Option::None
}

} // verus!

verus! {

/// Peeling one piece off a suffix: the piece is a subrange and the rest is
/// the suffix after it.
proof fn lemma_peel(s: Seq<char>, i: int, a: Seq<char>, b: Seq<char>)
    requires
        0 <= i <= s.len(),
        s.skip(i) == a + b,
    ensures
        i + a.len() <= s.len(),
        s.subrange(i, i + a.len()) == a,
        s.skip(i + a.len()) == b,
{
    assert(s.skip(i).len() == s.len() - i);
    assert forall|k: int| 0 <= k < a.len() implies s.subrange(i, i + a.len())[k] == a[k] by {
        assert(s.subrange(i, i + a.len())[k] == s[i + k]);
        assert(s.skip(i)[k] == s[i + k]);
        assert((a + b)[k] == a[k]);
    }
    assert(s.subrange(i, i + a.len()) =~= a);
    assert forall|k: int| 0 <= k < b.len() implies s.skip(i + a.len())[k] == b[k] by {
        assert(s.skip(i + a.len())[k] == s[i + a.len() + k]);
        assert(s.skip(i)[a.len() + k] == s[i + a.len() + k]);
        assert((a + b)[a.len() + k] == b[k]);
    }
    assert(s.skip(i + a.len()) =~= b);
}

/// Where each field of an encoded event sits in its text.
#[verifier::rlimit(100)]
pub proof fn lemma_encode_parts(w: AlarmStatusV)
    ensures
        ({
            let e = spec_encode(w);
            let p2 = 9 + esc(w.name).len() as int;
            let p3 = p2 + 11;
            let p4 = p3 + spec_state_str(w.state).len() as int;
            let p5 = p4 + 10;
            let p6 = p5 + spec_i64_str(w.value).len() as int;
            let p7 = p6 + 13;
            let p8 = p7 + spec_sev_str(w.severity).len() as int;
            let p9 = p8 + 9;
            let p10 = p9 + spec_ack_str(w.ack).len() as int;
            &&& e.len() == p10 + 2
            &&& e.subrange(0, 9) == "{\"name\":\""@
            &&& e.skip(9) == esc(w.name) + seq!['"'] + e.skip(p2 + 1)
            &&& e.subrange(p2 + 1, p3) == ",\"state\":\""@
            &&& e.skip(p3) == spec_state_str(w.state) + seq!['"'] + e.skip(p4 + 1)
            &&& e.subrange(p4 + 1, p5) == ",\"value\":"@
            &&& e.subrange(p5, p6) == spec_i64_str(w.value)
            &&& e[p6] == ','
            &&& e.subrange(p6, p7) == ",\"severity\":\""@
            &&& e.skip(p7) == spec_sev_str(w.severity) + seq!['"'] + e.skip(p8 + 1)
            &&& e.subrange(p8 + 1, p9) == ",\"ack\":\""@
            &&& e.skip(p9) == spec_ack_str(w.ack) + seq!['"'] + e.skip(p10 + 1)
            &&& e.subrange(p10 + 1, p10 + 2) == "}"@
        }),
{
    reveal_strlit("{\"name\":\"");
    reveal_strlit("\",\"state\":\"");
    reveal_strlit(",\"state\":\"");
    reveal_strlit("\",\"value\":");
    reveal_strlit(",\"value\":");
    reveal_strlit(",\"severity\":\"");
    reveal_strlit("\",\"ack\":\"");
    reveal_strlit(",\"ack\":\"");
    reveal_strlit("\"}");
    reveal_strlit("}");
    let e = spec_encode(w);
    let a = "{\"name\":\""@;
    let nm = esc(w.name);
    let b = "\",\"state\":\""@;
    let w1 = spec_state_str(w.state);
    let c = "\",\"value\":"@;
    let d = spec_i64_str(w.value);
    let f = ",\"severity\":\""@;
    let w2 = spec_sev_str(w.severity);
    let g = "\",\"ack\":\""@;
    let w3 = spec_ack_str(w.ack);
    let h = "\"}"@;
    crate::digits::lemma_udigits_props(if w.value < 0 {
        (-w.value) as nat
    } else {
        w.value as nat
    });
    let t9 = w3 + h;
    let t8 = g + t9;
    let t7 = w2 + t8;
    let t6 = f + t7;
    let t5 = d + t6;
    let t4 = c + t5;
    let t3 = w1 + t4;
    let t2 = b + t3;
    let t1 = nm + t2;
    assert(e =~= a + t1);
    assert(e.skip(0) =~= e);
    lemma_peel(e, 0, a, t1);
    let p1 = a.len() as int;
    assert(p1 == 9);
    // the name and its closing quote
    assert(t1 =~= nm + t2);
    lemma_peel(e, p1, nm, t2);
    let p2 = p1 + nm.len() as int;
    assert(b =~= seq!['"'] + ",\"state\":\""@);
    assert(t2 =~= seq!['"'] + (",\"state\":\""@ + t3));
    lemma_peel(e, p2, seq!['"'], ",\"state\":\""@ + t3);
    assert(e.skip(9) =~= nm + seq!['"'] + e.skip(p2 + 1));
    // the state
    lemma_peel(e, p2 + 1, ",\"state\":\""@, t3);
    let p3 = p2 + 11;
    assert(e.skip(p3) == t3);
    lemma_peel(e, p3, w1, t4);
    let p4 = p3 + w1.len() as int;
    assert(c =~= seq!['"'] + ",\"value\":"@);
    assert(t4 =~= seq!['"'] + (",\"value\":"@ + t5));
    lemma_peel(e, p4, seq!['"'], ",\"value\":"@ + t5);
    assert(e.skip(p3) =~= w1 + seq!['"'] + e.skip(p4 + 1));
    // the value
    lemma_peel(e, p4 + 1, ",\"value\":"@, t5);
    let p5 = p4 + 10;
    lemma_peel(e, p5, d, t6);
    let p6 = p5 + d.len() as int;
    assert(e[p6] == t6[0]);
    assert(t6[0] == ',');
    // the severity
    lemma_peel(e, p6, f, t7);
    let p7 = p6 + 13;
    lemma_peel(e, p7, w2, t8);
    let p8 = p7 + w2.len() as int;
    assert(g =~= seq!['"'] + ",\"ack\":\""@);
    assert(t8 =~= seq!['"'] + (",\"ack\":\""@ + t9));
    lemma_peel(e, p8, seq!['"'], ",\"ack\":\""@ + t9);
    assert(e.skip(p7) =~= w2 + seq!['"'] + e.skip(p8 + 1));
    // the ack and the closing brace
    lemma_peel(e, p8 + 1, ",\"ack\":\""@, t9);
    let p9 = p8 + 9;
    lemma_peel(e, p9, w3, h);
    let p10 = p9 + w3.len() as int;
    assert(h =~= seq!['"'] + "}"@);
    lemma_peel(e, p10, seq!['"'], "}"@);
    assert(e.skip(p9) =~= w3 + seq!['"'] + e.skip(p10 + 1));
    lemma_peel(e, p10 + 1, "}"@, Seq::empty());
    assert(e.skip(p10 + 1) =~= "}"@ + Seq::<char>::empty());
    assert(e.subrange(p10 + 1, p10 + 2) =~= "}"@);
}

} // verus!


verus! {

/// The encoding hypothesis `decode` discharges: `t` is the JSON text of the
/// event `w` and the value fits its field.
pub open spec fn encodes(t: Seq<char>, w: AlarmStatusV) -> bool {
    t == spec_encode(w) && i64::MIN <= w.value <= i64::MAX
}

/// Position of the state word inside the text of `w`.
pub open spec fn pos_state(w: AlarmStatusV) -> int {
    9 + esc(w.name).len() as int + 11
}

/// Position of the value inside the text of `w`.
pub open spec fn pos_value(w: AlarmStatusV) -> int {
    pos_state(w) + spec_state_str(w.state).len() as int + 10
}

/// Position of the severity word inside the text of `w`.
pub open spec fn pos_sev(w: AlarmStatusV) -> int {
    pos_value(w) + spec_i64_str(w.value).len() as int + 13
}

/// Position of the ack word inside the text of `w`.
pub open spec fn pos_ack(w: AlarmStatusV) -> int {
    pos_sev(w) + spec_sev_str(w.severity).len() as int + 9
}

/// Length of the text of `w`.
pub open spec fn pos_end(w: AlarmStatusV) -> int {
    pos_ack(w) + spec_ack_str(w.ack).len() as int + 2
}

/// Read the opening of the object and the name field.
fn dec_name(v: &Vec<char>) -> (r: Option<(String, usize)>)
    ensures
        r matches Some(p) ==> p.1 <= v@.len(),
        forall|w: AlarmStatusV|
            encodes(v@, w) ==> (r matches Some(p) && p.0@ == w.name && p.1 == pos_state(w)),
{
    let j1 = match expect_lit(v, 0, "{\"name\":\"") {
        Some(j) => j,
        Option::None => {
            proof {
                assert forall|w: AlarmStatusV| !encodes(v@, w) by {
                    if encodes(v@, w) {
                        lemma_encode_parts(w);
                        assert(false);
                    }
                }
            }
            return Option::None;
        },
    };
    let (name, j2) = match unescape_at(v, j1) {
        Some(p) => p,
        Option::None => {
            proof {
                assert forall|w: AlarmStatusV| !encodes(v@, w) by {
                    if encodes(v@, w) {
                        lemma_encode_parts(w);
                        lemma_unesc_esc(w.name, v@.skip(9 + esc(w.name).len() + 1 as int));
                        assert(false);
                    }
                }
            }
            return Option::None;
        },
    };
    let j3 = match expect_lit(v, j2, ",\"state\":\"") {
        Some(j) => j,
        Option::None => {
            proof {
                assert forall|w: AlarmStatusV| !encodes(v@, w) by {
                    if encodes(v@, w) {
                        lemma_encode_parts(w);
                        lemma_unesc_esc(w.name, v@.skip(9 + esc(w.name).len() + 1 as int));
                        assert(j2 == 9 + esc(w.name).len() + 1);
                        assert(false);
                    }
                }
            }
            return Option::None;
        },
    };
    proof {
        assert forall|w: AlarmStatusV| #![trigger encodes(v@, w)] encodes(v@, w) implies name@
            == w.name && j3 == pos_state(w) by {
            lemma_encode_parts(w);
            lemma_unesc_esc(w.name, v@.skip(9 + esc(w.name).len() + 1 as int));
            assert(name@ == w.name);
            assert(j2 == 9 + esc(w.name).len() + 1);
            assert(v@.subrange(j2 as int, j3 as int) == ",\"state\":\""@);
            assert(j3 == j2 + 10);
        }
    }
    Option::Some((name, j3))
}

/// Read the state word and the opening of the value field.
fn dec_state(v: &Vec<char>, i: usize) -> (r: Option<(AlarmState, usize)>)
    requires
        i <= v@.len(),
    ensures
        r matches Some(p) ==> p.1 <= v@.len(),
        forall|w: AlarmStatusV|
            encodes(v@, w) && i == pos_state(w) ==> (r matches Some(p) && p.0 == w.state && p.1
                == pos_value(w)),
{
    let (state, j4) = match parse_state(v, i) {
        Some(p) => p,
        Option::None => {
            proof {
                assert forall|w: AlarmStatusV| !(encodes(v@, w) && i == pos_state(w)) by {
                    if encodes(v@, w) && i == pos_state(w) {
                        lemma_encode_parts(w);
                        assert(false);
                    }
                }
            }
            return Option::None;
        },
    };
    let j5 = match expect_lit(v, j4, ",\"value\":") {
        Some(j) => j,
        Option::None => {
            proof {
                assert forall|w: AlarmStatusV| !(encodes(v@, w) && i == pos_state(w)) by {
                    if encodes(v@, w) && i == pos_state(w) {
                        lemma_encode_parts(w);
                        assert(j4 == pos_state(w) + spec_state_str(w.state).len() + 1);
                        assert(false);
                    }
                }
            }
            return Option::None;
        },
    };
    proof {
        assert forall|w: AlarmStatusV| encodes(v@, w) && i == pos_state(w) implies state == w.state
            && j5 == pos_value(w) by {
            lemma_encode_parts(w);
            assert(state == w.state);
            assert(j4 == pos_state(w) + spec_state_str(w.state).len() + 1);
        }
    }
    Option::Some((state, j5))
}

/// Read the value and the opening of the severity field.
fn dec_value(v: &Vec<char>, i: usize) -> (r: Option<(i64, usize)>)
    requires
        i <= v@.len(),
    ensures
        r matches Some(p) ==> p.1 <= v@.len(),
        forall|w: AlarmStatusV|
            encodes(v@, w) && i == pos_value(w) ==> (r matches Some(p) && p.0 == w.value && p.1
                == pos_sev(w)),
{
    let (value, j6) = match scan_i64_at(v, i) {
        Some(p) => p,
        Option::None => {
            proof {
                assert forall|w: AlarmStatusV| !(encodes(v@, w) && i == pos_value(w)) by {
                    if encodes(v@, w) && i == pos_value(w) {
                        lemma_encode_parts(w);
                        assert(!is_digit(','));
                        lemma_scan_int_of_repr(v@, pos_value(w), w.value);
                        assert(false);
                    }
                }
            }
            return Option::None;
        },
    };
    let j7 = match expect_lit(v, j6, ",\"severity\":\"") {
        Some(j) => j,
        Option::None => {
            proof {
                assert forall|w: AlarmStatusV| !(encodes(v@, w) && i == pos_value(w)) by {
                    if encodes(v@, w) && i == pos_value(w) {
                        lemma_encode_parts(w);
                        assert(!is_digit(','));
                        lemma_scan_int_of_repr(v@, pos_value(w), w.value);
                        assert(j6 == pos_value(w) + spec_i64_str(w.value).len());
                        assert(false);
                    }
                }
            }
            return Option::None;
        },
    };
    proof {
        assert forall|w: AlarmStatusV| encodes(v@, w) && i == pos_value(w) implies value == w.value
            && j7 == pos_sev(w) by {
            lemma_encode_parts(w);
            assert(!is_digit(','));
            lemma_scan_int_of_repr(v@, pos_value(w), w.value);
            assert(value == w.value);
            assert(j6 == pos_value(w) + spec_i64_str(w.value).len());
        }
    }
    Option::Some((value, j7))
}

/// Read the severity word and the opening of the ack field.
fn dec_sev(v: &Vec<char>, i: usize) -> (r: Option<(AlarmSeverity, usize)>)
    requires
        i <= v@.len(),
    ensures
        r matches Some(p) ==> p.1 <= v@.len(),
        forall|w: AlarmStatusV|
            encodes(v@, w) && i == pos_sev(w) ==> (r matches Some(p) && p.0 == w.severity && p.1
                == pos_ack(w)),
{
    let (sev, j8) = match parse_sev(v, i) {
        Some(p) => p,
        Option::None => {
            proof {
                assert forall|w: AlarmStatusV| !(encodes(v@, w) && i == pos_sev(w)) by {
                    if encodes(v@, w) && i == pos_sev(w) {
                        lemma_encode_parts(w);
                        assert(false);
                    }
                }
            }
            return Option::None;
        },
    };
    let j9 = match expect_lit(v, j8, ",\"ack\":\"") {
        Some(j) => j,
        Option::None => {
            proof {
                assert forall|w: AlarmStatusV| !(encodes(v@, w) && i == pos_sev(w)) by {
                    if encodes(v@, w) && i == pos_sev(w) {
                        lemma_encode_parts(w);
                        assert(j8 == pos_sev(w) + spec_sev_str(w.severity).len() + 1);
                        assert(false);
                    }
                }
            }
            return Option::None;
        },
    };
    proof {
        assert forall|w: AlarmStatusV| encodes(v@, w) && i == pos_sev(w) implies sev == w.severity
            && j9 == pos_ack(w) by {
            lemma_encode_parts(w);
            assert(sev == w.severity);
            assert(j8 == pos_sev(w) + spec_sev_str(w.severity).len() + 1);
        }
    }
    Option::Some((sev, j9))
}

/// Read the ack word and the closing of the object.
fn dec_ack(v: &Vec<char>, i: usize) -> (r: Option<(AlarmAck, usize)>)
    requires
        i <= v@.len(),
    ensures
        forall|w: AlarmStatusV|
            encodes(v@, w) && i == pos_ack(w) ==> (r matches Some(p) && p.0 == w.ack && p.1
                == pos_end(w)),
{
    let (ack, j10) = match parse_ack(v, i) {
        Some(p) => p,
        Option::None => {
            proof {
                assert forall|w: AlarmStatusV| !(encodes(v@, w) && i == pos_ack(w)) by {
                    if encodes(v@, w) && i == pos_ack(w) {
                        lemma_encode_parts(w);
                        assert(false);
                    }
                }
            }
            return Option::None;
        },
    };
    let j11 = match expect_lit(v, j10, "}") {
        Some(j) => j,
        Option::None => {
            proof {
                assert forall|w: AlarmStatusV| !(encodes(v@, w) && i == pos_ack(w)) by {
                    if encodes(v@, w) && i == pos_ack(w) {
                        lemma_encode_parts(w);
                        let p10 = pos_ack(w) + spec_ack_str(w.ack).len() as int;
                        assert(j10 == p10 + 1);
                        assert(v@.subrange(p10 + 1, p10 + 2) == "}"@);
                        assert(false);
                    }
                }
            }
            return Option::None;
        },
    };
    proof {
        assert forall|w: AlarmStatusV| encodes(v@, w) && i == pos_ack(w) implies ack == w.ack
            && j11 == pos_end(w) by {
            lemma_encode_parts(w);
            assert(ack == w.ack);
            let p10 = pos_ack(w) + spec_ack_str(w.ack).len() as int;
            assert(j10 == p10 + 1);
            assert(v@.subrange(p10 + 1, p10 + 2) == "}"@);
            assert(j11 == p10 + 2);
        }
    }
    Option::Some((ack, j11))
}

/// Parse the JSON text of an event.
///
/// Decoding recovers every encoded event: whenever `s` is the JSON text of
/// an event `w` (whose value fits its field), the result is an event equal
/// to `w` in all fields.
pub fn decode(s: &str) -> (r: Option<AlarmStatus>)
    ensures
        forall|w: AlarmStatusV| encodes(s@, w) ==> (r matches Some(d) && d@ == w),
{
    let v = chars_of(s);
    let (name, i1) = match dec_name(&v) {
        Some(p) => p,
        Option::None => {
            return Option::None;
        },
    };
    let (state, i2) = match dec_state(&v, i1) {
        Some(p) => p,
        Option::None => {
            return Option::None;
        },
    };
    let (value, i3) = match dec_value(&v, i2) {
        Some(p) => p,
        Option::None => {
            return Option::None;
        },
    };
    let (sev, i4) = match dec_sev(&v, i3) {
        Some(p) => p,
        Option::None => {
            return Option::None;
        },
    };
    let (ack, i5) = match dec_ack(&v, i4) {
        Some(p) => p,
        Option::None => {
            return Option::None;
        },
    };
    if i5 != v.len() {
        proof {
            assert forall|w: AlarmStatusV| !encodes(s@, w) by {
                if encodes(s@, w) {
                    lemma_encode_parts(w);
                }
            }
        }
        return Option::None;
    }
    Option::Some(AlarmStatus { name, state, value, severity: sev, ack })
}

} // verus!
