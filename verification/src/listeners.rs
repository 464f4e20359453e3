//! Listening sockets: parsing `ss -H -ltnup` output, classifying exposure,
//! and ordering the result.

use vstd::prelude::*;

use crate::models::{opt_view, texts, Listener, UnitRef};
use crate::services::{exit_warning, push_warning, CommandOutcome, CommandSpec};
use crate::sort::{sorted_by_key, stable_permutation, stable_sort, KeyOrder};
use crate::text::{
    chars_of, chars_le, concat2, find_from, find_in, first_of, first_stop, has_prefix,
    is_char, last_index, last_of, lemma_filter_push, lemma_lex_antisym, lemma_lex_total,
    lemma_lex_trans, lex_le, line_ranges, lines, owned, parse_u16_range, parse_u32_range,
    parse_unsigned, prefix_before, range_texts, ranges_within, str_eq, str_starts_with,
    substring, trim, utf8_lossy, lossy_text, word_ranges, words,
};

verus! {

// ---------------------------------------------------------------------------
// Classification
// ---------------------------------------------------------------------------

/// The TCP ports that well-known services use.
pub open spec fn standard_tcp_port(port: u16) -> bool {
    ||| port == 20 || port == 21 || port == 22 || port == 25 || port == 53 || port == 80
    ||| port == 110 || port == 111 || port == 135 || port == 139 || port == 143
    ||| port == 389 || port == 443 || port == 445 || port == 465 || port == 587
    ||| port == 631 || port == 636 || port == 873 || port == 993 || port == 995
    ||| port == 2049 || port == 2377 || port == 3306 || port == 5432 || port == 5900
    ||| port == 6379 || port == 6443 || port == 8080 || port == 8443 || port == 9000
    ||| port == 9090
}

/// The UDP ports that well-known services use.
pub open spec fn standard_udp_port(port: u16) -> bool {
    ||| port == 53 || port == 67 || port == 68 || port == 69 || port == 111 || port == 123
    ||| port == 137 || port == 138 || port == 161 || port == 162 || port == 500
    ||| port == 514 || port == 631
}

/// Where a local address listens: `loopback`, `all-ifaces` or `lan`.
pub open spec fn scope_of(address: Seq<char>) -> Seq<char> {
    if address == "127.0.0.1"@ || address == "::1"@ {
        "loopback"@
    } else if address == "0.0.0.0"@ || address == "*"@ || address == "::"@ {
        "all-ifaces"@
    } else if has_prefix(address, "127."@) {
        "loopback"@
    } else {
        "lan"@
    }
}

/// `standard` for a well-known port of its protocol, else `nonstandard`.
pub open spec fn port_kind_of(protocol: Seq<char>, port: u16) -> Seq<char> {
    if (protocol == "tcp"@ && standard_tcp_port(port)) || (protocol == "udp"@
        && standard_udp_port(port)) {
        "standard"@
    } else {
        "nonstandard"@
    }
}

/// The exposure severity of a listener. A loopback listener is `warning`
/// only when its port is nonstandard and no unit manages it; any other
/// listener with a nonstandard port or without a managing unit is `danger`
/// on all interfaces and `warning` elsewhere; the rest is `ok`.
pub open spec fn severity_of(scope: Seq<char>, port_kind: Seq<char>, managed: bool) -> Seq<char> {
    let nonstandard = port_kind == "nonstandard"@;
    if scope == "loopback"@ {
        if nonstandard && !managed {
            "warning"@
        } else {
            "ok"@
        }
    } else if nonstandard || !managed {
        if scope == "all-ifaces"@ {
            "danger"@
        } else {
            "warning"@
        }
    } else {
        "ok"@
    }
}

/// The scope of a local address.
pub fn classify_scope(address: &str) -> (r: &'static str)
    ensures
        r@ == scope_of(address@),
{
    if str_eq(address, "127.0.0.1") || str_eq(address, "::1") {
        "loopback"
    } else if str_eq(address, "0.0.0.0") || str_eq(address, "*") || str_eq(address, "::") {
        "all-ifaces"
    } else if str_starts_with(address, "127.") {
        "loopback"
    } else {
        "lan"
    }
}

fn is_standard_tcp_port(port: u16) -> (r: bool)
    ensures
        r == standard_tcp_port(port),
{
    port == 20 || port == 21 || port == 22 || port == 25 || port == 53 || port == 80 || port
        == 110 || port == 111 || port == 135 || port == 139 || port == 143 || port == 389 || port
        == 443 || port == 445 || port == 465 || port == 587 || port == 631 || port == 636 || port
        == 873 || port == 993 || port == 995 || port == 2049 || port == 2377 || port == 3306
        || port == 5432 || port == 5900 || port == 6379 || port == 6443 || port == 8080 || port
        == 8443 || port == 9000 || port == 9090
}

fn is_standard_udp_port(port: u16) -> (r: bool)
    ensures
        r == standard_udp_port(port),
{
    port == 53 || port == 67 || port == 68 || port == 69 || port == 111 || port == 123 || port
        == 137 || port == 138 || port == 161 || port == 162 || port == 500 || port == 514 || port
        == 631
}

/// Whether a port is a well-known one for its protocol.
pub fn classify_port_kind(protocol: &str, port: u16) -> (r: &'static str)
    ensures
        r@ == port_kind_of(protocol@, port),
{
    if (str_eq(protocol, "tcp") && is_standard_tcp_port(port)) || (str_eq(protocol, "udp")
        && is_standard_udp_port(port)) {
        "standard"
    } else {
        "nonstandard"
    }
}

/// The exposure severity of a listener with this scope and port kind.
pub fn classify_severity(scope: &str, port_kind: &str, managed: bool) -> (r: &'static str)
    ensures
        r@ == severity_of(scope@, port_kind@, managed),
{
    let nonstandard = str_eq(port_kind, "nonstandard");
    if str_eq(scope, "loopback") {
        if nonstandard && !managed {
            "warning"
        } else {
            "ok"
        }
    } else if nonstandard || !managed {
        if str_eq(scope, "all-ifaces") {
            "danger"
        } else {
            "warning"
        }
    } else {
        "ok"
    }
}

// ---------------------------------------------------------------------------
// Sockets
// ---------------------------------------------------------------------------

/// The address and the port text of a socket column. A bracketed address
/// ends at the first `]`, which one ASCII character must follow before the
/// port; otherwise the port follows the last `:`.
pub open spec fn socket_parts(raw: Seq<char>) -> Option<(Seq<char>, Seq<char>)> {
    if raw.len() > 0 && raw[0] == '[' {
        let end = first_stop(raw, is_char(']'), 0);
        if end + 1 >= raw.len() || raw[end + 1] >= '\u{80}' {
            None
        } else {
            Some((raw.subrange(1, end), raw.skip(end + 2)))
        }
    } else {
        match last_index(raw, ':') {
            Some(i) => Some((raw.take(i), raw.skip(i + 1))),
            None => None,
        }
    }
}

/// A socket column split into its local address (`*` when empty) and port.
pub open spec fn socket_of(raw: Seq<char>) -> Option<(Seq<char>, u16)> {
    if raw == "*"@ {
        None
    } else {
        match socket_parts(raw) {
            None => None,
            Some(parts) => match parse_unsigned(parts.1, 0xffff) {
                Ok(port) => Some(
                    (
                        if parts.0.len() == 0 {
                            "*"@
                        } else {
                            parts.0
                        },
                        port as u16,
                    ),
                ),
                Err(_) => None,
            },
        }
    }
}

/// The address and port of a socket column whose parts lie at `alo..ahi`
/// and `plo..` in its characters `v`.
fn finish_socket(raw: &str, v: &Vec<char>, alo: usize, ahi: usize, plo: usize) -> (r: Option<
    (String, u16),
>)
    requires
        v@ == raw@,
        raw@ != "*"@,
        alo <= ahi <= plo <= v.len(),
        socket_parts(raw@) == Some(
            (v@.subrange(alo as int, ahi as int), v@.subrange(plo as int, v@.len() as int)),
        ),
    ensures
        match r {
            Some(p) => socket_of(raw@) == Some((p.0@, p.1)),
            None => socket_of(raw@) is None,
        },
{
    let port = match parse_u16_range(v, plo, v.len()) {
        Some(p) => p,
        None => {
            return None;
        },
    };
    let address = if ahi == alo {
        owned("*")
    } else {
        substring(raw, alo, ahi)
    };
    Some((address, port))
}

/// Splits a socket column of `ss` into its local address and port.
pub fn split_socket(raw: &str) -> (r: Option<(String, u16)>)
    ensures
        match r {
            Some(p) => socket_of(raw@) == Some((p.0@, p.1)),
            None => socket_of(raw@) is None,
        },
{
    if str_eq(raw, "*") {
        return None;
    }
    let v = chars_of(raw);
    let n = v.len();
    assert(v@.subrange(0, n as int) =~= v@);
    if n > 0 && v[0] == '[' {
        let end = first_of(&v, 0, n, 0, ']');
        proof {
            crate::text::lemma_first_stop_bounds(v@, is_char(']'), 1);
        }
        if n - end < 2 || v[end + 1] >= '\u{80}' {
            return None;
        }
        assert(v@.skip(end + 2) =~= v@.subrange(end + 2, n as int));
        finish_socket(raw, &v, 1, end, end + 2)
    } else {
        match last_of(&v, 0, n, ':') {
            Some(i) => {
                assert(v@.skip(i + 1) =~= v@.subrange(i + 1, n as int));
                assert(v@.take(i as int) =~= v@.subrange(0, i as int));
                finish_socket(raw, &v, 0, i, i + 1)
            },
            None => None,
        }
    }
}

// ---------------------------------------------------------------------------
// Process metadata
// ---------------------------------------------------------------------------

/// The second piece of `s` split at `pat` (`s.split(pat).nth(1)`): what lies
/// between the first occurrence of `pat` and the next one, or the end.
pub open spec fn piece_after(s: Seq<char>, pat: Seq<char>) -> Option<Seq<char>> {
    match find_from(s, pat, 0) {
        None => None,
        Some(i) => {
            let start = i + pat.len();
            match find_from(s, pat, start) {
                None => Some(s.subrange(start, s.len() as int)),
                Some(j) => Some(s.subrange(start, j)),
            }
        },
    }
}

/// The process name that `ss` shows: after `users:(("`, up to the next `"`.
pub open spec fn process_of(line: Seq<char>) -> Option<Seq<char>> {
    match piece_after(line, "users:((\""@) {
        None => None,
        Some(tail) => Some(prefix_before(tail, is_char('"'))),
    }
}

/// The characters that end the pid field.
pub open spec fn pid_end() -> spec_fn(char) -> bool {
    |c: char| c == ',' || c == ')'
}

/// The process id that `ss` shows: after `pid=`, up to `,` or `)`.
pub open spec fn pid_of(line: Seq<char>) -> Option<u32> {
    match piece_after(line, "pid="@) {
        None => None,
        Some(tail) => match parse_unsigned(prefix_before(tail, pid_end()), 0xffff_ffff) {
            Ok(pid) => Some(pid as u32),
            Err(_) => None,
        },
    }
}

/// The range of the second piece of `v` split at `pat`.
fn piece_after_range(v: &Vec<char>, pat: &str) -> (r: Option<(usize, usize)>)
    ensures
        match r {
            Some(p) => p.0 <= p.1 <= v.len() && piece_after(v@, pat@) == Some(
                v@.subrange(p.0 as int, p.1 as int),
            ),
            None => piece_after(v@, pat@) is None,
        },
{
    let p = chars_of(pat);
    let n = v.len();
    assert(v@.subrange(0, n as int) =~= v@);
    match find_in(v, 0, n, 0, &p) {
        None => None,
        Some(i) => {
            proof { crate::text::lemma_find_from(v@, p@, 0); }
            let start = i + p.len();
            match find_in(v, 0, n, start, &p) {
                None => Some((start, n)),
                Some(j) => Some((start, j)),
            }
        },
    }
}

/// The process name and pid that an `ss` line names.
fn parse_process_metadata(line: &str) -> (r: (Option<String>, Option<u32>))
    ensures
        opt_view(r.0) == process_of(line@),
        r.1 == pid_of(line@),
{
    let v = chars_of(line);
    let process = match piece_after_range(&v, "users:((\"") {
        None => None,
        Some((a, b)) => {
            let e = first_of(&v, a, b, a, '"');
            proof { crate::text::lemma_first_stop_bounds(v@.subrange(a as int, b as int), is_char('"'), 0); }
            assert(v@.subrange(a as int, b as int).take(e - a) =~= v@.subrange(a as int, e as int));
            Some(substring(line, a, e))
        },
    };
    let pid = match piece_after_range(&v, "pid=") {
        None => None,
        Some((a, b)) => {
            let ghost tail = v@.subrange(a as int, b as int);
            let mut e = a;
            while e < b && v[e] != ',' && v[e] != ')'
                invariant
                    a <= e <= b <= v.len(),
                    tail == v@.subrange(a as int, b as int),
                    first_stop(tail, pid_end(), 0) == first_stop(tail, pid_end(), e - a),
                decreases b - e,
            {
                e += 1;
            }
            assert(tail.take(e - a) =~= v@.subrange(a as int, e as int));
            parse_u32_range(&v, a, e)
        },
    };
    (process, pid)
}

// ---------------------------------------------------------------------------
// Lines
// ---------------------------------------------------------------------------

/// Whether an `ss` line has a socket column that splits.
pub open spec fn listener_line_ok(line: Seq<char>) -> bool {
    words(line).len() >= 5 && socket_of(words(line)[4]) is Some
}

/// `l` is what an `ss` line describes, before any unit is attached: the first
/// column is the protocol, the fifth the local socket.
pub open spec fn parsed_listener(line: Seq<char>, l: Listener) -> bool {
    &&& words(line).len() >= 5
    &&& socket_of(words(line)[4]) == Some((l.local_address@, l.port))
    &&& l.protocol@ == words(line)[0]
    &&& l.scope@ == scope_of(l.local_address@)
    &&& l.port_kind@ == port_kind_of(l.protocol@, l.port)
    &&& l.exposure_severity@ == severity_of(l.scope@, l.port_kind@, false)
    &&& opt_view(l.process) == process_of(line)
    &&& l.pid == pid_of(line)
    &&& l.unit is None
    &&& l.unit_scope is None
}

/// Parses one line of `ss -H -ltnup` output.
pub fn parse_listener_line(line: &str) -> (r: Option<Listener>)
    ensures
        match r {
            Some(l) => parsed_listener(line@, l),
            None => !listener_line_ok(line@),
        },
{
    let v = chars_of(line);
    let n = v.len();
    let w = word_ranges(&v, 0, n);
    assert(v@.subrange(0, n as int) =~= line@);
    assert(range_texts(v@, w@).len() == w@.len());
    if w.len() < 5 {
        return None;
    }
    let (pa, pb) = w[0];
    let (la, lb) = w[4];
    assert(w@[0] == (pa, pb) && w@[4] == (la, lb));
    assert(range_texts(v@, w@)[0] == v@.subrange(pa as int, pb as int));
    assert(range_texts(v@, w@)[4] == v@.subrange(la as int, lb as int));
    let protocol = substring(line, pa, pb);
    let local = substring(line, la, lb);
    let (local_address, port) = match split_socket(local.as_str()) {
        Some(p) => p,
        None => {
            return None;
        },
    };
    let (process, pid) = parse_process_metadata(line);
    let scope = owned(classify_scope(local_address.as_str()));
    let port_kind = owned(classify_port_kind(protocol.as_str(), port));
    let exposure_severity = owned(classify_severity(scope.as_str(), port_kind.as_str(), false));
    Some(
        Listener {
            protocol,
            local_address,
            port,
            scope,
            port_kind,
            exposure_severity,
            process,
            pid,
            unit: None,
            unit_scope: None,
        },
    )
}

/// The predicate `listener_line_ok`.
pub open spec fn listener_line() -> spec_fn(Seq<char>) -> bool {
    |line: Seq<char>| listener_line_ok(line)
}

/// The lines of an `ss` output that describe a listener.
pub open spec fn listener_lines(text: Seq<char>) -> Seq<Seq<char>> {
    lines(text).filter(listener_line())
}

/// Parses the whole output of `ss -H -ltnup`: one listener for each line
/// that describes one, in order.
pub fn parse_ss_output(text: &str) -> (r: Vec<Listener>)
    ensures
        r.len() == listener_lines(text@).len(),
        forall|k: int| 0 <= k < r.len() ==> parsed_listener(listener_lines(text@)[k], #[trigger] r@[k]),
{
    let v = chars_of(text);
    let n = v.len();
    let ranges = line_ranges(&v, 0, n);
    assert(v@.subrange(0, n as int) =~= text@);
    let ghost all = lines(text@);
    let ghost ok = listener_line();
    assert(range_texts(v@, ranges@).len() == ranges@.len());
    let mut r: Vec<Listener> = Vec::new();
    let mut k: usize = 0;
    assert(all.take(0) =~= Seq::<Seq<char>>::empty());
    assert(Seq::<Seq<char>>::empty().filter(ok) =~= Seq::<Seq<char>>::empty()) by {
        reveal(Seq::filter);
    }
    while k < ranges.len()
        invariant
            n == v.len(),
            v@ == text@,
            all == range_texts(v@, ranges@),
            all == lines(text@),
            ok == listener_line(),
            all.len() == ranges@.len(),
            ranges_within(ranges@, 0, n as int),
            k <= ranges.len(),
            r.len() == all.take(k as int).filter(ok).len(),
            forall|j: int|
                0 <= j < r.len() ==> parsed_listener(
                    all.take(k as int).filter(ok)[j],
                    #[trigger] r@[j],
                ),
        decreases ranges.len() - k,
    {
        let (a, b) = ranges[k];
        assert(ranges@[k as int] == (a, b));
        let line = substring(text, a, b);
        assert(line@ == all[k as int]);
        proof {
            lemma_filter_push(all.take(k as int), all[k as int], ok);
            assert(all.take(k + 1) =~= all.take(k as int).push(all[k as int]));
        }
        let ghost old_r = r@;
        match parse_listener_line(line.as_str()) {
            Some(l) => {
                assert(ok(all[k as int]));
                r.push(l);
                assert(all.take(k + 1).filter(ok) == all.take(k as int).filter(ok).push(
                    all[k as int],
                ));
            },
            None => {
                assert(!ok(all[k as int]));
                assert(all.take(k + 1).filter(ok) == all.take(k as int).filter(ok));
                assert(r@ == old_r);
            },
        }
        k += 1;
    }
    assert(all.take(k as int) =~= all);
    r
}

// ---------------------------------------------------------------------------
// Units and ordering
// ---------------------------------------------------------------------------

/// `r` is `l` with the unit `unit` attached (when there is one) and its
/// severity recomputed for whether a unit manages it.
pub open spec fn enriched(r: Listener, l: Listener, unit: Option<UnitRef>) -> bool {
    &&& r.protocol == l.protocol
    &&& r.local_address == l.local_address
    &&& r.port == l.port
    &&& r.scope == l.scope
    &&& r.port_kind == l.port_kind
    &&& r.process == l.process
    &&& r.pid == l.pid
    &&& match unit {
        Some(u) => r.unit == Some(u.unit) && opt_view(r.unit_scope) == Some(
            if u.is_user {
                "user"@
            } else {
                "system"@
            },
        ),
        None => r.unit == l.unit && r.unit_scope == l.unit_scope,
    }
    &&& r.exposure_severity@ == severity_of(l.scope@, l.port_kind@, r.unit is Some)
}

/// Attaches the systemd unit found for a listener's process and sets its
/// severity accordingly.
pub fn enrich_listener(l: Listener, unit: Option<UnitRef>) -> (r: Listener)
    ensures
        enriched(r, l, unit),
{
    let ghost old_l = l;
    let mut l = l;
    match unit {
        Some(u) => {
            l.unit = Some(u.unit);
            l.unit_scope = Some(
                owned(
                    if u.is_user {
                        "user"
                    } else {
                        "system"
                    },
                ),
            );
        },
        None => {},
    }
    l.exposure_severity = owned(
        classify_severity(l.scope.as_str(), l.port_kind.as_str(), l.unit.is_some()),
    );
    l
}

impl KeyOrder for Listener {
    /// By port, then protocol, then local address.
    open spec fn key_le(self, other: Self) -> bool {
        ||| self.port < other.port
        ||| self.port == other.port && !lex_le(other.protocol@, self.protocol@)
        ||| self.port == other.port && self.protocol@ == other.protocol@ && lex_le(
            self.local_address@,
            other.local_address@,
        )
    }

    fn le(&self, other: &Self) -> (r: bool) {
        if self.port != other.port {
            return self.port < other.port;
        }
        let a = chars_of(self.protocol.as_str());
        let b = chars_of(other.protocol.as_str());
        if !chars_le(&b, &a) {
            return true;
        }
        if !chars_le(&a, &b) {
            return false;
        }
        proof {
            lemma_lex_antisym(a@, b@);
        }
        let x = chars_of(self.local_address.as_str());
        let y = chars_of(other.local_address.as_str());
        chars_le(&x, &y)
    }

    proof fn lemma_key_total(a: Self, b: Self) {
        lemma_lex_total(a.protocol@, b.protocol@, 0);
        if lex_le(a.protocol@, b.protocol@) && lex_le(b.protocol@, a.protocol@) {
            lemma_lex_antisym(a.protocol@, b.protocol@);
        }
        lemma_lex_total(a.local_address@, b.local_address@, 0);
    }

    proof fn lemma_key_trans(a: Self, b: Self, c: Self) {
        let (pa, pb, pc) = (a.protocol@, b.protocol@, c.protocol@);
        lemma_lex_total(pa, pb, 0);
        lemma_lex_total(pb, pc, 0);
        lemma_lex_total(pa, pc, 0);
        if lex_le(pc, pa) && lex_le(pa, pb) {
            lemma_lex_trans(pc, pa, pb, 0);
        }
        if lex_le(pb, pc) && lex_le(pc, pa) {
            lemma_lex_trans(pb, pc, pa, 0);
        }
        if lex_le(pa, pb) && lex_le(pb, pc) {
            lemma_lex_trans(pa, pb, pc, 0);
        }
        if lex_le(pb, pa) && lex_le(pa, pc) {
            lemma_lex_trans(pb, pa, pc, 0);
        }
        if lex_le(pc, pb) && lex_le(pb, pa) {
            lemma_lex_trans(pc, pb, pa, 0);
        }
        if lex_le(a.local_address@, b.local_address@) && lex_le(
            b.local_address@,
            c.local_address@,
        ) {
            lemma_lex_trans(a.local_address@, b.local_address@, c.local_address@, 0);
        }
    }
}

/// Orders listeners by port, then protocol, then local address; listeners
/// that agree on all three keep their order.
pub fn sort_listeners(listeners: Vec<Listener>) -> (r: Vec<Listener>)
    ensures
        sorted_by_key(r@),
        stable_permutation(r@, listeners@),
        forall|i: int, j: int|
            0 <= i < j < r@.len() ==> {
                &&& (#[trigger] r@[i]).port <= (#[trigger] r@[j]).port
                &&& r@[i].port == r@[j].port ==> lex_le(r@[i].protocol@, r@[j].protocol@)
                &&& r@[i].port == r@[j].port && r@[i].protocol@ == r@[j].protocol@ ==> lex_le(
                    r@[i].local_address@,
                    r@[j].local_address@,
                )
            },
{
    let r = stable_sort(listeners);
    assert forall|i: int, j: int| 0 <= i < j < r@.len() implies {
        &&& (#[trigger] r@[i]).port <= (#[trigger] r@[j]).port
        &&& r@[i].port == r@[j].port ==> lex_le(r@[i].protocol@, r@[j].protocol@)
        &&& r@[i].port == r@[j].port && r@[i].protocol@ == r@[j].protocol@ ==> lex_le(
            r@[i].local_address@,
            r@[j].local_address@,
        )
    } by {
        let (a, b) = (r@[i], r@[j]);
        assert(a.key_le(b));
        lemma_lex_total(a.protocol@, b.protocol@, 0);
        if a.protocol@ == b.protocol@ {
            lemma_lex_total(a.protocol@, a.protocol@, 0);
        }
    }
    r
}

// ---------------------------------------------------------------------------
// Running `ss`
// ---------------------------------------------------------------------------

/// The command that lists the listening TCP and UDP sockets with their
/// processes, without a header.
pub fn ss_command() -> (r: CommandSpec)
    ensures
        r.program@ == "ss"@,
        texts(r.args@) == seq!["-H"@, "-ltnup"@],
{
    let mut args: Vec<String> = Vec::new();
    args.push(owned("-H"));
    args.push(owned("-ltnup"));
    assert(texts(args@) =~= seq!["-H"@, "-ltnup"@]);
    CommandSpec { program: owned("ss"), args }
}

/// The warnings that an outcome of `ss` gives.
pub open spec fn ss_warnings(outcome: CommandOutcome) -> Seq<Seq<char>> {
    match outcome {
        CommandOutcome::Exited { success, status, stderr, .. } => if success {
            Seq::empty()
        } else {
            seq![
                "listener collector ss exited with "@ + status@ + ": "@ + trim(
                    utf8_lossy(stderr@),
                ),
            ]
        },
        CommandOutcome::LaunchFailed { error } => seq![
            "listener collector could not execute ss: "@ + error@,
        ],
    }
}

/// The text that `ss` printed, when it ran successfully.
pub open spec fn ss_text(outcome: CommandOutcome) -> Option<Seq<char>> {
    match outcome {
        CommandOutcome::Exited { success, stdout, .. } => if success {
            Some(utf8_lossy(stdout@))
        } else {
            None
        },
        CommandOutcome::LaunchFailed { .. } => None,
    }
}

/// The listeners that an outcome of `ss` describes, before any unit is
/// attached, one for each line of its output that describes one; a failure
/// of `ss` adds a warning and gives none.
pub fn listeners_from_ss(outcome: &CommandOutcome, warnings: &mut Vec<String>) -> (r: Vec<
    Listener,
>)
    ensures
        texts(final(warnings)@) == texts(old(warnings)@) + ss_warnings(*outcome),
        match ss_text(*outcome) {
            Some(text) => r.len() == listener_lines(text).len() && forall|k: int|
                0 <= k < r.len() ==> parsed_listener(listener_lines(text)[k], #[trigger] r@[k]),
            None => r.len() == 0,
        },
{
    let ghost w0 = texts(warnings@);
    match outcome {
        CommandOutcome::Exited { success, status, stdout, stderr } => {
            if *success {
                assert(w0 + Seq::<Seq<char>>::empty() =~= w0);
                let text = lossy_text(stdout.as_slice());
                parse_ss_output(text.as_str())
            } else {
                let w = exit_warning(
                    "listener collector ss exited with ",
                    "",
                    "",
                    status.as_str(),
                    stderr.as_slice(),
                );
                proof {
                    reveal_strlit("");
                }
                assert("listener collector ss exited with "@ + ""@ + ""@ =~= "listener collector ss exited with "@);
                push_warning(warnings, w);
                assert(w0.push(w@) =~= w0 + ss_warnings(*outcome));
                Vec::new()
            }
        },
        CommandOutcome::LaunchFailed { error } => {
            let w = concat2("listener collector could not execute ss: ", error.as_str());
            push_warning(warnings, w);
            assert(w0.push(w@) =~= w0 + ss_warnings(*outcome));
            Vec::new()
        },
    }
}

} // verus!
