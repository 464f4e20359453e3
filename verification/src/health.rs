//! Service health probing: the decisions of a TCP connect and HTTP `HEAD`
//! probe, as a state machine whose network steps the caller performs.

use vstd::prelude::*;

use crate::models::{texts, ServiceHealth};
use crate::text::{
    chars_of, concat2, concat3, decimal, decimal_text, line_ranges, lines, lossy_text, owned,
    parse_u16_range, parse_unsigned, range_texts, str_eq, substring, trim, trim_bounds,
    utf8_lossy, word_ranges, words,
};

verus! {

// ---------------------------------------------------------------------------
// Targets and requests
// ---------------------------------------------------------------------------

/// The address to probe for a listener's local address: the wildcard and
/// loopback addresses are probed on `127.0.0.1`.
pub open spec fn target_of(local_address: Seq<char>) -> Seq<char> {
    if local_address == "*"@ || local_address == "0.0.0.0"@ || local_address == "::"@
        || local_address == "::1"@ {
        "127.0.0.1"@
    } else {
        local_address
    }
}

/// The address to probe for a listener's local address.
pub fn sanitize_target(local_address: &str) -> (r: String)
    ensures
        r@ == target_of(local_address@),
{
    if str_eq(local_address, "*") || str_eq(local_address, "0.0.0.0") || str_eq(
        local_address,
        "::",
    ) || str_eq(local_address, "::1") {
        owned("127.0.0.1")
    } else {
        owned(local_address)
    }
}

/// The ports on which an HTTP service is likely.
pub open spec fn http_port(port: u16) -> bool {
    port == 80 || port == 443 || port == 8080 || port == 8443 || port == 3000 || port == 5173
        || port == 11500 || port == 9000 || port == 9090
}

/// Whether a port is probed with an HTTP request after connecting.
pub fn is_http_candidate(port: u16) -> (r: bool)
    ensures
        r == http_port(port),
{
    port == 80 || port == 443 || port == 8080 || port == 8443 || port == 3000 || port == 5173
        || port == 11500 || port == 9000 || port == 9090
}

/// The `HEAD` request sent to an HTTP candidate.
pub fn http_request(target: &str) -> (r: String)
    ensures
        r@ == "HEAD / HTTP/1.1\r\nHost: "@ + target@
            + "\r\nConnection: close\r\nUser-Agent: sentinel-health\r\n\r\n"@,
{
    concat3(
        "HEAD / HTTP/1.1\r\nHost: ",
        target,
        "\r\nConnection: close\r\nUser-Agent: sentinel-health\r\n\r\n",
    )
}

// ---------------------------------------------------------------------------
// HTTP responses
// ---------------------------------------------------------------------------

/// The status line of a decoded HTTP response: its first line, trimmed,
/// when that line is not blank.
pub open spec fn first_line_status(response: Seq<char>) -> Result<Seq<char>, Seq<char>> {
    let ls = lines(response);
    if ls.len() > 0 && trim(ls[0]).len() > 0 {
        Ok(trim(ls[0]))
    } else {
        Err("response status line missing"@)
    }
}

/// The status line of an HTTP response: its first line, trimmed, when the
/// response has bytes and that line is not blank.
pub open spec fn status_line_of(bytes: Seq<u8>) -> Result<Seq<char>, Seq<char>> {
    if bytes.len() == 0 {
        Err("response read returned 0 bytes"@)
    } else {
        first_line_status(utf8_lossy(bytes))
    }
}

/// The status line of a decoded HTTP response.
pub fn status_line_of_text(response: &str) -> (r: Result<String, String>)
    ensures
        match r {
            Ok(line) => first_line_status(response@) == Ok::<Seq<char>, Seq<char>>(line@),
            Err(e) => first_line_status(response@) == Err::<Seq<char>, Seq<char>>(e@),
        },
{
    let v = chars_of(response);
    let n = v.len();
    let ranges = line_ranges(&v, 0, n);
    assert(v@.subrange(0, n as int) =~= response@);
    assert(range_texts(v@, ranges@).len() == ranges@.len());
    if ranges.len() == 0 {
        return Err(owned("response status line missing"));
    }
    let (a, b) = ranges[0];
    assert(ranges@[0] == (a, b));
    let (x, y) = trim_bounds(&v, a, b);
    if y == x {
        return Err(owned("response status line missing"));
    }
    Ok(substring(response, x, y))
}

/// The status line of the response bytes that an HTTP probe read.
pub fn status_line_from_response(bytes: &[u8]) -> (r: Result<String, String>)
    ensures
        match r {
            Ok(line) => status_line_of(bytes@) == Ok::<Seq<char>, Seq<char>>(line@),
            Err(e) => status_line_of(bytes@) == Err::<Seq<char>, Seq<char>>(e@),
        },
{
    if bytes.len() == 0 {
        return Err(owned("response read returned 0 bytes"));
    }
    let response = lossy_text(bytes);
    status_line_of_text(response.as_str())
}

/// The status code of a status line: its second word, when that is a `u16`.
pub open spec fn http_code(status_line: Seq<char>) -> Option<u16> {
    let ws = words(status_line);
    if ws.len() >= 2 {
        match parse_unsigned(ws[1], 0xffff) {
            Ok(c) => Some(c as u16),
            Err(_) => None,
        }
    } else {
        None
    }
}

/// The status that an HTTP status line gives: `ok` for 2xx and 3xx,
/// `warning` for 4xx or an unreadable code, `danger` for any other code.
pub open spec fn http_status_of(status_line: Seq<char>) -> Seq<char> {
    match http_code(status_line) {
        Some(c) => if 200 <= c < 400 {
            "ok"@
        } else if 400 <= c < 500 {
            "warning"@
        } else {
            "danger"@
        },
        None => "warning"@,
    }
}

/// The message that reports an HTTP status line.
pub open spec fn http_message_of(status_line: Seq<char>) -> Seq<char> {
    match http_code(status_line) {
        Some(c) => if 200 <= c < 400 {
            "http probe ok: "@ + status_line
        } else if 400 <= c < 500 {
            "http probe client response: "@ + status_line
        } else {
            "http probe error response: "@ + status_line
        },
        None => "http probe nonstandard status line: "@ + status_line,
    }
}

/// The status and message for the status line of an HTTP response.
pub fn classify_http_status(status_line: &str) -> (r: (&'static str, String))
    ensures
        r.0@ == http_status_of(status_line@),
        r.1@ == http_message_of(status_line@),
{
    let v = chars_of(status_line);
    let n = v.len();
    let ws = word_ranges(&v, 0, n);
    assert(v@.subrange(0, n as int) =~= status_line@);
    assert(range_texts(v@, ws@).len() == ws@.len());
    let code = if ws.len() >= 2 {
        let (a, b) = ws[1];
        assert(ws@[1] == (a, b));
        parse_u16_range(&v, a, b)
    } else {
        None
    };
    match code {
        Some(c) => if 200 <= c && c < 400 {
            ("ok", concat2("http probe ok: ", status_line))
        } else if 400 <= c && c < 500 {
            ("warning", concat2("http probe client response: ", status_line))
        } else {
            ("danger", concat2("http probe error response: ", status_line))
        },
        None => ("warning", concat2("http probe nonstandard status line: ", status_line)),
    }
}


// ---------------------------------------------------------------------------
// The probe
// ---------------------------------------------------------------------------

/// A health check under way: what it probes and the warnings so far.
#[derive(Debug)]
pub struct HealthProbe {
    pub protocol: String,
    pub target: String,
    pub port: u16,
    pub warnings: Vec<String>,
}

/// The next step of a health check.
#[derive(Debug)]
pub enum HealthStep {
    /// The check is over.
    Done(ServiceHealth),
    /// Resolve `probe.address()` to a socket address.
    Resolve(HealthProbe),
    /// Open a TCP connection to the resolved address.
    Connect(HealthProbe),
    /// Send `http_request` for the target on the open connection and read
    /// the response; connecting took `latency_ms`.
    HttpProbe { probe: HealthProbe, latency_ms: u128 },
}

/// What resolving the probe address gave.
#[derive(Debug)]
pub enum ResolveOutcome {
    /// At least one socket address.
    Resolved,
    /// Resolution failed with this error.
    Failed { error: String },
    /// Resolution gave no address.
    NoCandidates,
}

/// What connecting gave.
#[derive(Debug)]
pub enum ConnectOutcome {
    /// The connection failed with `error` after `elapsed_ms`.
    Failed { error: String, elapsed_ms: u128 },
    /// The connection opened after `latency_ms`; setting its read and write
    /// timeouts may have failed.
    Connected {
        latency_ms: u128,
        read_timeout_error: Option<String>,
        write_timeout_error: Option<String>,
    },
}

/// `h` reports these values.
pub open spec fn health_is(
    h: ServiceHealth,
    protocol: Seq<char>,
    target: Seq<char>,
    port: u16,
    check_kind: Seq<char>,
    status: Seq<char>,
    latency_ms: Option<u128>,
    message: Seq<char>,
    warnings: Seq<Seq<char>>,
) -> bool {
    &&& h.protocol@ == protocol
    &&& h.target@ == target
    &&& h.port == port
    &&& h.check_kind@ == check_kind
    &&& h.status@ == status
    &&& h.latency_ms == latency_ms
    &&& h.message@ == message
    &&& texts(h.warnings@) == warnings
}

/// The result of a probe at this point, with the given outcome.
pub open spec fn probe_result(
    p: HealthProbe,
    h: ServiceHealth,
    check_kind: Seq<char>,
    status: Seq<char>,
    latency_ms: Option<u128>,
    message: Seq<char>,
    warnings: Seq<Seq<char>>,
) -> bool {
    health_is(h, p.protocol@, p.target@, p.port, check_kind, status, latency_ms, message, warnings)
}

/// The address that a probe resolves: `target:port`.
pub open spec fn probe_address(p: HealthProbe) -> Seq<char> {
    p.target@ + ":"@ + decimal(p.port as nat)
}

/// The first step of a health check: only TCP services are probed; others
/// get a `warning` at once.
pub fn start_health_check(protocol: &str, local_address: &str, port: u16) -> (r: HealthStep)
    ensures
        if protocol@ == "tcp"@ {
            match r {
                HealthStep::Resolve(p) => p.protocol@ == protocol@ && p.target@ == target_of(
                    local_address@,
                ) && p.port == port && p.warnings@.len() == 0,
                _ => false,
            }
        } else {
            match r {
                HealthStep::Done(h) => health_is(
                    h,
                    protocol@,
                    target_of(local_address@),
                    port,
                    "socket"@,
                    "warning"@,
                    None,
                    "active probing for protocol '"@ + protocol@ + "' is not implemented"@,
                    Seq::empty(),
                ),
                _ => false,
            }
        },
{
    let target = sanitize_target(local_address);
    let warnings: Vec<String> = Vec::new();
    if !str_eq(protocol, "tcp") {
        assert(texts(warnings@) =~= Seq::<Seq<char>>::empty());
        return HealthStep::Done(
            ServiceHealth {
                protocol: owned(protocol),
                target,
                port,
                check_kind: owned("socket"),
                status: owned("warning"),
                latency_ms: None,
                message: concat3(
                    "active probing for protocol '",
                    protocol,
                    "' is not implemented",
                ),
                warnings,
            },
        );
    }
    HealthStep::Resolve(HealthProbe { protocol: owned(protocol), target, port, warnings })
}

impl HealthProbe {
    /// The address to resolve: `target:port`.
    pub fn address(&self) -> (r: String)
        ensures
            r@ == probe_address(*self),
    {
        let p = decimal_text(self.port as u128);
        concat3(self.target.as_str(), ":", p.as_str())
    }

    /// Finishes the probe with a result.
    fn finish(
        self,
        check_kind: &str,
        status: &str,
        latency_ms: Option<u128>,
        message: String,
    ) -> (r: ServiceHealth)
        ensures
            probe_result(
                self,
                r,
                check_kind@,
                status@,
                latency_ms,
                message@,
                texts(self.warnings@),
            ),
    {
        ServiceHealth {
            protocol: self.protocol,
            target: self.target,
            port: self.port,
            check_kind: owned(check_kind),
            status: owned(status),
            latency_ms,
            message,
            warnings: self.warnings,
        }
    }

    /// Adds a warning.
    fn warn(&mut self, text: String)
        ensures
            final(self).protocol == old(self).protocol,
            final(self).target == old(self).target,
            final(self).port == old(self).port,
            texts(final(self).warnings@) == texts(old(self).warnings@).push(text@),
    {
        let ghost before = texts(self.warnings@);
        self.warnings.push(text);
        assert(texts(self.warnings@) =~= before.push(text@));
    }

    /// The step after resolving the address: connect, or report the failure
    /// as `danger`.
    pub fn after_resolve(self, outcome: ResolveOutcome) -> (r: HealthStep)
        ensures
            match outcome {
                ResolveOutcome::Resolved => r == HealthStep::Connect(self),
                ResolveOutcome::Failed { error } => r matches HealthStep::Done(h)
                    && probe_result(
                    self,
                    h,
                    "tcp_connect"@,
                    "danger"@,
                    None,
                    "address resolution failed for "@ + probe_address(self) + ": "@ + error@,
                    texts(self.warnings@).push(
                        "address resolution failed for "@ + probe_address(self) + ": "@ + error@,
                    ),
                ),
                ResolveOutcome::NoCandidates => r matches HealthStep::Done(h) && probe_result(
                    self,
                    h,
                    "tcp_connect"@,
                    "danger"@,
                    None,
                    "address resolution returned no candidates for "@ + probe_address(self),
                    texts(self.warnings@).push(
                        "address resolution returned no candidates for "@ + probe_address(self),
                    ),
                ),
            },
    {
        let ghost p0 = self;
        match outcome {
            ResolveOutcome::Resolved => HealthStep::Connect(self),
            ResolveOutcome::Failed { error } => {
                let address = self.address();
                let message = crate::text::concat4(
                    "address resolution failed for ",
                    address.as_str(),
                    ": ",
                    error.as_str(),
                );
                let mut p = self;
                p.warn(message.clone());
                HealthStep::Done(p.finish("tcp_connect", "danger", None, message))
            },
            ResolveOutcome::NoCandidates => {
                let address = self.address();
                let message = concat2(
                    "address resolution returned no candidates for ",
                    address.as_str(),
                );
                let mut p = self;
                p.warn(message.clone());
                HealthStep::Done(p.finish("tcp_connect", "danger", None, message))
            },
        }
    }

    /// The step after connecting: a failure is `danger`; otherwise the
    /// timeout failures are noted and an HTTP candidate is probed, any other
    /// port is `ok`.
    pub fn after_connect(self, outcome: ConnectOutcome) -> (r: HealthStep)
        ensures
            match outcome {
                ConnectOutcome::Failed { error, elapsed_ms } => r matches HealthStep::Done(h)
                    && probe_result(
                    self,
                    h,
                    "tcp_connect"@,
                    "danger"@,
                    Some(elapsed_ms),
                    "tcp connect failed: "@ + error@,
                    texts(self.warnings@).push("tcp connect failed: "@ + error@),
                ),
                ConnectOutcome::Connected {
                    latency_ms,
                    read_timeout_error,
                    write_timeout_error,
                } => {
                    let w = texts(self.warnings@) + timeout_warnings(
                        read_timeout_error,
                        write_timeout_error,
                    );
                    if http_port(self.port) {
                        r matches HealthStep::HttpProbe { probe, latency_ms: l } && l == latency_ms
                            && probe.protocol == self.protocol && probe.target == self.target
                            && probe.port == self.port && texts(probe.warnings@) == w
                    } else {
                        r matches HealthStep::Done(h) && probe_result(
                            self,
                            h,
                            "tcp_connect"@,
                            "ok"@,
                            Some(latency_ms),
                            "tcp connect succeeded"@,
                            w,
                        )
                    }
                },
            },
    {
        match outcome {
            ConnectOutcome::Failed { error, elapsed_ms } => {
                let message = concat2("tcp connect failed: ", error.as_str());
                let mut p = self;
                p.warn(message.clone());
                HealthStep::Done(p.finish("tcp_connect", "danger", Some(elapsed_ms), message))
            },
            ConnectOutcome::Connected { latency_ms, read_timeout_error, write_timeout_error } => {
                let ghost w0 = texts(self.warnings@);
                let mut p = self;
                match &read_timeout_error {
                    Some(e) => p.warn(concat2("set_read_timeout failed: ", e.as_str())),
                    None => {},
                }
                match &write_timeout_error {
                    Some(e) => p.warn(concat2("set_write_timeout failed: ", e.as_str())),
                    None => {},
                }
                assert(texts(p.warnings@) =~= w0 + timeout_warnings(
                    read_timeout_error,
                    write_timeout_error,
                ));
                if is_http_candidate(p.port) {
                    HealthStep::HttpProbe { probe: p, latency_ms }
                } else {
                    HealthStep::Done(
                        p.finish("tcp_connect", "ok", Some(latency_ms), owned("tcp connect succeeded")),
                    )
                }
            },
        }
    }

    /// The result after the HTTP probe: the status line decides; a failed
    /// probe is noted and the connection alone counts as `ok`.
    pub fn after_http(self, latency_ms: u128, result: Result<String, String>) -> (r: ServiceHealth)
        ensures
            match result {
                Ok(line) => probe_result(
                    self,
                    r,
                    "http_head"@,
                    http_status_of(line@),
                    Some(latency_ms),
                    http_message_of(line@),
                    texts(self.warnings@),
                ),
                Err(e) => probe_result(
                    self,
                    r,
                    "tcp_connect"@,
                    "ok"@,
                    Some(latency_ms),
                    "tcp connect succeeded"@,
                    texts(self.warnings@).push("http probe failed: "@ + e@),
                ),
            },
    {
        match result {
            Ok(line) => {
                let (status, message) = classify_http_status(line.as_str());
                self.finish("http_head", status, Some(latency_ms), message)
            },
            Err(e) => {
                let mut p = self;
                p.warn(concat2("http probe failed: ", e.as_str()));
                p.finish("tcp_connect", "ok", Some(latency_ms), owned("tcp connect succeeded"))
            },
        }
    }
}

/// The warnings for failures to set the connection's timeouts.
pub open spec fn timeout_warnings(read: Option<String>, write: Option<String>) -> Seq<Seq<char>> {
    let r = match read {
        Some(e) => seq!["set_read_timeout failed: "@ + e@],
        None => Seq::empty(),
    };
    match write {
        Some(e) => r.push("set_write_timeout failed: "@ + e@),
        None => r,
    }
}

} // verus!
