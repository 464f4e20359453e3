//! The watchlist: named services on known ports, the `SENTINEL_WATCH_PORTS`
//! format that overrides the defaults, and the matching of services to
//! listeners.

use vstd::prelude::*;

use crate::models::{texts, Listener, ServiceHealth, WatchedServiceStatus, WatchedServicesSnapshot};
use crate::text::{
    chars_of, concat3, first_where, is_char, lemma_filter_push, lemma_first_where, lowercase,
    nonempty, owned, parse_u16_range, parse_unsigned, range_lower_is, range_texts,
    ranges_within, split_pieces, split_ranges, str_eq, substring, trim, trim_bounds,
};

verus! {

/// A service that the dashboard watches.
#[derive(Debug, Clone, PartialEq, Eq)]
pub struct WatchedService {
    pub name: String,
    pub category: String,
    pub protocol: String,
    pub address: String,
    pub port: u16,
    pub expected: bool,
}

// ---------------------------------------------------------------------------
// Entries
// ---------------------------------------------------------------------------

/// The reading of the optional `expected` field: `true`, `yes`, `up`,
/// `expected`, `1` or `false`, `no`, `down`, `optional`, `0`, in any ASCII case.
pub open spec fn expected_of(raw: Seq<char>) -> Option<bool> {
    let l = lowercase(raw);
    if l == "true"@ || l == "yes"@ || l == "up"@ || l == "expected"@ || l == "1"@ {
        Some(true)
    } else if l == "false"@ || l == "no"@ || l == "down"@ || l == "optional"@ || l == "0"@ {
        Some(false)
    } else {
        None
    }
}

/// A watch entry as read from its text: name, protocol (lowercased),
/// address, port and whether the service is expected up.
pub struct WatchEntry {
    pub name: Seq<char>,
    pub protocol: Seq<char>,
    pub address: Seq<char>,
    pub port: u16,
    pub expected: bool,
}

/// `name:protocol:address:port[:expected]`, each field trimmed; the name and
/// the address nonempty, the protocol `tcp` or `udp`, the port a `u16`.
pub open spec fn watch_entry(entry: Seq<char>) -> Option<WatchEntry> {
    let parts = split_pieces(entry, is_char(':'));
    if parts.len() < 4 || parts.len() > 5 {
        None
    } else {
        let name = trim(parts[0]);
        let protocol = lowercase(trim(parts[1]));
        let address = trim(parts[2]);
        let port = parse_unsigned(trim(parts[3]), 0xffff);
        let expected = if parts.len() == 5 {
            expected_of(trim(parts[4]))
        } else {
            Some(true)
        };
        if port is Ok && expected is Some && name.len() > 0 && address.len() > 0 && (protocol
            == "tcp"@ || protocol == "udp"@) {
            Some(
                WatchEntry {
                    name,
                    protocol,
                    address,
                    port: port->Ok_0 as u16,
                    expected: expected->Some_0,
                },
            )
        } else {
            None
        }
    }
}

/// `s` is the custom service that an entry describes.
pub open spec fn service_of_entry(s: WatchedService, e: WatchEntry) -> bool {
    &&& s.name@ == e.name
    &&& s.category@ == "custom"@
    &&& s.protocol@ == e.protocol
    &&& s.address@ == e.address
    &&& s.port == e.port
    &&& s.expected == e.expected
}

fn expected_in_range(v: &Vec<char>, a: usize, b: usize) -> (r: Option<bool>)
    requires
        a <= b <= v.len(),
    ensures
        r == expected_of(v@.subrange(a as int, b as int)),
{
    if range_lower_is(v, a, b, "true") || range_lower_is(v, a, b, "yes") || range_lower_is(
        v,
        a,
        b,
        "up",
    ) || range_lower_is(v, a, b, "expected") || range_lower_is(v, a, b, "1") {
        Some(true)
    } else if range_lower_is(v, a, b, "false") || range_lower_is(v, a, b, "no")
        || range_lower_is(v, a, b, "down") || range_lower_is(v, a, b, "optional")
        || range_lower_is(v, a, b, "0") {
        Some(false)
    } else {
        None
    }
}

/// Reads one watch entry.
fn parse_watch_entry(entry: &str) -> (r: Option<WatchedService>)
    ensures
        match r {
            Some(s) => watch_entry(entry@) matches Some(e) && service_of_entry(s, e),
            None => watch_entry(entry@) is None,
        },
{
    let v = chars_of(entry);
    let n = v.len();
    assert(v@.subrange(0, n as int) =~= entry@);
    let parts = split_ranges(&v, 0, n, ':');
    let ghost ps = split_pieces(entry@, is_char(':'));
    assert(range_texts(v@, parts@).len() == parts@.len());
    if parts.len() < 4 || parts.len() > 5 {
        return None;
    }
    assert(forall|k: int| 0 <= k < parts@.len() ==> ps[k] == v@.subrange(
        (#[trigger] parts@[k]).0 as int,
        parts@[k].1 as int,
    ));
    let (n0, n1) = trim_bounds(&v, parts[0].0, parts[0].1);
    let (p0, p1) = trim_bounds(&v, parts[1].0, parts[1].1);
    let (a0, a1) = trim_bounds(&v, parts[2].0, parts[2].1);
    let (q0, q1) = trim_bounds(&v, parts[3].0, parts[3].1);
    assert(parts@[0] == parts[0] && parts@[1] == parts[1] && parts@[2] == parts[2] && parts@[3]
        == parts[3]);
    let port = parse_u16_range(&v, q0, q1);
    let expected = if parts.len() == 5 {
        assert(parts@[4] == parts[4]);
        let (e0, e1) = trim_bounds(&v, parts[4].0, parts[4].1);
        expected_in_range(&v, e0, e1)
    } else {
        Some(true)
    };
    let is_tcp = range_lower_is(&v, p0, p1, "tcp");
    let is_udp = range_lower_is(&v, p0, p1, "udp");
    match (port, expected) {
        (Some(port), Some(expected)) => {
            if n1 == n0 || a1 == a0 || !(is_tcp || is_udp) {
                return None;
            }
            let protocol = owned(
                if is_tcp {
                    "tcp"
                } else {
                    "udp"
                },
            );
            Some(
                WatchedService {
                    name: substring(entry, n0, n1),
                    category: owned("custom"),
                    protocol,
                    address: substring(entry, a0, a1),
                    port,
                    expected,
                },
            )
        },
        _ => None,
    }
}

// ---------------------------------------------------------------------------
// The watch list
// ---------------------------------------------------------------------------

/// The entries of a `SENTINEL_WATCH_PORTS` value: its comma-separated
/// pieces, trimmed, the empty ones dropped.
pub open spec fn watch_entries(raw: Seq<char>) -> Seq<Seq<char>> {
    split_pieces(raw, is_char(',')).map_values(|p: Seq<char>| trim(p)).filter(nonempty())
}

/// The predicate "is a valid watch entry".
pub open spec fn valid_entry() -> spec_fn(Seq<char>) -> bool {
    |e: Seq<char>| watch_entry(e) is Some
}

/// The predicate "is an invalid watch entry".
pub open spec fn invalid_entry() -> spec_fn(Seq<char>) -> bool {
    |e: Seq<char>| watch_entry(e) is None
}

/// The warning for an entry that does not read.
pub open spec fn invalid_entry_warning(entry: Seq<char>) -> Seq<char> {
    "invalid SENTINEL_WATCH_PORTS entry '"@ + entry + "' expected name:protocol:address:port[:expected]"@
}

/// The warning when no entry reads.
pub open spec fn no_entries_warning() -> Seq<char> {
    "SENTINEL_WATCH_PORTS produced no valid entries; using defaults"@
}

/// The services that a `SENTINEL_WATCH_PORTS` value lists, in order.
pub open spec fn listed_services(raw: Seq<char>, r: Seq<WatchedService>) -> bool {
    let valid = watch_entries(raw).filter(valid_entry());
    r.len() == valid.len() && forall|k: int|
        0 <= k < r.len() ==> service_of_entry(#[trigger] r[k], watch_entry(valid[k])->Some_0)
}

/// The warnings that reading a `SENTINEL_WATCH_PORTS` value gives: one per
/// invalid entry, in order, then one more when no entry reads.
pub open spec fn watch_warnings(raw: Seq<char>) -> Seq<Seq<char>> {
    let entries = watch_entries(raw);
    let bad = entries.filter(invalid_entry()).map_values(|e: Seq<char>| invalid_entry_warning(e));
    if entries.filter(valid_entry()).len() == 0 {
        bad.push(no_entries_warning())
    } else {
        bad
    }
}

/// The default watch list: name, category, address and port of each
/// service, all TCP and expected up.
pub open spec fn default_entries() -> Seq<(Seq<char>, Seq<char>, Seq<char>, u16)> {
    seq![
        ("sentinel-web-dashboard"@, "web"@, "127.0.0.1"@, 11500u16),
        ("yardline-web-dev"@, "web"@, "127.0.0.1"@, 5173u16),
        ("weatherbot-web-dashboard"@, "web"@, "127.0.0.1"@, 5000u16),
        ("honcho-api"@, "web"@, "172.168.0.17"@, 8000u16),
        ("nextcloud-http"@, "web"@, "127.0.0.1"@, 8080u16),
        ("nextcloud-https"@, "web"@, "127.0.0.1"@, 8443u16),
        ("kakusei-landing-static"@, "web"@, "127.0.0.1"@, 8888u16),
        ("dev-site-template-vite"@, "web"@, "127.0.0.1"@, 1420u16),
        ("camofox-browser-server"@, "web"@, "127.0.0.1"@, 9377u16),
        ("minio-s3-api"@, "infra"@, "127.0.0.1"@, 9000u16),
        ("minio-web-console"@, "infra"@, "127.0.0.1"@, 9001u16),
        ("graffiti-postgres-docker"@, "infra"@, "127.0.0.1"@, 5433u16),
        ("hermes-gateway-default"@, "hermes"@, "127.0.0.1"@, 8644u16),
        ("hermes-gateway-spoof"@, "hermes"@, "127.0.0.1"@, 8645u16),
        ("hermes-gateway-tracie"@, "hermes"@, "127.0.0.1"@, 8646u16),
        ("starbound-server"@, "game"@, "127.0.0.1"@, 21025u16),
    ]
}

/// `r` is the default watch list.
pub open spec fn is_default_list(r: Seq<WatchedService>) -> bool {
    r.len() == default_entries().len() && forall|k: int|
        0 <= k < r.len() ==> {
            let d = #[trigger] default_entries()[k];
            &&& r[k].name@ == d.0
            &&& r[k].category@ == d.1
            &&& r[k].protocol@ == "tcp"@
            &&& r[k].address@ == d.2
            &&& r[k].port == d.3
            &&& r[k].expected
        }
}

fn watched(name: &str, category: &str, protocol: &str, address: &str, port: u16) -> (r:
    WatchedService)
    ensures
        r.name@ == name@,
        r.category@ == category@,
        r.protocol@ == protocol@,
        r.address@ == address@,
        r.port == port,
        r.expected,
{
    WatchedService {
        name: owned(name),
        category: owned(category),
        protocol: owned(protocol),
        address: owned(address),
        port,
        expected: true,
    }
}

/// The services watched when no override is given.
pub fn default_watch_services() -> (r: Vec<WatchedService>)
    ensures
        is_default_list(r@),
{
    let r = vec![
        watched("sentinel-web-dashboard", "web", "tcp", "127.0.0.1", 11500),
        watched("yardline-web-dev", "web", "tcp", "127.0.0.1", 5173),
        watched("weatherbot-web-dashboard", "web", "tcp", "127.0.0.1", 5000),
        watched("honcho-api", "web", "tcp", "172.168.0.17", 8000),
        watched("nextcloud-http", "web", "tcp", "127.0.0.1", 8080),
        watched("nextcloud-https", "web", "tcp", "127.0.0.1", 8443),
        watched("kakusei-landing-static", "web", "tcp", "127.0.0.1", 8888),
        watched("dev-site-template-vite", "web", "tcp", "127.0.0.1", 1420),
        watched("camofox-browser-server", "web", "tcp", "127.0.0.1", 9377),
        watched("minio-s3-api", "infra", "tcp", "127.0.0.1", 9000),
        watched("minio-web-console", "infra", "tcp", "127.0.0.1", 9001),
        watched("graffiti-postgres-docker", "infra", "tcp", "127.0.0.1", 5433),
        watched("hermes-gateway-default", "hermes", "tcp", "127.0.0.1", 8644),
        watched("hermes-gateway-spoof", "hermes", "tcp", "127.0.0.1", 8645),
        watched("hermes-gateway-tracie", "hermes", "tcp", "127.0.0.1", 8646),
        watched("starbound-server", "game", "tcp", "127.0.0.1", 21025),
    ];
    r
}


/// Reads a `SENTINEL_WATCH_PORTS` value. Entries that do not read give a
/// warning each; when none reads, a last warning is added and the default
/// list returned.
pub fn parse_watch_ports(raw: &str, warnings: &mut Vec<String>) -> (r: Vec<WatchedService>)
    ensures
        watch_entries(raw@).filter(valid_entry()).len() == 0 ==> is_default_list(r@),
        watch_entries(raw@).filter(valid_entry()).len() > 0 ==> listed_services(raw@, r@),
        texts(final(warnings)@) == texts(old(warnings)@) + watch_warnings(raw@),
{
    let v = chars_of(raw);
    let n = v.len();
    assert(v@.subrange(0, n as int) =~= raw@);
    let pieces = split_ranges(&v, 0, n, ',');
    let ghost tp = split_pieces(raw@, is_char(',')).map_values(|p: Seq<char>| trim(p));
    let ghost entries = watch_entries(raw@);
    assert(range_texts(v@, pieces@).len() == pieces@.len());
    let ghost w0 = texts(warnings@);
    let mut services: Vec<WatchedService> = Vec::new();
    let mut k: usize = 0;
    let ghost mut seen: Seq<Seq<char>> = Seq::empty();
    assert(tp.take(0) =~= Seq::<Seq<char>>::empty());
    proof {
        reveal(Seq::filter);
    }
    assert(Seq::<Seq<char>>::empty().filter(nonempty()) =~= Seq::<Seq<char>>::empty());
    assert(Seq::<Seq<char>>::empty().filter(valid_entry()) =~= Seq::<Seq<char>>::empty());
    assert(Seq::<Seq<char>>::empty().filter(invalid_entry()) =~= Seq::<Seq<char>>::empty());
    assert(w0 + Seq::<Seq<char>>::empty() =~= w0);
    while k < pieces.len()
        invariant
            v@ == raw@,
            n == v@.len(),
            ranges_within(pieces@, 0, n as int),
            tp == range_texts(v@, pieces@).map_values(|p: Seq<char>| trim(p)),
            tp.len() == pieces@.len(),
            k <= pieces.len(),
            seen == tp.take(k as int).filter(nonempty()),
            services@.len() == seen.filter(valid_entry()).len(),
            forall|j: int|
                0 <= j < services@.len() ==> service_of_entry(
                    #[trigger] services@[j],
                    watch_entry(seen.filter(valid_entry())[j])->Some_0,
                ),
            texts(warnings@) == w0 + seen.filter(invalid_entry()).map_values(
                |e: Seq<char>| invalid_entry_warning(e),
            ),
        decreases pieces.len() - k,
    {
        let (a, b) = pieces[k];
        assert(pieces@[k as int] == (a, b));
        let (x, y) = trim_bounds(&v, a, b);
        let ghost e = v@.subrange(x as int, y as int);
        assert(e == tp[k as int]);
        assert(tp.take(k + 1) =~= tp.take(k as int).push(e));
        proof {
            lemma_filter_push(tp.take(k as int), e, nonempty());
        }
        if y > x {
            let entry = substring(raw, x, y);
            proof {
                lemma_filter_push(seen, e, valid_entry());
                lemma_filter_push(seen, e, invalid_entry());
            }
            let ghost wb = texts(warnings@);
            match parse_watch_entry(entry.as_str()) {
                Some(service) => {
                    services.push(service);
                    assert(seen.push(e).filter(invalid_entry()) == seen.filter(invalid_entry()));
                },
                None => {
                    let w = concat3(
                        "invalid SENTINEL_WATCH_PORTS entry '",
                        entry.as_str(),
                        "' expected name:protocol:address:port[:expected]",
                    );
                    warnings.push(w);
                    assert(texts(warnings@) =~= wb.push(w@));
                    assert(seen.push(e).filter(valid_entry()) == seen.filter(valid_entry()));
                    assert(seen.push(e).filter(invalid_entry()).map_values(
                        |e: Seq<char>| invalid_entry_warning(e),
                    ) =~= seen.filter(invalid_entry()).map_values(
                        |e: Seq<char>| invalid_entry_warning(e),
                    ).push(invalid_entry_warning(e)));
                },
            }
            proof {
                seen = seen.push(e);
            }
        }
        k += 1;
    }
    assert(tp.take(k as int) =~= tp);
    assert(seen == entries);
    if services.len() == 0 {
        let ghost wb = texts(warnings@);
        warnings.push(owned("SENTINEL_WATCH_PORTS produced no valid entries; using defaults"));
        assert(texts(warnings@) =~= wb.push(no_entries_warning()));
        return default_watch_services();
    }
    services
}

/// The watch list: the services that a nonblank `SENTINEL_WATCH_PORTS`
/// value names (`raw`), else the defaults.
pub fn watched_services_from_env(raw: Option<&str>, warnings: &mut Vec<String>) -> (r: Vec<
    WatchedService,
>)
    ensures
        match raw {
            Some(text) => if trim(text@).len() > 0 {
                &&& watch_entries(text@).filter(valid_entry()).len() == 0 ==> is_default_list(r@)
                &&& watch_entries(text@).filter(valid_entry()).len() > 0 ==> listed_services(
                    text@,
                    r@,
                )
                &&& texts(final(warnings)@) == texts(old(warnings)@) + watch_warnings(text@)
            } else {
                is_default_list(r@) && final(warnings)@ == old(warnings)@
            },
            None => is_default_list(r@) && final(warnings)@ == old(warnings)@,
        },
{
    match raw {
        Some(text) => {
            let t = crate::text::str_trim(text);
            if t.as_str().unicode_len() > 0 {
                parse_watch_ports(text, warnings)
            } else {
                default_watch_services()
            }
        },
        None => default_watch_services(),
    }
}

// ---------------------------------------------------------------------------
// Matching services to listeners
// ---------------------------------------------------------------------------

/// An address on which a listener accepts connections to every interface.
pub open spec fn is_wildcard(address: Seq<char>) -> bool {
    address == "0.0.0.0"@ || address == "*"@ || address == "::"@
}

/// A listener on `listener_address` serves a service watched at
/// `watched_address` when the addresses agree or the listener takes every
/// interface.
pub open spec fn addresses_match(listener_address: Seq<char>, watched_address: Seq<char>) -> bool {
    listener_address == watched_address || is_wildcard(listener_address)
}

/// Whether a listener on `listener_address` serves a service watched at `watched_address`.
pub fn address_matches(listener_address: &str, watched_address: &str) -> (r: bool)
    ensures
        r == addresses_match(listener_address@, watched_address@),
{
    str_eq(listener_address, watched_address) || str_eq(listener_address, "0.0.0.0") || str_eq(
        listener_address,
        "*",
    ) || str_eq(listener_address, "::")
}

/// The predicate "the listener serves the service".
pub open spec fn serves(service: WatchedService) -> spec_fn(Listener) -> bool {
    |l: Listener|
        l.protocol@ == service.protocol@ && l.port == service.port && addresses_match(
            l.local_address@,
            service.address@,
        )
}

/// The first listener that serves a service.
pub fn find_listener(listeners: &Vec<Listener>, service: &WatchedService) -> (r: Option<Listener>)
    ensures
        match first_where(listeners@, serves(*service), 0) {
            Some(k) => r == Some(listeners@[k]),
            None => r is None,
        },
        match r {
            Some(l) => l.port == service.port && l.protocol@ == service.protocol@ && (
            l.local_address@ == service.address@ || l.local_address@ == "0.0.0.0"@
                || l.local_address@ == "*"@ || l.local_address@ == "::"@),
            None => forall|k: int|
                0 <= k < listeners@.len() ==> !((#[trigger] listeners@[k]).port == service.port
                    && listeners@[k].protocol@ == service.protocol@ && (listeners@[k].local_address@
                    == service.address@ || listeners@[k].local_address@ == "0.0.0.0"@
                    || listeners@[k].local_address@ == "*"@ || listeners@[k].local_address@
                    == "::"@)),
        },
{
    proof {
        lemma_first_where(listeners@, serves(*service), 0);
    }
    let mut k: usize = 0;
    while k < listeners.len()
        invariant
            k <= listeners.len(),
            first_where(listeners@, serves(*service), 0) == first_where(
                listeners@,
                serves(*service),
                k as int,
            ),
        decreases listeners.len() - k,
    {
        let l = &listeners[k];
        if str_eq(l.protocol.as_str(), service.protocol.as_str()) && l.port == service.port
            && address_matches(l.local_address.as_str(), service.address.as_str()) {
            return Some(l.duplicate());
        }
        k += 1;
    }
    None
}

/// `st` reports on `s` with the listener found for it and the probe result `h`.
pub open spec fn status_of(
    listeners: Seq<Listener>,
    s: WatchedService,
    h: ServiceHealth,
    st: WatchedServiceStatus,
) -> bool {
    &&& st.name == s.name
    &&& st.category == s.category
    &&& st.protocol == s.protocol
    &&& st.address == s.address
    &&& st.port == s.port
    &&& st.expected == s.expected
    &&& st.health == h
    &&& match first_where(listeners, serves(s), 0) {
        Some(k) => st.listener == Some(listeners[k]),
        None => st.listener is None,
    }
}

/// The status of each watched service, from the host's listeners and the
/// probe results (one per service, in order).
pub fn collect_watched_services(
    listeners: &Vec<Listener>,
    watched: Vec<WatchedService>,
    healths: Vec<ServiceHealth>,
    warnings: Vec<String>,
) -> (r: WatchedServicesSnapshot)
    requires
        healths.len() == watched.len(),
    ensures
        r.services.len() == watched.len(),
        forall|k: int|
            0 <= k < watched.len() ==> status_of(
                listeners@,
                watched@[k],
                healths@[k],
                #[trigger] r.services@[k],
            ),
        r.warnings == warnings,
{
    let ghost ws = watched@;
    let ghost hs = healths@;
    let mut watched = watched;
    let mut healths = healths;
    let mut services: Vec<WatchedServiceStatus> = Vec::new();
    let mut k: usize = 0;
    let total = watched.len();
    assert(ws.skip(0) =~= ws);
    assert(hs.skip(0) =~= hs);
    while watched.len() > 0
        invariant
            k <= total == ws.len() == hs.len(),
            watched@ == ws.skip(k as int),
            healths@ == hs.skip(k as int),
            services@.len() == k,
            forall|j: int|
                0 <= j < k ==> status_of(listeners@, ws[j], hs[j], #[trigger] services@[j]),
        decreases watched.len(),
    {
        let service = watched.remove(0);
        let health = healths.remove(0);
        assert(service == ws[k as int] && health == hs[k as int]);
        let listener = find_listener(listeners, &service);
        services.push(
            WatchedServiceStatus {
                name: service.name,
                category: service.category,
                protocol: service.protocol,
                address: service.address,
                port: service.port,
                expected: service.expected,
                listener,
                health,
            },
        );
        k += 1;
        assert(watched@ =~= ws.skip(k as int));
        assert(healths@ =~= hs.skip(k as int));
    }
    WatchedServicesSnapshot { services, warnings }
}

} // verus!
