//! Properties of the library as a whole, stated over the specifications that
//! its functions' contracts use, and proved.

use vstd::prelude::*;

use crate::dashboard::{category_key, category_label, next_tab, previous_tab};
use crate::health::target_of;
use crate::listeners::{port_kind_of, severity_of, socket_of};
use crate::models::Listener;
use crate::sort::KeyOrder;
use crate::metrics::{cpu_deltas, ProcStatSample};
use crate::text::{
    decimal, decimal_digits, digit_char, first_stop, is_char, is_digit, last_index, parse_unsigned,
    unsigned_digits,
};
use crate::text::{
    first_where, is_ws, lemma_first_where, lemma_lex_antisym, lemma_lex_total, lemma_split_nonempty,
    lex_le, lowercase, split_pieces, trim,
};
use crate::watchlist::{
    addresses_match, expected_of, is_wildcard, serves, watch_entry, WatchEntry, WatchedService,
};

verus! {

// ---------------------------------------------------------------------------
// Decimal numbers
// ---------------------------------------------------------------------------

/// Every character of a decimal text is a digit.
pub proof fn lemma_decimal_digits_only(n: nat)
    ensures
        decimal(n).len() >= 1,
        forall|i: int| 0 <= i < decimal(n).len() ==> is_digit(#[trigger] decimal(n)[i]),
    decreases n,
{
    lemma_digit_char(n % 10);
    if n >= 10 {
        lemma_decimal_digits_only(n / 10);
    }
}

/// The character of a digit is a digit of that value.
proof fn lemma_digit_char(d: nat)
    requires
        d < 10,
    ensures
        is_digit(digit_char(d)),
        crate::text::digit_value(digit_char(d)) == d,
{
    if d == 0 {
        assert(digit_char(d) == '0');
    } else if d == 1 {
        assert(digit_char(d) == '1');
    } else if d == 2 {
        assert(digit_char(d) == '2');
    } else if d == 3 {
        assert(digit_char(d) == '3');
    } else if d == 4 {
        assert(digit_char(d) == '4');
    } else if d == 5 {
        assert(digit_char(d) == '5');
    } else if d == 6 {
        assert(digit_char(d) == '6');
    } else if d == 7 {
        assert(digit_char(d) == '7');
    } else if d == 8 {
        assert(digit_char(d) == '8');
    } else {
        assert(digit_char(d) == '9');
    }
}

/// Reading the decimal text of `n` back gives `n`, for every bound that `n` respects.
pub proof fn law_decimal_roundtrip(n: nat, max: nat)
    requires
        n <= max,
    ensures
        parse_unsigned(decimal(n), max) == Ok::<nat, crate::text::NumberError>(n),
    decreases n,
{
    lemma_decimal_digits_only(n);
    lemma_decimal_value(n, max);
    assert(unsigned_digits(decimal(n)) == decimal(n));
}

proof fn lemma_decimal_value(n: nat, max: nat)
    requires
        n <= max,
    ensures
        decimal_digits(decimal(n), max) == Ok::<nat, crate::text::NumberError>(n),
    decreases n,
{
    lemma_digit_char(n % 10);
    assert((n / 10) * 10 + n % 10 == n) by (nonlinear_arith);
    if n < 10 {
        assert(decimal(n).drop_last() =~= Seq::<char>::empty());
        assert(decimal_digits(Seq::<char>::empty(), max) == Ok::<nat, crate::text::NumberError>(0));
        assert(decimal(n).last() == digit_char(n));
        assert(n % 10 == n);
    } else {
        lemma_decimal_value(n / 10, max);
        assert(decimal(n).drop_last() =~= decimal(n / 10));
        assert(decimal(n).last() == digit_char(n % 10));
        assert(n / 10 <= max);
    }
}

// ---------------------------------------------------------------------------
// Sockets
// ---------------------------------------------------------------------------

/// A socket column `address:port`, with an address that does not start
/// with `[`, splits back into that address and port.
pub proof fn law_socket_roundtrip(address: Seq<char>, port: u16)
    requires
        address.len() > 0,
        address[0] != '[',
    ensures
        socket_of(address + ":"@ + decimal(port as nat)) == Some((address, port)),
{
    reveal_strlit(":");
    reveal_strlit("*");
    let d = decimal(port as nat);
    let raw = address + ":"@ + d;
    lemma_decimal_digits_only(port as nat);
    lemma_last_index_before_digits(address + ":"@, d);
    assert((address + ":"@ + d).len() != "*"@.len());
    assert(raw.take(address.len() as int) =~= address);
    assert(raw.skip(address.len() as int + 1) =~= d);
    law_decimal_roundtrip(port as nat, 0xffff);
}

/// A bracketed socket column `[address]:port`, with an address free of `]`,
/// splits back into that address (`*` when empty) and port.
pub proof fn law_bracketed_socket_roundtrip(address: Seq<char>, port: u16)
    requires
        forall|i: int| 0 <= i < address.len() ==> address[i] != ']',
    ensures
        socket_of("["@ + address + "]:"@ + decimal(port as nat)) == Some(
            (
                if address.len() == 0 {
                    "*"@
                } else {
                    address
                },
                port,
            ),
        ),
{
    reveal_strlit("[");
    reveal_strlit("]:");
    reveal_strlit("*");
    let d = decimal(port as nat);
    let raw = "["@ + address + "]:"@ + d;
    lemma_decimal_digits_only(port as nat);
    assert(raw.len() != "*"@.len());
    assert(raw[0] == '[');
    lemma_first_stop_skips(raw, is_char(']'), 0, address.len() as int + 1);
    assert(raw.subrange(1, address.len() as int + 1) =~= address);
    assert(raw.skip(address.len() as int + 3) =~= d);
    law_decimal_roundtrip(port as nat, 0xffff);
}

/// Scanning from `i`, the first stop is at `j` when nothing between stops and `j` does.
proof fn lemma_first_stop_skips(s: Seq<char>, stop: spec_fn(char) -> bool, i: int, j: int)
    requires
        0 <= i <= j < s.len(),
        stop(s[j]),
        forall|k: int| i <= k < j ==> !stop(s[k]),
    ensures
        first_stop(s, stop, i) == j,
    decreases j - i,
{
    if i < j {
        lemma_first_stop_skips(s, stop, i + 1, j);
    }
}

/// The last `:` of `a + d` is the last of `a` when `d` holds only digits.
proof fn lemma_last_index_before_digits(a: Seq<char>, d: Seq<char>)
    requires
        a.len() > 0,
        a.last() == ':',
        forall|i: int| 0 <= i < d.len() ==> is_digit(#[trigger] d[i]),
    ensures
        last_index(a + d, ':') == Some(a.len() - 1),
    decreases d.len(),
{
    if d.len() == 0 {
        assert(a + d =~= a);
    } else {
        assert((a + d).drop_last() =~= a + d.drop_last());
        lemma_last_index_before_digits(a, d.drop_last());
    }
}

// ---------------------------------------------------------------------------
// Exposure
// ---------------------------------------------------------------------------

/// The words of scopes and severities are distinct.
proof fn lemma_severity_words()
    ensures
        "ok"@ != "warning"@,
        "ok"@ != "danger"@,
        "warning"@ != "danger"@,
        "loopback"@ != "all-ifaces"@,
{
    reveal_strlit("ok");
    reveal_strlit("warning");
    reveal_strlit("danger");
    reveal_strlit("loopback");
    reveal_strlit("all-ifaces");
    assert("ok"@.len() == 2);
    assert("warning"@.len() == 7);
    assert("danger"@.len() == 6);
    assert("loopback"@.len() == 8);
    assert("all-ifaces"@.len() == 10);
}

/// The order of the severities: `ok`, `warning`, `danger`.
pub open spec fn severity_rank(s: Seq<char>) -> int {
    if s == "danger"@ {
        2
    } else if s == "warning"@ {
        1
    } else {
        0
    }
}

/// A unit that manages a listener never raises its severity.
pub proof fn law_managed_never_worse(scope: Seq<char>, port_kind: Seq<char>)
    ensures
        severity_rank(severity_of(scope, port_kind, true)) <= severity_rank(
            severity_of(scope, port_kind, false),
        ),
{
    lemma_severity_words();
}

/// A loopback listener is never `danger`.
pub proof fn law_loopback_never_danger(port_kind: Seq<char>, managed: bool)
    ensures
        severity_of("loopback"@, port_kind, managed) != "danger"@,
{
    lemma_severity_words();
}

/// Only a listener on all interfaces is `danger`.
pub proof fn law_danger_only_on_all_interfaces(scope: Seq<char>, port_kind: Seq<char>, managed: bool)
    ensures
        severity_of(scope, port_kind, managed) == "danger"@ ==> scope == "all-ifaces"@,
{
    lemma_severity_words();
}

/// A listener on all interfaces with a nonstandard port is `danger`,
/// managed or not.
pub proof fn law_nonstandard_on_all_interfaces_is_danger(managed: bool)
    ensures
        severity_of("all-ifaces"@, "nonstandard"@, managed) == "danger"@,
{
    lemma_severity_words();
}

// ---------------------------------------------------------------------------
// Watching
// ---------------------------------------------------------------------------

/// A listener on every interface serves a service watched at any address.
pub proof fn law_wildcard_listener_serves_every_address(listener: Seq<char>, watched: Seq<char>)
    requires
        is_wildcard(listener),
    ensures
        addresses_match(listener, watched),
{
}

/// A listener serves a service watched at its own address.
pub proof fn law_listener_serves_its_own_address(address: Seq<char>)
    ensures
        addresses_match(address, address),
{
}

/// Choosing the probe target twice changes nothing more.
pub proof fn law_target_idempotent(local_address: Seq<char>)
    ensures
        target_of(target_of(local_address)) == target_of(local_address),
{
    reveal_strlit("127.0.0.1");
    reveal_strlit("*");
    reveal_strlit("0.0.0.0");
    reveal_strlit("::");
    reveal_strlit("::1");
}

/// Text that contains no `c` splits at `c` into itself alone.
pub proof fn lemma_split_without(x: Seq<char>, c: char)
    requires
        !x.contains(c),
    ensures
        split_pieces(x, is_char(c)) == seq![x],
    decreases x.len(),
{
    if x.len() > 0 {
        assert(!x.drop_last().contains(c)) by {
            if x.drop_last().contains(c) {
                let i = choose|i: int| 0 <= i < x.drop_last().len() && x.drop_last()[i] == c;
                assert(x[i] == c);
            }
        }
        lemma_split_without(x.drop_last(), c);
        assert(x.drop_last().push(x.last()) =~= x);
        assert(x[x.len() - 1] != c);
    } else {
        assert(x =~= Seq::<char>::empty());
    }
}

/// Splitting `x`, a separator, then `y`, where `x` holds no separator, gives
/// `x` and then the pieces of `y`.
pub proof fn lemma_split_after(x: Seq<char>, c: char, y: Seq<char>)
    requires
        !x.contains(c),
    ensures
        split_pieces(x + seq![c] + y, is_char(c)) == seq![x] + split_pieces(y, is_char(c)),
    decreases y.len(),
{
    let s = x + seq![c] + y;
    if y.len() == 0 {
        lemma_split_without(x, c);
        assert(s.drop_last() =~= x);
        assert(seq![x].push(Seq::<char>::empty()) =~= seq![x] + seq![Seq::<char>::empty()]);
    } else {
        lemma_split_after(x, c, y.drop_last());
        assert(s.drop_last() =~= x + seq![c] + y.drop_last());
        lemma_split_nonempty(y.drop_last(), is_char(c));
        let p = split_pieces(y.drop_last(), is_char(c));
        if y.last() == c {
            assert((seq![x] + p).push(Seq::<char>::empty()) =~= seq![x] + p.push(
                Seq::<char>::empty(),
            ));
        } else {
            assert((seq![x] + p).update(p.len() as int, p.last().push(y.last())) =~= seq![x]
                + p.update(p.len() - 1, p.last().push(y.last())));
        }
    }
}

/// Text that neither begins nor ends with whitespace trims to itself.
pub proof fn lemma_trim_clean(x: Seq<char>)
    requires
        x.len() > 0 ==> !is_ws(x[0]) && !is_ws(x.last()),
    ensures
        trim(x) == x,
{
}

/// Writing a watch entry `name:protocol:address:port` and reading it back
/// gives the same service, expected up: for a name and an address that are
/// nonempty, hold no `:` and are not padded with whitespace, and a protocol
/// `tcp` or `udp`.
pub proof fn law_watch_entry_roundtrip(
    name: Seq<char>,
    protocol: Seq<char>,
    address: Seq<char>,
    port: u16,
)
    requires
        name.len() > 0 && !is_ws(name[0]) && !is_ws(name.last()) && !name.contains(':'),
        address.len() > 0 && !is_ws(address[0]) && !is_ws(address.last()) && !address.contains(
            ':',
        ),
        protocol == "tcp"@ || protocol == "udp"@,
    ensures
        watch_entry(name + ":"@ + protocol + ":"@ + address + ":"@ + decimal(port as nat)) == Some(
            WatchEntry { name, protocol, address, port, expected: true },
        ),
{
    reveal_strlit(":");
    reveal_strlit("tcp");
    reveal_strlit("udp");
    let d = decimal(port as nat);
    let colon = seq![':'];
    assert(":"@ =~= colon);
    let entry = name + ":"@ + protocol + ":"@ + address + ":"@ + d;
    lemma_decimal_digits_only(port as nat);
    assert(!d.contains(':'));
    assert(!protocol.contains(':'));
    lemma_split_without(d, ':');
    lemma_split_after(address, ':', d);
    lemma_split_after(protocol, ':', address + colon + d);
    lemma_split_after(name, ':', protocol + colon + (address + colon + d));
    assert(entry =~= name + colon + (protocol + colon + (address + colon + d)));
    let parts = split_pieces(entry, is_char(':'));
    assert(parts =~= seq![name, protocol, address, d]);
    lemma_trim_clean(name);
    lemma_trim_clean(address);
    lemma_trim_clean(protocol);
    assert(!is_ws(d[0]) && !is_ws(d.last()));
    lemma_trim_clean(d);
    assert(lowercase(protocol) =~= protocol);
    law_decimal_roundtrip(port as nat, 0xffff);
}

/// Writing a watch entry `name:protocol:address:port:flag` and reading it
/// back gives the same service, expected up or not as the flag says.
pub proof fn law_watch_entry_with_flag_roundtrip(
    name: Seq<char>,
    protocol: Seq<char>,
    address: Seq<char>,
    port: u16,
    flag: Seq<char>,
)
    requires
        name.len() > 0 && !is_ws(name[0]) && !is_ws(name.last()) && !name.contains(':'),
        address.len() > 0 && !is_ws(address[0]) && !is_ws(address.last()) && !address.contains(
            ':',
        ),
        protocol == "tcp"@ || protocol == "udp"@,
        flag.len() > 0 && !is_ws(flag[0]) && !is_ws(flag.last()) && !flag.contains(':'),
        expected_of(flag) is Some,
    ensures
        watch_entry(
            name + ":"@ + protocol + ":"@ + address + ":"@ + decimal(port as nat) + ":"@ + flag,
        ) == Some(
            WatchEntry { name, protocol, address, port, expected: expected_of(flag)->Some_0 },
        ),
{
    reveal_strlit(":");
    reveal_strlit("tcp");
    reveal_strlit("udp");
    let d = decimal(port as nat);
    let colon = seq![':'];
    assert(":"@ =~= colon);
    let entry = name + ":"@ + protocol + ":"@ + address + ":"@ + d + ":"@ + flag;
    lemma_decimal_digits_only(port as nat);
    assert(!d.contains(':'));
    assert(!protocol.contains(':'));
    lemma_split_without(flag, ':');
    lemma_split_after(d, ':', flag);
    lemma_split_after(address, ':', d + colon + flag);
    lemma_split_after(protocol, ':', address + colon + (d + colon + flag));
    lemma_split_after(name, ':', protocol + colon + (address + colon + (d + colon + flag)));
    assert(entry =~= name + colon + (protocol + colon + (address + colon + (d + colon + flag))));
    let parts = split_pieces(entry, is_char(':'));
    assert(parts =~= seq![name, protocol, address, d, flag]);
    lemma_trim_clean(name);
    lemma_trim_clean(address);
    lemma_trim_clean(protocol);
    lemma_trim_clean(flag);
    assert(!is_ws(d[0]) && !is_ws(d.last()));
    lemma_trim_clean(d);
    assert(lowercase(protocol) =~= protocol);
    law_decimal_roundtrip(port as nat, 0xffff);
}

// ---------------------------------------------------------------------------
// Metrics
// ---------------------------------------------------------------------------

/// The busy time between two samples never exceeds the time that passed, so
/// the CPU usage lies between 0 and 100 percent.
pub proof fn law_cpu_busy_within_total(first: ProcStatSample, second: ProcStatSample)
    ensures
        cpu_deltas(first, second) matches Some((busy, total)) ==> 0 < total && busy <= total,
{
}

// ---------------------------------------------------------------------------
// Dashboard tabs
// ---------------------------------------------------------------------------

/// Going back a tab undoes going forward one.
pub proof fn law_previous_undoes_next(tab: usize)
    requires
        tab < 5,
    ensures
        previous_tab(next_tab(tab)) == tab,
{
}

/// Going forward a tab undoes going back one.
pub proof fn law_next_undoes_previous(tab: usize)
    requires
        tab < 5,
    ensures
        next_tab(previous_tab(tab)) == tab,
{
}

/// Five steps forward come back to the same tab.
pub proof fn law_five_tabs_cycle(tab: usize)
    requires
        tab < 5,
    ensures
        next_tab(next_tab(next_tab(next_tab(next_tab(tab))))) == tab,
{
}


// ---------------------------------------------------------------------------
// Port kinds
// ---------------------------------------------------------------------------

/// The well-known TCP ports (FTP, SSH, SMTP, DNS, HTTP, POP3, RPC, NetBIOS,
/// IMAP, LDAP, HTTPS, SMB, mail submission, IPP, rsync, NFS, Docker Swarm,
/// MySQL, PostgreSQL, VNC, Redis, Kubernetes, the common HTTP alternates)
/// are standard, and every other TCP port is nonstandard; a managed
/// listener on all interfaces is `ok` exactly on those ports.
pub proof fn law_well_known_tcp_ports(port: u16)
    ensures
        (port == 20 || port == 21 || port == 22 || port == 25 || port == 53 || port == 80
            || port == 110 || port == 111 || port == 135 || port == 139 || port == 143
            || port == 389 || port == 443 || port == 445 || port == 465 || port == 587
            || port == 631 || port == 636 || port == 873 || port == 993 || port == 995
            || port == 2049 || port == 2377 || port == 3306 || port == 5432 || port == 5900
            || port == 6379 || port == 6443 || port == 8080 || port == 8443 || port == 9000
            || port == 9090) <==> port_kind_of("tcp"@, port) == "standard"@,
        port_kind_of("tcp"@, port) == "standard"@ || port_kind_of("tcp"@, port) == "nonstandard"@,
        port_kind_of("tcp"@, port) == "standard"@ <==> severity_of(
            "all-ifaces"@,
            port_kind_of("tcp"@, port),
            true,
        ) == "ok"@,
{
    reveal_strlit("tcp");
    reveal_strlit("udp");
    reveal_strlit("standard");
    reveal_strlit("nonstandard");
    reveal_strlit("all-ifaces");
    reveal_strlit("loopback");
    reveal_strlit("ok");
    reveal_strlit("danger");
    reveal_strlit("warning");
    assert("tcp"@[0] != "udp"@[0]);
    assert("standard"@.len() != "nonstandard"@.len());
    assert("all-ifaces"@.len() != "loopback"@.len());
    assert("ok"@.len() != "danger"@.len() && "ok"@.len() != "warning"@.len());
}

/// The well-known UDP ports (DNS, DHCP, TFTP, RPC, NTP, NetBIOS, SNMP,
/// IKE, syslog, IPP) are standard, and every other UDP port is nonstandard.
pub proof fn law_well_known_udp_ports(port: u16)
    ensures
        (port == 53 || port == 67 || port == 68 || port == 69 || port == 111 || port == 123
            || port == 137 || port == 138 || port == 161 || port == 162 || port == 500
            || port == 514 || port == 631) <==> port_kind_of("udp"@, port) == "standard"@,
{
    reveal_strlit("tcp");
    reveal_strlit("udp");
    reveal_strlit("standard");
    reveal_strlit("nonstandard");
    assert("tcp"@[0] != "udp"@[0]);
    assert("standard"@.len() != "nonstandard"@.len());
}

// ---------------------------------------------------------------------------
// Listener order
// ---------------------------------------------------------------------------

/// Listeners are ordered by port first; on the same port by protocol; on
/// the same port and protocol by local address.
pub proof fn law_listener_order(a: Listener, b: Listener)
    ensures
        a.port < b.port ==> a.key_le(b) && !b.key_le(a),
        a.port == b.port && lex_le(a.protocol@, b.protocol@) && a.protocol@ != b.protocol@
            ==> a.key_le(b) && !b.key_le(a),
        a.port == b.port && a.protocol@ == b.protocol@ ==> (a.key_le(b) <==> lex_le(
            a.local_address@,
            b.local_address@,
        )),
        a.key_le(b) ==> a.port <= b.port,
        a.key_le(b) && a.port == b.port ==> lex_le(a.protocol@, b.protocol@),
{
    lemma_lex_total(a.protocol@, b.protocol@, 0);
    lemma_lex_total(a.protocol@, a.protocol@, 0);
    if lex_le(a.protocol@, b.protocol@) && lex_le(b.protocol@, a.protocol@) {
        lemma_lex_antisym(a.protocol@, b.protocol@);
    }
}

// ---------------------------------------------------------------------------
// Watched services and their listeners
// ---------------------------------------------------------------------------

/// A listener serves a watched service exactly when it speaks the service's
/// protocol on the service's port, at the service's address or on every
/// interface (`0.0.0.0`, `*`, `::`).
pub proof fn law_serving_listener_matches_service(s: WatchedService, l: Listener)
    ensures
        serves(s)(l) <==> (l.port == s.port && l.protocol@ == s.protocol@ && (l.local_address@
            == s.address@ || l.local_address@ == "0.0.0.0"@ || l.local_address@ == "*"@
            || l.local_address@ == "::"@)),
{
}

/// The listener found for a watched service is the first one on the
/// service's port and protocol at a matching address; when none is found,
/// no listener is on that port and protocol at a matching address.
pub proof fn law_found_listener_is_on_service_port(ls: Seq<Listener>, s: WatchedService)
    ensures
        match first_where(ls, serves(s), 0) {
            Some(k) => 0 <= k < ls.len() && ls[k].port == s.port && ls[k].protocol@ == s.protocol@
                && forall|j: int|
                0 <= j < k ==> !((#[trigger] ls[j]).port == s.port && ls[j].protocol@
                    == s.protocol@ && (ls[j].local_address@ == s.address@
                    || ls[j].local_address@ == "0.0.0.0"@ || ls[j].local_address@ == "*"@
                    || ls[j].local_address@ == "::"@)),
            None => forall|j: int|
                0 <= j < ls.len() ==> !((#[trigger] ls[j]).port == s.port && ls[j].protocol@
                    == s.protocol@ && (ls[j].local_address@ == s.address@
                    || ls[j].local_address@ == "0.0.0.0"@ || ls[j].local_address@ == "*"@
                    || ls[j].local_address@ == "::"@)),
        },
{
    lemma_first_where(ls, serves(s), 0);
}

// ---------------------------------------------------------------------------
// Expected flags
// ---------------------------------------------------------------------------

/// The flag words `true`, `yes`, `up`, `expected` and `1` read as expected
/// up, and `false`, `no`, `down`, `optional` and `0` as not expected, in any
/// ASCII case; any other word does not read.
pub proof fn law_expected_flag_words(raw: Seq<char>)
    ensures
        lowercase(raw) == "true"@ || lowercase(raw) == "yes"@ || lowercase(raw) == "up"@
            || lowercase(raw) == "expected"@ || lowercase(raw) == "1"@ ==> expected_of(raw)
            == Some(true),
        lowercase(raw) == "false"@ || lowercase(raw) == "no"@ || lowercase(raw) == "down"@
            || lowercase(raw) == "optional"@ || lowercase(raw) == "0"@ ==> expected_of(raw)
            == Some(false),
        expected_of(raw) is Some ==> lowercase(raw) == "true"@ || lowercase(raw) == "yes"@
            || lowercase(raw) == "up"@ || lowercase(raw) == "expected"@ || lowercase(raw) == "1"@
            || lowercase(raw) == "false"@ || lowercase(raw) == "no"@ || lowercase(raw)
            == "down"@ || lowercase(raw) == "optional"@ || lowercase(raw) == "0"@,
{
    reveal_strlit("true");
    reveal_strlit("yes");
    reveal_strlit("up");
    reveal_strlit("expected");
    reveal_strlit("1");
    reveal_strlit("false");
    reveal_strlit("no");
    reveal_strlit("down");
    reveal_strlit("optional");
    reveal_strlit("0");
    let l = lowercase(raw);
    let t = l == "true"@ || l == "yes"@ || l == "up"@ || l == "expected"@ || l == "1"@;
    if l == "false"@ || l == "no"@ || l == "down"@ || l == "optional"@ || l == "0"@ {
        assert(!t) by {
            if l == "false"@ {
                assert(l.len() == 5);
            } else if l == "no"@ {
                assert(l[0] == 'n');
            } else if l == "down"@ {
                assert(l[0] == 'd');
            } else if l == "optional"@ {
                assert(l[0] == 'o');
            } else {
                assert(l[0] == '0');
            }
        }
    }
}

// ---------------------------------------------------------------------------
// Tab labels
// ---------------------------------------------------------------------------

/// Each tab is labelled by its key with the first letter capitalised:
/// `All`, `Web`, `Infra`, `Hermes`, `Game`.
pub proof fn law_tab_label_capitalises_key(i: int)
    ensures
        category_label(i).len() == category_key(i).len(),
        category_key(i).len() > 0,
        'a' <= category_key(i)[0] <= 'z',
        category_label(i)[0] as int == category_key(i)[0] as int - 32,
        category_label(i).skip(1) == category_key(i).skip(1),
{
    reveal_strlit("all");
    reveal_strlit("web");
    reveal_strlit("infra");
    reveal_strlit("hermes");
    reveal_strlit("game");
    reveal_strlit("All");
    reveal_strlit("Web");
    reveal_strlit("Infra");
    reveal_strlit("Hermes");
    reveal_strlit("Game");
    assert(category_label(i).skip(1) =~= category_key(i).skip(1));
}

} // verus!
