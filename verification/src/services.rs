//! Processes and their systemd units: cgroup parsing, `systemctl` and
//! `journalctl` output, and the service detail record.

use vstd::prelude::*;

use crate::models::{opt_view, texts, ServiceDetails, SystemdUnitState, UnitRef};
use crate::text::{
    chars_of, concat3, concat4, decimal, decimal_text, first_where, has_prefix, has_suffix,
    is_char, last_index, last_of, last_where, lemma_filter_push, line_ranges, lines, lossy_text,
    nonempty, owned, parse_u32_range, parse_unsigned, range_ends_with, range_starts_with,
    range_texts, ranges_within, split_pieces, split_ranges, str_trim, substring, trim, trim_bounds,
    trim_end, trim_end_bound, utf8_lossy,
};

verus! {

// ---------------------------------------------------------------------------
// cgroup lines
// ---------------------------------------------------------------------------

/// The path part of a `/proc/<pid>/cgroup` line: what follows its last `:`.
pub open spec fn cgroup_tail(line: Seq<char>) -> Seq<char> {
    match last_index(line, ':') {
        Some(i) => line.skip(i + 1),
        None => line,
    }
}

/// The segments of the cgroup path of a line.
pub open spec fn cgroup_segments(line: Seq<char>) -> Seq<Seq<char>> {
    split_pieces(cgroup_tail(line), is_char('/'))
}

/// A path segment that names a unit: a service, a socket or a scope.
pub open spec fn is_unit_segment(seg: Seq<char>) -> bool {
    has_suffix(seg, ".service"@) || has_suffix(seg, ".socket"@) || has_suffix(seg, ".scope"@)
}

/// The predicate `is_unit_segment`.
pub open spec fn unit_segment() -> spec_fn(Seq<char>) -> bool {
    |seg: Seq<char>| is_unit_segment(seg)
}

/// A path segment that is a per-user service manager (`user@<uid>.service`).
pub open spec fn is_user_manager(seg: Seq<char>) -> bool {
    has_prefix(seg, "user@"@) && has_suffix(seg, ".service"@)
}

/// The unit that a cgroup line names, its innermost unit segment, and
/// whether a per-user service manager runs it.
pub open spec fn cgroup_unit(line: Seq<char>) -> Option<(Seq<char>, bool)> {
    let segs = cgroup_segments(line);
    match last_where(segs, unit_segment()) {
        None => None,
        Some(k) => Some(
            (segs[k], exists|j: int| 0 <= j < segs.len() && is_user_manager(#[trigger] segs[j])),
        ),
    }
}

fn is_unit_range(v: &Vec<char>, a: usize, b: usize) -> (r: bool)
    requires
        a <= b <= v.len(),
    ensures
        r == is_unit_segment(v@.subrange(a as int, b as int)),
{
    range_ends_with(v, a, b, ".service") || range_ends_with(v, a, b, ".socket")
        || range_ends_with(v, a, b, ".scope")
}

fn is_user_range(v: &Vec<char>, a: usize, b: usize) -> (r: bool)
    requires
        a <= b <= v.len(),
    ensures
        r == is_user_manager(v@.subrange(a as int, b as int)),
{
    range_starts_with(v, a, b, "user@") && range_ends_with(v, a, b, ".service")
}

/// The unit that a `/proc/<pid>/cgroup` line names, and whether it runs
/// under a per-user service manager.
pub fn parse_unit_from_cgroup_line(line: &str) -> (r: Option<(String, bool)>)
    ensures
        match r {
            Some(p) => cgroup_unit(line@) == Some((p.0@, p.1)),
            None => cgroup_unit(line@) is None,
        },
{
    let v = chars_of(line);
    let n = v.len();
    assert(v@.subrange(0, n as int) =~= v@);
    let t = match last_of(&v, 0, n, ':') {
        Some(i) => i + 1,
        None => 0,
    };
    assert(v@.subrange(t as int, n as int) == cgroup_tail(line@)) by {
        assert(line@.skip(t as int) =~= v@.subrange(t as int, n as int));
    }
    let segs = split_ranges(&v, t, n, '/');
    let ghost all = range_texts(v@, segs@);
    assert(all == cgroup_segments(line@));
    assert(all.len() == segs@.len());
    let mut k = segs.len();
    assert(all.take(k as int) =~= all);
    while k > 0 && !is_unit_range(&v, segs[k - 1].0, segs[k - 1].1)
        invariant
            k <= segs@.len() == all.len(),
            all == range_texts(v@, segs@),
            ranges_within(segs@, t as int, n as int),
            n == v@.len(),
            last_where(all, unit_segment()) == last_where(all.take(k as int), unit_segment()),
        decreases k,
    {
        assert(segs@[k - 1] == segs[k - 1]);
        assert(all.take(k as int).drop_last() =~= all.take(k - 1));
        k -= 1;
    }
    if k == 0 {
        return None;
    }
    let (a, b) = segs[k - 1];
    assert(segs@[k - 1] == (a, b));
    assert(all.take(k as int).last() == all[k - 1]);
    let unit = substring(line, a, b);
    let mut j: usize = 0;
    while j < segs.len() && !is_user_range(&v, segs[j].0, segs[j].1)
        invariant
            j <= segs@.len() == all.len(),
            all == range_texts(v@, segs@),
            ranges_within(segs@, t as int, n as int),
            n == v@.len(),
            forall|i: int| 0 <= i < j ==> !is_user_manager(#[trigger] all[i]),
        decreases segs.len() - j,
    {
        assert(segs@[j as int] == segs[j as int]);
        j += 1;
    }
    let is_user = j < segs.len();
    if is_user {
        assert(segs@[j as int] == segs[j as int]);
        assert(is_user_manager(all[j as int]));
    }
    Some((unit, is_user))
}

/// The predicate "the line names a unit".
pub open spec fn unit_line() -> spec_fn(Seq<char>) -> bool {
    |line: Seq<char>| cgroup_unit(line) is Some
}

/// `u` is the unit of the first line of a cgroup file that names one.
pub open spec fn resolved_unit(content: Seq<char>, u: UnitRef) -> bool {
    match first_where(lines(content), unit_line(), 0) {
        Some(k) => cgroup_unit(lines(content)[k]) == Some((u.unit@, u.is_user)) && u.cgroup_path@
            == lines(content)[k],
        None => false,
    }
}

/// The unit of a process, from the contents of its `/proc/<pid>/cgroup`.
pub fn resolve_unit_for_pid(cgroup: &str) -> (r: Option<UnitRef>)
    ensures
        match r {
            Some(u) => resolved_unit(cgroup@, u),
            None => first_where(lines(cgroup@), unit_line(), 0) is None,
        },
{
    let v = chars_of(cgroup);
    let n = v.len();
    let ranges = line_ranges(&v, 0, n);
    assert(v@.subrange(0, n as int) =~= cgroup@);
    let ghost all = lines(cgroup@);
    assert(range_texts(v@, ranges@).len() == ranges@.len());
    let mut k: usize = 0;
    while k < ranges.len()
        invariant
            all == range_texts(v@, ranges@),
            all == lines(cgroup@),
            all.len() == ranges@.len(),
            v@ == cgroup@,
            ranges_within(ranges@, 0, n as int),
            n == v@.len(),
            k <= ranges.len(),
            first_where(all, unit_line(), 0) == first_where(all, unit_line(), k as int),
        decreases ranges.len() - k,
    {
        let (a, b) = ranges[k];
        assert(ranges@[k as int] == (a, b));
        let line = substring(cgroup, a, b);
        assert(line@ == all[k as int]);
        match parse_unit_from_cgroup_line(line.as_str()) {
            Some((unit, is_user)) => {
                return Some(UnitRef { unit, is_user, cgroup_path: line });
            },
            None => {},
        }
        k += 1;
    }
    None
}

/// The path of the cgroup file of a process.
pub fn cgroup_file(pid: u32) -> (r: String)
    ensures
        r@ == "/proc/"@ + decimal(pid as nat) + "/cgroup"@,
{
    let p = decimal_text(pid as u128);
    concat3("/proc/", p.as_str(), "/cgroup")
}

/// The path of the command line file of a process.
pub fn cmdline_file(pid: u32) -> (r: String)
    ensures
        r@ == "/proc/"@ + decimal(pid as nat) + "/cmdline"@,
{
    let p = decimal_text(pid as u128);
    concat3("/proc/", p.as_str(), "/cmdline")
}

// ---------------------------------------------------------------------------
// systemctl show
// ---------------------------------------------------------------------------

/// The predicate "the line sets `key`".
pub open spec fn sets_key(key: Seq<char>) -> spec_fn(Seq<char>) -> bool {
    |line: Seq<char>| has_prefix(line, key.push('='))
}

/// The value of the first `key=value` line of a `systemctl show` output.
pub open spec fn field_of(text: Seq<char>, key: Seq<char>) -> Option<Seq<char>> {
    match first_where(lines(text), sets_key(key), 0) {
        Some(k) => Some(lines(text)[k].skip(key.len() as int + 1)),
        None => None,
    }
}

/// A missing field read as empty text.
pub open spec fn or_empty(o: Option<Seq<char>>) -> Seq<char> {
    match o {
        Some(s) => s,
        None => Seq::empty(),
    }
}

/// A field that is missing or empty read as absent.
pub open spec fn non_empty(o: Option<Seq<char>>) -> Option<Seq<char>> {
    match o {
        Some(s) => if s.len() > 0 {
            Some(s)
        } else {
            None
        },
        None => None,
    }
}

/// A field read as a process id, absent when missing or not a `u32`.
pub open spec fn pid_field(o: Option<Seq<char>>) -> Option<u32> {
    match o {
        Some(s) => match parse_unsigned(s, 0xffff_ffff) {
            Ok(n) => Some(n as u32),
            Err(_) => None,
        },
        None => None,
    }
}

/// `st` is the state that a `systemctl show` output describes.
pub open spec fn shown_state(text: Seq<char>, is_user: bool, st: SystemdUnitState) -> bool {
    &&& field_of(text, "Id"@) == Some(st.unit@)
    &&& st.description@ == or_empty(field_of(text, "Description"@))
    &&& st.load_state@ == or_empty(field_of(text, "LoadState"@))
    &&& st.active_state@ == or_empty(field_of(text, "ActiveState"@))
    &&& st.sub_state@ == or_empty(field_of(text, "SubState"@))
    &&& opt_view(st.fragment_path) == non_empty(field_of(text, "FragmentPath"@))
    &&& opt_view(st.unit_file_state) == non_empty(field_of(text, "UnitFileState"@))
    &&& st.main_pid == pid_field(field_of(text, "MainPID"@))
    &&& st.is_user == is_user
}

/// The range of the value of the first line of `v` (split at `ranges`) that sets `key`.
fn find_field(v: &Vec<char>, ranges: &Vec<(usize, usize)>, key: &str) -> (r: Option<
    (usize, usize),
>)
    requires
        ranges_within(ranges@, 0, v@.len() as int),
    ensures
        match r {
            Some(p) => p.0 <= p.1 <= v@.len() && match first_where(
                range_texts(v@, ranges@),
                sets_key(key@),
                0,
            ) {
                Some(k) => v@.subrange(p.0 as int, p.1 as int) == range_texts(v@, ranges@)[k].skip(
                    key@.len() as int + 1,
                ),
                None => false,
            },
            None => first_where(range_texts(v@, ranges@), sets_key(key@), 0) is None,
        },
{
    let mut pat = chars_of(key);
    pat.push('=');
    let ghost all = range_texts(v@, ranges@);
    assert(all.len() == ranges@.len());
    let mut k: usize = 0;
    while k < ranges.len()
        invariant
            all == range_texts(v@, ranges@),
            all.len() == ranges@.len(),
            ranges_within(ranges@, 0, v@.len() as int),
            pat@ == key@.push('='),
            k <= ranges.len(),
            first_where(all, sets_key(key@), 0) == first_where(all, sets_key(key@), k as int),
        decreases ranges.len() - k,
    {
        let (a, b) = ranges[k];
        assert(ranges@[k as int] == (a, b));
        assert(all[k as int] == v@.subrange(a as int, b as int));
        if pat.len() <= b - a && crate::text::matches_at(v, a, &pat) {
            assert(all[k as int].take(pat.len() as int) =~= v@.subrange(a as int, a + pat.len()));
            assert(all[k as int].skip(key@.len() as int + 1) =~= v@.subrange(a + pat.len(), b as int));
            return Some((a + pat.len(), b));
        }
        assert(!has_prefix(all[k as int], pat@)) by {
            if pat.len() <= b - a {
                assert(all[k as int].take(pat.len() as int) =~= v@.subrange(
                    a as int,
                    a + pat.len(),
                ));
            }
        }
        k += 1;
    }
    None
}

/// The value of a field as text, missing fields absent.
fn field_text(text: &str, v: &Vec<char>, ranges: &Vec<(usize, usize)>, key: &str) -> (r: Option<
    String,
>)
    requires
        v@ == text@,
        ranges_within(ranges@, 0, v@.len() as int),
        range_texts(v@, ranges@) == lines(text@),
    ensures
        opt_view(r) == field_of(text@, key@),
{
    match find_field(v, ranges, key) {
        Some((a, b)) => Some(substring(text, a, b)),
        None => None,
    }
}

/// The text of an optional field, empty when missing.
fn unwrap_or_empty(o: Option<String>) -> (r: String)
    ensures
        r@ == or_empty(opt_view(o)),
{
    match o {
        Some(s) => s,
        None => {
            proof {
                reveal_strlit("");
            }
            let e = owned("");
            assert(e@ =~= Seq::<char>::empty());
            e
        },
    }
}

/// An optional field with the empty value dropped.
fn drop_empty(o: Option<String>) -> (r: Option<String>)
    ensures
        opt_view(r) == non_empty(opt_view(o)),
{
    match o {
        Some(s) => if s.as_str().unicode_len() > 0 {
            Some(s)
        } else {
            None
        },
        None => None,
    }
}

/// Reads the state of a unit from `systemctl show` output, for a unit of
/// the system manager (`is_user` false) or of a user manager.
pub fn parse_systemctl_show_with_scope(text: &str, is_user: bool) -> (r: Option<SystemdUnitState>)
    ensures
        match r {
            Some(st) => shown_state(text@, is_user, st),
            None => field_of(text@, "Id"@) is None,
        },
{
    let v = chars_of(text);
    let n = v.len();
    let ranges = line_ranges(&v, 0, n);
    assert(v@.subrange(0, n as int) =~= text@);
    let unit = match field_text(text, &v, &ranges, "Id") {
        Some(u) => u,
        None => {
            return None;
        },
    };
    let description = unwrap_or_empty(field_text(text, &v, &ranges, "Description"));
    let load_state = unwrap_or_empty(field_text(text, &v, &ranges, "LoadState"));
    let active_state = unwrap_or_empty(field_text(text, &v, &ranges, "ActiveState"));
    let sub_state = unwrap_or_empty(field_text(text, &v, &ranges, "SubState"));
    let fragment_path = drop_empty(field_text(text, &v, &ranges, "FragmentPath"));
    let unit_file_state = drop_empty(field_text(text, &v, &ranges, "UnitFileState"));
    let main_pid = match find_field(&v, &ranges, "MainPID") {
        Some((a, b)) => parse_u32_range(&v, a, b),
        None => None,
    };
    Some(
        SystemdUnitState {
            unit,
            description,
            load_state,
            active_state,
            sub_state,
            fragment_path,
            unit_file_state,
            main_pid,
            is_user,
        },
    )
}

/// Reads the state of a system unit from `systemctl show` output.
pub fn parse_systemctl_show(text: &str) -> (r: Option<SystemdUnitState>)
    ensures
        match r {
            Some(st) => shown_state(text@, false, st),
            None => field_of(text@, "Id"@) is None,
        },
{
    parse_systemctl_show_with_scope(text, false)
}


// ---------------------------------------------------------------------------
// Commands
// ---------------------------------------------------------------------------

/// A program to run and its arguments.
#[derive(Debug)]
pub struct CommandSpec {
    pub program: String,
    pub args: Vec<String>,
}

/// What running a command gave.
#[derive(Debug)]
pub enum CommandOutcome {
    /// The command ran; `status` is how its exit status reads.
    Exited { success: bool, status: String, stdout: Vec<u8>, stderr: Vec<u8> },
    /// The command could not be started.
    LaunchFailed { error: String },
}

/// The properties that `systemctl show` is asked for.
pub open spec fn show_properties() -> Seq<char> {
    "Id,Description,LoadState,ActiveState,SubState,FragmentPath,UnitFileState,MainPID,ExecMainPID"@
}

/// The `--user` flag for units of a user manager.
pub open spec fn user_flag(is_user: bool) -> Seq<Seq<char>> {
    if is_user {
        seq!["--user"@]
    } else {
        Seq::empty()
    }
}

/// Appends the texts of `parts` to `args`, as owned strings.
fn push_all(args: &mut Vec<String>, parts: &Vec<&str>)
    ensures
        texts(final(args)@) == texts(old(args)@) + parts@.map_values(|s: &str| s@),
{
    let ghost start = texts(args@);
    let mut k: usize = 0;
    assert(parts@.take(0).map_values(|s: &str| s@) =~= Seq::<Seq<char>>::empty());
    assert(start + Seq::<Seq<char>>::empty() =~= start);
    while k < parts.len()
        invariant
            k <= parts.len(),
            texts(args@) == start + parts@.take(k as int).map_values(|s: &str| s@),
        decreases parts.len() - k,
    {
        let ghost before = texts(args@);
        args.push(owned(parts[k]));
        assert(texts(args@) =~= before.push(parts@[k as int]@));
        assert(parts@.take(k + 1).map_values(|s: &str| s@) =~= parts@.take(k as int).map_values(
            |s: &str| s@,
        ).push(parts@[k as int]@));
        k += 1;
    }
    assert(parts@.take(k as int) =~= parts@);
}

/// A command of `program` whose arguments begin with `--user` for a user unit.
fn unit_command(program: &str, unit: &UnitRef, parts: &Vec<&str>) -> (r: CommandSpec)
    ensures
        r.program@ == program@,
        texts(r.args@) == user_flag(unit.is_user) + parts@.map_values(|s: &str| s@),
{
    let mut args: Vec<String> = Vec::new();
    assert(texts(args@) =~= Seq::<Seq<char>>::empty());
    if unit.is_user {
        args.push(owned("--user"));
        assert(texts(args@) =~= seq!["--user"@]);
    }
    push_all(&mut args, parts);
    CommandSpec { program: owned(program), args }
}

/// `systemctl show` for the state of a unit.
pub fn systemctl_show_command(unit: &UnitRef) -> (r: CommandSpec)
    ensures
        r.program@ == "systemctl"@,
        texts(r.args@) == user_flag(unit.is_user) + seq![
            "show"@,
            unit.unit@,
            "--property"@,
            show_properties(),
            "--no-pager"@,
        ],
{
    let parts = vec![
        "show",
        unit.unit.as_str(),
        "--property",
        "Id,Description,LoadState,ActiveState,SubState,FragmentPath,UnitFileState,MainPID,ExecMainPID",
        "--no-pager",
    ];
    let r = unit_command("systemctl", unit, &parts);
    assert(parts@.map_values(|s: &str| s@) =~= seq![
        "show"@,
        unit.unit@,
        "--property"@,
        show_properties(),
        "--no-pager"@,
    ]);
    r
}

/// `systemctl status` for the last 20 lines about a unit.
pub fn systemctl_status_command(unit: &UnitRef) -> (r: CommandSpec)
    ensures
        r.program@ == "systemctl"@,
        texts(r.args@) == user_flag(unit.is_user) + seq![
            "status"@,
            unit.unit@,
            "--no-pager"@,
            "--lines"@,
            "20"@,
        ],
{
    let parts = vec!["status", unit.unit.as_str(), "--no-pager", "--lines", "20"];
    let r = unit_command("systemctl", unit, &parts);
    assert(parts@.map_values(|s: &str| s@) =~= seq![
        "status"@,
        unit.unit@,
        "--no-pager"@,
        "--lines"@,
        "20"@,
    ]);
    r
}

/// `journalctl` for the last 20 journal entries of a unit.
pub fn journalctl_command(unit: &UnitRef) -> (r: CommandSpec)
    ensures
        r.program@ == "journalctl"@,
        texts(r.args@) == user_flag(unit.is_user) + seq![
            "-u"@,
            unit.unit@,
            "-n"@,
            "20"@,
            "--no-pager"@,
            "-o"@,
            "short-iso"@,
        ],
{
    let parts = vec!["-u", unit.unit.as_str(), "-n", "20", "--no-pager", "-o", "short-iso"];
    let r = unit_command("journalctl", unit, &parts);
    assert(parts@.map_values(|s: &str| s@) =~= seq![
        "-u"@,
        unit.unit@,
        "-n"@,
        "20"@,
        "--no-pager"@,
        "-o"@,
        "short-iso"@,
    ]);
    r
}

// ---------------------------------------------------------------------------
// Command output
// ---------------------------------------------------------------------------

/// The nonempty lines of a text, each trimmed at both ends (`both`) or at its end.
pub open spec fn kept_lines(text: Seq<char>, both: bool) -> Seq<Seq<char>> {
    lines(text).map_values(|l: Seq<char>| if both { trim(l) } else { trim_end(l) }).filter(
        nonempty(),
    )
}

/// The nonempty lines of `text`, trimmed as `kept_lines` says.
pub fn collect_kept_lines(text: &str, both: bool) -> (r: Vec<String>)
    ensures
        texts(r@) == kept_lines(text@, both),
{
    let v = chars_of(text);
    let n = v.len();
    let ranges = line_ranges(&v, 0, n);
    assert(v@.subrange(0, n as int) =~= text@);
    let ghost all = lines(text@);
    let ghost f = |l: Seq<char>| if both { trim(l) } else { trim_end(l) };
    let ghost mapped = all.map_values(f);
    assert(range_texts(v@, ranges@).len() == ranges@.len());
    let mut r: Vec<String> = Vec::new();
    let mut k: usize = 0;
    assert(mapped.take(0) =~= Seq::<Seq<char>>::empty());
    assert(texts(r@) =~= Seq::<Seq<char>>::empty());
    assert(Seq::<Seq<char>>::empty().filter(nonempty()) =~= Seq::<Seq<char>>::empty()) by {
        reveal(Seq::filter);
    }
    while k < ranges.len()
        invariant
            all == range_texts(v@, ranges@),
            all == lines(text@),
            f == (|l: Seq<char>| if both { trim(l) } else { trim_end(l) }),
            mapped == all.map_values(f),
            all.len() == ranges@.len(),
            v@ == text@,
            ranges_within(ranges@, 0, n as int),
            n == v@.len(),
            k <= ranges.len(),
            texts(r@) == mapped.take(k as int).filter(nonempty()),
        decreases ranges.len() - k,
    {
        let (a, b) = ranges[k];
        assert(ranges@[k as int] == (a, b));
        assert(all[k as int] == v@.subrange(a as int, b as int));
        let (x, y) = if both {
            trim_bounds(&v, a, b)
        } else {
            (a, trim_end_bound(&v, a, b))
        };
        assert(v@.subrange(x as int, y as int) == mapped[k as int]) by {
            if !both {
                assert(v@.subrange(a as int, y as int) == v@.subrange(x as int, y as int));
            }
        }
        proof {
            lemma_filter_push(mapped.take(k as int), mapped[k as int], nonempty());
            assert(mapped.take(k + 1) =~= mapped.take(k as int).push(mapped[k as int]));
        }
        if y > x {
            let ghost before = texts(r@);
            r.push(substring(text, x, y));
            assert(texts(r@) =~= before.push(mapped[k as int]));
        }
        k += 1;
    }
    assert(mapped.take(k as int) =~= mapped);
    r
}

/// `texts` followed by the text of `w`.
pub open spec fn with_warning(w: Seq<Seq<char>>, text: Seq<char>) -> Seq<Seq<char>> {
    w.push(text)
}

/// The warnings that a `systemctl show` outcome gives.
pub open spec fn show_warnings(unit: UnitRef, outcome: CommandOutcome) -> Seq<Seq<char>> {
    match outcome {
        CommandOutcome::Exited { success, status, stderr, .. } => if success {
            Seq::empty()
        } else {
            seq![
                "systemctl show "@ + unit.unit@ + " exited with "@ + status@ + ": "@ + trim(
                    utf8_lossy(stderr@),
                ),
            ]
        },
        CommandOutcome::LaunchFailed { error } => seq![
            "systemctl show "@ + unit.unit@ + " failed: "@ + error@,
        ],
    }
}

/// The unit state that a `systemctl show` outcome gives.
pub open spec fn show_result(
    unit: UnitRef,
    outcome: CommandOutcome,
    r: Option<SystemdUnitState>,
) -> bool {
    match outcome {
        CommandOutcome::Exited { success, stdout, .. } => if success {
            match r {
                Some(st) => shown_state(utf8_lossy(stdout@), unit.is_user, st),
                None => field_of(utf8_lossy(stdout@), "Id"@) is None,
            }
        } else {
            r is None
        },
        CommandOutcome::LaunchFailed { .. } => r is None,
    }
}

/// Appends one warning.
pub(crate) fn push_warning(warnings: &mut Vec<String>, text: String)
    ensures
        texts(final(warnings)@) == texts(old(warnings)@).push(text@),
{
    let ghost before = texts(warnings@);
    warnings.push(text);
    assert(texts(warnings@) =~= before.push(text@));
}

/// `first`, `second`, `third`, then the text of a command's error output, trimmed.
pub(crate) fn exit_warning(first: &str, second: &str, third: &str, status: &str, stderr: &[u8]) -> (r: String)
    ensures
        r@ == first@ + second@ + third@ + status@ + ": "@ + trim(utf8_lossy(stderr@)),
{
    let e = lossy_text(stderr);
    let t = str_trim(e.as_str());
    let x = concat3(first, second, third);
    concat4(x.as_str(), status, ": ", t.as_str())
}

/// The state of a unit from the outcome of `systemctl show`; a failure
/// adds a warning.
pub fn unit_state_from(unit: &UnitRef, outcome: &CommandOutcome, warnings: &mut Vec<String>) -> (r:
    Option<SystemdUnitState>)
    ensures
        show_result(*unit, *outcome, r),
        texts(final(warnings)@) == texts(old(warnings)@) + show_warnings(*unit, *outcome),
{
    let ghost w0 = texts(warnings@);
    match outcome {
        CommandOutcome::Exited { success, status, stdout, stderr } => {
            if *success {
                let text = lossy_text(stdout.as_slice());
                assert(w0 + Seq::<Seq<char>>::empty() =~= w0);
                parse_systemctl_show_with_scope(text.as_str(), unit.is_user)
            } else {
                let w = exit_warning(
                    "systemctl show ",
                    unit.unit.as_str(),
                    " exited with ",
                    status.as_str(),
                    stderr.as_slice(),
                );
                push_warning(warnings, w);
                assert(w0.push(w@) =~= w0 + show_warnings(*unit, *outcome));
                None
            }
        },
        CommandOutcome::LaunchFailed { error } => {
            let w = concat4("systemctl show ", unit.unit.as_str(), " failed: ", error.as_str());
            push_warning(warnings, w);
            assert(w0.push(w@) =~= w0 + show_warnings(*unit, *outcome));
            None
        },
    }
}

/// The warnings that a `systemctl status` outcome gives.
pub open spec fn status_warnings(unit: UnitRef, outcome: CommandOutcome) -> Seq<Seq<char>> {
    match outcome {
        CommandOutcome::Exited { success, status, stdout, stderr } => if success {
            Seq::empty()
        } else if stdout.len() > 0 {
            seq![
                "systemctl status "@ + unit.unit@ + " exited with "@ + status@ + ": "@ + trim(
                    utf8_lossy(stderr@),
                ),
            ]
        } else {
            seq!["systemctl status "@ + unit.unit@ + " exited with "@ + status@]
        },
        CommandOutcome::LaunchFailed { error } => seq![
            "systemctl status "@ + unit.unit@ + " failed: "@ + error@,
        ],
    }
}

/// The status lines that a `systemctl status` outcome gives: whatever it
/// printed, even when it exited unsuccessfully.
pub open spec fn status_result(outcome: CommandOutcome) -> Seq<Seq<char>> {
    match outcome {
        CommandOutcome::Exited { success, stdout, .. } => if success || stdout.len() > 0 {
            kept_lines(utf8_lossy(stdout@), false)
        } else {
            Seq::empty()
        },
        CommandOutcome::LaunchFailed { .. } => Seq::empty(),
    }
}

/// The lines of `systemctl status` output about a unit; a failure adds a warning.
pub fn status_lines_from(unit: &UnitRef, outcome: &CommandOutcome, warnings: &mut Vec<String>) -> (r:
    Vec<String>)
    ensures
        texts(r@) == status_result(*outcome),
        texts(final(warnings)@) == texts(old(warnings)@) + status_warnings(*unit, *outcome),
{
    let ghost w0 = texts(warnings@);
    match outcome {
        CommandOutcome::Exited { success, status, stdout, stderr } => {
            if *success || stdout.len() > 0 {
                if !*success {
                    let w = exit_warning(
                        "systemctl status ",
                        unit.unit.as_str(),
                        " exited with ",
                        status.as_str(),
                        stderr.as_slice(),
                    );
                    push_warning(warnings, w);
                    assert(w0.push(w@) =~= w0 + status_warnings(*unit, *outcome));
                } else {
                    assert(w0 + Seq::<Seq<char>>::empty() =~= w0);
                }
                let text = lossy_text(stdout.as_slice());
                collect_kept_lines(text.as_str(), false)
            } else {
                let w = concat4(
                    "systemctl status ",
                    unit.unit.as_str(),
                    " exited with ",
                    status.as_str(),
                );
                push_warning(warnings, w);
                assert(w0.push(w@) =~= w0 + status_warnings(*unit, *outcome));
                let r: Vec<String> = Vec::new();
                assert(texts(r@) =~= Seq::<Seq<char>>::empty());
                r
            }
        },
        CommandOutcome::LaunchFailed { error } => {
            let w = concat4("systemctl status ", unit.unit.as_str(), " failed: ", error.as_str());
            push_warning(warnings, w);
            assert(w0.push(w@) =~= w0 + status_warnings(*unit, *outcome));
            let r: Vec<String> = Vec::new();
            assert(texts(r@) =~= Seq::<Seq<char>>::empty());
            r
        },
    }
}

/// The warnings that a `journalctl` outcome gives.
pub open spec fn log_warnings(unit: UnitRef, outcome: CommandOutcome) -> Seq<Seq<char>> {
    match outcome {
        CommandOutcome::Exited { success, status, stderr, .. } => if success {
            Seq::empty()
        } else {
            seq![
                "journalctl for "@ + unit.unit@ + " exited with "@ + status@ + ": "@ + trim(
                    utf8_lossy(stderr@),
                ),
            ]
        },
        CommandOutcome::LaunchFailed { error } => seq![
            "journalctl for "@ + unit.unit@ + " failed: "@ + error@,
        ],
    }
}

/// The journal lines that a `journalctl` outcome gives.
pub open spec fn log_result(outcome: CommandOutcome) -> Seq<Seq<char>> {
    match outcome {
        CommandOutcome::Exited { success, stdout, .. } => if success {
            kept_lines(utf8_lossy(stdout@), true)
        } else {
            Seq::empty()
        },
        CommandOutcome::LaunchFailed { .. } => Seq::empty(),
    }
}

/// The recent journal lines of a unit; a failure adds a warning.
pub fn recent_logs_from(unit: &UnitRef, outcome: &CommandOutcome, warnings: &mut Vec<String>) -> (r:
    Vec<String>)
    ensures
        texts(r@) == log_result(*outcome),
        texts(final(warnings)@) == texts(old(warnings)@) + log_warnings(*unit, *outcome),
{
    let ghost w0 = texts(warnings@);
    match outcome {
        CommandOutcome::Exited { success, status, stdout, stderr } => {
            if *success {
                assert(w0 + Seq::<Seq<char>>::empty() =~= w0);
                let text = lossy_text(stdout.as_slice());
                collect_kept_lines(text.as_str(), true)
            } else {
                let w = exit_warning(
                    "journalctl for ",
                    unit.unit.as_str(),
                    " exited with ",
                    status.as_str(),
                    stderr.as_slice(),
                );
                push_warning(warnings, w);
                assert(w0.push(w@) =~= w0 + log_warnings(*unit, *outcome));
                let r: Vec<String> = Vec::new();
                assert(texts(r@) =~= Seq::<Seq<char>>::empty());
                r
            }
        },
        CommandOutcome::LaunchFailed { error } => {
            let w = concat4("journalctl for ", unit.unit.as_str(), " failed: ", error.as_str());
            push_warning(warnings, w);
            assert(w0.push(w@) =~= w0 + log_warnings(*unit, *outcome));
            let r: Vec<String> = Vec::new();
            assert(texts(r@) =~= Seq::<Seq<char>>::empty());
            r
        },
    }
}


// ---------------------------------------------------------------------------
// Command lines
// ---------------------------------------------------------------------------

/// The separator of the arguments in `/proc/<pid>/cmdline`.
pub open spec fn nul() -> spec_fn(u8) -> bool {
    |b: u8| b == 0
}

/// The predicate "is a nonempty piece of bytes".
pub open spec fn nonempty_bytes() -> spec_fn(Seq<u8>) -> bool {
    |p: Seq<u8>| p.len() > 0
}

/// The arguments of a command line file: its nonempty NUL-separated pieces, decoded.
pub open spec fn cmdline_args(bytes: Seq<u8>) -> Seq<Seq<char>> {
    split_pieces(bytes, nul()).filter(nonempty_bytes()).map_values(|p: Seq<u8>| utf8_lossy(p))
}

/// The texts of `list` with `sep` between each two (`slice::join`).
pub open spec fn join(list: Seq<Seq<char>>, sep: Seq<char>) -> Seq<char>
    decreases list.len(),
{
    if list.len() == 0 {
        Seq::empty()
    } else if list.len() == 1 {
        list[0]
    } else {
        join(list.drop_last(), sep) + sep + list.last()
    }
}

/// The command line of a process, its arguments joined by spaces; absent
/// when it has none.
pub open spec fn command_line_of(bytes: Seq<u8>) -> Option<Seq<char>> {
    let args = cmdline_args(bytes);
    if args.len() == 0 {
        None
    } else {
        Some(join(args, " "@))
    }
}

/// The warnings that reading a command line file gives.
pub open spec fn cmdline_warnings(pid: u32, read: Result<Vec<u8>, String>) -> Seq<Seq<char>> {
    match read {
        Ok(_) => Seq::empty(),
        Err(e) => seq!["cmdline collector for pid "@ + decimal(pid as nat) + ": "@ + e@],
    }
}

/// The bytes that a list of ranges denotes inside `b`.
pub open spec fn byte_ranges(b: Seq<u8>, r: Seq<(usize, usize)>) -> Seq<Seq<u8>> {
    r.map_values(|p: (usize, usize)| b.subrange(p.0 as int, p.1 as int))
}

/// The ranges of the nonempty NUL-separated pieces of `b`.
fn argument_ranges(b: &Vec<u8>) -> (r: Vec<(usize, usize)>)
    ensures
        forall|k: int| 0 <= k < r@.len() ==> (#[trigger] r@[k]).0 <= r@[k].1 <= b@.len(),
        byte_ranges(b@, r@) == split_pieces(b@, nul()).filter(nonempty_bytes()),
{
    let n = b.len();
    let mut r: Vec<(usize, usize)> = Vec::new();
    let mut start: usize = 0;
    let mut i: usize = 0;
    let ghost mut q: Seq<Seq<u8>> = Seq::empty();
    assert(b@.subrange(0, 0) =~= Seq::<u8>::empty());
    assert(q.push(b@.subrange(start as int, i as int)) =~= seq![Seq::<u8>::empty()]);
    assert(byte_ranges(b@, r@) =~= Seq::<Seq<u8>>::empty());
    proof {
        reveal(Seq::filter);
    }
    while i < n
        invariant
            start <= i <= n == b@.len(),
            forall|k: int| 0 <= k < r@.len() ==> (#[trigger] r@[k]).0 <= r@[k].1 <= b@.len(),
            q.push(b@.subrange(start as int, i as int)) == split_pieces(
                b@.subrange(0, i as int),
                nul(),
            ),
            byte_ranges(b@, r@) == q.filter(nonempty_bytes()),
        decreases n - i,
    {
        proof {
            crate::text::lemma_split_step(b@, 0, i as int, nul());
        }
        if b[i] == 0 {
            let ghost cur = b@.subrange(start as int, i as int);
            proof {
                lemma_filter_push(q, cur, nonempty_bytes());
            }
            if i > start {
                let ghost old_r = r@;
                r.push((start, i));
                assert(byte_ranges(b@, r@) =~= byte_ranges(b@, old_r).push(cur));
            }
            proof {
                q = q.push(cur);
            }
            assert(b@.subrange(i + 1, i + 1) =~= Seq::<u8>::empty());
            start = i + 1;
        } else {
            assert(b@.subrange(start as int, i + 1) =~= b@.subrange(start as int, i as int).push(
                b@[i as int],
            ));
            assert(q.push(b@.subrange(start as int, i + 1)) =~= q.push(
                b@.subrange(start as int, i as int),
            ).update(q.len() as int, b@.subrange(start as int, i as int).push(b@[i as int])));
        }
        i += 1;
    }
    let ghost cur = b@.subrange(start as int, n as int);
    proof {
        lemma_filter_push(q, cur, nonempty_bytes());
    }
    if n > start {
        let ghost old_r = r@;
        r.push((start, n));
        assert(byte_ranges(b@, r@) =~= byte_ranges(b@, old_r).push(cur));
    }
    assert(b@.subrange(0, n as int) =~= b@);
    r
}

/// The arguments joined by spaces; absent when there are none.
pub fn join_arguments(args: &Vec<String>) -> (r: Option<String>)
    ensures
        opt_view(r) == if args@.len() == 0 {
            None
        } else {
            Some(join(texts(args@), " "@))
        },
{
    if args.len() == 0 {
        return None;
    }
    let ghost all = texts(args@);
    let mut text = args[0].clone();
    let mut k: usize = 1;
    assert(all.take(1) =~= seq![all[0]]);
    while k < args.len()
        invariant
            1 <= k <= args.len(),
            all == texts(args@),
            text@ == join(all.take(k as int), " "@),
        decreases args.len() - k,
    {
        text.append(" ");
        text.append(args[k].as_str());
        assert(all.take(k + 1).drop_last() =~= all.take(k as int));
        k += 1;
    }
    assert(all.take(k as int) =~= all);
    Some(text)
}

/// The command line of a process from its `/proc/<pid>/cmdline` bytes.
fn command_line_text(bytes: &Vec<u8>) -> (r: Option<String>)
    ensures
        opt_view(r) == command_line_of(bytes@),
{
    let ranges = argument_ranges(bytes);
    let ghost pieces = split_pieces(bytes@, nul()).filter(nonempty_bytes());
    let ghost args = cmdline_args(bytes@);
    assert(args == pieces.map_values(|p: Seq<u8>| utf8_lossy(p)));
    assert(byte_ranges(bytes@, ranges@).len() == ranges@.len());
    let mut parts: Vec<String> = Vec::new();
    let mut k: usize = 0;
    assert(texts(parts@) =~= args.take(0));
    while k < ranges.len()
        invariant
            k <= ranges.len(),
            args.len() == ranges@.len(),
            args == pieces.map_values(|p: Seq<u8>| utf8_lossy(p)),
            pieces == byte_ranges(bytes@, ranges@),
            forall|j: int| 0 <= j < ranges@.len() ==> (#[trigger] ranges@[j]).0 <= ranges@[j].1
                <= bytes@.len(),
            texts(parts@) == args.take(k as int),
        decreases ranges.len() - k,
    {
        let (a, b) = ranges[k];
        assert(ranges@[k as int] == (a, b));
        let part = lossy_text(vstd::slice::slice_subrange(bytes.as_slice(), a, b));
        assert(part@ == args[k as int]);
        let ghost before = texts(parts@);
        parts.push(part);
        assert(texts(parts@) =~= before.push(part@));
        assert(args.take(k + 1) =~= args.take(k as int).push(args[k as int]));
        k += 1;
    }
    assert(args.take(k as int) =~= args);
    join_arguments(&parts)
}

/// The command line of a process from the result of reading its cmdline
/// file; a read failure adds a warning.
pub fn command_line_from(pid: u32, read: &Result<Vec<u8>, String>, warnings: &mut Vec<String>) -> (r:
    Option<String>)
    ensures
        opt_view(r) == match *read {
            Ok(b) => command_line_of(b@),
            Err(_) => None,
        },
        texts(final(warnings)@) == texts(old(warnings)@) + cmdline_warnings(pid, *read),
{
    let ghost w0 = texts(warnings@);
    match read {
        Ok(bytes) => {
            assert(w0 + Seq::<Seq<char>>::empty() =~= w0);
            command_line_text(bytes)
        },
        Err(e) => {
            let p = decimal_text(pid as u128);
            let w = concat4("cmdline collector for pid ", p.as_str(), ": ", e.as_str());
            push_warning(warnings, w);
            assert(w0.push(w@) =~= w0 + cmdline_warnings(pid, *read));
            None
        },
    }
}

// ---------------------------------------------------------------------------
// Service details
// ---------------------------------------------------------------------------

/// The outcomes of the three commands run about a unit.
#[derive(Debug)]
pub struct UnitOutcomes {
    pub show: CommandOutcome,
    pub status: CommandOutcome,
    pub logs: CommandOutcome,
}

/// `d` holds what the command line read and the unit commands gave.
pub open spec fn details_of(
    pid: u32,
    process_name: Option<String>,
    cmdline: Result<Vec<u8>, String>,
    unit: Option<(UnitRef, UnitOutcomes)>,
    d: ServiceDetails,
) -> bool {
    &&& d.pid == pid
    &&& d.process_name == process_name
    &&& opt_view(d.command_line) == match cmdline {
        Ok(b) => command_line_of(b@),
        Err(_) => None,
    }
    &&& match unit {
        None => {
            &&& d.cgroup_path is None
            &&& d.resolved_unit is None
            &&& d.resolved_unit_scope is None
            &&& d.unit_state is None
            &&& d.status_lines@.len() == 0
            &&& d.recent_logs@.len() == 0
            &&& texts(d.warnings@) == cmdline_warnings(pid, cmdline)
        },
        Some((u, o)) => {
            &&& opt_view(d.cgroup_path) == Some(u.cgroup_path@)
            &&& opt_view(d.resolved_unit) == Some(u.unit@)
            &&& opt_view(d.resolved_unit_scope) == Some(
                if u.is_user {
                    "user"@
                } else {
                    "system"@
                },
            )
            &&& show_result(u, o.show, d.unit_state)
            &&& texts(d.status_lines@) == status_result(o.status)
            &&& texts(d.recent_logs@) == log_result(o.logs)
            &&& texts(d.warnings@) == cmdline_warnings(pid, cmdline) + show_warnings(u, o.show)
                + status_warnings(u, o.status) + log_warnings(u, o.logs)
        },
    }
}

/// The detail record of a process: its command line, and, when its unit was
/// resolved, what `systemctl show`, `systemctl status` and `journalctl`
/// gave about that unit.
pub fn fetch_service_details(
    pid: u32,
    process_name: Option<String>,
    cmdline: Result<Vec<u8>, String>,
    unit: Option<(UnitRef, UnitOutcomes)>,
) -> (r: ServiceDetails)
    ensures
        details_of(pid, process_name, cmdline, unit, r),
{
    let mut warnings: Vec<String> = Vec::new();
    assert(texts(warnings@) =~= Seq::<Seq<char>>::empty());
    let command_line = command_line_from(pid, &cmdline, &mut warnings);
    assert(Seq::<Seq<char>>::empty() + cmdline_warnings(pid, cmdline) =~= cmdline_warnings(
        pid,
        cmdline,
    ));
    match unit {
        None => {
            let status_lines: Vec<String> = Vec::new();
            let recent_logs: Vec<String> = Vec::new();
            ServiceDetails {
                pid,
                process_name,
                command_line,
                cgroup_path: None,
                resolved_unit: None,
                resolved_unit_scope: None,
                unit_state: None,
                status_lines,
                recent_logs,
                warnings,
            }
        },
        Some((u, o)) => {
            let unit_state = unit_state_from(&u, &o.show, &mut warnings);
            let status_lines = status_lines_from(&u, &o.status, &mut warnings);
            let recent_logs = recent_logs_from(&u, &o.logs, &mut warnings);
            let scope = owned(
                if u.is_user {
                    "user"
                } else {
                    "system"
                },
            );
            ServiceDetails {
                pid,
                process_name,
                command_line,
                cgroup_path: Some(u.cgroup_path),
                resolved_unit: Some(u.unit),
                resolved_unit_scope: Some(scope),
                unit_state,
                status_lines,
                recent_logs,
                warnings,
            }
        },
    }
}

} // verus!
