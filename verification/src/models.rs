//! The records that the collectors produce and the dashboard shows.

use vstd::prelude::*;

verus! {

/// The outcome of one health probe of a service.
#[derive(Debug)]
pub struct ServiceHealth {
    pub protocol: String,
    pub target: String,
    pub port: u16,
    pub check_kind: String,
    pub status: String,
    pub latency_ms: Option<u128>,
    pub message: String,
    pub warnings: Vec<String>,
}

/// The watched services with their status, and what went wrong collecting them.
#[derive(Debug)]
pub struct WatchedServicesSnapshot {
    pub services: Vec<WatchedServiceStatus>,
    pub warnings: Vec<String>,
}

/// One watched service: what was asked for, the listener found for it, and
/// its probe result.
#[derive(Debug)]
pub struct WatchedServiceStatus {
    pub name: String,
    pub category: String,
    pub protocol: String,
    pub address: String,
    pub port: u16,
    pub expected: bool,
    pub listener: Option<Listener>,
    pub health: ServiceHealth,
}

/// A listening socket of the host.
#[derive(Debug, Clone)]
pub struct Listener {
    pub protocol: String,
    pub local_address: String,
    pub port: u16,
    pub scope: String,
    pub port_kind: String,
    pub exposure_severity: String,
    pub process: Option<String>,
    pub pid: Option<u32>,
    pub unit: Option<String>,
    pub unit_scope: Option<String>,
}

/// What `systemctl show` reports of a unit.
#[derive(Debug, PartialEq, Eq, Clone)]
pub struct SystemdUnitState {
    pub unit: String,
    pub description: String,
    pub load_state: String,
    pub active_state: String,
    pub sub_state: String,
    pub fragment_path: Option<String>,
    pub unit_file_state: Option<String>,
    pub main_pid: Option<u32>,
    pub is_user: bool,
}

/// The systemd unit that a process belongs to, found through its cgroup.
#[derive(Debug, Clone)]
pub struct UnitRef {
    pub unit: String,
    pub is_user: bool,
    pub cgroup_path: String,
}

/// Everything gathered about the process behind a listener.
#[derive(Debug)]
pub struct ServiceDetails {
    pub pid: u32,
    pub process_name: Option<String>,
    pub command_line: Option<String>,
    pub cgroup_path: Option<String>,
    pub resolved_unit: Option<String>,
    pub resolved_unit_scope: Option<String>,
    pub unit_state: Option<SystemdUnitState>,
    pub status_lines: Vec<String>,
    pub recent_logs: Vec<String>,
    pub warnings: Vec<String>,
}

/// The characters of an optional text.
pub open spec fn opt_view(o: Option<String>) -> Option<Seq<char>> {
    match o {
        Some(s) => Some(s@),
        None => None,
    }
}

/// The characters of each text of a list.
pub open spec fn texts(v: Seq<String>) -> Seq<Seq<char>> {
    v.map_values(|s: String| s@)
}

/// A copy of an optional text.
pub fn copy_opt(o: &Option<String>) -> (r: Option<String>)
    ensures
        r == *o,
{
    match o {
        Some(s) => Some(s.clone()),
        None => None,
    }
}

impl Listener {
    /// A copy of this listener, field for field.
    pub fn duplicate(&self) -> (r: Listener)
        ensures
            r == *self,
    {
        Listener {
            protocol: self.protocol.clone(),
            local_address: self.local_address.clone(),
            port: self.port,
            scope: self.scope.clone(),
            port_kind: self.port_kind.clone(),
            exposure_severity: self.exposure_severity.clone(),
            process: copy_opt(&self.process),
            pid: self.pid,
            unit: copy_opt(&self.unit),
            unit_scope: copy_opt(&self.unit_scope),
        }
    }
}

} // verus!
