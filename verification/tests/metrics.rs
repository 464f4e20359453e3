use sentinel::metrics::{
    cpu_busy_and_total, extract_meminfo_value, memory_from_meminfo, parse_proc_stat, ProcStatSample,
};

#[test]
fn reads_aggregate_cpu_line() {
    let s = parse_proc_stat("cpu  10 2 3 100 5 1 1 0 0 0\ncpu0 1 1 1 1 1 1 1 1\n").unwrap();
    assert_eq!(s, ProcStatSample { idle: 105, total: 122 });
}

#[test]
fn proc_stat_errors() {
    assert_eq!(
        parse_proc_stat("cpu0 1 2 3\n"),
        Err("missing aggregate cpu line".to_string())
    );
    assert_eq!(
        parse_proc_stat("cpu 1 2 3 4 5 6 7"),
        Err("missing proc stat field: steal".to_string())
    );
    assert_eq!(
        parse_proc_stat("cpu 1 x 3 4 5 6 7 8"),
        Err("invalid proc stat field nice: invalid digit found in string".to_string())
    );
    assert_eq!(
        parse_proc_stat("cpu 1 2 3 99999999999999999999 5 6 7 8"),
        Err("invalid proc stat field idle: number too large to fit in target type".to_string())
    );
}

#[test]
fn cpu_counters_saturate() {
    let m = u64::MAX;
    let s = parse_proc_stat(&format!("cpu {m} 1 0 {m} 1 0 0 0")).unwrap();
    assert_eq!(s.total, m);
    assert_eq!(s.idle, m);
}

#[test]
fn cpu_deltas() {
    let a = ProcStatSample { idle: 100, total: 200 };
    let b = ProcStatSample { idle: 130, total: 300 };
    assert_eq!(cpu_busy_and_total(a, b), Some((70, 100)));
    assert_eq!(cpu_busy_and_total(a, a), None);
    assert_eq!(cpu_busy_and_total(b, a), None);
    let c = ProcStatSample { idle: 500, total: 210 };
    assert_eq!(cpu_busy_and_total(a, c), Some((0, 10)));
}

#[test]
fn meminfo_values() {
    let content = "MemTotal:       16000000 kB\nMemFree: 100 kB\nMemAvailable:    8000000 kB\n";
    assert_eq!(extract_meminfo_value(content, "MemTotal"), Ok(16000000));
    assert_eq!(
        extract_meminfo_value(content, "Swap"),
        Err("Swap missing from /proc/meminfo".to_string())
    );
    assert_eq!(
        extract_meminfo_value("MemTotal:\n", "MemTotal"),
        Err("MemTotal missing numeric field".to_string())
    );
    assert_eq!(
        extract_meminfo_value("MemTotal: \n", "MemTotal"),
        Err("MemTotal missing numeric field".to_string())
    );
    assert_eq!(
        extract_meminfo_value("MemTotal: -5 kB", "MemTotal"),
        Err("invalid meminfo value for MemTotal: invalid digit found in string".to_string())
    );
}

#[test]
fn memory_totals() {
    let mut w = Vec::new();
    let m = memory_from_meminfo("MemTotal: 4 kB\nMemAvailable: 1 kB\n", &mut w);
    assert_eq!((m.total, m.used, m.available), (4096, 3072, 1024));
    assert!(w.is_empty());
    let m = memory_from_meminfo("MemAvailable: 10 kB\n", &mut w);
    assert_eq!((m.total, m.used, m.available), (0, 0, 10240));
    assert_eq!(w, vec!["memory collector total: MemTotal missing from /proc/meminfo"]);
    let mut w = Vec::new();
    let m = memory_from_meminfo("MemTotal: 18446744073709551615\nMemAvailable: x\n", &mut w);
    assert_eq!(m.total, u64::MAX);
    assert_eq!(m.available, 0);
    assert_eq!(
        w,
        vec!["memory collector available: invalid meminfo value for MemAvailable: invalid digit found in string"]
    );
}
