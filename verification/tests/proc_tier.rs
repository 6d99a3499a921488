use agl_health::procfs::{parse_meminfo, parse_pid_status, parse_psi};

#[test]
fn meminfo_parses_known_fields() {
    let input = "\
MemTotal:       16000000 kB
MemFree:         1000000 kB
Buffers:          200000 kB
Cached:          3000000 kB
SwapCached:          100 kB
Active:          5000000 kB
Slab:             500000 kB
SwapTotal:       8000000 kB
SwapFree:        7500000 kB
Mapped:           123456 kB
";
    let f = parse_meminfo(input);
    assert_eq!(f.total_bytes, 16_000_000 * 1024);
    assert_eq!(f.free_bytes, 1_000_000 * 1024);
    assert_eq!(f.buffered_bytes, 200_000 * 1024);
    assert_eq!(f.cached_bytes, 3_000_000 * 1024);
    assert_eq!(f.slab_bytes, 500_000 * 1024);
    assert_eq!(f.swap_free_bytes, 7_500_000 * 1024);
    assert_eq!(f.swap_used_bytes, (8_000_000 - 7_500_000) * 1024);
}

#[test]
fn meminfo_ignores_unknown_and_malformed() {
    let input = "\
MemTotal:       1024 kB
WeirdNewField:  9999 kB
Garbage line with no colon
MemFree:        garbage
Cached:         512 kB
";
    let f = parse_meminfo(input);
    assert_eq!(f.total_bytes, 1024 * 1024);
    assert_eq!(f.free_bytes, 0, "malformed MemFree stays at default");
    assert_eq!(f.cached_bytes, 512 * 1024);
}

#[test]
fn psi_parses_some_and_full_avg10() {
    let input = "\
some avg10=12.34 avg60=0.50 avg300=0.20 total=123456
full avg10=1.00 avg60=0.00 avg300=0.00 total=654321
";
    let (some, full) = parse_psi(input);
    assert_eq!(some, 1234);
    assert_eq!(full, 100);
}

#[test]
fn psi_tolerates_missing_rows() {
    let (some, full) = parse_psi("");
    assert_eq!(some, 0);
    assert_eq!(full, 0);

    let only_some = "some avg10=5.00 avg60=0 avg300=0 total=0\n";
    let (s, f) = parse_psi(only_some);
    assert_eq!(s, 500);
    assert_eq!(f, 0);
}

#[test]
fn psi_accepts_every_float_spelling() {
    let some = |v: &str| parse_psi(&format!("some avg10={v} avg60=0 avg300=0 total=0\n")).0;
    assert_eq!(some("0.29"), 29);
    assert_eq!(some("1e1"), 1000);
    assert_eq!(some("1.5E-1"), 15);
    assert_eq!(some("+2.5e+0"), 250);
    assert_eq!(some("1.e1"), 1000);
    assert_eq!(some(".5"), 50);
    assert_eq!(some("1e-400"), 0);
    assert_eq!(some("1e400"), u32::MAX);
    assert_eq!(some("inf"), u32::MAX);
    assert_eq!(some("Infinity"), u32::MAX);
    assert_eq!(some("-inf"), 0);
    assert_eq!(some("NaN"), 0);
    assert_eq!(some("-3.5"), 0);
    assert_eq!(some("1e"), 0);
    assert_eq!(some("."), 0);
    assert_eq!(some("0e99999999999999999999999"), 0);
    assert_eq!(some("5e99999999999999999999999"), u32::MAX);
    assert_eq!(some("42949672.95"), u32::MAX);
    assert_eq!(some("42949672.94"), 4294967294);
}

#[test]
fn pid_status_parses_vm_and_threads() {
    let input = "\
Name:\tsomeproc
Umask:\t0022
State:\tS (sleeping)
Tgid:\t1234
Pid:\t1234
VmPeak:\t  400000 kB
VmSize:\t  380000 kB
VmRSS:\t   42000 kB
Threads:\t4
";
    let f = parse_pid_status(input);
    assert_eq!(f.mem_vms_bytes, 380_000 * 1024);
    assert_eq!(f.mem_rss_bytes, 42_000 * 1024);
    assert_eq!(f.thread_count, 4);
}

#[test]
fn pid_status_zero_for_kernel_thread() {
    // Kernel threads have no VmRSS/VmSize lines at all.
    let input = "\
Name:\tkworker/0:0
State:\tI (idle)
Tgid:\t42
Threads:\t1
";
    let f = parse_pid_status(input);
    assert_eq!(f.mem_rss_bytes, 0);
    assert_eq!(f.mem_vms_bytes, 0);
    assert_eq!(f.thread_count, 1);
}
